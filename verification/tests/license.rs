use dnsaur::license::{header_template, ignore_globset, MPL2Tokens, YearCopyrightRepoValue};

#[test]
fn tokens_are_paired_with_their_values() {
    let values = YearCopyrightRepoValue::new(
        2024,
        "A. Author <a@example.org>".to_string(),
        "dnsaur".to_string(),
        "https://example.org/dnsaur".to_string(),
    );
    assert_eq!(
        MPL2Tokens::replacement_pairs(values),
        vec![
            ("<yyyy>", "2024".to_string()),
            ("<authors>", "A. Author <a@example.org>".to_string()),
            ("<project>", "dnsaur".to_string()),
            ("<repo>", "https://example.org/dnsaur".to_string()),
        ]
    );
}

#[test]
fn year_is_written_in_decimal() {
    let pairs = MPL2Tokens::replacement_pairs(YearCopyrightRepoValue::new(
        0,
        String::new(),
        String::new(),
        String::new(),
    ));
    assert_eq!(pairs[0].1, "0");
    let pairs = MPL2Tokens::replacement_pairs(YearCopyrightRepoValue::new(
        4294967295,
        String::new(),
        String::new(),
        String::new(),
    ));
    assert_eq!(pairs[0].1, "4294967295");
}

#[test]
fn header_names_every_token() {
    let header = header_template();
    assert!(header.starts_with("\nCopyright (c) <yyyy> <authors>.\n"));
    assert!(header.contains("This file is part of <project>.\nSee <repo> for further info."));
    assert!(header.ends_with("https://mozilla.org/MPL/2.0/.\n"));
}

#[test]
fn twelve_patterns_are_ignored() {
    let patterns = ignore_globset();
    assert_eq!(patterns.len(), 12);
    assert_eq!(patterns[0], "**/.idea/**");
    assert_eq!(patterns[11], "*.bin");
    assert!(patterns.contains(&"**/Cargo.toml"));
}
