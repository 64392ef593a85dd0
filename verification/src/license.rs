//! The licence header of this project's source files: its template, the
//! values that fill it, and the paths that get none.

use vstd::prelude::*;

verus! {

/// The tokens of the header template.
pub struct MPL2Tokens;

/// The values that take the place of the tokens.
pub struct YearCopyrightRepoValue {
    year: u32,
    authors: String,
    project: String,
    repository: String,
}

/// The values that fill a header, as mathematical values.
pub struct HeaderValues {
    pub year: u32,
    pub authors: Seq<char>,
    pub project: Seq<char>,
    pub repository: Seq<char>,
}

impl View for YearCopyrightRepoValue {
    type V = HeaderValues;

    closed spec fn view(&self) -> HeaderValues {
        HeaderValues {
            year: self.year,
            authors: self.authors@,
            project: self.project@,
            repository: self.repository@,
        }
    }
}

/// The character of the decimal digit `d`.
pub open spec fn digit_char(d: nat) -> char {
    ((0x30 + d) as u8) as char
}

/// `n` in decimal digits, without zeros in front.
pub open spec fn decimal_text(n: nat) -> Seq<char>
    decreases n,
{
    if n < 10 {
        seq![digit_char(n)]
    } else {
        decimal_text(n / 10).push(digit_char(n % 10))
    }
}

/// The four pairs of a token and the text that takes its place.
pub open spec fn replacements_of(values: HeaderValues) -> Seq<(Seq<char>, Seq<char>)> {
    seq![
        ("<yyyy>"@, decimal_text(values.year as nat)),
        ("<authors>"@, values.authors),
        ("<project>"@, values.project),
        ("<repo>"@, values.repository),
    ]
}

/// Pairs of a token and a text as mathematical values.
pub open spec fn pairs_view(pairs: Seq<(&'static str, String)>) -> Seq<(Seq<char>, Seq<char>)> {
    Seq::new(pairs.len(), |i: int| (pairs[i].0@, pairs[i].1@))
}

/// Writes a number with `u32::to_string`. Trusted: the text is the number in
/// decimal digits, without zeros in front.
#[verifier::external_body]
fn decimal_string(n: u32) -> (text: String)
    ensures
        text@ == decimal_text(n as nat),
{
    n.to_string()
}

impl YearCopyrightRepoValue {
    /// The values for a header: the year of the copyright, its holders, the
    /// project's name and where its sources are kept.
    pub fn new(year: u32, authors: String, project: String, repository: String) -> (values: Self)
        ensures
            values@ == (HeaderValues {
                year,
                authors: authors@,
                project: project@,
                repository: repository@,
            }),
    {
        Self { year, authors, project, repository }
    }
}

impl MPL2Tokens {
    /// Each token of the template with the text that takes its place: the
    /// year in decimal digits, and the other values as they are.
    pub fn replacement_pairs(replacements: YearCopyrightRepoValue) -> (pairs: Vec<
        (&'static str, String),
    >)
        ensures
            pairs_view(pairs@) == replacements_of(replacements@),
    {
        let YearCopyrightRepoValue { year, authors, project, repository } = replacements;
        let mut pairs: Vec<(&'static str, String)> = Vec::new();
        pairs.push(("<yyyy>", decimal_string(year)));
        pairs.push(("<authors>", authors));
        pairs.push(("<project>", project));
        pairs.push(("<repo>", repository));
        assert(pairs_view(pairs@) =~= replacements_of(replacements@));
        pairs
    }
}

/// The header template, with its tokens in angle brackets.
pub fn header_template() -> (text: &'static str)
    ensures
        text@
            == "\nCopyright (c) <yyyy> <authors>.\n\nThis file is part of <project>.\nSee <repo> for further info.\n\nThis Source Code Form is subject to the terms of the Mozilla Public License, v. 2.0.\nIf a copy of the MPL was not distributed with this file, You can obtain one at https://mozilla.org/MPL/2.0/.\n"@,
{
    "\nCopyright (c) <yyyy> <authors>.\n\nThis file is part of <project>.\nSee <repo> for further info.\n\nThis Source Code Form is subject to the terms of the Mozilla Public License, v. 2.0.\nIf a copy of the MPL was not distributed with this file, You can obtain one at https://mozilla.org/MPL/2.0/.\n"
}

/// The glob patterns of the paths that get no header.
pub open spec fn ignored_patterns() -> Seq<Seq<char>> {
    seq![
        "**/.idea/**"@,
        "**/.git/**"@,
        "**/target/**"@,
        "**/.gitignore"@,
        "**/CHANGELOG.md"@,
        "**/LICENSE"@,
        "**/.github/**"@,
        "**/mise.toml"@,
        "**/Cargo.lock"@,
        "**/Cargo.toml"@,
        "**/README.md"@,
        "*.bin"@,
    ]
}

/// Patterns as mathematical values.
pub open spec fn patterns_view(patterns: Seq<&'static str>) -> Seq<Seq<char>> {
    Seq::new(patterns.len(), |i: int| patterns[i]@)
}

/// The glob patterns of the paths that get no header, in the order in which
/// they are added to the set.
pub fn ignore_globset() -> (patterns: Vec<&'static str>)
    ensures
        patterns_view(patterns@) == ignored_patterns(),
{
    let mut patterns: Vec<&'static str> = Vec::new();
    patterns.push("**/.idea/**");
    patterns.push("**/.git/**");
    patterns.push("**/target/**");
    patterns.push("**/.gitignore");
    patterns.push("**/CHANGELOG.md");
    patterns.push("**/LICENSE");
    patterns.push("**/.github/**");
    patterns.push("**/mise.toml");
    patterns.push("**/Cargo.lock");
    patterns.push("**/Cargo.toml");
    patterns.push("**/README.md");
    patterns.push("*.bin");
    assert(patterns_view(patterns@) =~= ignored_patterns());
    patterns
}

} // verus!
