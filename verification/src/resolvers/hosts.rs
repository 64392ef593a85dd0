//! The hosts table: names that are answered without a nameserver.

use vstd::prelude::*;

use crate::ip::IpAddr;
use crate::{HostEntryView, StubResolver};

verus! {

/// The addresses of the records that name `host`, in table order, each with a
/// time to live of zero.
pub open spec fn hosts_matches(entries: Seq<HostEntryView>, host: Seq<char>) -> Seq<(IpAddr, u32)>
    decreases entries.len(),
{
    if entries.len() == 0 {
        Seq::empty()
    } else {
        let before = hosts_matches(entries.drop_last(), host);
        if entries.last().hosts.contains(host) {
            before.push((entries.last().ip, 0u32))
        } else {
            before
        }
    }
}

impl StubResolver {
    /// The addresses that the hosts table gives for `host`: one for each
    /// record that names it, in table order, with a time to live of zero.
    pub fn query_hosts(&self, host: &str) -> (found: Vec<(IpAddr, u32)>)
        ensures
            found@ == hosts_matches(self@.entries, host@),
    {
        let mut found: Vec<(IpAddr, u32)> = Vec::new();
        let mut i: usize = 0;
        while i < self.entries.len()
            invariant
                i <= self.entries.len(),
                found@ == hosts_matches(self@.entries.take(i as int), host@),
            decreases self.entries.len() - i,
        {
            assert(self@.entries.take(i as int + 1).drop_last() == self@.entries.take(i as int));
            assert(self@.entries.take(i as int + 1).last() == self.entries[i as int]@);
            if self.entries[i].has_name(host) {
                found.push((self.entries[i].ip, 0));
            }
            i = i + 1;
        }
        assert(self@.entries.take(self.entries.len() as int) == self@.entries);
        found
    }
}

} // verus!
