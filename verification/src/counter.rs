//! The file counter: a monotonically increasing source of unique file
//! identifiers. It starts at zero; the first identifier it issues is 1.

use vstd::prelude::*;

verus! {

/// Counts the file identifiers issued so far. Identifiers are issued in
/// strictly increasing order starting at 1 and are never reused.
pub struct FileCounter {
    count: u64,
}

impl FileCounter {
    /// The number of identifiers issued so far, which is also the last
    /// identifier issued (0 if none has been issued yet).
    pub closed spec fn spec_count(self) -> u64 {
        self.count
    }

    /// A fresh counter that has issued no identifier.
    pub fn new() -> (c: Self)
        ensures
            c.spec_count() == 0,
    {
        FileCounter { count: 0 }
    }

    /// The number of identifiers issued so far.
    pub fn count(&self) -> (r: u64)
        ensures
            r == self.spec_count(),
    {
        self.count
    }

    /// Issues the next identifier: one more than every identifier issued
    /// before.
    pub fn next_id(&mut self) -> (id: u64)
        requires
            old(self).spec_count() < u64::MAX,
        ensures
            final(self).spec_count() == old(self).spec_count() + 1,
            id == final(self).spec_count(),
    {
        self.count = self.count + 1;
        self.count
    }
}

} // verus!
