//! A structure-placement oracle given as a finite table.
//!
//! The real oracle is a pure function from a region coordinate (under a fixed
//! seed and ruleset) to the viable structure placement associated with it, if
//! any. An [`OracleTable`] represents such a function extensionally: each
//! entry maps a region coordinate to the viable candidate reported for it,
//! and a coordinate with no entry has no viable candidate. The first entry
//! with a matching key wins.

use vstd::prelude::*;
use crate::position::Position;

verus! {

/// The answer of the table for query `q`, scanning entries from index `i`
/// onward: the value of the first entry whose key is `q`.
pub open spec fn lookup_from(entries: Seq<(Position, Position)>, q: Position, i: int) -> Option<
    Position,
>
    decreases entries.len() - i,
{
    if i < 0 || i >= entries.len() {
        None
    } else if entries[i].0 == q {
        Some(entries[i].1)
    } else {
        lookup_from(entries, q, i + 1)
    }
}

/// The answer of the table for query `q`.
pub open spec fn lookup(entries: Seq<(Position, Position)>, q: Position) -> Option<Position> {
    lookup_from(entries, q, 0)
}

/// A finite, pure structure oracle: pairs of (queried region coordinate,
/// viable candidate reported for it).
pub struct OracleTable {
    pub entries: Vec<(Position, Position)>,
}

impl OracleTable {
    /// An oracle that reports no viable candidate anywhere.
    pub fn new() -> (t: OracleTable)
        ensures
            t.entries@ == Seq::<(Position, Position)>::empty(),
    {
        OracleTable { entries: Vec::new() }
    }

    /// Adds an entry: querying region coordinate `q` reports the viable
    /// candidate `c`.
    pub fn add(&mut self, q: Position, c: Position)
        ensures
            final(self).entries@ == old(self).entries@.push((q, c)),
    {
        self.entries.push((q, c));
    }

    /// The viable candidate reported for region coordinate `q`, if any.
    pub fn lookup_region(&self, q: &Position) -> (r: Option<Position>)
        ensures
            r == lookup(self.entries@, *q),
    {
        let n: usize = self.entries.len();
        let mut i: usize = 0;
        while i < n
            invariant
                0 <= i <= n,
                n == self.entries@.len(),
                lookup(self.entries@, *q) == lookup_from(self.entries@, *q, i as int),
            decreases n - i,
        {
            let e = self.entries[i];
            if e.0 == *q {
                return Some(e.1);
            }
            i = i + 1;
        }
        None
    }
}

} // verus!
