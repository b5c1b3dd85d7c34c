//! The query for recorded violations and the rule for how many are shown.

use vstd::prelude::*;

verus! {

/// How many violations are shown where the query names no count.
pub const DEFAULT_VIOLATION_COUNT: isize = 50;

/// A query for violations: of one student, or of all.
#[derive(Debug)]
pub struct ViolationQuery {
    pub hostname: Option<String>,
    pub count: Option<isize>,
}

/// How many of `available` items a count lets through: at most `count`, and
/// all of them where the count is negative.
pub open spec fn kept(count: isize, available: nat) -> nat {
    if count < 0 || available <= count {
        available
    } else {
        count as nat
    }
}

impl ViolationQuery {
    /// The count that the query asks for, or the default.
    pub fn limit(&self) -> (count: isize)
        ensures
            count == match self.count {
                Some(asked) => asked,
                None => DEFAULT_VIOLATION_COUNT,
            },
    {
        match self.count {
            Some(asked) => asked,
            None => DEFAULT_VIOLATION_COUNT,
        }
    }

    /// How many of `available` violations the answer holds.
    pub fn kept_len(&self, available: usize) -> (len: usize)
        ensures
            len == kept(
                match self.count {
                    Some(asked) => asked,
                    None => DEFAULT_VIOLATION_COUNT,
                },
                available as nat,
            ),
    {
        let count = self.limit();
        if count < 0 {
            available
        } else if available <= count as usize {
            available
        } else {
            count as usize
        }
    }
}

} // verus!
