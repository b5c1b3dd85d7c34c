//! The commands that the backend forwards to the agent of a student, and the
//! rules that a command must meet before anything is sent.

use crate::agents::{belongs_to, entry_of, find_agent, AgentEntry};
use crate::text::{same_text, starts_with};
use vstd::prelude::*;
use vstd::utf8::encode_utf8;

verus! {

/// A request to lock a student's workstation.
#[derive(Debug)]
pub struct LockRequest {
    /// `soft` minimises all windows, `hard` locks the workstation.
    pub mode: String,
}

/// Whether a text names a lock mode.
pub open spec fn is_lock_mode(mode: Seq<char>) -> bool {
    mode == "soft"@ || mode == "hard"@
}

impl LockRequest {
    /// Whether the request names a lock mode that exists.
    pub fn is_valid(&self) -> (valid: bool)
        ensures
            valid == is_lock_mode(self.mode@),
    {
        same_text(self.mode.as_str(), "soft") || same_text(self.mode.as_str(), "hard")
    }
}

/// A request to open a page on a student's workstation.
#[derive(Debug)]
pub struct OpenUrlRequest {
    pub url: String,
}

/// Whether an address may be opened: it starts with `http://` or `https://`.
pub open spec fn is_web_url(url: Seq<char>) -> bool {
    encode_utf8("http://"@).is_prefix_of(encode_utf8(url)) || encode_utf8("https://"@).is_prefix_of(
        encode_utf8(url),
    )
}

impl OpenUrlRequest {
    /// Whether the address may be opened.
    pub fn is_valid(&self) -> (valid: bool)
        ensures
            valid == is_web_url(self.url@),
    {
        starts_with(self.url.as_str(), "http://") || starts_with(self.url.as_str(), "https://")
    }
}

/// Why no agent can be addressed for a student.
#[derive(Clone, Copy, Debug, PartialEq, Eq)]
pub enum LocateError {
    /// No registry entry belongs to the hostname.
    NotFound,
    /// The entry of the hostname has fewer than three fields.
    Malformed,
}

/// The agent of `hostname` among the registry entries: the first entry that
/// belongs to the hostname decides.
pub fn locate_agent(agents: &Vec<String>, hostname: &str) -> (located: Result<
    AgentEntry,
    LocateError,
>)
    ensures
        match located {
            Ok(agent) => exists|at: int|
                0 <= at < agents@.len() && is_first_of(agents@, hostname@, at) && entry_of(
                    agents@[at]@,
                ) == Some(agent@),
            Err(LocateError::Malformed) => exists|at: int|
                0 <= at < agents@.len() && is_first_of(agents@, hostname@, at) && entry_of(
                    agents@[at]@,
                ) is None,
            Err(LocateError::NotFound) => forall|at: int|
                0 <= at < agents@.len() ==> !belongs_to(
                    (#[trigger] agents@[at])@,
                    hostname@,
                ),
        },
{
    match find_agent(agents, hostname) {
        Some(at) => match AgentEntry::parse(agents[at].as_str()) {
            Some(agent) => {
                assert(is_first_of(agents@, hostname@, at as int));
                Ok(agent)
            },
            None => {
                assert(is_first_of(agents@, hostname@, at as int));
                Err(LocateError::Malformed)
            },
        },
        None => Err(LocateError::NotFound),
    }
}

/// Whether the entry at `at` is the first that belongs to `hostname`.
pub open spec fn is_first_of(agents: Seq<String>, hostname: Seq<char>, at: int) -> bool {
    &&& belongs_to(agents[at]@, hostname)
    &&& forall|k: int| 0 <= k < at ==> !belongs_to(agents[k]@, hostname)
}

/// How many of the outcomes are successes.
pub open spec fn successes(outcomes: Seq<bool>) -> nat
    decreases outcomes.len(),
{
    if outcomes.len() == 0 {
        0
    } else if outcomes.last() {
        successes(outcomes.drop_last()) + 1
    } else {
        successes(outcomes.drop_last())
    }
}

/// How many agents a page was sent to, and how that went.
#[derive(Clone, Copy, Debug, PartialEq, Eq)]
pub struct OpenUrlTally {
    pub total: usize,
    pub success: usize,
    pub failed: usize,
}

impl OpenUrlTally {
    /// Counts the outcomes of sending a page to every agent, one outcome for
    /// each registry entry: `true` where the agent accepted the page, `false`
    /// where it did not or could not be addressed.
    pub fn count(outcomes: &Vec<bool>) -> (tally: OpenUrlTally)
        ensures
            tally.total == outcomes@.len(),
            tally.success == successes(outcomes@),
            tally.success + tally.failed == tally.total,
    {
        let mut success: usize = 0;
        let mut failed: usize = 0;
        let mut i: usize = 0;
        while i < outcomes.len()
            invariant
                i <= outcomes@.len(),
                success == successes(outcomes@.take(i as int)),
                success + failed == i,
            decreases outcomes@.len() - i,
        {
            assert(outcomes@.take(i + 1).drop_last() =~= outcomes@.take(i as int));
            if outcomes[i] {
                success = success + 1;
            } else {
                failed = failed + 1;
            }
            i += 1;
        }
        assert(outcomes@.take(i as int) =~= outcomes@);
        OpenUrlTally { total: outcomes.len(), success, failed }
    }
}

} // verus!
