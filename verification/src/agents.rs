//! The entries of the agent registry and what the backend derives from them.
//!
//! An agent registers as the text `hostname|ip|port`. The backend reads such
//! entries to find the agent of a student, to build the address of a command
//! that it forwards to the agent, and to tell whether the agent is alive.

use crate::text::{bytes_view, decimal, decimal_text, fields, split_text, starts_with};
use vstd::prelude::*;
use vstd::string::StringExecFns;
use vstd::utf8::{decode_utf8, encode_utf8};

verus! {

/// One entry of the agent registry, taken apart.
#[derive(Debug, PartialEq, Eq)]
pub struct AgentEntry {
    pub hostname: String,
    pub ip: String,
    pub port: String,
}

/// An entry as the contracts see it.
pub struct AgentEntryView {
    pub hostname: Seq<char>,
    pub ip: Seq<char>,
    pub port: Seq<char>,
}

impl View for AgentEntry {
    type V = AgentEntryView;

    open spec fn view(&self) -> AgentEntryView {
        AgentEntryView { hostname: self.hostname@, ip: self.ip@, port: self.port@ }
    }
}

/// An entry that may be absent, as the contracts see it.
pub open spec fn entry_view(entry: Option<AgentEntry>) -> Option<AgentEntryView> {
    match entry {
        Some(agent) => Some(agent@),
        None => None,
    }
}

/// The byte that separates the fields of an entry: the bar.
pub const BAR: u8 = 0x7C;

/// The fields of an entry text: the pieces of its bytes between bars.
pub open spec fn entry_fields(text: Seq<char>) -> Seq<Seq<u8>> {
    fields(encode_utf8(text), BAR)
}

/// What an entry text means: its first three fields, if it has that many.
/// Further fields are ignored.
pub open spec fn entry_of(text: Seq<char>) -> Option<AgentEntryView> {
    let parts = entry_fields(text);
    if parts.len() >= 3 {
        Some(
            AgentEntryView {
                hostname: decode_utf8(parts[0]),
                ip: decode_utf8(parts[1]),
                port: decode_utf8(parts[2]),
            },
        )
    } else {
        None
    }
}

/// The text under which an agent registers.
pub open spec fn member_text(hostname: Seq<char>, ip: Seq<char>, port: u16) -> Seq<char> {
    hostname + seq!['|'] + ip + seq!['|'] + decimal(port as nat)
}

/// Whether a registry entry belongs to `hostname`: it starts with the
/// hostname and a bar.
pub open spec fn belongs_to(entry: Seq<char>, hostname: Seq<char>) -> bool {
    encode_utf8(hostname + seq!['|']).is_prefix_of(encode_utf8(entry))
}

/// The address of a command at an agent.
pub open spec fn agent_url(ip: Seq<char>, port: Seq<char>, path: Seq<char>) -> Seq<char> {
    "http://"@ + ip + ":"@ + port + path
}

/// The number that a run of decimal digits spells.
pub open spec fn digits_value(digits: Seq<u8>) -> nat
    decreases digits.len(),
{
    if digits.len() == 0 {
        0
    } else {
        digits_value(digits.drop_last()) * 10 + (digits.last() - 48) as nat
    }
}

/// Whether the bytes are decimal digits, at least one.
pub open spec fn is_digits(bytes: Seq<u8>) -> bool {
    &&& bytes.len() >= 1
    &&& forall|i: int| 0 <= i < bytes.len() ==> 48 <= #[trigger] bytes[i] <= 57
}

/// The port that a text spells: decimal digits after an optional plus sign,
/// up to 65535. Any other text counts as port 0.
pub open spec fn port_of(text: Seq<u8>) -> u16 {
    let digits = if text.len() > 0 && text[0] == 43 {
        text.skip(1)
    } else {
        text
    };
    if is_digits(digits) && digits_value(digits) <= u16::MAX {
        digits_value(digits) as u16
    } else {
        0
    }
}

/// A longer run of digits spells no smaller number than its beginning.
proof fn lemma_digits_value_grows(digits: Seq<u8>, n: int)
    requires
        0 <= n <= digits.len(),
        forall|i: int| 0 <= i < digits.len() ==> 48 <= #[trigger] digits[i] <= 57,
    ensures
        digits_value(digits.take(n)) <= digits_value(digits),
    decreases digits.len() - n,
{
    if n < digits.len() {
        lemma_digits_value_grows(digits, n + 1);
        assert(digits.take(n + 1).drop_last() =~= digits.take(n));
    } else {
        assert(digits.take(n) =~= digits);
    }
}

/// Whether a heartbeat of the given age still counts as alive. The lifetime
/// is read as a signed 64-bit number, as the comparison with the signed age
/// requires; a lifetime above the signed range therefore wraps below zero.
pub open spec fn is_live(age_secs: i64, ttl_secs: u64) -> bool {
    if ttl_secs <= i64::MAX {
        age_secs < ttl_secs
    } else {
        age_secs < ttl_secs - 0x1_0000_0000_0000_0000
    }
}

/// Whether a heartbeat of the given age still counts as alive.
pub fn heartbeat_is_live(age_secs: i64, ttl_secs: u64) -> (live: bool)
    ensures
        live == is_live(age_secs, ttl_secs),
{
    if ttl_secs <= 0x7fff_ffff_ffff_ffff {
        age_secs < ttl_secs as i64
    } else {
        let above: i64 = (ttl_secs - 0x8000_0000_0000_0000) as i64;
        age_secs < above + i64::MIN
    }
}

/// The text under which an agent registers: `hostname|ip|port`.
pub fn registry_member(hostname: &str, ip: &str, port: u16) -> (member: String)
    ensures
        member@ == member_text(hostname@, ip@, port),
{
    proof {
        reveal_strlit("|");
    }
    let mut member = hostname.to_owned();
    member.append("|");
    member.append(ip);
    member.append("|");
    let digits = decimal_text(port);
    member.append(digits.as_str());
    assert("|"@ =~= seq!['|']);
    member
}

/// The hostname of a registry entry: the text before the first bar, or the
/// whole entry where it has no bar.
pub fn entry_hostname(entry: &str) -> (hostname: String)
    ensures
        hostname@ == decode_utf8(entry_fields(entry@)[0]),
{
    let parts = split_text(entry, BAR);
    proof {
        assert(entry_fields(entry@).len() >= 1);
        assert(bytes_view(parts@)[0] == encode_utf8(parts@[0]@));
        vstd::utf8::encode_utf8_decode_utf8(parts@[0]@);
    }
    parts[0].clone()
}

/// The first entry that belongs to `hostname`, by position.
pub fn find_agent(agents: &Vec<String>, hostname: &str) -> (found: Option<usize>)
    ensures
        match found {
            Some(at) => {
                &&& at < agents@.len()
                &&& belongs_to(agents@[at as int]@, hostname@)
                &&& forall|k: int| 0 <= k < at ==> !belongs_to(agents@[k]@, hostname@)
            },
            None => forall|k: int| 0 <= k < agents@.len() ==> !belongs_to(agents@[k]@, hostname@),
        },
{
    proof {
        reveal_strlit("|");
    }
    let mut pattern = hostname.to_owned();
    pattern.append("|");
    assert(pattern@ =~= hostname@ + seq!['|']);
    let mut i: usize = 0;
    while i < agents.len()
        invariant
            i <= agents@.len(),
            pattern@ == hostname@ + seq!['|'],
            forall|k: int| 0 <= k < i ==> !belongs_to(agents@[k]@, hostname@),
        decreases agents@.len() - i,
    {
        if starts_with(agents[i].as_str(), pattern.as_str()) {
            return Some(i);
        }
        i += 1;
    }
    None
}

impl AgentEntry {
    /// Takes an entry apart. An entry with fewer than three fields is no
    /// entry.
    pub fn parse(entry: &str) -> (parsed: Option<AgentEntry>)
        ensures
            entry_view(parsed) == entry_of(entry@),
    {
        let parts = split_text(entry, BAR);
        if parts.len() < 3 {
            return None;
        }
        proof {
            let seen = bytes_view(parts@);
            assert(seen[0] == encode_utf8(parts@[0]@));
            assert(seen[1] == encode_utf8(parts@[1]@));
            assert(seen[2] == encode_utf8(parts@[2]@));
            vstd::utf8::encode_utf8_decode_utf8(parts@[0]@);
            vstd::utf8::encode_utf8_decode_utf8(parts@[1]@);
            vstd::utf8::encode_utf8_decode_utf8(parts@[2]@);
        }
        Some(
            AgentEntry {
                hostname: parts[0].clone(),
                ip: parts[1].clone(),
                port: parts[2].clone(),
            },
        )
    }

    /// The agent's port as a number, 0 where the field spells none.
    pub fn port_number(&self) -> (port: u16)
        ensures
            port == port_of(encode_utf8(self.port@)),
    {
        let text = self.port.as_str().as_bytes();
        let start: usize = if text.len() > 0 && text[0] == 43 {
            1
        } else {
            0
        };
        let ghost digits = text@.skip(start as int);
        if start == text.len() {
            assert(text@.skip(0) =~= text@);
            return 0;
        }
        let mut value: u32 = 0;
        let mut i: usize = start;
        while i < text.len()
            invariant
                start <= i <= text@.len(),
                start < text@.len(),
                text@ == encode_utf8(self.port@),
                start == if text@.len() > 0 && text@[0] == 43 {
                    1int
                } else {
                    0int
                },
                digits == text@.skip(start as int),
                forall|k: int| 0 <= k < i - start ==> 48 <= #[trigger] digits[k] <= 57,
                value == digits_value(digits.take(i - start)),
                value <= u16::MAX,
            decreases text@.len() - i,
        {
            let byte = text[i];
            assert(digits[i - start] == byte);
            if byte < 48 || byte > 57 {
                assert(text@.skip(0) =~= text@);
                assert(!is_digits(digits));
                return 0;
            }
            assert(digits.take(i - start + 1).drop_last() =~= digits.take(i - start));
            assert(digits.take(i - start + 1).last() == byte);
            value = value * 10 + (byte - 48) as u32;
            assert(value == digits_value(digits.take(i - start + 1)));
            if value > 65535 {
                proof {
                    assert(text@.skip(0) =~= text@);
                    if is_digits(digits) {
                        lemma_digits_value_grows(digits, i - start + 1);
                    }
                }
                return 0;
            }
            i += 1;
        }
        assert(digits.take(i - start) =~= digits);
        assert(is_digits(digits));
        assert(text@.skip(0) =~= text@);
        value as u16
    }

    /// The address of a command of this agent: `http://ip:port` and the path.
    pub fn url(&self, path: &str) -> (url: String)
        ensures
            url@ == agent_url(self.ip@, self.port@, path@),
    {
        let mut url = "http://".to_owned();
        url.append(self.ip.as_str());
        url.append(":");
        url.append(self.port.as_str());
        url.append(path);
        url
    }

    /// The address that locks the student's workstation in the given mode.
    pub fn lock_url(&self, mode: &str) -> (url: String)
        ensures
            url@ == agent_url(self.ip@, self.port@, "/lock/"@ + mode@),
    {
        let mut path = "/lock/".to_owned();
        path.append(mode);
        self.url(path.as_str())
    }

    /// The address that lists the student's running applications.
    pub fn apps_url(&self) -> (url: String)
        ensures
            url@ == agent_url(self.ip@, self.port@, "/apps"@),
    {
        self.url("/apps")
    }

    /// The address that opens a page on the student's workstation.
    pub fn open_url_url(&self) -> (url: String)
        ensures
            url@ == agent_url(self.ip@, self.port@, "/open-url"@),
    {
        self.url("/open-url")
    }
}

} // verus!
