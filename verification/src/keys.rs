//! The keys under which the backend keeps its records in the key-value
//! store, and how long the records live there.

use vstd::prelude::*;
use vstd::string::StringExecFns;

verus! {

/// Seconds that a stored screenshot lives.
pub const SCREENSHOT_TTL_SECS: u64 = 120;

/// Seconds that a stored application list lives.
pub const APPS_TTL_SECS: u64 = 120;

/// Seconds that the stored server address lives.
pub const SERVER_IP_TTL_SECS: u64 = 360;

/// The notifications that are kept for one student.
pub const NOTIFICATIONS_KEPT: isize = 200;

/// The key of a record that the whole backend shares: `prefix:name`.
pub open spec fn shared_key(prefix: Seq<char>, name: Seq<char>) -> Seq<char> {
    prefix + ":"@ + name
}

/// The key of a record of one student: `prefix:name:hostname`.
pub open spec fn student_key(prefix: Seq<char>, name: Seq<char>, hostname: Seq<char>) -> Seq<
    char,
> {
    prefix + ":"@ + name + ":"@ + hostname
}

/// Builds the key of a shared record.
pub fn key_of(prefix: &str, name: &str) -> (key: String)
    ensures
        key@ == shared_key(prefix@, name@),
{
    let mut key = prefix.to_owned();
    key.append(":");
    key.append(name);
    key
}

/// Builds the key of a record of one student.
pub fn key_for(prefix: &str, name: &str, hostname: &str) -> (key: String)
    ensures
        key@ == student_key(prefix@, name@, hostname@),
{
    let mut key = key_of(prefix, name);
    key.append(":");
    key.append(hostname);
    key
}

/// The key of the set of registered agents.
pub fn agents_key(prefix: &str) -> (key: String)
    ensures
        key@ == shared_key(prefix@, "agents"@),
{
    key_of(prefix, "agents")
}

/// The key of the published banned lists.
pub fn ban_config_key(prefix: &str) -> (key: String)
    ensures
        key@ == shared_key(prefix@, "ban_config"@),
{
    key_of(prefix, "ban_config")
}

/// The key of the published exam mode.
pub fn sau_mode_key(prefix: &str) -> (key: String)
    ensures
        key@ == shared_key(prefix@, "sau_mode"@),
{
    key_of(prefix, "sau_mode")
}

/// The key of the server's own address.
pub fn server_ip_key(prefix: &str) -> (key: String)
    ensures
        key@ == shared_key(prefix@, "server:ip"@),
{
    key_of(prefix, "server:ip")
}

/// The key of a student's last heartbeat.
pub fn heartbeat_key(prefix: &str, hostname: &str) -> (key: String)
    ensures
        key@ == student_key(prefix@, "heartbeat"@, hostname@),
{
    key_for(prefix, "heartbeat", hostname)
}

/// The key of a student's list of violations.
pub fn violations_key(prefix: &str, hostname: &str) -> (key: String)
    ensures
        key@ == student_key(prefix@, "violations"@, hostname@),
{
    key_for(prefix, "violations", hostname)
}

/// The key of a student's count of violations.
pub fn violation_count_key(prefix: &str, hostname: &str) -> (key: String)
    ensures
        key@ == student_key(prefix@, "violation_count"@, hostname@),
{
    key_for(prefix, "violation_count", hostname)
}

/// The key of a student's last screenshot.
pub fn screenshot_key(prefix: &str, hostname: &str) -> (key: String)
    ensures
        key@ == student_key(prefix@, "screenshot"@, hostname@),
{
    key_for(prefix, "screenshot", hostname)
}

/// The key of a student's list of notifications.
pub fn notifications_key(prefix: &str, hostname: &str) -> (key: String)
    ensures
        key@ == student_key(prefix@, "notifications"@, hostname@),
{
    key_for(prefix, "notifications", hostname)
}

/// The key of a student's list of running applications.
pub fn apps_key(prefix: &str, hostname: &str) -> (key: String)
    ensures
        key@ == student_key(prefix@, "apps"@, hostname@),
{
    key_for(prefix, "apps", hostname)
}

} // verus!
