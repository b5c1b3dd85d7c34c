use screen_relay::agents::{
    entry_hostname, find_agent, heartbeat_is_live, registry_member, AgentEntry,
};

fn entry(hostname: &str, ip: &str, port: &str) -> AgentEntry {
    AgentEntry { hostname: hostname.to_string(), ip: ip.to_string(), port: port.to_string() }
}

#[test]
fn entry_is_three_fields_between_bars() {
    assert_eq!(AgentEntry::parse("pc-1|10.0.0.5|9000"), Some(entry("pc-1", "10.0.0.5", "9000")));
    assert_eq!(AgentEntry::parse("||"), Some(entry("", "", "")));
    assert_eq!(AgentEntry::parse("a|b|c|d|e"), Some(entry("a", "b", "c")));
    assert_eq!(AgentEntry::parse("a|b|"), Some(entry("a", "b", "")));
}

#[test]
fn entry_fields_may_hold_any_text() {
    assert_eq!(
        AgentEntry::parse("küche-π|fe80::1|教室|x"),
        Some(entry("küche-π", "fe80::1", "教室"))
    );
    assert_eq!(AgentEntry::parse("π||"), Some(entry("π", "", "")));
}

#[test]
fn entry_with_fewer_fields_is_none() {
    assert_eq!(AgentEntry::parse(""), None);
    assert_eq!(AgentEntry::parse("pc-1"), None);
    assert_eq!(AgentEntry::parse("pc-1|10.0.0.5"), None);
    assert_eq!(AgentEntry::parse("|"), None);
}

#[test]
fn member_is_what_parse_takes_apart() {
    assert_eq!(registry_member("pc-1", "10.0.0.5", 9000), "pc-1|10.0.0.5|9000");
    assert_eq!(registry_member("", "", 0), "||0");
    assert_eq!(registry_member("lab", "::1", 65535), "lab|::1|65535");
    let parsed = AgentEntry::parse(&registry_member("pc-1", "10.0.0.5", 9000)).unwrap();
    assert_eq!(parsed, entry("pc-1", "10.0.0.5", "9000"));
    assert_eq!(parsed.port_number(), 9000);
}

#[test]
fn port_number_reads_decimal_digits() {
    assert_eq!(entry("h", "i", "0").port_number(), 0);
    assert_eq!(entry("h", "i", "80").port_number(), 80);
    assert_eq!(entry("h", "i", "65535").port_number(), 65535);
    assert_eq!(entry("h", "i", "+443").port_number(), 443);
    assert_eq!(entry("h", "i", "00080").port_number(), 80);
    assert_eq!(entry("h", "i", "0000000065535").port_number(), 65535);
}

#[test]
fn port_number_is_zero_for_anything_else() {
    for text in [
        "", "+", "-", "-1", "65536", "99999", "123456789012345678901234567890", "80a", "a80",
        " 80", "80 ", "8 0", "++80", "+-80", "8_0", "0x50", "８０", "1e3", "80.0",
    ] {
        assert_eq!(entry("h", "i", text).port_number(), 0);
        assert_eq!(entry("h", "i", text).port_number(), text.parse::<u16>().unwrap_or(0));
    }
}

#[test]
fn port_number_agrees_with_the_standard_parser() {
    for text in ["0", "1", "+1", "65535", "+65535", "065535", "65536", "+", "", "12", "9x"] {
        assert_eq!(entry("h", "i", text).port_number(), text.parse::<u16>().unwrap_or(0));
    }
}

#[test]
fn urls_are_built_from_ip_and_port_as_they_stand() {
    let agent = entry("pc-1", "10.0.0.5", "9000");
    assert_eq!(agent.lock_url("soft"), "http://10.0.0.5:9000/lock/soft");
    assert_eq!(agent.lock_url("hard"), "http://10.0.0.5:9000/lock/hard");
    assert_eq!(agent.apps_url(), "http://10.0.0.5:9000/apps");
    assert_eq!(agent.open_url_url(), "http://10.0.0.5:9000/open-url");
    assert_eq!(agent.url("/x"), "http://10.0.0.5:9000/x");
    assert_eq!(entry("h", "", "").url(""), "http://:");
    assert_eq!(entry("h", "host", "not-a-port").apps_url(), "http://host:not-a-port/apps");
}

#[test]
fn find_agent_takes_the_first_entry_of_the_hostname() {
    let agents: Vec<String> = ["pc-10|1.1.1.1|1", "pc-1|2.2.2.2|2", "pc-1|3.3.3.3|3", "pc-2"]
        .iter()
        .map(|s| s.to_string())
        .collect();
    assert_eq!(find_agent(&agents, "pc-1"), Some(1));
    assert_eq!(find_agent(&agents, "pc-10"), Some(0));
    assert_eq!(find_agent(&agents, "pc"), None);
    assert_eq!(find_agent(&agents, "pc-2"), None);
    assert_eq!(find_agent(&agents, "pc-3"), None);
    assert_eq!(find_agent(&agents, ""), None);
    assert_eq!(find_agent(&agents, "pc-1|2.2.2.2"), Some(1));
    assert_eq!(find_agent(&Vec::new(), "pc-1"), None);
}

#[test]
fn find_agent_with_empty_hostname_matches_a_leading_bar() {
    let agents: Vec<String> = vec!["a|b|c".to_string(), "|ip|1".to_string()];
    assert_eq!(find_agent(&agents, ""), Some(1));
}

#[test]
fn entry_hostname_is_the_text_before_the_first_bar() {
    assert_eq!(entry_hostname("pc-1|10.0.0.5|9000"), "pc-1");
    assert_eq!(entry_hostname("pc-1"), "pc-1");
    assert_eq!(entry_hostname(""), "");
    assert_eq!(entry_hostname("|x"), "");
    assert_eq!(entry_hostname("a|"), "a");
}

#[test]
fn heartbeat_is_live_while_younger_than_the_lifetime() {
    assert!(heartbeat_is_live(0, 90));
    assert!(heartbeat_is_live(89, 90));
    assert!(!heartbeat_is_live(90, 90));
    assert!(!heartbeat_is_live(91, 90));
    assert!(heartbeat_is_live(-5, 90));
    assert!(!heartbeat_is_live(0, 0));
    assert!(heartbeat_is_live(-1, 0));
    assert!(heartbeat_is_live(i64::MAX - 1, i64::MAX as u64));
    assert!(!heartbeat_is_live(i64::MAX, i64::MAX as u64));
}

#[test]
fn lifetime_above_the_signed_range_wraps() {
    assert!(!heartbeat_is_live(0, u64::MAX));
    assert!(!heartbeat_is_live(-1, u64::MAX));
    assert!(heartbeat_is_live(-2, u64::MAX));
    assert!(!heartbeat_is_live(i64::MIN, 1u64 << 63));
    assert!(heartbeat_is_live(i64::MIN, (1u64 << 63) + 1));
    for (age, ttl) in [(0i64, u64::MAX), (-2, u64::MAX), (i64::MIN, 1u64 << 63), (5, 90)] {
        assert_eq!(heartbeat_is_live(age, ttl), age < ttl as i64);
    }
}
