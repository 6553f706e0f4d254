use a2native::session::{parse_port, parse_u16, port_file_name, safe_uuid_component};

#[test]
fn uuid_keeps_safe_characters() {
    assert_eq!(safe_uuid_component("my-wizard_abc123"), "my-wizard_abc123");
    assert_eq!(safe_uuid_component("../../etc/passwd"), "etcpasswd");
    assert_eq!(safe_uuid_component("a b/c"), "abc");
    let long: String = "x".repeat(100);
    assert_eq!(safe_uuid_component(&long), "x".repeat(64));
}

#[test]
fn uuid_without_safe_characters_is_hashed() {
    assert_eq!(safe_uuid_component(""), "inv-0000000000000000");
    // '!' is 33: 0 * 31 + 33, then 33 * 31 + 33 = 1056, then 1056 * 31 + 33 = 32769.
    assert_eq!(safe_uuid_component("!!!"), format!("inv-{:016x}", 32769u64));
    assert_ne!(safe_uuid_component("!!"), safe_uuid_component("!!!"));
    let h = safe_uuid_component("ééé");
    assert!(h.starts_with("inv-"));
    assert_eq!(h.len(), 20);
}

#[test]
fn port_file_names() {
    assert_eq!(port_file_name("abc"), "a2n-session-abc.port");
    assert_eq!(port_file_name("/tmp/../x"), "a2n-session-tmpx.port");
}

#[test]
fn port_text_round_trip() {
    for p in [0u16, 1, 80, 8080, 65535] {
        assert_eq!(parse_port(&p.to_string()), Some(p));
    }
    assert_eq!(parse_port(" 8080\n"), Some(8080));
    assert_eq!(parse_port("+443"), Some(443));
    assert_eq!(parse_port("65536"), None);
    assert_eq!(parse_port(""), None);
    assert_eq!(parse_port("+"), None);
    assert_eq!(parse_port("-1"), None);
    assert_eq!(parse_port("80 80"), None);
    assert_eq!(parse_port("007"), Some(7));
}

#[test]
fn parse_u16_agrees_with_std() {
    for s in ["0", "65535", "65536", "+1", "++1", "", "1a", "99999999999999999999"] {
        let cs: Vec<char> = s.chars().collect();
        assert_eq!(parse_u16(&cs), s.parse::<u16>().ok(), "{}", s);
    }
}
