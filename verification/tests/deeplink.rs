use hearth::parse_deep_link;

#[test]
fn test_parse_chat_link() {
    let payload = parse_deep_link("hearth://chat/user123").unwrap();
    assert_eq!(payload.action, "chat");
    assert_eq!(payload.target, Some("user123".to_string()));
}

#[test]
fn test_parse_room_link() {
    let payload = parse_deep_link("hearth://room/abc-def-ghi").unwrap();
    assert_eq!(payload.action, "room");
    assert_eq!(payload.target, Some("abc-def-ghi".to_string()));
}

#[test]
fn test_parse_channel_link() {
    let payload = parse_deep_link("hearth://channel/chan-123").unwrap();
    assert_eq!(payload.action, "channel");
    assert_eq!(payload.target, Some("chan-123".to_string()));
}

#[test]
fn test_parse_server_link() {
    let payload = parse_deep_link("hearth://server/server-456").unwrap();
    assert_eq!(payload.action, "server");
    assert_eq!(payload.target, Some("server-456".to_string()));
}

#[test]
fn test_parse_server_channel_link() {
    let payload = parse_deep_link("hearth://server/server-456/chan-789").unwrap();
    assert_eq!(payload.action, "server");
    assert_eq!(payload.target, Some("server-456".to_string()));
    assert_eq!(payload.params.get("channel"), Some(&"chan-789".to_string()));
}

#[test]
fn test_parse_invite_link() {
    let payload = parse_deep_link("hearth://invite/ABCD1234?ref=email").unwrap();
    assert_eq!(payload.action, "invite");
    assert_eq!(payload.target, Some("ABCD1234".to_string()));
    assert_eq!(payload.params.get("ref"), Some(&"email".to_string()));
}

#[test]
fn test_parse_invite_with_server() {
    let payload = parse_deep_link("hearth://invite/XYZ789?server=server-123").unwrap();
    assert_eq!(payload.action, "invite");
    assert_eq!(payload.target, Some("XYZ789".to_string()));
    assert_eq!(payload.params.get("server"), Some(&"server-123".to_string()));
}

#[test]
fn test_parse_settings_link() {
    let payload = parse_deep_link("hearth://settings").unwrap();
    assert_eq!(payload.action, "settings");
    assert_eq!(payload.target, None);
}

#[test]
fn test_parse_settings_section() {
    let payload = parse_deep_link("hearth://settings/notifications").unwrap();
    assert_eq!(payload.action, "settings");
    assert_eq!(payload.target, Some("notifications".to_string()));
}

#[test]
fn test_parse_call_link() {
    let payload = parse_deep_link("hearth://call/call-abc-123").unwrap();
    assert_eq!(payload.action, "call");
    assert_eq!(payload.target, Some("call-abc-123".to_string()));
}

#[test]
fn test_foreign_scheme_rejected() {
    assert!(parse_deep_link("http://chat/1").is_none());
    assert!(parse_deep_link("https://hearth.example/chat/1").is_none());
    assert!(parse_deep_link("chat/user123").is_none());
    assert!(parse_deep_link("").is_none());
    assert!(parse_deep_link("hearth:/chat/1").is_none());
}

#[test]
fn test_scheme_check_is_case_sensitive() {
    assert!(parse_deep_link("HEARTH://chat/1").is_none());
    assert!(parse_deep_link("Hearth://chat/1").is_none());
}

#[test]
fn test_empty_path_rejected() {
    assert!(parse_deep_link("hearth://").is_none());
    assert!(parse_deep_link("hearth:///").is_none());
    assert!(parse_deep_link("hearth://?a=b").is_none());
}

#[test]
fn test_parse_is_idempotent() {
    let first = parse_deep_link("hearth://invite/ABCD1234?ref=email&x=%20y").unwrap();
    let second = parse_deep_link("hearth://invite/ABCD1234?ref=email&x=%20y").unwrap();
    assert_eq!(first, second);
}

#[test]
fn test_query_key_collision_last_wins() {
    let payload = parse_deep_link("hearth://x/y?a=1&a=2").unwrap();
    assert_eq!(payload.params.get("a"), Some(&"2".to_string()));
    assert_eq!(payload.params.len(), 1);
}

#[test]
fn test_whitespace_is_trimmed() {
    let payload = parse_deep_link("  hearth://chat/user123 \n").unwrap();
    assert_eq!(payload.action, "chat");
    assert_eq!(payload.target, Some("user123".to_string()));
}

#[test]
fn test_second_question_mark_stays_in_query() {
    let payload = parse_deep_link("hearth://x/y?a=1?b=2").unwrap();
    assert_eq!(payload.params.get("a"), Some(&"1?b=2".to_string()));
}

#[test]
fn test_pair_without_equals_is_skipped() {
    let payload = parse_deep_link("hearth://x/y?flag&b=2").unwrap();
    assert_eq!(payload.params.get("flag"), None);
    assert_eq!(payload.params.get("b"), Some(&"2".to_string()));
    assert_eq!(payload.params.len(), 1);
}

#[test]
fn test_percent_decoding_applies() {
    let payload = parse_deep_link("hearth://invite/CODE?ref=a%20b&k%3D=v").unwrap();
    assert_eq!(payload.params.get("ref"), Some(&"a b".to_string()));
    assert_eq!(payload.params.get("k="), Some(&"v".to_string()));
}

#[test]
fn test_empty_segments_collapse() {
    let payload = parse_deep_link("hearth:///chat//user123/").unwrap();
    assert_eq!(payload.action, "chat");
    assert_eq!(payload.target, Some("user123".to_string()));
}

#[test]
fn test_params_empty_without_query() {
    let payload = parse_deep_link("hearth://chat/user123").unwrap();
    assert!(payload.params.is_empty());
    assert_eq!(payload.params.len(), 0);
}

#[test]
fn test_path_channel_overrides_query_channel() {
    let payload = parse_deep_link("hearth://server/s-1/c-path?channel=c-query").unwrap();
    assert_eq!(payload.params.get("channel"), Some(&"c-path".to_string()));
    assert_eq!(payload.params.len(), 1);
}

#[test]
fn test_unknown_action_still_parses() {
    let payload = parse_deep_link("hearth://frobnicate/thing").unwrap();
    assert_eq!(payload.action, "frobnicate");
    assert_eq!(payload.target, Some("thing".to_string()));
}
