use seclog::shipper::{
    after_attempt, after_line, classify_event_id, complete_line_len, event_id_of_block,
    line_action, line_body, line_text, looks_like_own_output, outbound_entry, parse_position,
    position_text, reconcile_paths, resume_position, state_file_for, windows_event_entry, windows_events,
    LineAction, SendOutcome, ShipStep, MAX_RETRIES,
};

#[test]
fn state_file_keeps_a_readable_prefix_and_a_hash() {
    let f = state_file_for("/var/log/auth.log");
    let expected_hash = seclog::parser::hash_line("/var/log/auth.log");
    assert_eq!(f, format!(".shipper_state__var_log_auth_log_{}", expected_hash));
}

#[test]
fn state_files_of_look_alike_paths_differ() {
    let a = state_file_for("/var/log/auth.log");
    let b = state_file_for("/var/log/auth_log");
    assert!(a.starts_with(".shipper_state__var_log_auth_log_"));
    assert!(b.starts_with(".shipper_state__var_log_auth_log_"));
    assert_ne!(a, b);
}

#[test]
fn state_file_keeps_unicode_letters() {
    let f = state_file_for("/tmp/é.log");
    assert!(f.starts_with(".shipper_state__tmp_é_log_"));
}

#[test]
fn own_output_is_recognised() {
    assert!(looks_like_own_output("Jan 1 host shipper[1234]: Shipped (201 Created)"));
    assert!(!looks_like_own_output("Jan 1 host myshipper[1234]: hello"));
    assert!(!looks_like_own_output("Jan 1 host shipper: no pid"));
    assert_eq!(line_action("x shipper[7]: y"), LineAction::SkipOwnOutput);
    assert_eq!(line_action("sshd[7]: y"), LineAction::Ship);
}

#[test]
fn windows_event_id_table() {
    assert_eq!(classify_event_id("4625"), ("High", "Failed logon"));
    assert_eq!(classify_event_id("4648"), ("Medium", "Explicit credential logon"));
    assert_eq!(classify_event_id("4672"), ("High", "Special privileges assigned (admin logon)"));
    assert_eq!(classify_event_id("4720"), ("Medium", "User account created"));
    assert_eq!(classify_event_id("4726"), ("Medium", "User account deleted"));
    assert_eq!(classify_event_id("4732"), ("High", "User added to security-enabled group"));
    assert_eq!(classify_event_id("4738"), ("Medium", "User account changed"));
    assert_eq!(classify_event_id("4740"), ("High", "User account locked out"));
    assert_eq!(classify_event_id("1102"), ("Critical", "Security audit log cleared"));
    assert_eq!(classify_event_id("9999"), ("Low", "Windows security event"));
}

#[test]
fn outbound_payload_of_a_line() {
    let e = outbound_entry("sshd: Failed password for root from 1.2.3.4 port 1", "web-1").unwrap();
    assert_eq!(e.severity, "High");
    assert_eq!(e.user, "root");
    assert_eq!(e.message, "[SSH failed login] sshd: Failed password for root from 1.2.3.4 port 1");
    assert_eq!(e.host, "web-1");
    assert!(outbound_entry("   ", "web-1").is_none());
}

#[test]
fn only_2xx_is_delivery() {
    assert_eq!(after_attempt(1, &SendOutcome::Answered(201)), ShipStep::Delivered);
    assert_eq!(after_attempt(3, &SendOutcome::Answered(200)), ShipStep::Delivered);
    assert_eq!(after_attempt(1, &SendOutcome::Answered(400)), ShipStep::RetryAfterPause);
    assert_eq!(after_attempt(2, &SendOutcome::Answered(500)), ShipStep::RetryAfterPause);
    assert_eq!(after_attempt(1, &SendOutcome::TransportFailed), ShipStep::RetryAfterPause);
    assert_eq!(after_attempt(MAX_RETRIES, &SendOutcome::Answered(401)), ShipStep::GiveUp);
    assert_eq!(after_attempt(MAX_RETRIES, &SendOutcome::TransportFailed), ShipStep::GiveUp);
    assert_eq!(after_attempt(1, &SendOutcome::Answered(302)), ShipStep::RetryAfterPause);
}

#[test]
fn rotation_resets_position() {
    assert_eq!(resume_position(100, 40), 40);
    assert_eq!(resume_position(100, 100), 100);
    assert_eq!(resume_position(10, 40), 0);
}

#[test]
fn partial_lines_are_not_consumed() {
    let data = b"first\r\nsecond\nthird-partial";
    let n1 = complete_line_len(data, 0).unwrap();
    assert_eq!(n1, 7);
    assert_eq!(line_body(data, 0, n1), b"first".to_vec());
    let n2 = complete_line_len(data, n1).unwrap();
    assert_eq!(n2, 7);
    assert_eq!(line_body(data, n1, n2), b"second".to_vec());
    assert_eq!(complete_line_len(data, n1 + n2), None);
    assert_eq!(complete_line_len(b"", 0), None);
    assert_eq!(complete_line_len(b"\n", 0), Some(1));
    assert_eq!(line_body(b"\n", 0, 1), Vec::<u8>::new());
}

#[test]
fn line_text_drops_the_ending_and_refuses_bad_utf8() {
    let data = "héllo\r\nnext\n".as_bytes();
    let n = complete_line_len(data, 0).unwrap();
    assert_eq!(line_text(data, 0, n), Some("héllo".to_string()));
    assert_eq!(line_text(data, n, data.len() - n), Some("next".to_string()));
    assert_eq!(line_text(&[0x66, 0xff, 0x6f, 0x0a], 0, 4), None);
    assert_eq!(line_text(b"\n", 0, 1), Some(String::new()));
}

#[test]
fn saved_positions_parse_like_u64() {
    assert_eq!(parse_position("1234"), Some(1234));
    assert_eq!(parse_position("  42\n"), Some(42));
    assert_eq!(parse_position("+7"), Some(7));
    assert_eq!(parse_position("+"), None);
    assert_eq!(parse_position(""), None);
    assert_eq!(parse_position("-1"), None);
    assert_eq!(parse_position("12a"), None);
    assert_eq!(parse_position("18446744073709551615"), Some(u64::MAX));
    assert_eq!(parse_position("18446744073709551616"), None);
    for s in ["0", "007", "99999", " 5 ", "1 2", "+-3"] {
        assert_eq!(parse_position(s), s.trim().parse::<u64>().ok());
    }
}

#[test]
fn reconcile_stops_removed_and_starts_new() {
    let active = vec!["/a".to_string(), "/b".to_string()];
    let desired = vec!["/b".to_string(), "/c".to_string(), "/c".to_string()];
    let (stop, start) = reconcile_paths(&active, &desired);
    assert_eq!(stop, vec!["/a".to_string()]);
    assert_eq!(start, vec!["/c".to_string()]);
    let (stop, start) = reconcile_paths(&desired, &desired);
    assert!(stop.is_empty());
    assert!(start.is_empty());
}

#[test]
fn wevtutil_block_event_id() {
    let block = "Event[0]:\r\n  Log Name: Security\r\n  Event ID: 4625\r\n  Level: Information";
    assert_eq!(event_id_of_block(block), Some("4625".to_string()));
    assert_eq!(event_id_of_block("no id here"), None);
    assert_eq!(event_id_of_block("Event ID:   \n"), Some(String::new()));
}

#[test]
fn wevtutil_block_entry() {
    let block = "  Event ID: 1102\r\n  Description: cleared ";
    let e = windows_event_entry(block, "dc-1").unwrap();
    assert_eq!(e.severity, "Critical");
    assert_eq!(e.user, "system");
    assert_eq!(
        e.message,
        "[Security audit log cleared] EventID=1102 Event ID: 1102\r\n  Description: cleared"
    );
    assert_eq!(e.host, "dc-1");
    assert!(windows_event_entry("  \r\n ", "dc-1").is_none());
}

#[test]
fn wevtutil_text_splits_into_events() {
    let text = "Event[0]:\r\n  Event ID: 4625\r\n\r\nEvent[1]:\r\n  Event ID: 4720\r\n\r\n\r\n\r\nnothing\r\n";
    let events = windows_events(text, "h");
    assert_eq!(events.len(), 2);
    assert_eq!(events[0].severity, "High");
    assert!(events[0].message.starts_with("[Failed logon] EventID=4625 Event[0]:"));
    assert_eq!(events[1].severity, "Medium");
    assert!(events[1].message.starts_with("[User account created] EventID=4720 "));
}

#[test]
fn state_file_names_hold_no_path_separators() {
    let f = state_file_for("C:\\logs\\a b/c:d*e?.log");
    assert!(f.starts_with(".shipper_state_C__logs_a_b_c_d_e__log_"));
    assert!(!f.contains('/') && !f.contains('\\') && !f.contains(' '));
}

#[test]
fn after_line_advances_only_when_handled() {
    assert_eq!(after_line(100, 20, &LineAction::Ship, true), Some(120));
    assert_eq!(after_line(100, 20, &LineAction::Ship, false), None);
    assert_eq!(after_line(100, 20, &LineAction::SkipOwnOutput, false), Some(120));
    assert_eq!(after_line(0, 1, &LineAction::SkipOwnOutput, true), Some(1));
}

#[test]
fn positions_read_back_as_written() {
    for p in [0u64, 7, 10, 42, 1000, 1234567890, u64::MAX] {
        let t = position_text(p);
        assert_eq!(t, p.to_string());
        assert_eq!(parse_position(&t), Some(p));
    }
}
