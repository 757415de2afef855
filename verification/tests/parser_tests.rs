use seclog::models::Severity;
use seclog::parser::{classify_line, hash_line, parse_line};

fn classified(line: &str) -> (Severity, String, String) {
    let e = parse_line(line).expect("non-blank line is classified");
    (e.severity, e.user, e.message)
}

#[test]
fn blank_lines_are_skipped() {
    assert!(parse_line("").is_none());
    assert!(parse_line("   \t  ").is_none());
    assert!(parse_line("\u{a0}\u{3000}").is_none());
}

#[test]
fn ssh_failed_password_is_high_with_user() {
    let (sev, user, msg) = classified("sshd[123]: Failed password for root from 10.0.0.1 port 22 ssh2");
    assert_eq!(sev, Severity::High);
    assert_eq!(user, "root");
    assert_eq!(msg, "[SSH failed login] sshd[123]: Failed password for root from 10.0.0.1 port 22 ssh2");
}

#[test]
fn failed_password_for_invalid_user_names_the_user() {
    let line = "sshd[9]: Failed password for invalid user admin from 1.2.3.4 port 5 ssh2";
    let (sev, user, msg) = classified(line);
    // "Invalid user" (capital I) does not occur, so the failed-login rule applies.
    assert_eq!(sev, Severity::High);
    assert_eq!(user, "admin");
    assert_eq!(msg, format!("[SSH failed login] {}", line));
}

#[test]
fn invalid_user_rule_precedes_failed_password() {
    let line = "sshd[1]: Invalid user oracle from 5.6.7.8 port 4444";
    let (sev, user, msg) = classified(line);
    assert_eq!(sev, Severity::High);
    assert_eq!(user, "oracle");
    assert_eq!(msg, format!("[SSH invalid user attempt] {}", line));
}

#[test]
fn disconnect_by_invalid_user_is_more_specific() {
    let line = "sshd[1]: Disconnected by invalid user test 1.1.1.1 port 22";
    let (_, _, msg) = classified(line);
    assert!(msg.starts_with("[SSH invalid user disconnect] "));
}

#[test]
fn accepted_publickey_is_low() {
    let line = "sshd[2]: Accepted publickey for alice from 192.168.1.5 port 50000 ssh2";
    let (sev, user, msg) = classified(line);
    assert_eq!(sev, Severity::Low);
    assert_eq!(user, "alice");
    assert!(msg.starts_with("[SSH successful login] "));
}

#[test]
fn sudo_command_is_low_and_names_user() {
    let line = "sudo:   bob : TTY=pts/0 ; PWD=/home/bob ; USER=root ; COMMAND=/bin/ls";
    let (sev, user, msg) = classified(line);
    assert_eq!(sev, Severity::Low);
    assert_eq!(user, "bob");
    assert!(msg.starts_with("[Sudo command executed] "));
}

#[test]
fn not_in_sudoers_beats_sudo_command() {
    let line = "sudo:   eve : user NOT in sudoers ; TTY=pts/1 ; COMMAND=/bin/sh";
    let (sev, user, msg) = classified(line);
    assert_eq!(sev, Severity::High);
    assert_eq!(user, "eve");
    assert!(msg.starts_with("[Unauthorized sudo attempt] "));
}

#[test]
fn audit_log_cleared_is_critical() {
    let (sev, user, msg) = classified("EventID=1102 The audit log was cleared");
    assert_eq!(sev, Severity::Critical);
    assert_eq!(user, "system");
    assert_eq!(msg, "[Audit log cleared] EventID=1102 The audit log was cleared");
}

#[test]
fn audit_failed_login_needs_both_facts() {
    let failed = "type=USER_LOGIN msg=audit(1.2:3): pid=1 uid=0 acct=\"x\" res=failed";
    let (sev, _, msg) = classified(failed);
    assert_eq!(sev, Severity::Medium);
    assert!(msg.starts_with("[Failed login (audit)] "));

    let ok = "type=USER_LOGIN msg=audit(1.2:3): pid=1 uid=0 res=success";
    let (sev, _, msg) = classified(ok);
    assert_eq!(sev, Severity::Low);
    assert!(msg.starts_with("[Successful login (audit)] "));

    // res= first, type= after: both facts still present.
    let reordered = "res=failed something type=USER_LOGIN";
    let (_, _, msg) = classified(reordered);
    assert!(msg.starts_with("[Failed login (audit)] "));
}

#[test]
fn crypto_key_teardown_vs_generic_event() {
    let (_, _, msg) = classified("type=CRYPTO_KEY_USER pid=5 res=success");
    assert!(msg.starts_with("[SSH session key teardown (routine)] "));
    let (_, _, msg) = classified("type=CRYPTO_KEY_USER pid=5 res=failed");
    assert!(msg.starts_with("[SSH crypto key event] "));
}

#[test]
fn firewall_rules_order() {
    let (sev, _, msg) = classified("kernel: nmap scan detected from 1.2.3.4");
    assert_eq!(sev, Severity::High);
    assert!(msg.starts_with("[Possible port scan] "));
    let (sev, _, msg) = classified("kernel: [UFW BLOCK] IN=eth0");
    assert_eq!(sev, Severity::Medium);
    assert!(msg.starts_with("[Firewall event] "));
    let (_, _, msg) = classified("kernel: packet DROP src=1.2.3.4");
    assert!(msg.starts_with("[Firewall deny/drop] "));
}

#[test]
fn case_insensitive_rules() {
    let (sev, _, msg) = classified("CRONTAB edited by operator");
    assert_eq!(sev, Severity::Medium);
    assert!(msg.starts_with("[Cron job modified] "));
    let (_, _, msg) = classified("user read ~/.BASH_HISTORY");
    assert!(msg.starts_with("[Shell history file accessed] "));
}

#[test]
fn service_started_and_segfault() {
    let (sev, _, msg) = classified("systemd[1]: Started Daily apt upgrade.");
    assert_eq!(sev, Severity::Low);
    assert!(msg.starts_with("[Service started] "));
    let (_, _, msg) = classified("kernel: app[42]: segfault at 0 ip 0");
    assert!(msg.starts_with("[Segmentation fault] "));
}

#[test]
fn windows_event_ids_in_text() {
    let (sev, _, msg) = classified("EventID=4740 account locked");
    assert_eq!(sev, Severity::High);
    assert!(msg.starts_with("[Account lockout] "));
    let (sev, _, msg) = classified("EventID=4720 created");
    assert_eq!(sev, Severity::Medium);
    assert!(msg.starts_with("[Windows account created] "));
}

#[test]
fn macos_rules() {
    let (_, _, msg) = classified("Gatekeeper: app was blocked");
    assert!(msg.starts_with("[macOS Gatekeeper blocked app] "));
    let (sev, _, msg) = classified("TCC request denied for camera");
    assert_eq!(sev, Severity::Medium);
    assert!(msg.starts_with("[macOS privacy permission denied] "));
}

#[test]
fn unclassified_lines_are_low() {
    let (sev, user, msg) = classified("just a regular message");
    assert_eq!(sev, Severity::Low);
    assert_eq!(user, "system");
    assert_eq!(msg, "[Unclassified] just a regular message");
}

#[test]
fn classify_line_agrees_with_parse_line() {
    let (sev, label) = classify_line("history -c");
    assert_eq!(sev, Severity::High);
    assert_eq!(label, "Shell history cleared/disabled");
}

#[test]
fn hash_line_is_sha256_hex() {
    assert_eq!(hash_line("abc"), "ba7816bf8f01cfea414140de5dae2223b00361a396177a9cb410ff61f20015ad");
    assert_eq!(hash_line(""), "e3b0c44298fc1c149afbf4c8996fb92427ae41e4649b934ca495991b7852b855");
    assert_eq!(hash_line("abc"), hash_line("abc"));
    assert_ne!(hash_line("abc"), hash_line("abd"));
}

#[test]
fn severity_names() {
    assert_eq!(Severity::Low.name(), "Low");
    assert_eq!(Severity::Medium.name(), "Medium");
    assert_eq!(Severity::High.name(), "High");
    assert_eq!(Severity::Critical.name(), "Critical");
}
