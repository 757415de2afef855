use seclog::access::{
    accept_submission, admin_gate, base_url_from_headers, check_admin_create_user,
    check_new_password, check_not_blank, check_same_origin, check_signup, check_signup_request,
    check_user_deletion,
    forced_change_gate, is_password_long_enough, release_version, scheme_from_header,
    signup_status, update_available,
};
use seclog::models::NewLogEntry;
use seclog::text::trim_text;

#[test]
fn base_url_defaults() {
    assert_eq!(base_url_from_headers(None, None), "http://localhost:3000");
    assert_eq!(base_url_from_headers(Some("logs.example:8443"), Some("https, http")), "https://logs.example:8443");
    assert_eq!(base_url_from_headers(Some("h"), Some("  https  ")), "https://h");
    assert_eq!(scheme_from_header(Some("")), "");
}

#[test]
fn same_origin_rule() {
    assert_eq!(check_same_origin("GET", Some("https://evil"), None, None), Ok(()));
    assert_eq!(check_same_origin("HEAD", None, None, None), Ok(()));
    assert_eq!(check_same_origin("OPTIONS", None, None, None), Ok(()));
    assert_eq!(check_same_origin("POST", None, None, None), Err(403));
    assert_eq!(check_same_origin("POST", Some("http://app:3000"), Some("app:3000"), None), Ok(()));
    assert_eq!(check_same_origin("POST", Some("https://app"), Some("app"), Some("https")), Ok(()));
    assert_eq!(check_same_origin("DELETE", Some("http://app"), Some("app"), Some("https")), Err(403));
    assert_eq!(check_same_origin("POST", None, Some("app"), None), Ok(()));
}

#[test]
fn forced_password_change_gate() {
    assert_eq!(forced_change_gate(true, "/logs"), Err(428));
    assert_eq!(forced_change_gate(true, "/me"), Ok(()));
    assert_eq!(forced_change_gate(true, "/change-password"), Ok(()));
    assert_eq!(forced_change_gate(false, "/logs"), Ok(()));
}

#[test]
fn admin_only() {
    assert_eq!(admin_gate("admin"), Ok(()));
    assert_eq!(admin_gate("user"), Err(403));
    assert_eq!(admin_gate("Admin"), Err(403));
}

#[test]
fn signup_rules() {
    assert_eq!(check_signup("alice", "fifteen chars!!", false, 0), Ok(()));
    assert_eq!(check_signup("alice", "fourteen chars", true, 3), Err(400));
    assert_eq!(check_signup("  ", "a long enough password", true, 3), Err(400));
    assert_eq!(check_signup("bob", "a long enough password", false, 1), Err(403));
    assert_eq!(check_signup("bob", "a long enough password", true, 1), Ok(()));
    assert_eq!(check_signup_request("alice", "fifteen chars!!"), Ok(()));
    assert_eq!(check_signup_request("", "fifteen chars!!"), Err(400));
    assert_eq!(check_signup_request("alice", "short"), Err(400));
    assert_eq!(signup_status(0, false), (true, true));
    assert_eq!(signup_status(2, false), (false, false));
    assert_eq!(signup_status(2, true), (true, false));
}

#[test]
fn password_minimum_counts_characters() {
    assert!(!is_password_long_enough("abcdefghijklmn"));
    assert!(is_password_long_enough("abcdefghijklmno"));
    // Eight two-byte characters are sixteen bytes but only eight characters.
    assert!(!is_password_long_enough("éééééééé"));
    assert!(is_password_long_enough("ééééééééééééééé"));
    assert_eq!(check_new_password("short"), Err(400));
    assert_eq!(check_new_password("long enough passphrase"), Ok(()));
}

#[test]
fn admin_created_user_names() {
    assert_eq!(check_admin_create_user("carol"), Ok(()));
    assert_eq!(check_admin_create_user(""), Err(400));
    assert_eq!(check_admin_create_user(&"x".repeat(255)), Ok(()));
    assert_eq!(check_admin_create_user(&"x".repeat(256)), Err(400));
    assert_eq!(check_user_deletion(3, 3), Err(400));
    assert_eq!(check_user_deletion(3, 4), Ok(()));
    assert_eq!(check_not_blank(" /var/log/x "), Ok(()));
    assert_eq!(check_not_blank(" \t"), Err(400));
}

fn entry(sev: &str, user: &str, msg: &str, host: &str) -> NewLogEntry {
    NewLogEntry { severity: sev.to_string(), user: user.to_string(), message: msg.to_string(), host: host.to_string() }
}

#[test]
fn submissions_are_validated_and_keyed() {
    let e = entry("High", "root", "[SSH failed login] x", "web-1");
    let key = accept_submission(&e).unwrap();
    assert_eq!(key, seclog::parser::hash_line("Highroot[SSH failed login] xweb-1"));
    assert_eq!(accept_submission(&e).unwrap(), key);
    assert_eq!(accept_submission(&entry("High", " ", "m", "h")), Err(400));
    assert_eq!(accept_submission(&entry("High", "u", "m", &"h".repeat(256))), Err(400));
}

#[test]
fn new_log_entry_bounds() {
    assert!(entry("Low", "u", "m", "h").is_valid());
    assert!(!entry("", "u", "m", "h").is_valid());
    assert!(!entry("Low", "u", "\n\t", "h").is_valid());
    assert!(!entry(&"x".repeat(21), "u", "m", "h").is_valid());
    assert!(entry(&"x".repeat(20), "u", "m", "h").is_valid());
    assert!(entry("Low", &"u".repeat(255), &"m".repeat(5000), &"h".repeat(255)).is_valid());
    assert!(!entry("Low", "u", &"m".repeat(5001), "h").is_valid());
    // Byte length, not character count: 128 two-byte characters are 256 bytes.
    assert!(!entry("Low", &"é".repeat(128), "m", "h").is_valid());
}

#[test]
fn versions() {
    assert_eq!(release_version("v1.2.3"), "1.2.3");
    assert_eq!(release_version("vv2"), "2");
    assert_eq!(release_version("1.0"), "1.0");
    assert!(update_available(Some("1.2.4"), "1.2.3"));
    assert!(!update_available(Some("1.2.3"), "1.2.3"));
    assert!(!update_available(None, "1.2.3"));
    assert_eq!(trim_text("  1.2.3\n"), "1.2.3");
}
