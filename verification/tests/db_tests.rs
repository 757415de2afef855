use seclog::db::{channels_for_severity, closes_self_signup, role_for_new_user, severity_rank};
use seclog::models::{NotificationChannel, Severity};

fn channel(id: i32, min: &str) -> NotificationChannel {
    NotificationChannel {
        id,
        kind: "slack".to_string(),
        name: format!("c{}", id),
        config: "{}".to_string(),
        min_severity: min.to_string(),
        enabled: true,
    }
}

#[test]
fn ranks() {
    assert_eq!(severity_rank("Critical"), 3);
    assert_eq!(severity_rank("High"), 2);
    assert_eq!(severity_rank("Medium"), 1);
    assert_eq!(severity_rank("Low"), 0);
    assert_eq!(severity_rank("bogus"), 0);
}

#[test]
fn channels_hear_events_at_or_above_threshold() {
    let all = vec![channel(1, "Low"), channel(2, "High"), channel(3, "Medium"), channel(4, "Critical")];
    let got: Vec<i32> = channels_for_severity(all, "High").iter().map(|c| c.id).collect();
    assert_eq!(got, vec![1, 2, 3]);
    let all = vec![channel(1, "Low"), channel(2, "High"), channel(3, "weird")];
    let got: Vec<i32> = channels_for_severity(all, "Low").iter().map(|c| c.id).collect();
    assert_eq!(got, vec![1, 3]);
    let all = vec![channel(5, "Critical")];
    assert_eq!(channels_for_severity(all, "Critical").len(), 1);
}

#[test]
fn first_account_is_admin() {
    assert_eq!(role_for_new_user(0), "admin");
    assert_eq!(role_for_new_user(1), "user");
    assert!(closes_self_signup(0));
    assert!(!closes_self_signup(5));
}

#[test]
fn severity_names_rank_in_severity_order() {
    let order = [Severity::Low, Severity::Medium, Severity::High, Severity::Critical];
    for (level, s) in order.iter().enumerate() {
        assert_eq!(severity_rank(s.name()) as usize, level);
    }
}
