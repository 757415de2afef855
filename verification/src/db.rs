use vstd::prelude::*;

use crate::models::NotificationChannel;
use crate::text::str_eq;

verus! {

#[derive(Debug)]
pub struct UserRow {
    pub id: i32,
    pub username: String,
    pub role: String,
}

#[derive(Debug)]
pub struct WatchedPathRow {
    pub id: i32,
    pub path: String,
    pub enabled: bool,
}

/// Rank of a severity name on the fixed scale: Critical 3, High 2, Medium 1,
/// and 0 for Low or any unrecognised name.
pub open spec fn rank_of(s: Seq<char>) -> u8 {
    if s == "Critical"@ {
        3
    } else if s == "High"@ {
        2
    } else if s == "Medium"@ {
        1
    } else {
        0
    }
}

pub fn severity_rank(s: &str) -> (r: u8)
    ensures
        r == rank_of(s@),
{
    if str_eq(s, "Critical") {
        3
    } else if str_eq(s, "High") {
        2
    } else if str_eq(s, "Medium") {
        1
    } else {
        0
    }
}

/// Whether a channel wants to hear of an event of the given severity: its
/// threshold ranks at or below the event's.
pub open spec fn wants(channel: NotificationChannel, severity: Seq<char>) -> bool {
    rank_of(severity) >= rank_of(channel.min_severity@)
}

/// The position of a severity on the scale, least severe first.
pub open spec fn severity_level(s: crate::models::Severity) -> u8 {
    match s {
        crate::models::Severity::Low => 0,
        crate::models::Severity::Medium => 1,
        crate::models::Severity::High => 2,
        crate::models::Severity::Critical => 3,
    }
}

/// Severity names rank in the order of the severities themselves, so the
/// names events travel under and the alert thresholds share one scale.
pub proof fn lemma_rank_follows_severity(s: crate::models::Severity)
    ensures
        rank_of(crate::models::severity_name(s)) == severity_level(s),
{
    reveal_strlit("Low");
    reveal_strlit("Medium");
    reveal_strlit("High");
    reveal_strlit("Critical");
    assert("Low"@.len() == 3 && "Medium"@.len() == 6 && "High"@.len() == 4);
    assert("Critical"@.len() == 8);
    match s {
        crate::models::Severity::Low => {
            assert("Low"@ != "Critical"@);
            assert("Low"@ != "High"@);
            assert("Low"@ != "Medium"@);
        },
        crate::models::Severity::Medium => {
            assert("Medium"@ != "Critical"@);
            assert("Medium"@ != "High"@);
        },
        crate::models::Severity::High => {
            assert("High"@ != "Critical"@);
        },
        crate::models::Severity::Critical => {},
    }
}

/// Thresholds and events share one scale: a channel whose threshold is the
/// name of severity `t` hears an event of severity `s` exactly when `s` is
/// at least as severe as `t` (Low < Medium < High < Critical); a channel
/// with an unrecognised threshold hears every event.
pub proof fn lemma_threshold_scale(c: NotificationChannel, s: crate::models::Severity, t: crate::models::Severity)
    ensures
        c.min_severity@ == crate::models::severity_name(t) ==> (wants(c, crate::models::severity_name(s))
            <==> severity_level(s) >= severity_level(t)),
        (c.min_severity@ != "Low"@ && c.min_severity@ != "Medium"@ && c.min_severity@ != "High"@
            && c.min_severity@ != "Critical"@) ==> wants(c, crate::models::severity_name(s)),
{
    lemma_rank_follows_severity(s);
    lemma_rank_follows_severity(t);
}

/// Of the given (enabled) channels, those whose threshold the event meets,
/// in the order given.
pub fn channels_for_severity(channels: Vec<NotificationChannel>, severity: &str) -> (r: Vec<
    NotificationChannel,
>)
    ensures
        r@ == channels@.filter(|c: NotificationChannel| wants(c, severity@)),
{
    let ghost orig = channels@;
    let event_rank = severity_rank(severity);
    let mut rest = channels;
    let mut out: Vec<NotificationChannel> = Vec::new();
    let ghost mut k: int = 0;
    while rest.len() > 0
        invariant
            0 <= k <= orig.len(),
            rest@ == orig.skip(k),
            out@ == orig.take(k).filter(|c: NotificationChannel| wants(c, severity@)),
            event_rank == rank_of(severity@),
        decreases rest.len(),
    {
        let c = rest.remove(0);
        proof {
            reveal(Seq::filter);
            assert(c == orig[k]);
            assert(orig.take(k + 1).drop_last() =~= orig.take(k));
            assert(orig.take(k + 1).last() == orig[k]);
            assert(rest@ =~= orig.skip(k + 1));
        }
        let keep = event_rank >= severity_rank(c.min_severity.as_str());
        if keep {
            out.push(c);
        }
        proof {
            k = k + 1;
        }
    }
    proof {
        assert(orig.take(k) =~= orig);
    }
    out
}

/// The role of a newly signed-up account: the very first account becomes
/// the admin, every later one a plain user.
pub fn role_for_new_user(existing_users: i64) -> (r: &'static str)
    ensures
        r@ == (if existing_users == 0 {
            "admin"@
        } else {
            "user"@
        }),
{
    if existing_users == 0 {
        "admin"
    } else {
        "user"
    }
}

/// Creating the bootstrap (first) account closes self-signup behind it.
pub fn closes_self_signup(existing_users: i64) -> (r: bool)
    ensures
        r == (existing_users == 0),
{
    existing_users == 0
}

} // verus!
