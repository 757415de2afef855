use vstd::prelude::*;

use crate::fingerprint::{sha256_hex, spec_sha256_hex};
use crate::models::{LogEntry, Severity};
use crate::pattern::{matches_pattern, pattern_hits, regex_capture_one, regex_group_one};
use crate::text::{is_blank, push_str, str_is_blank};

verus! {

/// One detection rule as a value: the line is classified by it when
/// `pattern` matches and, if `also` is present, that pattern matches too.
pub struct RuleSpec {
    pub pattern: Seq<char>,
    pub also: Option<Seq<char>>,
    pub severity: Severity,
    pub label: Seq<char>,
}

/// A detection rule. Rules that need two independent facts about a line
/// (an audit record type and its result) carry a second pattern in `also`;
/// both must match.
pub struct Rule {
    pub pattern: &'static str,
    pub also: Option<&'static str>,
    pub severity: Severity,
    pub label: &'static str,
}

impl Rule {
    pub open spec fn model(&self) -> RuleSpec {
        RuleSpec {
            pattern: self.pattern@,
            also: match self.also {
                Some(a) => Some(a@),
                None => None,
            },
            severity: self.severity,
            label: self.label@,
        }
    }
}

pub const RULE_COUNT: usize = 43;

/// The detection table, in priority order: the rule at index `i`.
pub open spec fn rule_spec(i: int) -> RuleSpec {
    if i == 0 {
        RuleSpec { pattern: "(?i)EventID=1102"@, also: None, severity: Severity::Critical, label: "Audit log cleared"@ }
    } else if i == 1 {
        RuleSpec { pattern: "(?i)history -c|unset HISTFILE"@, also: None, severity: Severity::High, label: "Shell history cleared/disabled"@ }
    } else if i == 2 {
        RuleSpec { pattern: "type=USER_LOGIN"@, also: Some("res=failed"@), severity: Severity::Medium, label: "Failed login (audit)"@ }
    } else if i == 3 {
        RuleSpec { pattern: "type=USER_LOGIN"@, also: Some("res=success"@), severity: Severity::Low, label: "Successful login (audit)"@ }
    } else if i == 4 {
        RuleSpec { pattern: "type=CRYPTO_KEY_USER"@, also: Some("res=success"@), severity: Severity::Low, label: "SSH session key teardown (routine)"@ }
    } else if i == 5 {
        RuleSpec { pattern: "type=CRYPTO_KEY_USER"@, also: None, severity: Severity::Low, label: "SSH crypto key event"@ }
    } else if i == 6 {
        RuleSpec { pattern: "type=USER_START"@, also: None, severity: Severity::Low, label: "Session started (audit)"@ }
    } else if i == 7 {
        RuleSpec { pattern: "type=USER_END"@, also: None, severity: Severity::Low, label: "Session ended (audit)"@ }
    } else if i == 8 {
        RuleSpec { pattern: "(?i)authorized_keys"@, also: None, severity: Severity::High, label: "SSH authorized_keys modified"@ }
    } else if i == 9 {
        RuleSpec { pattern: "(?i)maximum authentication attempts exceeded"@, also: None, severity: Severity::High, label: "SSH max auth attempts exceeded"@ }
    } else if i == 10 {
        RuleSpec { pattern: "(?i)disconnect(ed)? by invalid user"@, also: None, severity: Severity::High, label: "SSH invalid user disconnect"@ }
    } else if i == 11 {
        RuleSpec { pattern: "(?i)Repeated login failures"@, also: None, severity: Severity::High, label: "Repeated login failures"@ }
    } else if i == 12 {
        RuleSpec { pattern: "Invalid user"@, also: None, severity: Severity::High, label: "SSH invalid user attempt"@ }
    } else if i == 13 {
        RuleSpec { pattern: "Failed password"@, also: None, severity: Severity::High, label: "SSH failed login"@ }
    } else if i == 14 {
        RuleSpec { pattern: "(?i)authentication failure"@, also: None, severity: Severity::Medium, label: "Authentication failure"@ }
    } else if i == 15 {
        RuleSpec { pattern: "Accepted password|Accepted publickey"@, also: None, severity: Severity::Low, label: "SSH successful login"@ }
    } else if i == 16 {
        RuleSpec { pattern: "(?i)Received disconnect.*11:"@, also: None, severity: Severity::Low, label: "SSH client disconnect"@ }
    } else if i == 17 {
        RuleSpec { pattern: "(?i)NOT in sudoers"@, also: None, severity: Severity::High, label: "Unauthorized sudo attempt"@ }
    } else if i == 18 {
        RuleSpec { pattern: "(?i)su:.*FAILED"@, also: None, severity: Severity::High, label: "su failed attempt"@ }
    } else if i == 19 {
        RuleSpec { pattern: "(?i)su:.*session opened"@, also: None, severity: Severity::Medium, label: "su session opened"@ }
    } else if i == 20 {
        RuleSpec { pattern: "(?i)incorrect password"@, also: None, severity: Severity::High, label: "Sudo failed attempt"@ }
    } else if i == 21 {
        RuleSpec { pattern: "sudo:.*COMMAND="@, also: None, severity: Severity::Low, label: "Sudo command executed"@ }
    } else if i == 22 {
        RuleSpec { pattern: "(?i)session opened for user root"@, also: None, severity: Severity::Medium, label: "Root session opened"@ }
    } else if i == 23 {
        RuleSpec { pattern: "(?i)added to group"@, also: None, severity: Severity::Medium, label: "Group membership changed"@ }
    } else if i == 24 {
        RuleSpec { pattern: "(?i)removed from group"@, also: None, severity: Severity::Medium, label: "Group membership changed"@ }
    } else if i == 25 {
        RuleSpec { pattern: "(?i)useradd|userdel|usermod"@, also: None, severity: Severity::Medium, label: "User account modified"@ }
    } else if i == 26 {
        RuleSpec { pattern: "(?i)passwd:"@, also: None, severity: Severity::Medium, label: "Password changed"@ }
    } else if i == 27 {
        RuleSpec { pattern: "(?i)port scan|nmap"@, also: None, severity: Severity::High, label: "Possible port scan"@ }
    } else if i == 28 {
        RuleSpec { pattern: "(?i)connection refused"@, also: None, severity: Severity::Low, label: "Connection refused"@ }
    } else if i == 29 {
        RuleSpec { pattern: "(?i)iptables|ufw|firewalld"@, also: None, severity: Severity::Medium, label: "Firewall event"@ }
    } else if i == 30 {
        RuleSpec { pattern: "(?i)DENY|DROP"@, also: None, severity: Severity::Medium, label: "Firewall deny/drop"@ }
    } else if i == 31 {
        RuleSpec { pattern: "(?i)\\.bash_history"@, also: None, severity: Severity::Medium, label: "Shell history file accessed"@ }
    } else if i == 32 {
        RuleSpec { pattern: "(?i)crontab"@, also: None, severity: Severity::Medium, label: "Cron job modified"@ }
    } else if i == 33 {
        RuleSpec { pattern: "(?i)segfault"@, also: None, severity: Severity::Medium, label: "Segmentation fault"@ }
    } else if i == 34 {
        RuleSpec { pattern: "(?i)systemd\\[1\\]: Started"@, also: None, severity: Severity::Low, label: "Service started"@ }
    } else if i == 35 {
        RuleSpec { pattern: "(?i)Gatekeeper.*blocked"@, also: None, severity: Severity::High, label: "macOS Gatekeeper blocked app"@ }
    } else if i == 36 {
        RuleSpec { pattern: "(?i)codesign.*invalid"@, also: None, severity: Severity::High, label: "macOS code signature invalid"@ }
    } else if i == 37 {
        RuleSpec { pattern: "(?i)Sender Authentication Failed"@, also: None, severity: Severity::High, label: "macOS auth failure"@ }
    } else if i == 38 {
        RuleSpec { pattern: "(?i)TCC.*denied"@, also: None, severity: Severity::Medium, label: "macOS privacy permission denied"@ }
    } else if i == 39 {
        RuleSpec { pattern: "(?i)EventID=4740"@, also: None, severity: Severity::High, label: "Account lockout"@ }
    } else if i == 40 {
        RuleSpec { pattern: "(?i)EventID=4732"@, also: None, severity: Severity::High, label: "Windows user added to privileged group"@ }
    } else if i == 41 {
        RuleSpec { pattern: "(?i)EventID=4625"@, also: None, severity: Severity::High, label: "Windows failed logon"@ }
    } else {
        RuleSpec { pattern: "(?i)EventID=4720"@, also: None, severity: Severity::Medium, label: "Windows account created"@ }
    }
}

/// The rule at index `i` of the detection table.
pub fn rule_at(i: usize) -> (r: Rule)
    requires
        i < RULE_COUNT,
    ensures
        r.model() == rule_spec(i as int),
{
    if i == 0 {
        Rule { pattern: "(?i)EventID=1102", also: None, severity: Severity::Critical, label: "Audit log cleared" }
    } else if i == 1 {
        Rule { pattern: "(?i)history -c|unset HISTFILE", also: None, severity: Severity::High, label: "Shell history cleared/disabled" }
    } else if i == 2 {
        Rule { pattern: "type=USER_LOGIN", also: Some("res=failed"), severity: Severity::Medium, label: "Failed login (audit)" }
    } else if i == 3 {
        Rule { pattern: "type=USER_LOGIN", also: Some("res=success"), severity: Severity::Low, label: "Successful login (audit)" }
    } else if i == 4 {
        Rule { pattern: "type=CRYPTO_KEY_USER", also: Some("res=success"), severity: Severity::Low, label: "SSH session key teardown (routine)" }
    } else if i == 5 {
        Rule { pattern: "type=CRYPTO_KEY_USER", also: None, severity: Severity::Low, label: "SSH crypto key event" }
    } else if i == 6 {
        Rule { pattern: "type=USER_START", also: None, severity: Severity::Low, label: "Session started (audit)" }
    } else if i == 7 {
        Rule { pattern: "type=USER_END", also: None, severity: Severity::Low, label: "Session ended (audit)" }
    } else if i == 8 {
        Rule { pattern: "(?i)authorized_keys", also: None, severity: Severity::High, label: "SSH authorized_keys modified" }
    } else if i == 9 {
        Rule { pattern: "(?i)maximum authentication attempts exceeded", also: None, severity: Severity::High, label: "SSH max auth attempts exceeded" }
    } else if i == 10 {
        Rule { pattern: "(?i)disconnect(ed)? by invalid user", also: None, severity: Severity::High, label: "SSH invalid user disconnect" }
    } else if i == 11 {
        Rule { pattern: "(?i)Repeated login failures", also: None, severity: Severity::High, label: "Repeated login failures" }
    } else if i == 12 {
        Rule { pattern: "Invalid user", also: None, severity: Severity::High, label: "SSH invalid user attempt" }
    } else if i == 13 {
        Rule { pattern: "Failed password", also: None, severity: Severity::High, label: "SSH failed login" }
    } else if i == 14 {
        Rule { pattern: "(?i)authentication failure", also: None, severity: Severity::Medium, label: "Authentication failure" }
    } else if i == 15 {
        Rule { pattern: "Accepted password|Accepted publickey", also: None, severity: Severity::Low, label: "SSH successful login" }
    } else if i == 16 {
        Rule { pattern: "(?i)Received disconnect.*11:", also: None, severity: Severity::Low, label: "SSH client disconnect" }
    } else if i == 17 {
        Rule { pattern: "(?i)NOT in sudoers", also: None, severity: Severity::High, label: "Unauthorized sudo attempt" }
    } else if i == 18 {
        Rule { pattern: "(?i)su:.*FAILED", also: None, severity: Severity::High, label: "su failed attempt" }
    } else if i == 19 {
        Rule { pattern: "(?i)su:.*session opened", also: None, severity: Severity::Medium, label: "su session opened" }
    } else if i == 20 {
        Rule { pattern: "(?i)incorrect password", also: None, severity: Severity::High, label: "Sudo failed attempt" }
    } else if i == 21 {
        Rule { pattern: "sudo:.*COMMAND=", also: None, severity: Severity::Low, label: "Sudo command executed" }
    } else if i == 22 {
        Rule { pattern: "(?i)session opened for user root", also: None, severity: Severity::Medium, label: "Root session opened" }
    } else if i == 23 {
        Rule { pattern: "(?i)added to group", also: None, severity: Severity::Medium, label: "Group membership changed" }
    } else if i == 24 {
        Rule { pattern: "(?i)removed from group", also: None, severity: Severity::Medium, label: "Group membership changed" }
    } else if i == 25 {
        Rule { pattern: "(?i)useradd|userdel|usermod", also: None, severity: Severity::Medium, label: "User account modified" }
    } else if i == 26 {
        Rule { pattern: "(?i)passwd:", also: None, severity: Severity::Medium, label: "Password changed" }
    } else if i == 27 {
        Rule { pattern: "(?i)port scan|nmap", also: None, severity: Severity::High, label: "Possible port scan" }
    } else if i == 28 {
        Rule { pattern: "(?i)connection refused", also: None, severity: Severity::Low, label: "Connection refused" }
    } else if i == 29 {
        Rule { pattern: "(?i)iptables|ufw|firewalld", also: None, severity: Severity::Medium, label: "Firewall event" }
    } else if i == 30 {
        Rule { pattern: "(?i)DENY|DROP", also: None, severity: Severity::Medium, label: "Firewall deny/drop" }
    } else if i == 31 {
        Rule { pattern: "(?i)\\.bash_history", also: None, severity: Severity::Medium, label: "Shell history file accessed" }
    } else if i == 32 {
        Rule { pattern: "(?i)crontab", also: None, severity: Severity::Medium, label: "Cron job modified" }
    } else if i == 33 {
        Rule { pattern: "(?i)segfault", also: None, severity: Severity::Medium, label: "Segmentation fault" }
    } else if i == 34 {
        Rule { pattern: "(?i)systemd\\[1\\]: Started", also: None, severity: Severity::Low, label: "Service started" }
    } else if i == 35 {
        Rule { pattern: "(?i)Gatekeeper.*blocked", also: None, severity: Severity::High, label: "macOS Gatekeeper blocked app" }
    } else if i == 36 {
        Rule { pattern: "(?i)codesign.*invalid", also: None, severity: Severity::High, label: "macOS code signature invalid" }
    } else if i == 37 {
        Rule { pattern: "(?i)Sender Authentication Failed", also: None, severity: Severity::High, label: "macOS auth failure" }
    } else if i == 38 {
        Rule { pattern: "(?i)TCC.*denied", also: None, severity: Severity::Medium, label: "macOS privacy permission denied" }
    } else if i == 39 {
        Rule { pattern: "(?i)EventID=4740", also: None, severity: Severity::High, label: "Account lockout" }
    } else if i == 40 {
        Rule { pattern: "(?i)EventID=4732", also: None, severity: Severity::High, label: "Windows user added to privileged group" }
    } else if i == 41 {
        Rule { pattern: "(?i)EventID=4625", also: None, severity: Severity::High, label: "Windows failed logon" }
    } else {
        Rule { pattern: "(?i)EventID=4720", also: None, severity: Severity::Medium, label: "Windows account created" }
    }
}

/// Whether rule `i` classifies `line`.
pub open spec fn rule_hits(i: int, line: Seq<char>) -> bool {
    let r = rule_spec(i);
    &&& pattern_hits(r.pattern, line)
    &&& match r.also {
        Some(a) => pattern_hits(a, line),
        None => true,
    }
}

/// The first rule at index `from` or later that classifies `line`.
pub open spec fn first_hit(line: Seq<char>, from: int) -> Option<int>
    decreases RULE_COUNT - from,
{
    if from < 0 || from >= RULE_COUNT {
        None
    } else if rule_hits(from, line) {
        Some(from)
    } else {
        first_hit(line, from + 1)
    }
}

/// Severity and label of a line: those of the first matching rule, or
/// `Low` / "Unclassified" when none matches.
pub open spec fn classify(line: Seq<char>) -> (Severity, Seq<char>) {
    match first_hit(line, 0) {
        Some(i) => (rule_spec(i).severity, rule_spec(i).label),
        None => (Severity::Low, "Unclassified"@),
    }
}

fn rule_applies(rule: &Rule, line: &str) -> (r: bool)
    ensures
        r == (pattern_hits(rule.model().pattern, line@) && match rule.model().also {
            Some(a) => pattern_hits(a, line@),
            None => true,
        }),
{
    if !matches_pattern(rule.pattern, line) {
        return false;
    }
    match rule.also {
        Some(a) => matches_pattern(a, line),
        None => true,
    }
}

/// Runs the rule table over a line; first match wins.
pub fn classify_line(line: &str) -> (r: (Severity, &'static str))
    ensures
        r.0 == classify(line@).0,
        r.1@ == classify(line@).1,
{
    let mut i: usize = 0;
    while i < RULE_COUNT
        invariant
            i <= RULE_COUNT,
            first_hit(line@, 0) == first_hit(line@, i as int),
        decreases RULE_COUNT - i,
    {
        let rule = rule_at(i);
        if rule_applies(&rule, line) {
            return (rule.severity, rule.label);
        }
        i = i + 1;
    }
    (Severity::Low, "Unclassified")
}

proof fn lemma_first_hit_within(line: Seq<char>, from: int, s: int)
    requires
        0 <= from <= s < RULE_COUNT,
        rule_hits(s, line),
    ensures
        first_hit(line, from) is Some,
        from <= first_hit(line, from)->0 <= s,
    decreases s - from,
{
    if !rule_hits(from, line) {
        lemma_first_hit_within(line, from + 1, s);
    }
}

/// The tampering section comes first: a line naming Windows event 1102 (the
/// audit log was cleared) is always classified Critical, "Audit log cleared",
/// whatever else it contains.
pub proof fn lemma_audit_log_cleared_first(line: Seq<char>)
    requires
        pattern_hits("(?i)EventID=1102"@, line),
    ensures
        classify(line) == (Severity::Critical, "Audit log cleared"@),
{
    if pattern_hits("(?i)EventID=1102"@, line) {
        lemma_first_hit_within(line, 0, 0);
    }
    let k = first_hit(line, 0)->0;
    if k == 0 {
        reveal_strlit("Audit log cleared");
    }
}

/// The routine SSH key teardown (a CRYPTO_KEY_USER audit record with
/// res=success) is never swallowed by the generic CRYPTO_KEY_USER rule.
pub proof fn lemma_crypto_teardown_before_generic(line: Seq<char>)
    requires
        (pattern_hits("type=CRYPTO_KEY_USER"@, line) && pattern_hits("res=success"@, line)),
    ensures
        classify(line).1 != "SSH crypto key event"@,
{
    if (pattern_hits("type=CRYPTO_KEY_USER"@, line) && pattern_hits("res=success"@, line)) {
        lemma_first_hit_within(line, 0, 4);
    }
    let k = first_hit(line, 0)->0;
    reveal_strlit("SSH crypto key event");
    if k == 0 {
        reveal_strlit("Audit log cleared");
        assert("Audit log cleared"@.len() != "SSH crypto key event"@.len());
    } else if k == 1 {
        reveal_strlit("Shell history cleared/disabled");
        assert("Shell history cleared/disabled"@.len() != "SSH crypto key event"@.len());
    } else if k == 2 {
        reveal_strlit("Failed login (audit)");
        assert("Failed login (audit)"@[0] != "SSH crypto key event"@[0]);
    } else if k == 3 {
        reveal_strlit("Successful login (audit)");
        assert("Successful login (audit)"@.len() != "SSH crypto key event"@.len());
    } else if k == 4 {
        reveal_strlit("SSH session key teardown (routine)");
        assert("SSH session key teardown (routine)"@.len() != "SSH crypto key event"@.len());
    }
}

/// Specific SSH phrasings (authorized_keys, maximum authentication attempts,
/// disconnect by invalid user, repeated login failures) are never shadowed
/// by the generic "Invalid user" / "Failed password" rules.
pub proof fn lemma_specific_ssh_before_generic(line: Seq<char>)
    requires
        pattern_hits("(?i)authorized_keys"@, line) || pattern_hits("(?i)maximum authentication attempts exceeded"@, line) || pattern_hits("(?i)disconnect(ed)? by invalid user"@, line) || pattern_hits("(?i)Repeated login failures"@, line),
    ensures
        classify(line).1 != "SSH invalid user attempt"@,
        classify(line).1 != "SSH failed login"@,
{
    if pattern_hits("(?i)authorized_keys"@, line) {
        lemma_first_hit_within(line, 0, 8);
    } else if pattern_hits("(?i)maximum authentication attempts exceeded"@, line) {
        lemma_first_hit_within(line, 0, 9);
    } else if pattern_hits("(?i)disconnect(ed)? by invalid user"@, line) {
        lemma_first_hit_within(line, 0, 10);
    } else if pattern_hits("(?i)Repeated login failures"@, line) {
        lemma_first_hit_within(line, 0, 11);
    }
    let k = first_hit(line, 0)->0;
    reveal_strlit("SSH invalid user attempt");
    reveal_strlit("SSH failed login");
    if k == 0 {
        reveal_strlit("Audit log cleared");
        assert("Audit log cleared"@.len() != "SSH invalid user attempt"@.len());
        assert("Audit log cleared"@.len() != "SSH failed login"@.len());
    } else if k == 1 {
        reveal_strlit("Shell history cleared/disabled");
        assert("Shell history cleared/disabled"@.len() != "SSH invalid user attempt"@.len());
        assert("Shell history cleared/disabled"@.len() != "SSH failed login"@.len());
    } else if k == 2 {
        reveal_strlit("Failed login (audit)");
        assert("Failed login (audit)"@.len() != "SSH invalid user attempt"@.len());
        assert("Failed login (audit)"@.len() != "SSH failed login"@.len());
    } else if k == 3 {
        reveal_strlit("Successful login (audit)");
        assert("Successful login (audit)"@[1] != "SSH invalid user attempt"@[1]);
        assert("Successful login (audit)"@.len() != "SSH failed login"@.len());
    } else if k == 4 {
        reveal_strlit("SSH session key teardown (routine)");
        assert("SSH session key teardown (routine)"@.len() != "SSH invalid user attempt"@.len());
        assert("SSH session key teardown (routine)"@.len() != "SSH failed login"@.len());
    } else if k == 5 {
        reveal_strlit("SSH crypto key event");
        assert("SSH crypto key event"@.len() != "SSH invalid user attempt"@.len());
        assert("SSH crypto key event"@.len() != "SSH failed login"@.len());
    } else if k == 6 {
        reveal_strlit("Session started (audit)");
        assert("Session started (audit)"@.len() != "SSH invalid user attempt"@.len());
        assert("Session started (audit)"@.len() != "SSH failed login"@.len());
    } else if k == 7 {
        reveal_strlit("Session ended (audit)");
        assert("Session ended (audit)"@.len() != "SSH invalid user attempt"@.len());
        assert("Session ended (audit)"@.len() != "SSH failed login"@.len());
    } else if k == 8 {
        reveal_strlit("SSH authorized_keys modified");
        assert("SSH authorized_keys modified"@.len() != "SSH invalid user attempt"@.len());
        assert("SSH authorized_keys modified"@.len() != "SSH failed login"@.len());
    } else if k == 9 {
        reveal_strlit("SSH max auth attempts exceeded");
        assert("SSH max auth attempts exceeded"@.len() != "SSH invalid user attempt"@.len());
        assert("SSH max auth attempts exceeded"@.len() != "SSH failed login"@.len());
    } else if k == 10 {
        reveal_strlit("SSH invalid user disconnect");
        assert("SSH invalid user disconnect"@.len() != "SSH invalid user attempt"@.len());
        assert("SSH invalid user disconnect"@.len() != "SSH failed login"@.len());
    } else if k == 11 {
        reveal_strlit("Repeated login failures");
        assert("Repeated login failures"@.len() != "SSH invalid user attempt"@.len());
        assert("Repeated login failures"@.len() != "SSH failed login"@.len());
    }
}

/// The broad "sudo:.*COMMAND=" catch-all stays last among the sudo and su
/// rules: a line that shows a refused sudo, a failed or opened su, or an
/// incorrect sudo password is never classified as a routine sudo command.
pub proof fn lemma_sudo_catch_all_last(line: Seq<char>)
    requires
        pattern_hits("(?i)NOT in sudoers"@, line) || pattern_hits("(?i)su:.*FAILED"@, line) || pattern_hits("(?i)su:.*session opened"@, line) || pattern_hits("(?i)incorrect password"@, line),
    ensures
        classify(line).1 != "Sudo command executed"@,
{
    if pattern_hits("(?i)NOT in sudoers"@, line) {
        lemma_first_hit_within(line, 0, 17);
    } else if pattern_hits("(?i)su:.*FAILED"@, line) {
        lemma_first_hit_within(line, 0, 18);
    } else if pattern_hits("(?i)su:.*session opened"@, line) {
        lemma_first_hit_within(line, 0, 19);
    } else if pattern_hits("(?i)incorrect password"@, line) {
        lemma_first_hit_within(line, 0, 20);
    }
    let k = first_hit(line, 0)->0;
    reveal_strlit("Sudo command executed");
    if k == 0 {
        reveal_strlit("Audit log cleared");
        assert("Audit log cleared"@.len() != "Sudo command executed"@.len());
    } else if k == 1 {
        reveal_strlit("Shell history cleared/disabled");
        assert("Shell history cleared/disabled"@.len() != "Sudo command executed"@.len());
    } else if k == 2 {
        reveal_strlit("Failed login (audit)");
        assert("Failed login (audit)"@.len() != "Sudo command executed"@.len());
    } else if k == 3 {
        reveal_strlit("Successful login (audit)");
        assert("Successful login (audit)"@.len() != "Sudo command executed"@.len());
    } else if k == 4 {
        reveal_strlit("SSH session key teardown (routine)");
        assert("SSH session key teardown (routine)"@.len() != "Sudo command executed"@.len());
    } else if k == 5 {
        reveal_strlit("SSH crypto key event");
        assert("SSH crypto key event"@.len() != "Sudo command executed"@.len());
    } else if k == 6 {
        reveal_strlit("Session started (audit)");
        assert("Session started (audit)"@.len() != "Sudo command executed"@.len());
    } else if k == 7 {
        reveal_strlit("Session ended (audit)");
        assert("Session ended (audit)"@[1] != "Sudo command executed"@[1]);
    } else if k == 8 {
        reveal_strlit("SSH authorized_keys modified");
        assert("SSH authorized_keys modified"@.len() != "Sudo command executed"@.len());
    } else if k == 9 {
        reveal_strlit("SSH max auth attempts exceeded");
        assert("SSH max auth attempts exceeded"@.len() != "Sudo command executed"@.len());
    } else if k == 10 {
        reveal_strlit("SSH invalid user disconnect");
        assert("SSH invalid user disconnect"@.len() != "Sudo command executed"@.len());
    } else if k == 11 {
        reveal_strlit("Repeated login failures");
        assert("Repeated login failures"@.len() != "Sudo command executed"@.len());
    } else if k == 12 {
        reveal_strlit("SSH invalid user attempt");
        assert("SSH invalid user attempt"@.len() != "Sudo command executed"@.len());
    } else if k == 13 {
        reveal_strlit("SSH failed login");
        assert("SSH failed login"@.len() != "Sudo command executed"@.len());
    } else if k == 14 {
        reveal_strlit("Authentication failure");
        assert("Authentication failure"@.len() != "Sudo command executed"@.len());
    } else if k == 15 {
        reveal_strlit("SSH successful login");
        assert("SSH successful login"@.len() != "Sudo command executed"@.len());
    } else if k == 16 {
        reveal_strlit("SSH client disconnect");
        assert("SSH client disconnect"@[1] != "Sudo command executed"@[1]);
    } else if k == 17 {
        reveal_strlit("Unauthorized sudo attempt");
        assert("Unauthorized sudo attempt"@.len() != "Sudo command executed"@.len());
    } else if k == 18 {
        reveal_strlit("su failed attempt");
        assert("su failed attempt"@.len() != "Sudo command executed"@.len());
    } else if k == 19 {
        reveal_strlit("su session opened");
        assert("su session opened"@.len() != "Sudo command executed"@.len());
    } else if k == 20 {
        reveal_strlit("Sudo failed attempt");
        assert("Sudo failed attempt"@.len() != "Sudo command executed"@.len());
    }
}

/// The broad "DENY|DROP" rule stays last among the firewall rules: a port
/// scan, a refused connection or a named firewall is never reported as a
/// plain deny/drop.
pub proof fn lemma_firewall_broad_last(line: Seq<char>)
    requires
        pattern_hits("(?i)port scan|nmap"@, line) || pattern_hits("(?i)connection refused"@, line) || pattern_hits("(?i)iptables|ufw|firewalld"@, line),
    ensures
        classify(line).1 != "Firewall deny/drop"@,
{
    if pattern_hits("(?i)port scan|nmap"@, line) {
        lemma_first_hit_within(line, 0, 27);
    } else if pattern_hits("(?i)connection refused"@, line) {
        lemma_first_hit_within(line, 0, 28);
    } else if pattern_hits("(?i)iptables|ufw|firewalld"@, line) {
        lemma_first_hit_within(line, 0, 29);
    }
    let k = first_hit(line, 0)->0;
    reveal_strlit("Firewall deny/drop");
    if k == 0 {
        reveal_strlit("Audit log cleared");
        assert("Audit log cleared"@.len() != "Firewall deny/drop"@.len());
    } else if k == 1 {
        reveal_strlit("Shell history cleared/disabled");
        assert("Shell history cleared/disabled"@.len() != "Firewall deny/drop"@.len());
    } else if k == 2 {
        reveal_strlit("Failed login (audit)");
        assert("Failed login (audit)"@.len() != "Firewall deny/drop"@.len());
    } else if k == 3 {
        reveal_strlit("Successful login (audit)");
        assert("Successful login (audit)"@.len() != "Firewall deny/drop"@.len());
    } else if k == 4 {
        reveal_strlit("SSH session key teardown (routine)");
        assert("SSH session key teardown (routine)"@.len() != "Firewall deny/drop"@.len());
    } else if k == 5 {
        reveal_strlit("SSH crypto key event");
        assert("SSH crypto key event"@.len() != "Firewall deny/drop"@.len());
    } else if k == 6 {
        reveal_strlit("Session started (audit)");
        assert("Session started (audit)"@.len() != "Firewall deny/drop"@.len());
    } else if k == 7 {
        reveal_strlit("Session ended (audit)");
        assert("Session ended (audit)"@.len() != "Firewall deny/drop"@.len());
    } else if k == 8 {
        reveal_strlit("SSH authorized_keys modified");
        assert("SSH authorized_keys modified"@.len() != "Firewall deny/drop"@.len());
    } else if k == 9 {
        reveal_strlit("SSH max auth attempts exceeded");
        assert("SSH max auth attempts exceeded"@.len() != "Firewall deny/drop"@.len());
    } else if k == 10 {
        reveal_strlit("SSH invalid user disconnect");
        assert("SSH invalid user disconnect"@.len() != "Firewall deny/drop"@.len());
    } else if k == 11 {
        reveal_strlit("Repeated login failures");
        assert("Repeated login failures"@.len() != "Firewall deny/drop"@.len());
    } else if k == 12 {
        reveal_strlit("SSH invalid user attempt");
        assert("SSH invalid user attempt"@.len() != "Firewall deny/drop"@.len());
    } else if k == 13 {
        reveal_strlit("SSH failed login");
        assert("SSH failed login"@.len() != "Firewall deny/drop"@.len());
    } else if k == 14 {
        reveal_strlit("Authentication failure");
        assert("Authentication failure"@.len() != "Firewall deny/drop"@.len());
    } else if k == 15 {
        reveal_strlit("SSH successful login");
        assert("SSH successful login"@.len() != "Firewall deny/drop"@.len());
    } else if k == 16 {
        reveal_strlit("SSH client disconnect");
        assert("SSH client disconnect"@.len() != "Firewall deny/drop"@.len());
    } else if k == 17 {
        reveal_strlit("Unauthorized sudo attempt");
        assert("Unauthorized sudo attempt"@.len() != "Firewall deny/drop"@.len());
    } else if k == 18 {
        reveal_strlit("su failed attempt");
        assert("su failed attempt"@.len() != "Firewall deny/drop"@.len());
    } else if k == 19 {
        reveal_strlit("su session opened");
        assert("su session opened"@.len() != "Firewall deny/drop"@.len());
    } else if k == 20 {
        reveal_strlit("Sudo failed attempt");
        assert("Sudo failed attempt"@.len() != "Firewall deny/drop"@.len());
    } else if k == 21 {
        reveal_strlit("Sudo command executed");
        assert("Sudo command executed"@.len() != "Firewall deny/drop"@.len());
    } else if k == 22 {
        reveal_strlit("Root session opened");
        assert("Root session opened"@.len() != "Firewall deny/drop"@.len());
    } else if k == 23 {
        reveal_strlit("Group membership changed");
        assert("Group membership changed"@.len() != "Firewall deny/drop"@.len());
    } else if k == 24 {
        reveal_strlit("Group membership changed");
        assert("Group membership changed"@.len() != "Firewall deny/drop"@.len());
    } else if k == 25 {
        reveal_strlit("User account modified");
        assert("User account modified"@.len() != "Firewall deny/drop"@.len());
    } else if k == 26 {
        reveal_strlit("Password changed");
        assert("Password changed"@.len() != "Firewall deny/drop"@.len());
    } else if k == 27 {
        reveal_strlit("Possible port scan");
        assert("Possible port scan"@[0] != "Firewall deny/drop"@[0]);
    } else if k == 28 {
        reveal_strlit("Connection refused");
        assert("Connection refused"@[0] != "Firewall deny/drop"@[0]);
    } else if k == 29 {
        reveal_strlit("Firewall event");
        assert("Firewall event"@.len() != "Firewall deny/drop"@.len());
    }
}

/// Among the Windows event IDs, a lockout or a privileged-group change is
/// never reported as a failed logon or an account creation.
pub proof fn lemma_windows_severe_first(line: Seq<char>)
    requires
        pattern_hits("(?i)EventID=4740"@, line) || pattern_hits("(?i)EventID=4732"@, line),
    ensures
        classify(line).1 != "Windows failed logon"@,
        classify(line).1 != "Windows account created"@,
{
    if pattern_hits("(?i)EventID=4740"@, line) {
        lemma_first_hit_within(line, 0, 39);
    } else if pattern_hits("(?i)EventID=4732"@, line) {
        lemma_first_hit_within(line, 0, 40);
    }
    let k = first_hit(line, 0)->0;
    reveal_strlit("Windows failed logon");
    reveal_strlit("Windows account created");
    if k == 0 {
        reveal_strlit("Audit log cleared");
        assert("Audit log cleared"@.len() != "Windows failed logon"@.len());
        assert("Audit log cleared"@.len() != "Windows account created"@.len());
    } else if k == 1 {
        reveal_strlit("Shell history cleared/disabled");
        assert("Shell history cleared/disabled"@.len() != "Windows failed logon"@.len());
        assert("Shell history cleared/disabled"@.len() != "Windows account created"@.len());
    } else if k == 2 {
        reveal_strlit("Failed login (audit)");
        assert("Failed login (audit)"@[0] != "Windows failed logon"@[0]);
        assert("Failed login (audit)"@.len() != "Windows account created"@.len());
    } else if k == 3 {
        reveal_strlit("Successful login (audit)");
        assert("Successful login (audit)"@.len() != "Windows failed logon"@.len());
        assert("Successful login (audit)"@.len() != "Windows account created"@.len());
    } else if k == 4 {
        reveal_strlit("SSH session key teardown (routine)");
        assert("SSH session key teardown (routine)"@.len() != "Windows failed logon"@.len());
        assert("SSH session key teardown (routine)"@.len() != "Windows account created"@.len());
    } else if k == 5 {
        reveal_strlit("SSH crypto key event");
        assert("SSH crypto key event"@[0] != "Windows failed logon"@[0]);
        assert("SSH crypto key event"@.len() != "Windows account created"@.len());
    } else if k == 6 {
        reveal_strlit("Session started (audit)");
        assert("Session started (audit)"@.len() != "Windows failed logon"@.len());
        assert("Session started (audit)"@[0] != "Windows account created"@[0]);
    } else if k == 7 {
        reveal_strlit("Session ended (audit)");
        assert("Session ended (audit)"@.len() != "Windows failed logon"@.len());
        assert("Session ended (audit)"@.len() != "Windows account created"@.len());
    } else if k == 8 {
        reveal_strlit("SSH authorized_keys modified");
        assert("SSH authorized_keys modified"@.len() != "Windows failed logon"@.len());
        assert("SSH authorized_keys modified"@.len() != "Windows account created"@.len());
    } else if k == 9 {
        reveal_strlit("SSH max auth attempts exceeded");
        assert("SSH max auth attempts exceeded"@.len() != "Windows failed logon"@.len());
        assert("SSH max auth attempts exceeded"@.len() != "Windows account created"@.len());
    } else if k == 10 {
        reveal_strlit("SSH invalid user disconnect");
        assert("SSH invalid user disconnect"@.len() != "Windows failed logon"@.len());
        assert("SSH invalid user disconnect"@.len() != "Windows account created"@.len());
    } else if k == 11 {
        reveal_strlit("Repeated login failures");
        assert("Repeated login failures"@.len() != "Windows failed logon"@.len());
        assert("Repeated login failures"@[0] != "Windows account created"@[0]);
    } else if k == 12 {
        reveal_strlit("SSH invalid user attempt");
        assert("SSH invalid user attempt"@.len() != "Windows failed logon"@.len());
        assert("SSH invalid user attempt"@.len() != "Windows account created"@.len());
    } else if k == 13 {
        reveal_strlit("SSH failed login");
        assert("SSH failed login"@.len() != "Windows failed logon"@.len());
        assert("SSH failed login"@.len() != "Windows account created"@.len());
    } else if k == 14 {
        reveal_strlit("Authentication failure");
        assert("Authentication failure"@.len() != "Windows failed logon"@.len());
        assert("Authentication failure"@.len() != "Windows account created"@.len());
    } else if k == 15 {
        reveal_strlit("SSH successful login");
        assert("SSH successful login"@[0] != "Windows failed logon"@[0]);
        assert("SSH successful login"@.len() != "Windows account created"@.len());
    } else if k == 16 {
        reveal_strlit("SSH client disconnect");
        assert("SSH client disconnect"@.len() != "Windows failed logon"@.len());
        assert("SSH client disconnect"@.len() != "Windows account created"@.len());
    } else if k == 17 {
        reveal_strlit("Unauthorized sudo attempt");
        assert("Unauthorized sudo attempt"@.len() != "Windows failed logon"@.len());
        assert("Unauthorized sudo attempt"@.len() != "Windows account created"@.len());
    } else if k == 18 {
        reveal_strlit("su failed attempt");
        assert("su failed attempt"@.len() != "Windows failed logon"@.len());
        assert("su failed attempt"@.len() != "Windows account created"@.len());
    } else if k == 19 {
        reveal_strlit("su session opened");
        assert("su session opened"@.len() != "Windows failed logon"@.len());
        assert("su session opened"@.len() != "Windows account created"@.len());
    } else if k == 20 {
        reveal_strlit("Sudo failed attempt");
        assert("Sudo failed attempt"@.len() != "Windows failed logon"@.len());
        assert("Sudo failed attempt"@.len() != "Windows account created"@.len());
    } else if k == 21 {
        reveal_strlit("Sudo command executed");
        assert("Sudo command executed"@.len() != "Windows failed logon"@.len());
        assert("Sudo command executed"@.len() != "Windows account created"@.len());
    } else if k == 22 {
        reveal_strlit("Root session opened");
        assert("Root session opened"@.len() != "Windows failed logon"@.len());
        assert("Root session opened"@.len() != "Windows account created"@.len());
    } else if k == 23 {
        reveal_strlit("Group membership changed");
        assert("Group membership changed"@.len() != "Windows failed logon"@.len());
        assert("Group membership changed"@.len() != "Windows account created"@.len());
    } else if k == 24 {
        reveal_strlit("Group membership changed");
        assert("Group membership changed"@.len() != "Windows failed logon"@.len());
        assert("Group membership changed"@.len() != "Windows account created"@.len());
    } else if k == 25 {
        reveal_strlit("User account modified");
        assert("User account modified"@.len() != "Windows failed logon"@.len());
        assert("User account modified"@.len() != "Windows account created"@.len());
    } else if k == 26 {
        reveal_strlit("Password changed");
        assert("Password changed"@.len() != "Windows failed logon"@.len());
        assert("Password changed"@.len() != "Windows account created"@.len());
    } else if k == 27 {
        reveal_strlit("Possible port scan");
        assert("Possible port scan"@.len() != "Windows failed logon"@.len());
        assert("Possible port scan"@.len() != "Windows account created"@.len());
    } else if k == 28 {
        reveal_strlit("Connection refused");
        assert("Connection refused"@.len() != "Windows failed logon"@.len());
        assert("Connection refused"@.len() != "Windows account created"@.len());
    } else if k == 29 {
        reveal_strlit("Firewall event");
        assert("Firewall event"@.len() != "Windows failed logon"@.len());
        assert("Firewall event"@.len() != "Windows account created"@.len());
    } else if k == 30 {
        reveal_strlit("Firewall deny/drop");
        assert("Firewall deny/drop"@.len() != "Windows failed logon"@.len());
        assert("Firewall deny/drop"@.len() != "Windows account created"@.len());
    } else if k == 31 {
        reveal_strlit("Shell history file accessed");
        assert("Shell history file accessed"@.len() != "Windows failed logon"@.len());
        assert("Shell history file accessed"@.len() != "Windows account created"@.len());
    } else if k == 32 {
        reveal_strlit("Cron job modified");
        assert("Cron job modified"@.len() != "Windows failed logon"@.len());
        assert("Cron job modified"@.len() != "Windows account created"@.len());
    } else if k == 33 {
        reveal_strlit("Segmentation fault");
        assert("Segmentation fault"@.len() != "Windows failed logon"@.len());
        assert("Segmentation fault"@.len() != "Windows account created"@.len());
    } else if k == 34 {
        reveal_strlit("Service started");
        assert("Service started"@.len() != "Windows failed logon"@.len());
        assert("Service started"@.len() != "Windows account created"@.len());
    } else if k == 35 {
        reveal_strlit("macOS Gatekeeper blocked app");
        assert("macOS Gatekeeper blocked app"@.len() != "Windows failed logon"@.len());
        assert("macOS Gatekeeper blocked app"@.len() != "Windows account created"@.len());
    } else if k == 36 {
        reveal_strlit("macOS code signature invalid");
        assert("macOS code signature invalid"@.len() != "Windows failed logon"@.len());
        assert("macOS code signature invalid"@.len() != "Windows account created"@.len());
    } else if k == 37 {
        reveal_strlit("macOS auth failure");
        assert("macOS auth failure"@.len() != "Windows failed logon"@.len());
        assert("macOS auth failure"@.len() != "Windows account created"@.len());
    } else if k == 38 {
        reveal_strlit("macOS privacy permission denied");
        assert("macOS privacy permission denied"@.len() != "Windows failed logon"@.len());
        assert("macOS privacy permission denied"@.len() != "Windows account created"@.len());
    } else if k == 39 {
        reveal_strlit("Account lockout");
        assert("Account lockout"@.len() != "Windows failed logon"@.len());
        assert("Account lockout"@.len() != "Windows account created"@.len());
    } else if k == 40 {
        reveal_strlit("Windows user added to privileged group");
        assert("Windows user added to privileged group"@.len() != "Windows failed logon"@.len());
        assert("Windows user added to privileged group"@.len() != "Windows account created"@.len());
    }
}

/// A Windows failed logon is never reported as an account creation.
pub proof fn lemma_windows_failed_logon_before_creation(line: Seq<char>)
    requires
        pattern_hits("(?i)EventID=4625"@, line),
    ensures
        classify(line).1 != "Windows account created"@,
{
    if pattern_hits("(?i)EventID=4625"@, line) {
        lemma_first_hit_within(line, 0, 41);
    }
    let k = first_hit(line, 0)->0;
    reveal_strlit("Windows account created");
    if k == 0 {
        reveal_strlit("Audit log cleared");
        assert("Audit log cleared"@.len() != "Windows account created"@.len());
    } else if k == 1 {
        reveal_strlit("Shell history cleared/disabled");
        assert("Shell history cleared/disabled"@.len() != "Windows account created"@.len());
    } else if k == 2 {
        reveal_strlit("Failed login (audit)");
        assert("Failed login (audit)"@.len() != "Windows account created"@.len());
    } else if k == 3 {
        reveal_strlit("Successful login (audit)");
        assert("Successful login (audit)"@.len() != "Windows account created"@.len());
    } else if k == 4 {
        reveal_strlit("SSH session key teardown (routine)");
        assert("SSH session key teardown (routine)"@.len() != "Windows account created"@.len());
    } else if k == 5 {
        reveal_strlit("SSH crypto key event");
        assert("SSH crypto key event"@.len() != "Windows account created"@.len());
    } else if k == 6 {
        reveal_strlit("Session started (audit)");
        assert("Session started (audit)"@[0] != "Windows account created"@[0]);
    } else if k == 7 {
        reveal_strlit("Session ended (audit)");
        assert("Session ended (audit)"@.len() != "Windows account created"@.len());
    } else if k == 8 {
        reveal_strlit("SSH authorized_keys modified");
        assert("SSH authorized_keys modified"@.len() != "Windows account created"@.len());
    } else if k == 9 {
        reveal_strlit("SSH max auth attempts exceeded");
        assert("SSH max auth attempts exceeded"@.len() != "Windows account created"@.len());
    } else if k == 10 {
        reveal_strlit("SSH invalid user disconnect");
        assert("SSH invalid user disconnect"@.len() != "Windows account created"@.len());
    } else if k == 11 {
        reveal_strlit("Repeated login failures");
        assert("Repeated login failures"@[0] != "Windows account created"@[0]);
    } else if k == 12 {
        reveal_strlit("SSH invalid user attempt");
        assert("SSH invalid user attempt"@.len() != "Windows account created"@.len());
    } else if k == 13 {
        reveal_strlit("SSH failed login");
        assert("SSH failed login"@.len() != "Windows account created"@.len());
    } else if k == 14 {
        reveal_strlit("Authentication failure");
        assert("Authentication failure"@.len() != "Windows account created"@.len());
    } else if k == 15 {
        reveal_strlit("SSH successful login");
        assert("SSH successful login"@.len() != "Windows account created"@.len());
    } else if k == 16 {
        reveal_strlit("SSH client disconnect");
        assert("SSH client disconnect"@.len() != "Windows account created"@.len());
    } else if k == 17 {
        reveal_strlit("Unauthorized sudo attempt");
        assert("Unauthorized sudo attempt"@.len() != "Windows account created"@.len());
    } else if k == 18 {
        reveal_strlit("su failed attempt");
        assert("su failed attempt"@.len() != "Windows account created"@.len());
    } else if k == 19 {
        reveal_strlit("su session opened");
        assert("su session opened"@.len() != "Windows account created"@.len());
    } else if k == 20 {
        reveal_strlit("Sudo failed attempt");
        assert("Sudo failed attempt"@.len() != "Windows account created"@.len());
    } else if k == 21 {
        reveal_strlit("Sudo command executed");
        assert("Sudo command executed"@.len() != "Windows account created"@.len());
    } else if k == 22 {
        reveal_strlit("Root session opened");
        assert("Root session opened"@.len() != "Windows account created"@.len());
    } else if k == 23 {
        reveal_strlit("Group membership changed");
        assert("Group membership changed"@.len() != "Windows account created"@.len());
    } else if k == 24 {
        reveal_strlit("Group membership changed");
        assert("Group membership changed"@.len() != "Windows account created"@.len());
    } else if k == 25 {
        reveal_strlit("User account modified");
        assert("User account modified"@.len() != "Windows account created"@.len());
    } else if k == 26 {
        reveal_strlit("Password changed");
        assert("Password changed"@.len() != "Windows account created"@.len());
    } else if k == 27 {
        reveal_strlit("Possible port scan");
        assert("Possible port scan"@.len() != "Windows account created"@.len());
    } else if k == 28 {
        reveal_strlit("Connection refused");
        assert("Connection refused"@.len() != "Windows account created"@.len());
    } else if k == 29 {
        reveal_strlit("Firewall event");
        assert("Firewall event"@.len() != "Windows account created"@.len());
    } else if k == 30 {
        reveal_strlit("Firewall deny/drop");
        assert("Firewall deny/drop"@.len() != "Windows account created"@.len());
    } else if k == 31 {
        reveal_strlit("Shell history file accessed");
        assert("Shell history file accessed"@.len() != "Windows account created"@.len());
    } else if k == 32 {
        reveal_strlit("Cron job modified");
        assert("Cron job modified"@.len() != "Windows account created"@.len());
    } else if k == 33 {
        reveal_strlit("Segmentation fault");
        assert("Segmentation fault"@.len() != "Windows account created"@.len());
    } else if k == 34 {
        reveal_strlit("Service started");
        assert("Service started"@.len() != "Windows account created"@.len());
    } else if k == 35 {
        reveal_strlit("macOS Gatekeeper blocked app");
        assert("macOS Gatekeeper blocked app"@.len() != "Windows account created"@.len());
    } else if k == 36 {
        reveal_strlit("macOS code signature invalid");
        assert("macOS code signature invalid"@.len() != "Windows account created"@.len());
    } else if k == 37 {
        reveal_strlit("macOS auth failure");
        assert("macOS auth failure"@.len() != "Windows account created"@.len());
    } else if k == 38 {
        reveal_strlit("macOS privacy permission denied");
        assert("macOS privacy permission denied"@.len() != "Windows account created"@.len());
    } else if k == 39 {
        reveal_strlit("Account lockout");
        assert("Account lockout"@.len() != "Windows account created"@.len());
    } else if k == 40 {
        reveal_strlit("Windows user added to privileged group");
        assert("Windows user added to privileged group"@.len() != "Windows account created"@.len());
    } else if k == 41 {
        reveal_strlit("Windows failed logon");
        assert("Windows failed logon"@.len() != "Windows account created"@.len());
    }
}

pub const USER_PATTERN_COUNT: usize = 4;

/// The patterns tried, in order, to find the user a line is about; group 1
/// holds the user name.
pub open spec fn user_pattern(i: int) -> Seq<char> {
    if i == 0 {
        "Failed password for (?:invalid user )?(\\S+) from"@
    } else if i == 1 {
        "Invalid user (\\S+) from"@
    } else if i == 2 {
        "Accepted (?:password|publickey) for (\\S+) from"@
    } else {
        "sudo:\\s*(\\S+)\\s*:"@
    }
}

fn user_pattern_at(i: usize) -> (r: &'static str)
    requires
        i < USER_PATTERN_COUNT,
    ensures
        r@ == user_pattern(i as int),
{
    if i == 0 {
        "Failed password for (?:invalid user )?(\\S+) from"
    } else if i == 1 {
        "Invalid user (\\S+) from"
    } else if i == 2 {
        "Accepted (?:password|publickey) for (\\S+) from"
    } else {
        "sudo:\\s*(\\S+)\\s*:"
    }
}

/// The user named by the first user pattern, from index `from` on, that
/// captures one; "system" when none does.
pub open spec fn user_from(line: Seq<char>, from: int) -> Seq<char>
    decreases USER_PATTERN_COUNT - from,
{
    if from < 0 || from >= USER_PATTERN_COUNT {
        "system"@
    } else {
        match regex_group_one(user_pattern(from), line) {
            Some(u) => u,
            None => user_from(line, from + 1),
        }
    }
}

/// The user a line is about, or "system" when no pattern names one.
pub open spec fn extracted_user(line: Seq<char>) -> Seq<char> {
    user_from(line, 0)
}

fn extract_user(line: &str) -> (r: String)
    ensures
        r@ == extracted_user(line@),
{
    let mut i: usize = 0;
    while i < USER_PATTERN_COUNT
        invariant
            i <= USER_PATTERN_COUNT,
            user_from(line@, 0) == user_from(line@, i as int),
        decreases USER_PATTERN_COUNT - i,
    {
        match regex_capture_one(user_pattern_at(i), line) {
            Some(u) => {
                return u;
            },
            None => {},
        }
        i = i + 1;
    }
    let mut s = String::new();
    push_str(&mut s, "system");
    s
}

/// The message stored for a classified line: the label in brackets, a
/// space, then the line itself.
pub open spec fn labelled_message(label: Seq<char>, line: Seq<char>) -> Seq<char> {
    "["@ + label + "] "@ + line
}

/// Classifies one raw log line. A blank line (nothing left after trimming)
/// yields `None`; any other line yields its severity, its user and the
/// labelled message.
pub fn parse_line(line: &str) -> (r: Option<LogEntry>)
    ensures
        r is None <==> is_blank(line@),
        r matches Some(e) ==> {
            &&& e.severity == classify(line@).0
            &&& e.user@ == extracted_user(line@)
            &&& e.message@ == labelled_message(classify(line@).1, line@)
        },
{
    if str_is_blank(line) {
        return None;
    }
    let user = extract_user(line);
    let (severity, label) = classify_line(line);
    let mut message = String::new();
    push_str(&mut message, "[");
    push_str(&mut message, label);
    push_str(&mut message, "] ");
    push_str(&mut message, line);
    Some(LogEntry { severity, user, message })
}

/// The de-duplication key of a line: SHA-256 of its UTF-8 bytes, as 64
/// lower-case hex digits.
pub fn hash_line(line: &str) -> (r: String)
    ensures
        r@ == spec_sha256_hex(line@),
        r@.len() == 64,
{
    sha256_hex(line)
}

} // verus!
