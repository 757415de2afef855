use vstd::prelude::*;
use vstd::utf8::encode_utf8;

use crate::fingerprint::{sha256_hex, sha256_of, spec_sha256_hex};
use crate::models::{NewLogEntry, Severity, severity_name};
use crate::parser::{classify, extracted_user, labelled_message, parse_line, rule_spec, RULE_COUNT};
use crate::pattern::{matches_pattern, pattern_hits};
use crate::text::{chars_of, hex_digit, hex_lower, is_ascii_alnum, is_blank, push_char, push_str, str_eq, trim};

verus! {

// ---------------------------------------------------------------------------
// Per-path state files
// ---------------------------------------------------------------------------

/// Whether `char::is_alphanumeric` holds of a character (Unicode
/// `Alphabetic` or `Numeric`).
pub uninterp spec fn unicode_alphanumeric(c: char) -> bool;

/// `char::is_alphanumeric`. Besides naming the answer, the contract states
/// what its documentation gives for ASCII: exactly the letters and digits.
#[verifier::external_body]
fn char_is_alphanumeric(c: char) -> (r: bool)
    ensures
        r == unicode_alphanumeric(c),
        (c as u32) < 128 ==> (r == is_ascii_alnum(c)),
{
    c.is_alphanumeric()
}

/// A path with every character that is not alphanumeric replaced by '_'.
pub open spec fn sanitized(path: Seq<char>) -> Seq<char> {
    Seq::new(path.len(), |i: int| if unicode_alphanumeric(path[i]) { path[i] } else { '_' })
}

/// The name of the file that keeps the read position for a watched path:
/// a readable, file-name-safe form of the path followed by the SHA-256 of
/// the path, which keeps paths that sanitize alike apart.
pub open spec fn state_file_name(path: Seq<char>) -> Seq<char> {
    ".shipper_state_"@ + sanitized(path) + "_"@ + spec_sha256_hex(path)
}

/// A character that may stand in a state file's name: any non-ASCII
/// character, and of ASCII only letters, digits, '_' and '.'.
pub open spec fn file_name_safe(c: char) -> bool {
    (c as u32) >= 128 || is_ascii_alnum(c) || c == '_' || c == '.'
}

proof fn lemma_hex_lower_safe(b: Seq<u8>)
    ensures
        forall|k: int| 0 <= k < hex_lower(b).len() ==> is_ascii_alnum(#[trigger] hex_lower(b)[k]),
    decreases b.len(),
{
    if b.len() > 0 {
        lemma_hex_lower_safe(b.drop_last());
        let hi = b.last() as int / 16;
        let lo = b.last() as int % 16;
        assert(is_ascii_alnum(hex_digit(hi)));
        assert(is_ascii_alnum(hex_digit(lo)));
        let h = hex_lower(b.drop_last());
        assert forall|k: int| 0 <= k < hex_lower(b).len() implies is_ascii_alnum(#[trigger] hex_lower(b)[k]) by {
            if k < h.len() {
                assert(hex_lower(b)[k] == h[k]);
            }
        }
    }
}

/// The state file's name for `path`: on ASCII characters the sanitizing
/// keeps letters and digits and turns everything else (such as '/' and
/// '\\') into '_', so every ASCII character of the name is a letter, a
/// digit, '_' or '.'.
pub fn state_file_for(path: &str) -> (r: String)
    ensures
        r@ == state_file_name(path@),
        forall|i: int|
            0 <= i < path@.len() && (path@[i] as u32) < 128 ==> #[trigger] sanitized(path@)[i] == (if is_ascii_alnum(
                path@[i],
            ) {
                path@[i]
            } else {
                '_'
            }),
        forall|k: int| 0 <= k < r@.len() ==> file_name_safe(#[trigger] r@[k]),
{
    let cs = chars_of(path);
    let mut out = String::new();
    push_str(&mut out, ".shipper_state_");
    let ghost prefix = out@;
    proof {
        reveal_strlit(".shipper_state_");
        assert(forall|k: int| 0 <= k < prefix.len() ==> file_name_safe(#[trigger] prefix[k]));
    }
    let mut i: usize = 0;
    while i < cs.len()
        invariant
            cs@ == path@,
            i <= cs.len(),
            out@ == prefix + sanitized(path@).take(i as int),
            forall|k: int|
                0 <= k < i && (path@[k] as u32) < 128 ==> unicode_alphanumeric(#[trigger] path@[k])
                    == is_ascii_alnum(path@[k]),
        decreases cs.len() - i,
    {
        let c = cs[i];
        if char_is_alphanumeric(c) {
            push_char(&mut out, c);
        } else {
            push_char(&mut out, '_');
        }
        proof {
            assert(sanitized(path@).take(i + 1) =~= sanitized(path@).take(i as int).push(
                sanitized(path@)[i as int],
            ));
        }
        i = i + 1;
    }
    proof {
        assert(sanitized(path@).take(cs@.len() as int) =~= sanitized(path@));
    }
    push_str(&mut out, "_");
    let digest = sha256_hex(path);
    push_str(&mut out, digest.as_str());
    proof {
        reveal_strlit("_");
        let san = sanitized(path@);
        lemma_hex_lower_safe(sha256_of(encode_utf8(path@))@);
        assert forall|k: int| 0 <= k < san.len() implies file_name_safe(#[trigger] san[k]) by {
            if (path@[k] as u32) < 128 {
                assert(unicode_alphanumeric(path@[k]) == is_ascii_alnum(path@[k]));
            }
        }
        let r = out@;
        let a = prefix.len() as int;
        let b = a + san.len();
        assert forall|k: int| 0 <= k < r.len() implies file_name_safe(#[trigger] r[k]) by {
            if k < a {
                assert(r[k] == prefix[k]);
            } else if k < b {
                assert(r[k] == san[k - a]);
            } else if k == b {
                assert(r[k] == '_');
            } else {
                assert(r[k] == digest@[k - b - 1]);
            }
        }
    }
    out
}

proof fn lemma_hex_digit_injective(a: int, b: int)
    requires
        0 <= a < 16,
        0 <= b < 16,
        hex_digit(a) == hex_digit(b),
    ensures
        a == b,
{
    assert(hex_digit(a) as int == if a < 10 { 48 + a } else { 87 + a });
    assert(hex_digit(b) as int == if b < 10 { 48 + b } else { 87 + b });
}

proof fn lemma_hex_lower_injective(a: Seq<u8>, b: Seq<u8>)
    requires
        a.len() == b.len(),
        hex_lower(a) == hex_lower(b),
    ensures
        a == b,
    decreases a.len(),
{
    if a.len() > 0 {
        let ha = hex_lower(a);
        let hb = hex_lower(b);
        crate::text::lemma_hex_lower_len(a.drop_last());
        crate::text::lemma_hex_lower_len(b.drop_last());
        let n = hex_lower(a.drop_last()).len();
        assert(ha[n as int] == hex_digit(a.last() as int / 16));
        assert(hb[n as int] == hex_digit(b.last() as int / 16));
        assert(ha[n as int + 1] == hex_digit(a.last() as int % 16));
        assert(hb[n as int + 1] == hex_digit(b.last() as int % 16));
        lemma_hex_digit_injective(a.last() as int / 16, b.last() as int / 16);
        lemma_hex_digit_injective(a.last() as int % 16, b.last() as int % 16);
        assert(hex_lower(a.drop_last()) =~= ha.take(n as int));
        assert(hex_lower(b.drop_last()) =~= hb.take(n as int));
        lemma_hex_lower_injective(a.drop_last(), b.drop_last());
        assert(a =~= a.drop_last().push(a.last()));
        assert(b =~= b.drop_last().push(b.last()));
    }
}

/// Two watched paths share a state file only if their SHA-256 digests
/// collide.
pub proof fn lemma_state_files_distinct(a: Seq<char>, b: Seq<char>)
    requires
        state_file_name(a) == state_file_name(b),
    ensures
        sha256_of(encode_utf8(a)) == sha256_of(encode_utf8(b)),
{
    crate::fingerprint::lemma_sha256_hex_len(a);
    crate::fingerprint::lemma_sha256_hex_len(b);
    let fa = state_file_name(a);
    let ha = spec_sha256_hex(a);
    let hb = spec_sha256_hex(b);
    let k = fa.len() - 64;
    assert(fa.skip(k) =~= ha);
    assert(state_file_name(b).skip(k) =~= hb);
    lemma_hex_lower_injective(sha256_of(encode_utf8(a))@, sha256_of(encode_utf8(b))@);
    broadcast use vstd::array::axiom_array_ext_equal;
    assert(sha256_of(encode_utf8(a)) =~= sha256_of(encode_utf8(b)));
}


// ---------------------------------------------------------------------------
// The shipper's own output
// ---------------------------------------------------------------------------

/// The journal tag of the shipper's own output, "shipper[<pid>]:".
pub open spec fn own_output_pattern() -> Seq<char> {
    "\\bshipper\\[\\d+\\]:"@
}

/// Whether a line is the shipper's own output echoed back through the
/// journal; such lines are skipped so the shipper never re-ingests itself.
pub fn looks_like_own_output(line: &str) -> (r: bool)
    ensures
        r == pattern_hits(own_output_pattern(), line@),
{
    matches_pattern("\\bshipper\\[\\d+\\]:", line)
}

// ---------------------------------------------------------------------------
// Windows Security event IDs
// ---------------------------------------------------------------------------

/// Severity name and label for a Windows Security event ID.
pub open spec fn event_id_class(id: Seq<char>) -> (Seq<char>, Seq<char>) {
    if id == "4625"@ {
        ("High"@, "Failed logon"@)
    } else if id == "4648"@ {
        ("Medium"@, "Explicit credential logon"@)
    } else if id == "4672"@ {
        ("High"@, "Special privileges assigned (admin logon)"@)
    } else if id == "4720"@ {
        ("Medium"@, "User account created"@)
    } else if id == "4726"@ {
        ("Medium"@, "User account deleted"@)
    } else if id == "4732"@ {
        ("High"@, "User added to security-enabled group"@)
    } else if id == "4738"@ {
        ("Medium"@, "User account changed"@)
    } else if id == "4740"@ {
        ("High"@, "User account locked out"@)
    } else if id == "1102"@ {
        ("Critical"@, "Security audit log cleared"@)
    } else {
        ("Low"@, "Windows security event"@)
    }
}

/// Maps a well-known Windows Security event ID to a severity name and label.
pub fn classify_event_id(event_id: &str) -> (r: (&'static str, &'static str))
    ensures
        (r.0@, r.1@) == event_id_class(event_id@),
{
    if str_eq(event_id, "4625") {
        ("High", "Failed logon")
    } else if str_eq(event_id, "4648") {
        ("Medium", "Explicit credential logon")
    } else if str_eq(event_id, "4672") {
        ("High", "Special privileges assigned (admin logon)")
    } else if str_eq(event_id, "4720") {
        ("Medium", "User account created")
    } else if str_eq(event_id, "4726") {
        ("Medium", "User account deleted")
    } else if str_eq(event_id, "4732") {
        ("High", "User added to security-enabled group")
    } else if str_eq(event_id, "4738") {
        ("Medium", "User account changed")
    } else if str_eq(event_id, "4740") {
        ("High", "User account locked out")
    } else if str_eq(event_id, "1102") {
        ("Critical", "Security audit log cleared")
    } else {
        ("Low", "Windows security event")
    }
}

/// The text rule for a Windows event ID: "(?i)EventID=" and the ID.
pub open spec fn event_id_rule_pattern(id: Seq<char>) -> Seq<char> {
    "(?i)EventID="@ + id
}

/// The detection table and the Windows Security watcher agree: every rule
/// of the table that looks for "EventID=<id>" carries the severity that the
/// watcher gives the same event ID.
pub proof fn lemma_event_id_rules_agree(i: int, id: Seq<char>)
    requires
        0 <= i < RULE_COUNT,
        rule_spec(i).pattern == event_id_rule_pattern(id),
    ensures
        severity_name(rule_spec(i).severity) == event_id_class(id).0,
{
    reveal_strlit("(?i)EventID=");
    let q = event_id_rule_pattern(id);
    assert(q.len() == 12 + id.len());

    if i == 0 {
        reveal_strlit("(?i)EventID=1102");
        reveal_strlit("4625");
        reveal_strlit("4648");
        reveal_strlit("4672");
        reveal_strlit("4720");
        reveal_strlit("4726");
        reveal_strlit("4732");
        reveal_strlit("4738");
        reveal_strlit("4740");
        reveal_strlit("1102");
        assert(id =~= q.skip(12));
        assert(id =~= "1102"@);
        assert(id == "1102"@);
        assert(id[0] != "4625"@[0]);
        assert(id[0] != "4648"@[0]);
        assert(id[0] != "4672"@[0]);
        assert(id[0] != "4720"@[0]);
        assert(id[0] != "4726"@[0]);
        assert(id[0] != "4732"@[0]);
        assert(id[0] != "4738"@[0]);
        assert(id[0] != "4740"@[0]);
        assert(event_id_class(id).0 == "Critical"@);
        assert(rule_spec(i).severity == Severity::Critical);
    } else if i == 1 {
        reveal_strlit("(?i)history -c|unset HISTFILE");
        assert(rule_spec(i).pattern[4] != q[4]);
    } else if i == 2 {
        reveal_strlit("type=USER_LOGIN");
        assert(rule_spec(i).pattern[0] != q[0]);
    } else if i == 3 {
        reveal_strlit("type=USER_LOGIN");
        assert(rule_spec(i).pattern[0] != q[0]);
    } else if i == 4 {
        reveal_strlit("type=CRYPTO_KEY_USER");
        assert(rule_spec(i).pattern[0] != q[0]);
    } else if i == 5 {
        reveal_strlit("type=CRYPTO_KEY_USER");
        assert(rule_spec(i).pattern[0] != q[0]);
    } else if i == 6 {
        reveal_strlit("type=USER_START");
        assert(rule_spec(i).pattern[0] != q[0]);
    } else if i == 7 {
        reveal_strlit("type=USER_END");
        assert(rule_spec(i).pattern[0] != q[0]);
    } else if i == 8 {
        reveal_strlit("(?i)authorized_keys");
        assert(rule_spec(i).pattern[4] != q[4]);
    } else if i == 9 {
        reveal_strlit("(?i)maximum authentication attempts exceeded");
        assert(rule_spec(i).pattern[4] != q[4]);
    } else if i == 10 {
        reveal_strlit("(?i)disconnect(ed)? by invalid user");
        assert(rule_spec(i).pattern[4] != q[4]);
    } else if i == 11 {
        reveal_strlit("(?i)Repeated login failures");
        assert(rule_spec(i).pattern[4] != q[4]);
    } else if i == 12 {
        reveal_strlit("Invalid user");
        assert(rule_spec(i).pattern[0] != q[0]);
    } else if i == 13 {
        reveal_strlit("Failed password");
        assert(rule_spec(i).pattern[0] != q[0]);
    } else if i == 14 {
        reveal_strlit("(?i)authentication failure");
        assert(rule_spec(i).pattern[4] != q[4]);
    } else if i == 15 {
        reveal_strlit("Accepted password|Accepted publickey");
        assert(rule_spec(i).pattern[0] != q[0]);
    } else if i == 16 {
        reveal_strlit("(?i)Received disconnect.*11:");
        assert(rule_spec(i).pattern[4] != q[4]);
    } else if i == 17 {
        reveal_strlit("(?i)NOT in sudoers");
        assert(rule_spec(i).pattern[4] != q[4]);
    } else if i == 18 {
        reveal_strlit("(?i)su:.*FAILED");
        assert(rule_spec(i).pattern[4] != q[4]);
    } else if i == 19 {
        reveal_strlit("(?i)su:.*session opened");
        assert(rule_spec(i).pattern[4] != q[4]);
    } else if i == 20 {
        reveal_strlit("(?i)incorrect password");
        assert(rule_spec(i).pattern[4] != q[4]);
    } else if i == 21 {
        reveal_strlit("sudo:.*COMMAND=");
        assert(rule_spec(i).pattern[0] != q[0]);
    } else if i == 22 {
        reveal_strlit("(?i)session opened for user root");
        assert(rule_spec(i).pattern[4] != q[4]);
    } else if i == 23 {
        reveal_strlit("(?i)added to group");
        assert(rule_spec(i).pattern[4] != q[4]);
    } else if i == 24 {
        reveal_strlit("(?i)removed from group");
        assert(rule_spec(i).pattern[4] != q[4]);
    } else if i == 25 {
        reveal_strlit("(?i)useradd|userdel|usermod");
        assert(rule_spec(i).pattern[4] != q[4]);
    } else if i == 26 {
        reveal_strlit("(?i)passwd:");
        assert(rule_spec(i).pattern[4] != q[4]);
    } else if i == 27 {
        reveal_strlit("(?i)port scan|nmap");
        assert(rule_spec(i).pattern[4] != q[4]);
    } else if i == 28 {
        reveal_strlit("(?i)connection refused");
        assert(rule_spec(i).pattern[4] != q[4]);
    } else if i == 29 {
        reveal_strlit("(?i)iptables|ufw|firewalld");
        assert(rule_spec(i).pattern[4] != q[4]);
    } else if i == 30 {
        reveal_strlit("(?i)DENY|DROP");
        assert(rule_spec(i).pattern[4] != q[4]);
    } else if i == 31 {
        reveal_strlit("(?i)\\.bash_history");
        assert(rule_spec(i).pattern[4] != q[4]);
    } else if i == 32 {
        reveal_strlit("(?i)crontab");
        assert(rule_spec(i).pattern[4] != q[4]);
    } else if i == 33 {
        reveal_strlit("(?i)segfault");
        assert(rule_spec(i).pattern[4] != q[4]);
    } else if i == 34 {
        reveal_strlit("(?i)systemd\\[1\\]: Started");
        assert(rule_spec(i).pattern[4] != q[4]);
    } else if i == 35 {
        reveal_strlit("(?i)Gatekeeper.*blocked");
        assert(rule_spec(i).pattern[4] != q[4]);
    } else if i == 36 {
        reveal_strlit("(?i)codesign.*invalid");
        assert(rule_spec(i).pattern[4] != q[4]);
    } else if i == 37 {
        reveal_strlit("(?i)Sender Authentication Failed");
        assert(rule_spec(i).pattern[4] != q[4]);
    } else if i == 38 {
        reveal_strlit("(?i)TCC.*denied");
        assert(rule_spec(i).pattern[4] != q[4]);
    } else if i == 39 {
        reveal_strlit("(?i)EventID=4740");
        reveal_strlit("4625");
        reveal_strlit("4648");
        reveal_strlit("4672");
        reveal_strlit("4720");
        reveal_strlit("4726");
        reveal_strlit("4732");
        reveal_strlit("4738");
        reveal_strlit("4740");
        reveal_strlit("1102");
        assert(id =~= q.skip(12));
        assert(id =~= "4740"@);
        assert(id == "4740"@);
        assert(id[1] != "4625"@[1]);
        assert(id[1] != "4648"@[1]);
        assert(id[1] != "4672"@[1]);
        assert(id[2] != "4720"@[2]);
        assert(id[2] != "4726"@[2]);
        assert(id[2] != "4732"@[2]);
        assert(id[2] != "4738"@[2]);
        assert(event_id_class(id).0 == "High"@);
        assert(rule_spec(i).severity == Severity::High);
    } else if i == 40 {
        reveal_strlit("(?i)EventID=4732");
        reveal_strlit("4625");
        reveal_strlit("4648");
        reveal_strlit("4672");
        reveal_strlit("4720");
        reveal_strlit("4726");
        reveal_strlit("4732");
        reveal_strlit("4738");
        reveal_strlit("4740");
        reveal_strlit("1102");
        assert(id =~= q.skip(12));
        assert(id =~= "4732"@);
        assert(id == "4732"@);
        assert(id[1] != "4625"@[1]);
        assert(id[1] != "4648"@[1]);
        assert(id[1] != "4672"@[1]);
        assert(id[2] != "4720"@[2]);
        assert(id[2] != "4726"@[2]);
        assert(event_id_class(id).0 == "High"@);
        assert(rule_spec(i).severity == Severity::High);
    } else if i == 41 {
        reveal_strlit("(?i)EventID=4625");
        reveal_strlit("4625");
        reveal_strlit("4648");
        reveal_strlit("4672");
        reveal_strlit("4720");
        reveal_strlit("4726");
        reveal_strlit("4732");
        reveal_strlit("4738");
        reveal_strlit("4740");
        reveal_strlit("1102");
        assert(id =~= q.skip(12));
        assert(id =~= "4625"@);
        assert(id == "4625"@);
        assert(event_id_class(id).0 == "High"@);
        assert(rule_spec(i).severity == Severity::High);
    } else if i == 42 {
        reveal_strlit("(?i)EventID=4720");
        reveal_strlit("4625");
        reveal_strlit("4648");
        reveal_strlit("4672");
        reveal_strlit("4720");
        reveal_strlit("4726");
        reveal_strlit("4732");
        reveal_strlit("4738");
        reveal_strlit("4740");
        reveal_strlit("1102");
        assert(id =~= q.skip(12));
        assert(id =~= "4720"@);
        assert(id == "4720"@);
        assert(id[1] != "4625"@[1]);
        assert(id[1] != "4648"@[1]);
        assert(id[1] != "4672"@[1]);
        assert(event_id_class(id).0 == "Medium"@);
        assert(rule_spec(i).severity == Severity::Medium);
    }
}


// ---------------------------------------------------------------------------
// Shipping one line
// ---------------------------------------------------------------------------

/// How many times a line is sent before the shipper gives up on it.
pub const MAX_RETRIES: u32 = 3;

/// The payload shipped for a classified line: severity by name, the user,
/// the labelled message and the shipper's host name.
pub open spec fn outbound_of(line: Seq<char>, host: Seq<char>) -> (Seq<char>, Seq<char>, Seq<char>, Seq<char>) {
    (
        severity_name(classify(line).0),
        extracted_user(line),
        labelled_message(classify(line).1, line),
        host,
    )
}

/// The event to send for a raw line, or `None` for a blank line (which is
/// skipped and counts as handled).
pub fn outbound_entry(line: &str, host: &str) -> (r: Option<NewLogEntry>)
    ensures
        r is None <==> is_blank(line@),
        r matches Some(e) ==> (e.severity@, e.user@, e.message@, e.host@) == outbound_of(line@, host@),
{
    match parse_line(line) {
        Some(entry) => {
            let mut severity = String::new();
            push_str(&mut severity, entry.severity.name());
            let mut h = String::new();
            push_str(&mut h, host);
            Some(NewLogEntry { severity, user: entry.user, message: entry.message, host: h })
        },
        None => None,
    }
}

/// What came back from one attempt to send a line.
pub enum SendOutcome {
    /// The server answered with this HTTP status.
    Answered(u16),
    /// The request never got an answer (connection error, timeout).
    TransportFailed,
}

/// What to do after an attempt.
#[derive(Debug, PartialEq, Eq, Structural)]
pub enum ShipStep {
    /// The server accepted the line: advance past it.
    Delivered,
    /// Wait, then send it again.
    RetryAfterPause,
    /// Stop trying; the line stays unshipped and the read position stays put.
    GiveUp,
}

/// A line counts as delivered only on a 2xx answer.
pub open spec fn is_success_status(status: u16) -> bool {
    200 <= status <= 299
}

pub open spec fn ship_step(attempt: u32, outcome: SendOutcome) -> ShipStep {
    match outcome {
        SendOutcome::Answered(s) if is_success_status(s) => ShipStep::Delivered,
        _ => if attempt < MAX_RETRIES {
            ShipStep::RetryAfterPause
        } else {
            ShipStep::GiveUp
        },
    }
}

/// Decides what follows attempt number `attempt` (counted from 1): a 2xx
/// answer is a delivery; a transport failure or any other status is retried
/// until `MAX_RETRIES` attempts have been made.
pub fn after_attempt(attempt: u32, outcome: &SendOutcome) -> (r: ShipStep)
    ensures
        r == ship_step(attempt, *outcome),
{
    match outcome {
        SendOutcome::Answered(s) => {
            if 200 <= *s && *s <= 299 {
                return ShipStep::Delivered;
            }
        },
        SendOutcome::TransportFailed => {},
    }
    if attempt < MAX_RETRIES {
        ShipStep::RetryAfterPause
    } else {
        ShipStep::GiveUp
    }
}

/// No line is sent more than `MAX_RETRIES` times, and a rejected line is
/// never taken for delivered.
pub proof fn lemma_retry_bounded(attempt: u32, outcome: SendOutcome)
    ensures
        attempt >= MAX_RETRIES ==> ship_step(attempt, outcome) != ShipStep::RetryAfterPause,
        (ship_step(attempt, outcome) == ShipStep::Delivered) <==> (outcome matches SendOutcome::Answered(s) && is_success_status(s)),
{
}

// ---------------------------------------------------------------------------
// Tailing a file
// ---------------------------------------------------------------------------

/// Where reading resumes: a file now smaller than the saved position was
/// rotated or truncated, so reading starts over from 0.
pub open spec fn resume_at(size: u64, saved: u64) -> u64 {
    if size < saved {
        0
    } else {
        saved
    }
}

/// Reading resumes exactly where it stopped whenever the file still reaches
/// that far (a saved position of 0 included: the file is then read from its
/// start); only a file now shorter than the saved position (rotated or
/// truncated) is read again from its start.
pub proof fn lemma_resume_where_stopped(size: u64, saved: u64)
    ensures
        saved <= size ==> resume_at(size, saved) == saved,
        size < saved ==> resume_at(size, saved) == 0,
        resume_at(size, saved) <= size,
{
}

pub fn resume_position(size: u64, saved: u64) -> (r: u64)
    ensures
        r == resume_at(size, saved),
        r <= size,
        saved <= size ==> r == saved,
        size < saved ==> r == 0,
{
    if size < saved {
        0
    } else {
        saved
    }
}

/// Finds the end of the first complete line of `data[from..]`: the number
/// of bytes up to and including its newline.
pub fn complete_line_len(data: &[u8], from: usize) -> (r: Option<usize>)
    requires
        from <= data.len(),
    ensures
        match r {
            Some(n) => {
                &&& 0 < n <= data.len() - from
                &&& data@[from + n - 1] == 10u8
                &&& forall|j: int| from <= j < from + n - 1 ==> data@[j] != 10u8
            },
            None => forall|j: int| from <= j < data.len() ==> data@[j] != 10u8,
        },
{
    let mut i = from;
    while i < data.len()
        invariant
            from <= i <= data.len(),
            forall|j: int| from <= j < i ==> data@[j] != 10u8,
        decreases data.len() - i,
    {
        if data[i] == 10u8 {
            return Some(i - from + 1);
        }
        i = i + 1;
    }
    None
}

/// The text of a line: its bytes without the trailing "\n" or "\r\n".
pub open spec fn without_line_ending(line: Seq<u8>) -> Seq<u8> {
    let body = if line.len() > 0 && line.last() == 10u8 { line.drop_last() } else { line };
    if body.len() > 0 && body.last() == 13u8 {
        body.drop_last()
    } else {
        body
    }
}

/// The bytes of `data[from..from + len]` with the line ending removed.
pub fn line_body(data: &[u8], from: usize, len: usize) -> (r: Vec<u8>)
    requires
        from <= data.len(),
        len <= data.len() - from,
    ensures
        r@ == without_line_ending(data@.subrange(from as int, from + len)),
{
    let mut end = from + len;
    if end > from && data[end - 1] == 10u8 {
        end = end - 1;
    }
    if end > from && data[end - 1] == 13u8 {
        end = end - 1;
    }
    let mut out: Vec<u8> = Vec::new();
    let mut i = from;
    while i < end
        invariant
            from <= i <= end,
            end <= data.len(),
            out@ == data@.subrange(from as int, i as int),
        decreases end - i,
    {
        out.push(data[i]);
        proof {
            assert(data@.subrange(from as int, i + 1) =~= data@.subrange(from as int, i as int).push(data@[i as int]));
        }
        i = i + 1;
    }
    proof {
        let line = data@.subrange(from as int, from + len);
        let body = if line.len() > 0 && line.last() == 10u8 { line.drop_last() } else { line };
        assert(body =~= data@.subrange(from as int, from + len - (if line.len() > 0 && line.last() == 10u8 { 1int } else { 0int })));
    }
    out
}

/// `String::from_utf8`: its documentation gives that the bytes are accepted
/// exactly when they are valid UTF-8, and then kept as they are.
#[verifier::external_body]
fn utf8_text(bytes: Vec<u8>) -> (r: Option<String>)
    ensures
        r is Some <==> vstd::utf8::valid_utf8(bytes@),
        r matches Some(s) ==> s@ == vstd::utf8::decode_utf8(bytes@),
{
    String::from_utf8(bytes).ok()
}

/// The text of the line `data[from..from + len]`, without its line ending;
/// `None` when those bytes are not valid UTF-8 (the watcher then stops
/// reading, as `BufRead::lines` does on such a line).
pub fn line_text(data: &[u8], from: usize, len: usize) -> (r: Option<String>)
    requires
        from <= data.len(),
        len <= data.len() - from,
    ensures
        r is Some <==> vstd::utf8::valid_utf8(without_line_ending(data@.subrange(from as int, from + len))),
        r matches Some(s) ==> s@ == vstd::utf8::decode_utf8(
            without_line_ending(data@.subrange(from as int, from + len)),
        ),
{
    utf8_text(line_body(data, from, len))
}

/// What the watcher does with one complete line.
#[derive(Debug, PartialEq, Eq, Structural)]
pub enum LineAction {
    /// The shipper's own echoed output: advance past it without shipping.
    SkipOwnOutput,
    /// Ship it; advance only once it is delivered.
    Ship,
}

pub fn line_action(line: &str) -> (r: LineAction)
    ensures
        r == (if pattern_hits(own_output_pattern(), line@) { LineAction::SkipOwnOutput } else { LineAction::Ship }),
{
    if looks_like_own_output(line) {
        LineAction::SkipOwnOutput
    } else {
        LineAction::Ship
    }
}

/// Whether the watcher is done with a line: its own output always is (it is
/// skipped, never shipped); any other line only once it was delivered.
pub open spec fn line_handled(action: LineAction, delivered: bool) -> bool {
    match action {
        LineAction::SkipOwnOutput => true,
        LineAction::Ship => delivered,
    }
}

/// The saved position after a complete line of `line_len` bytes that began
/// at `position`: past the line once it is handled, `None` (stop reading and
/// retry from `position` at the next poll) otherwise.
pub fn after_line(position: u64, line_len: usize, action: &LineAction, delivered: bool) -> (r: Option<u64>)
    requires
        position + line_len <= u64::MAX,
    ensures
        r == (if line_handled(*action, delivered) {
            Some((position + line_len) as u64)
        } else {
            None
        }),
{
    let handled = match action {
        LineAction::SkipOwnOutput => true,
        LineAction::Ship => delivered,
    };
    if handled {
        Some(position + line_len as u64)
    } else {
        None
    }
}




// ---------------------------------------------------------------------------
// Windows Security log text (wevtutil /f:text)
// ---------------------------------------------------------------------------

/// The position of the first `c` in `s`.
pub open spec fn index_of(s: Seq<char>, c: char) -> Option<int> {
    if exists|i: int| 0 <= i < s.len() && s[i] == c {
        Some(choose|i: int| 0 <= i < s.len() && s[i] == c && forall|j: int| 0 <= j < i ==> s[j] != c)
    } else {
        None
    }
}

proof fn lemma_index_of(s: Seq<char>, c: char, i: int)
    requires
        0 <= i <= s.len(),
        forall|j: int| 0 <= j < i ==> s[j] != c,
        i == s.len() || s[i] == c,
    ensures
        index_of(s, c) == (if i == s.len() {
            None::<int>
        } else {
            Some(i)
        }),
{
    if i < s.len() {
        let w = choose|w: int| 0 <= w < s.len() && s[w] == c && forall|j: int| 0 <= j < w ==> s[j] != c;
        assert(exists|w: int| 0 <= w < s.len() && s[w] == c && forall|j: int| 0 <= j < w ==> s[j] != c) by {
            assert(0 <= i < s.len() && s[i] == c && forall|j: int| 0 <= j < i ==> s[j] != c);
        }
        if w < i {
            assert(s[w] != c);
        }
        if w > i {
            assert(s[i] != c);
        }
    }
}

fn find_char(cs: &[char], from: usize, c: char) -> (r: usize)
    requires
        from <= cs.len(),
    ensures
        from <= r <= cs.len(),
        forall|j: int| from <= j < r ==> cs@[j] != c,
        r < cs.len() ==> cs@[r as int] == c,
{
    let mut i = from;
    while i < cs.len() && cs[i] != c
        invariant
            from <= i <= cs.len(),
            forall|j: int| from <= j < i ==> cs@[j] != c,
        decreases cs.len() - i,
    {
        i = i + 1;
    }
    i
}

fn trim_bounds(cs: &[char], lo: usize, hi: usize) -> (r: (usize, usize))
    requires
        lo <= hi <= cs.len(),
    ensures
        lo <= r.0 <= r.1 <= hi,
        cs@.subrange(r.0 as int, r.1 as int) == trim(cs@.subrange(lo as int, hi as int)),
{
    let ghost s = cs@.subrange(lo as int, hi as int);
    let mut i = lo;
    while i < hi && crate::text::char_is_space(cs[i])
        invariant
            lo <= i <= hi <= cs.len(),
            forall|k: int| lo <= k < i ==> crate::text::is_space(#[trigger] cs@[k]),
        decreases hi - i,
    {
        i = i + 1;
    }
    proof {
        assert forall|k: int| 0 <= k < i - lo implies crate::text::is_space(#[trigger] s[k]) by {
            assert(s[k] == cs@[k + lo]);
        }
        crate::text::lemma_trim_start_skip(s, i - lo);
    }
    let ghost rest = s.skip(i - lo);
    let mut j = hi;
    while j > i && crate::text::char_is_space(cs[j - 1])
        invariant
            lo <= i <= j <= hi <= cs.len(),
            forall|k: int| j <= k < hi ==> crate::text::is_space(#[trigger] cs@[k]),
        decreases j - i,
    {
        j = j - 1;
    }
    proof {
        assert forall|k: int| j - i <= k < rest.len() implies crate::text::is_space(#[trigger] rest[k]) by {
            assert(rest[k] == cs@[k + i]);
        }
        crate::text::lemma_trim_end_take(rest, j - i);
        assert(rest.take(j - i) =~= cs@.subrange(i as int, j as int));
        if i < hi {
            assert(rest[0] == cs@[i as int]);
            assert(rest.take(j - i)[0] == rest[0]);
        }
        assert(crate::text::trim_start(rest) == rest);
        if j > i {
            assert(rest.take(j - i).last() == cs@[j - 1]);
        }
        assert(crate::text::trim_end(rest.take(j - i)) == rest.take(j - i));
    }
    (i, j)
}

fn text_of(cs: &[char], lo: usize, hi: usize) -> (r: String)
    requires
        lo <= hi <= cs.len(),
    ensures
        r@ == cs@.subrange(lo as int, hi as int),
{
    let mut out = String::new();
    let mut k = lo;
    while k < hi
        invariant
            lo <= k <= hi <= cs.len(),
            out@ == cs@.subrange(lo as int, k as int),
        decreases hi - k,
    {
        push_char(&mut out, cs[k]);
        proof {
            assert(cs@.subrange(lo as int, k + 1) =~= cs@.subrange(lo as int, k as int).push(cs@[k as int]));
        }
        k = k + 1;
    }
    out
}

/// The label that marks the line holding the event ID.
pub open spec fn event_id_label() -> Seq<char> {
    seq!['E', 'v', 'e', 'n', 't', ' ', 'I', 'D', ':']
}

/// The event ID of a text block: on the first line whose trimmed text starts
/// with "Event ID:", what follows that label, trimmed.
pub open spec fn event_id_in(block: Seq<char>) -> Option<Seq<char>>
    decreases block.len(),
{
    let end = match index_of(block, '\n') {
        Some(i) => i,
        None => block.len() as int,
    };
    let t = trim(block.take(end));
    let p = event_id_label();
    if t.len() >= p.len() && t.take(p.len() as int) == p {
        Some(trim(t.skip(p.len() as int)))
    } else if 0 <= end < block.len() {
        event_id_in(block.skip(end + 1))
    } else {
        None
    }
}

fn starts_with_label(cs: &[char], lo: usize, hi: usize) -> (r: bool)
    requires
        lo <= hi <= cs.len(),
    ensures
        r == (hi - lo >= event_id_label().len() && cs@.subrange(lo as int, hi as int).take(
            event_id_label().len() as int,
        ) == event_id_label()),
{
    let label = ['E', 'v', 'e', 'n', 't', ' ', 'I', 'D', ':'];
    proof {
        assert(label@ =~= event_id_label());
    }
    if hi - lo < 9 {
        return false;
    }
    let mut k: usize = 0;
    while k < 9
        invariant
            k <= 9,
            lo + 9 <= hi <= cs.len(),
            label@ == event_id_label(),
            forall|m: int| 0 <= m < k ==> cs@[lo + m] == label@[m],
        decreases 9 - k,
    {
        if cs[lo + k] != label[k] {
            proof {
                assert(cs@.subrange(lo as int, hi as int).take(9)[k as int] == cs@[lo + k]);
            }
            return false;
        }
        k = k + 1;
    }
    proof {
        assert(cs@.subrange(lo as int, hi as int).take(9) =~= event_id_label());
    }
    true
}

proof fn lemma_event_id_step(block: Seq<char>, start: int, end: int)
    requires
        0 <= start <= end <= block.len(),
        forall|j: int| start <= j < end ==> block[j] != '\n',
        end == block.len() || block[end] == '\n',
    ensures
        ({
            let t = trim(block.subrange(start, end));
            let p = event_id_label();
            event_id_in(block.skip(start)) == if t.len() >= p.len() && t.take(p.len() as int) == p {
                Some(trim(t.skip(p.len() as int)))
            } else if end < block.len() {
                event_id_in(block.skip(end + 1))
            } else {
                None
            }
        }),
{
    let rest = block.skip(start);
    assert forall|j: int| 0 <= j < end - start implies rest[j] != '\n' by {
        assert(rest[j] == block[j + start]);
    }
    if end < block.len() {
        assert(rest[end - start] == block[end]);
    }
    lemma_index_of(rest, '\n', end - start);
    assert(rest.take(end - start) =~= block.subrange(start, end));
    if end < block.len() {
        assert(rest.skip(end - start + 1) =~= block.skip(end + 1));
    }
}

/// Finds the event ID in a wevtutil text block.
#[verifier::rlimit(80)]
#[verifier::spinoff_prover]
pub fn event_id_of_block(block: &str) -> (r: Option<String>)
    ensures
        match r {
            Some(id) => event_id_in(block@) == Some(id@),
            None => event_id_in(block@) is None,
        },
{
    let cs = chars_of(block);
    let mut start: usize = 0;
    proof {
        assert(block@.skip(0) =~= block@);
    }
    loop
        invariant
            cs@ == block@,
            start <= cs.len(),
            event_id_in(block@) == event_id_in(block@.skip(start as int)),
        decreases cs.len() - start,
    {
        let end = find_char(cs.as_slice(), start, '\n');
        proof {
            lemma_event_id_step(block@, start as int, end as int);
        }
        let (a, b) = trim_bounds(cs.as_slice(), start, end);
        if starts_with_label(cs.as_slice(), a, b) {
            let (c, d) = trim_bounds(cs.as_slice(), a + 9, b);
            proof {
                assert(cs@.subrange(a as int, b as int).skip(9) =~= cs@.subrange(a + 9, b as int));
            }
            return Some(text_of(cs.as_slice(), c, d));
        }
        if end == cs.len() {
            return None;
        }
        start = end + 1;
    }
}

/// The block separator of wevtutil's text output, a blank line.
pub open spec fn block_separator() -> Seq<char> {
    seq!['\r', '\n', '\r', '\n']
}

/// Where the first separator starts in `s`.
pub open spec fn separator_at(s: Seq<char>) -> Option<int> {
    if exists|i: int| 0 <= i && i + 4 <= s.len() && #[trigger] s.subrange(i, i + 4) == block_separator() {
        Some(
            choose|i: int|
                0 <= i && i + 4 <= s.len() && #[trigger] s.subrange(i, i + 4) == block_separator() && forall|j: int|
                    0 <= j < i ==> #[trigger] s.subrange(j, j + 4) != block_separator(),
        )
    } else {
        None
    }
}

/// The pieces of `s` between separators (`str::split("\r\n\r\n")`).
pub open spec fn blocks_of(s: Seq<char>) -> Seq<Seq<char>>
    decreases s.len(),
{
    match separator_at(s) {
        Some(i) => if 0 <= i && i + 4 <= s.len() {
            seq![s.take(i)] + blocks_of(s.skip(i + 4))
        } else {
            seq![s]
        },
        None => seq![s],
    }
}

/// The event shipped for one wevtutil block: the block's classification by
/// event ID, user "system", and the message "[<label>] EventID=<id> <block>".
pub open spec fn windows_event_of(block: Seq<char>, host: Seq<char>) -> Option<(Seq<char>, Seq<char>, Seq<char>, Seq<char>)> {
    if is_blank(block) {
        None
    } else {
        match event_id_in(block) {
            Some(id) => Some(
                (
                    event_id_class(id).0,
                    "system"@,
                    "["@ + event_id_class(id).1 + "] EventID="@ + id + " "@ + trim(block),
                    host,
                ),
            ),
            None => None,
        }
    }
}

/// The events of every block, skipping blocks that are blank or carry no
/// event ID, in order.
pub open spec fn windows_events_of(blocks: Seq<Seq<char>>, host: Seq<char>) -> Seq<(Seq<char>, Seq<char>, Seq<char>, Seq<char>)>
    decreases blocks.len(),
{
    if blocks.len() == 0 {
        seq![]
    } else {
        let rest = windows_events_of(blocks.drop_last(), host);
        match windows_event_of(blocks.last(), host) {
            Some(e) => rest.push(e),
            None => rest,
        }
    }
}

pub open spec fn entry_view(e: NewLogEntry) -> (Seq<char>, Seq<char>, Seq<char>, Seq<char>) {
    (e.severity@, e.user@, e.message@, e.host@)
}

/// The event to ship for one block of wevtutil output, if it is one.
pub fn windows_event_entry(block: &str, host: &str) -> (r: Option<NewLogEntry>)
    ensures
        match r {
            Some(e) => windows_event_of(block@, host@) == Some(entry_view(e)),
            None => windows_event_of(block@, host@) is None,
        },
{
    if crate::text::str_is_blank(block) {
        return None;
    }
    let id = match event_id_of_block(block) {
        Some(id) => id,
        None => {
            return None;
        },
    };
    let (severity_name, label) = classify_event_id(id.as_str());
    let mut severity = String::new();
    push_str(&mut severity, severity_name);
    let mut user = String::new();
    push_str(&mut user, "system");
    let mut message = String::new();
    push_str(&mut message, "[");
    push_str(&mut message, label);
    push_str(&mut message, "] EventID=");
    push_str(&mut message, id.as_str());
    push_str(&mut message, " ");
    let body = crate::text::trim_text(block);
    push_str(&mut message, body.as_str());
    let mut h = String::new();
    push_str(&mut h, host);
    Some(NewLogEntry { severity, user, message, host: h })
}

fn separator_starts(cs: &[char], i: usize) -> (r: bool)
    requires
        i + 4 <= cs.len(),
    ensures
        r == (cs@.subrange(i as int, i + 4) == block_separator()),
{
    let r = cs[i] == '\r' && cs[i + 1] == '\n' && cs[i + 2] == '\r' && cs[i + 3] == '\n';
    proof {
        if r {
            assert(cs@.subrange(i as int, i + 4) =~= block_separator());
        } else {
            if cs@.subrange(i as int, i + 4) == block_separator() {
                assert(cs@.subrange(i as int, i + 4)[0] == cs@[i as int]);
                assert(cs@.subrange(i as int, i + 4)[1] == cs@[i + 1]);
                assert(cs@.subrange(i as int, i + 4)[2] == cs@[i + 2]);
                assert(cs@.subrange(i as int, i + 4)[3] == cs@[i + 3]);
            }
        }
    }
    r
}

/// The first separator at or after `from`, if any.
fn find_separator(cs: &[char], from: usize) -> (r: Option<usize>)
    requires
        from <= cs.len(),
    ensures
        match r {
            Some(i) => from <= i && i + 4 <= cs.len() && cs@.subrange(i as int, i + 4) == block_separator()
                && forall|j: int| from <= j < i ==> #[trigger] cs@.subrange(j, j + 4) != block_separator(),
            None => forall|j: int| from <= j && j + 4 <= cs.len() ==> #[trigger] cs@.subrange(j, j + 4) != block_separator(),
        },
{
    let mut i = from;
    while cs.len() >= 4 && i <= cs.len() - 4
        invariant
            from <= i,
            forall|j: int| from <= j < i ==> #[trigger] cs@.subrange(j, j + 4) != block_separator(),
        decreases cs.len() - i,
    {
        if separator_starts(cs, i) {
            return Some(i);
        }
        i = i + 1;
    }
    None
}

/// The pieces of `rest` around its first separator, as found at `found`.
proof fn lemma_blocks_step(text: Seq<char>, start: int, found: Option<usize>)
    requires
        0 <= start <= text.len(),
        match found {
            Some(i) => start <= i && i + 4 <= text.len() && text.subrange(i as int, i + 4) == block_separator()
                && forall|j: int| start <= j < i ==> #[trigger] text.subrange(j, j + 4) != block_separator(),
            None => forall|j: int| start <= j && j + 4 <= text.len() ==> #[trigger] text.subrange(j, j + 4) != block_separator(),
        },
    ensures
        match found {
            Some(i) => blocks_of(text.skip(start)) == seq![text.subrange(start, i as int)] + blocks_of(text.skip(i + 4)),
            None => blocks_of(text.skip(start)) == seq![text.subrange(start, text.len() as int)],
        },
{
    let rest = text.skip(start);
    match found {
        Some(i) => {
            let k = i - start;
            assert forall|j: int| 0 <= j < k implies #[trigger] rest.subrange(j, j + 4) != block_separator() by {
                assert(rest.subrange(j, j + 4) =~= text.subrange(j + start, j + start + 4));
            }
            assert(rest.subrange(k, k + 4) =~= text.subrange(i as int, i + 4));
            assert(exists|w: int|
                0 <= w && w + 4 <= rest.len() && #[trigger] rest.subrange(w, w + 4) == block_separator());
            let w = choose|w: int|
                0 <= w && w + 4 <= rest.len() && #[trigger] rest.subrange(w, w + 4) == block_separator() && forall|j: int|
                    0 <= j < w ==> #[trigger] rest.subrange(j, j + 4) != block_separator();
            assert(exists|w: int|
                0 <= w && w + 4 <= rest.len() && #[trigger] rest.subrange(w, w + 4) == block_separator() && forall|j: int|
                    0 <= j < w ==> #[trigger] rest.subrange(j, j + 4) != block_separator()) by {
                assert(rest.subrange(k, k + 4) == block_separator());
            }
            if w < k {
                assert(rest.subrange(w, w + 4) != block_separator());
            }
            if w > k {
                assert(rest.subrange(k, k + 4) != block_separator());
            }
            assert(separator_at(rest) == Some(k));
            assert(rest.take(k) =~= text.subrange(start, i as int));
            assert(rest.skip(k + 4) =~= text.skip(i + 4));
        },
        None => {
            assert forall|j: int| 0 <= j && j + 4 <= rest.len() implies #[trigger] rest.subrange(j, j + 4) != block_separator() by {
                assert(rest.subrange(j, j + 4) =~= text.subrange(j + start, j + start + 4));
            }
            assert(separator_at(rest) is None);
            assert(rest =~= text.subrange(start, text.len() as int));
        },
    }
}

proof fn lemma_events_step(
    done: Seq<Seq<char>>,
    block: Seq<char>,
    host: Seq<char>,
    old_out: Seq<NewLogEntry>,
    new_out: Seq<NewLogEntry>,
    entry: Option<NewLogEntry>,
)
    requires
        old_out.map_values(|e: NewLogEntry| entry_view(e)) == windows_events_of(done, host),
        match entry {
            Some(e) => windows_event_of(block, host) == Some(entry_view(e)) && new_out == old_out.push(e),
            None => windows_event_of(block, host) is None && new_out == old_out,
        },
    ensures
        new_out.map_values(|e: NewLogEntry| entry_view(e)) == windows_events_of(done.push(block), host),
{
    let nd = done.push(block);
    assert(nd.drop_last() =~= done);
    match entry {
        Some(e) => {
            assert(new_out.map_values(|e: NewLogEntry| entry_view(e)) =~= old_out.map_values(
                |e: NewLogEntry| entry_view(e),
            ).push(entry_view(e)));
        },
        None => {},
    }
}

/// Splits wevtutil's text output into its blank-line separated blocks and
/// turns each block that names an event ID into the event to ship.
#[verifier::rlimit(80)]
#[verifier::spinoff_prover]
pub fn windows_events(text: &str, host: &str) -> (r: Vec<NewLogEntry>)
    ensures
        r@.map_values(|e: NewLogEntry| entry_view(e)) == windows_events_of(blocks_of(text@), host@),
{
    let cs = chars_of(text);
    let mut out: Vec<NewLogEntry> = Vec::new();
    let mut start: usize = 0;
    let ghost mut done: Seq<Seq<char>> = seq![];
    proof {
        assert(text@.skip(0) =~= text@);
        assert(done + blocks_of(text@.skip(0)) =~= blocks_of(text@));
    }
    loop
        invariant
            cs@ == text@,
            start <= cs.len(),
            done + blocks_of(text@.skip(start as int)) == blocks_of(text@),
            out@.map_values(|e: NewLogEntry| entry_view(e)) == windows_events_of(done, host@),
        decreases cs.len() - start,
    {
        let found = find_separator(cs.as_slice(), start);
        proof {
            lemma_blocks_step(text@, start as int, found);
        }
        let end = match found {
            Some(i) => i,
            None => cs.len(),
        };
        let block = text_of(cs.as_slice(), start, end);
        let entry = windows_event_entry(block.as_str(), host);
        let ghost old_out = out@;
        let ghost entry_copy = entry;
        match entry {
            Some(e) => {
                out.push(e);
            },
            None => {},
        }
        proof {
            lemma_events_step(done, block@, host@, old_out, out@, entry_copy);
            let nd = done.push(block@);
            match found {
                Some(i) => {
                    assert(nd + blocks_of(text@.skip(i + 4)) =~= done + blocks_of(text@.skip(start as int)));
                },
                None => {
                    assert(nd =~= done + blocks_of(text@.skip(start as int)));
                },
            }
            done = nd;
        }
        match found {
            Some(i) => {
                start = i + 4;
            },
            None => {
                return out;
            },
        }
    }
}

// ---------------------------------------------------------------------------
// Saved read positions
// ---------------------------------------------------------------------------

pub open spec fn is_ascii_digit(c: char) -> bool {
    '0' <= c && c <= '9'
}

/// The number written by a sequence of decimal digits.
pub open spec fn decimal_value(d: Seq<char>) -> nat
    decreases d.len(),
{
    if d.len() == 0 {
        0
    } else {
        decimal_value(d.drop_last()) * 10 + ((d.last() as u32) - 48) as nat
    }
}

/// The digits `u64::from_str` reads: all of the text, after one optional
/// leading '+' (a lone "+" has none).
pub open spec fn unsigned_digits(s: Seq<char>) -> Seq<char> {
    if s.len() > 1 && s[0] == '+' {
        s.drop_first()
    } else {
        s
    }
}

/// What `text.trim().parse::<u64>().ok()` gives: the value of a non-empty
/// run of decimal digits (after an optional '+') that fits in a `u64`.
pub open spec fn parsed_position(text: Seq<char>) -> Option<u64> {
    let d = unsigned_digits(trim(text));
    if d.len() > 0 && (forall|i: int| 0 <= i < d.len() ==> is_ascii_digit(#[trigger] d[i]))
        && decimal_value(d) <= u64::MAX {
        Some(decimal_value(d) as u64)
    } else {
        None
    }
}

proof fn lemma_decimal_monotone(d: Seq<char>, k: int)
    requires
        0 <= k <= d.len(),
        forall|i: int| 0 <= i < d.len() ==> is_ascii_digit(#[trigger] d[i]),
    ensures
        decimal_value(d.take(k)) <= decimal_value(d),
    decreases d.len() - k,
{
    if k < d.len() {
        let e = d.drop_last();
        assert(e.take(k) =~= d.take(k)) by {
            if k == d.len() - 1 {
            }
        }
        if k <= e.len() {
            assert forall|i: int| 0 <= i < e.len() implies is_ascii_digit(#[trigger] e[i]) by {
                assert(e[i] == d[i]);
            }
            lemma_decimal_monotone(e, k);
        }
        assert(d.take(d.len() as int) =~= d);
    } else {
        assert(d.take(k) =~= d);
    }
}

/// Reads a saved read position: the text trimmed and parsed as a `u64`.
pub fn parse_position(text: &str) -> (r: Option<u64>)
    ensures
        r == parsed_position(text@),
{
    let t = crate::text::trim_text(text);
    let cs = chars_of(t.as_str());
    let ghost d = unsigned_digits(t@);
    let start: usize = if cs.len() > 1 && cs[0] == '+' { 1 } else { 0 };
    proof {
        assert(d =~= cs@.skip(start as int));
    }
    if cs.len() == start {
        return None;
    }
    let mut value: u64 = 0;
    let mut i = start;
    while i < cs.len()
        invariant
            cs@ == t@,
            t@ == trim(text@),
            d == cs@.skip(start as int),
            d == unsigned_digits(trim(text@)),
            start <= i <= cs.len(),
            forall|k: int| start <= k < i ==> is_ascii_digit(#[trigger] cs@[k]),
            value as nat == decimal_value(d.take(i - start)),
        decreases cs.len() - i,
    {
        let c = cs[i];
        if !('0' <= c && c <= '9') {
            proof {
                assert(d[i - start] == c);
                assert(!is_ascii_digit(d[i - start]));
                assert(!(forall|k: int| 0 <= k < d.len() ==> is_ascii_digit(#[trigger] d[k])));
            }
            return None;
        }
        let digit = (c as u32 - 48) as u64;
        proof {
            assert(d.take(i - start + 1).drop_last() =~= d.take(i - start));
            assert(d.take(i - start + 1).last() == c);
        }
        let next = match value.checked_mul(10) {
            Some(v) => v.checked_add(digit),
            None => None,
        };
        match next {
            Some(v) => {
                value = v;
            },
            None => {
                proof {
                    assert forall|k: int| 0 <= k < d.len() && k <= i - start implies is_ascii_digit(#[trigger] d[k]) by {
                        assert(d[k] == cs@[k + start]);
                    }
                    assert(decimal_value(d.take(i - start + 1)) == decimal_value(d.take(i - start)) * 10 + digit);
                    assert(decimal_value(d.take(i - start + 1)) > u64::MAX);
                    if forall|k: int| 0 <= k < d.len() ==> is_ascii_digit(#[trigger] d[k]) {
                        lemma_decimal_monotone(d, i - start + 1);
                    }
                }
                return None;
            },
        }
        i = i + 1;
    }
    proof {
        assert(d.take(d.len() as int) =~= d);
        assert forall|k: int| 0 <= k < d.len() implies is_ascii_digit(#[trigger] d[k]) by {
            assert(d[k] == cs@[k + start]);
        }
    }
    Some(value)
}

/// The decimal digit for `d` (0 to 9).
pub open spec fn digit_char(d: nat) -> char {
    (48 + d) as char
}

/// The decimal rendering of `n`, without sign or leading zeros
/// (what `u64::to_string` writes).
pub open spec fn decimal_text(n: nat) -> Seq<char>
    decreases n,
{
    if n < 10 {
        seq![digit_char(n)]
    } else {
        decimal_text(n / 10).push(digit_char(n % 10))
    }
}

proof fn lemma_decimal_text(n: nat)
    ensures
        decimal_text(n).len() > 0,
        forall|i: int| 0 <= i < decimal_text(n).len() ==> is_ascii_digit(#[trigger] decimal_text(n)[i]),
        decimal_value(decimal_text(n)) == n,
    decreases n,
{
    assert((digit_char(n % 10) as u32) == 48 + n % 10);
    if n < 10 {
        let t = decimal_text(n);
        assert(t.drop_last() =~= Seq::<char>::empty());
        assert(decimal_value(Seq::<char>::empty()) == 0);
        assert(decimal_value(t) == n);
    }
    if n >= 10 {
        lemma_decimal_text(n / 10);
        let t = decimal_text(n);
        let h = decimal_text(n / 10);
        assert(t.drop_last() =~= h);
        assert(t.last() == digit_char(n % 10));
        assert(decimal_value(t) == decimal_value(h) * 10 + (n % 10));
        assert((n / 10) * 10 + n % 10 == n);
        assert forall|i: int| 0 <= i < t.len() implies is_ascii_digit(#[trigger] t[i]) by {
            if i < h.len() {
                assert(t[i] == h[i]);
            }
        }
    }
}

/// A position written out as decimal text reads back as the same position.
pub proof fn lemma_position_round_trip(p: u64)
    ensures
        parsed_position(decimal_text(p as nat)) == Some(p),
{
    let t = decimal_text(p as nat);
    lemma_decimal_text(p as nat);
    assert(!crate::text::is_space(t[0]));
    assert(crate::text::trim_start(t) == t);
    assert(!crate::text::is_space(t.last()));
    assert(crate::text::trim_end(t) == t);
    assert(t[0] != '+');
    assert(unsigned_digits(trim(t)) == t);
}

/// Writes a position as decimal text, to be read back by `parse_position`.
pub fn position_text(p: u64) -> (r: String)
    ensures
        r@ == decimal_text(p as nat),
{
    let mut digits: Vec<char> = Vec::new();
    let mut n: u64 = p;
    proof {
        assert(decimal_text(p as nat) =~= decimal_text(p as nat) + digits@.reverse());
    }
    loop
        invariant_except_break
            decimal_text(p as nat) == decimal_text(n as nat) + digits@.reverse(),
        ensures
            decimal_text(p as nat) == digits@.reverse(),
        decreases n,
    {
        let d = n % 10;
        let c = ((48 + d) as u8) as char;
        proof {
            assert(c == digit_char(d as nat));
        }
        let ghost old_digits = digits@;
        digits.push(c);
        proof {
            assert(digits@.reverse() =~= seq![c] + old_digits.reverse());
            if n >= 10 {
                assert(decimal_text(n as nat) == decimal_text((n / 10) as nat).push(c));
                assert(decimal_text((n / 10) as nat) + digits@.reverse() =~= decimal_text(
                    n as nat,
                ) + old_digits.reverse());
            } else {
                assert(decimal_text(n as nat) == seq![c]);
                assert(digits@.reverse() =~= decimal_text(n as nat) + old_digits.reverse());
            }
        }
        n = n / 10;
        if n == 0 {
            break;
        }
    }
    let mut out = String::new();
    let mut i = digits.len();
    while i > 0
        invariant
            i <= digits.len(),
            out@ == digits@.reverse().take((digits.len() - i) as int),
        decreases i,
    {
        i = i - 1;
        push_char(&mut out, digits[i]);
        proof {
            let rv = digits@.reverse();
            assert(rv[(digits.len() - i - 1) as int] == digits@[i as int]);
            assert(rv.take((digits.len() - i) as int) =~= rv.take((digits.len() - i - 1) as int).push(
                digits@[i as int],
            ));
        }
    }
    proof {
        assert(digits@.reverse().take(digits.len() as int) =~= digits@.reverse());
    }
    out
}

// ---------------------------------------------------------------------------
// Reconciling the watched paths with the server's configuration
// ---------------------------------------------------------------------------

pub open spec fn views_of(v: Seq<String>) -> Seq<Seq<char>> {
    v.map_values(|s: String| s@)
}

fn contains_text(v: &Vec<String>, x: &str) -> (r: bool)
    ensures
        r == views_of(v@).contains(x@),
{
    let mut i: usize = 0;
    while i < v.len()
        invariant
            i <= v.len(),
            forall|k: int| 0 <= k < i ==> v@[k]@ != x@,
        decreases v.len() - i,
    {
        if str_eq(v[i].as_str(), x) {
            proof {
                assert(views_of(v@)[i as int] == x@);
            }
            return true;
        }
        i = i + 1;
    }
    proof {
        if views_of(v@).contains(x@) {
            let k = choose|k: int| 0 <= k < views_of(v@).len() && views_of(v@)[k] == x@;
            assert(v@[k]@ == x@);
        }
    }
    false
}

fn text_copy(x: &str) -> (r: String)
    ensures
        r@ == x@,
{
    let mut s = String::new();
    push_str(&mut s, x);
    s
}

/// Which watchers to stop and which to start so that the running set
/// matches the configured paths: stop every running path no longer
/// configured; start every configured path not yet running, once each.
pub fn reconcile_paths(active: &Vec<String>, desired: &Vec<String>) -> (r: (Vec<String>, Vec<String>))
    ensures
        forall|x: Seq<char>| #[trigger] views_of(r.0@).contains(x) <==> (views_of(active@).contains(x) && !views_of(desired@).contains(x)),
        forall|x: Seq<char>| #[trigger] views_of(r.1@).contains(x) <==> (views_of(desired@).contains(x) && !views_of(active@).contains(x)),
        views_of(r.1@).no_duplicates(),
        // Once stopped and started, the running set is exactly the configured one.
        forall|x: Seq<char>|
            #![trigger views_of(desired@).contains(x)]
            views_of(desired@).contains(x) <==> ((views_of(active@).contains(x) && !views_of(r.0@).contains(x))
                || views_of(r.1@).contains(x)),
{
    let mut stop: Vec<String> = Vec::new();
    let mut i: usize = 0;
    while i < active.len()
        invariant
            i <= active.len(),
            forall|x: Seq<char>| #[trigger] views_of(stop@).contains(x) <==> (views_of(active@.take(i as int)).contains(x) && !views_of(desired@).contains(x)),
        decreases active.len() - i,
    {
        let ghost before = stop@;
        if !contains_text(desired, active[i].as_str()) {
            stop.push(text_copy(active[i].as_str()));
        }
        proof {
            assert(views_of(active@.take(i + 1)) =~= views_of(active@.take(i as int)).push(active@[i as int]@));
            let y = active@[i as int]@;
            if stop@.len() > before.len() {
                assert(views_of(stop@) =~= views_of(before).push(y));
                assert forall|x: Seq<char>| #[trigger] views_of(stop@).contains(x) == (views_of(before).contains(x) || x == y) by {
                    if views_of(stop@).contains(x) && x != y {
                        let k = choose|k: int| 0 <= k < views_of(stop@).len() && views_of(stop@)[k] == x;
                        assert(views_of(before)[k] == x);
                    }
                    if views_of(before).contains(x) {
                        let k = choose|k: int| 0 <= k < views_of(before).len() && views_of(before)[k] == x;
                        assert(views_of(stop@)[k] == x);
                    }
                    if x == y {
                        assert(views_of(stop@)[before.len() as int] == x);
                    }
                }
            } else {
                assert(views_of(stop@) =~= views_of(before));
            }
            let ta = views_of(active@.take(i as int));
            assert forall|x: Seq<char>| #[trigger] ta.push(y).contains(x) == (ta.contains(x) || x == y) by {
                if ta.push(y).contains(x) && x != y {
                    let k = choose|k: int| 0 <= k < ta.push(y).len() && ta.push(y)[k] == x;
                    assert(ta[k] == x);
                }
                if ta.contains(x) {
                    let k = choose|k: int| 0 <= k < ta.len() && ta[k] == x;
                    assert(ta.push(y)[k] == x);
                }
                if x == y {
                    assert(ta.push(y)[ta.len() as int] == x);
                }
            }
        }
        i = i + 1;
    }
    proof {
        assert(active@.take(active@.len() as int) =~= active@);
    }
    let mut start: Vec<String> = Vec::new();
    let mut j: usize = 0;
    while j < desired.len()
        invariant
            j <= desired.len(),
            forall|x: Seq<char>| #[trigger] views_of(start@).contains(x) <==> (views_of(desired@.take(j as int)).contains(x) && !views_of(active@).contains(x)),
            views_of(start@).no_duplicates(),
        decreases desired.len() - j,
    {
        let ghost before = start@;
        let x = desired[j].as_str();
        if !contains_text(active, x) && !contains_text(&start, x) {
            start.push(text_copy(x));
        }
        proof {
            assert(views_of(desired@.take(j + 1)) =~= views_of(desired@.take(j as int)).push(desired@[j as int]@));
            let y = desired@[j as int]@;
            if start@.len() > before.len() {
                assert(views_of(start@) =~= views_of(before).push(y));
                assert forall|x: Seq<char>| #[trigger] views_of(start@).contains(x) == (views_of(before).contains(x) || x == y) by {
                    if views_of(start@).contains(x) && x != y {
                        let k = choose|k: int| 0 <= k < views_of(start@).len() && views_of(start@)[k] == x;
                        assert(views_of(before)[k] == x);
                    }
                    if views_of(before).contains(x) {
                        let k = choose|k: int| 0 <= k < views_of(before).len() && views_of(before)[k] == x;
                        assert(views_of(start@)[k] == x);
                    }
                    if x == y {
                        assert(views_of(start@)[before.len() as int] == x);
                    }
                }
                assert forall|a: int, b: int| 0 <= a < b < views_of(start@).len() implies views_of(start@)[a] != views_of(start@)[b] by {
                    if b == before.len() {
                        assert(views_of(before)[a] == views_of(start@)[a]);
                    }
                }
            } else {
                assert(views_of(start@) =~= views_of(before));
            }
            let td = views_of(desired@.take(j as int));
            assert forall|x: Seq<char>| #[trigger] td.push(y).contains(x) == (td.contains(x) || x == y) by {
                if td.push(y).contains(x) && x != y {
                    let k = choose|k: int| 0 <= k < td.push(y).len() && td.push(y)[k] == x;
                    assert(td[k] == x);
                }
                if td.contains(x) {
                    let k = choose|k: int| 0 <= k < td.len() && td[k] == x;
                    assert(td.push(y)[k] == x);
                }
                if x == y {
                    assert(td.push(y)[td.len() as int] == x);
                }
            }
        }
        j = j + 1;
    }
    proof {
        assert(desired@.take(desired@.len() as int) =~= desired@);
    }
    (stop, start)
}
} // verus!
