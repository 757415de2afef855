use vstd::prelude::*;

use crate::fingerprint::spec_sha256_hex;
use crate::models::{NewLogEntry, new_log_entry_ok};
use crate::parser::hash_line;
use crate::text::{byte_len, byte_len_at_most, chars_of, is_blank, push_char, push_str, str_eq,
    str_is_blank, string_from_chars, trim, trim_text};

verus! {

// HTTP statuses the server answers with when a request is refused.
pub const BAD_REQUEST: u16 = 400;
pub const UNAUTHORIZED: u16 = 401;
pub const FORBIDDEN: u16 = 403;
pub const PRECONDITION_REQUIRED: u16 = 428;
pub const TOO_MANY_REQUESTS: u16 = 429;

/// The part of a text before its first ',' (all of it when there is none),
/// as the first item of `str::split(',')`.
pub open spec fn first_field(s: Seq<char>) -> Seq<char> {
    if exists|i: int| 0 <= i < s.len() && s[i] == ',' {
        s.take(choose|i: int| 0 <= i < s.len() && s[i] == ',' && forall|j: int| 0 <= j < i ==> s[j] != ',')
    } else {
        s
    }
}

fn first_field_exec(s: &str) -> (r: Vec<char>)
    ensures
        r@ == first_field(s@),
{
    let cs = chars_of(s);
    let mut i: usize = 0;
    while i < cs.len()
        invariant
            cs@ == s@,
            i <= cs.len(),
            forall|j: int| 0 <= j < i ==> cs@[j] != ',',
        decreases cs.len() - i,
    {
        if cs[i] == ',' {
            let mut out: Vec<char> = Vec::new();
            let mut k: usize = 0;
            while k < i
                invariant
                    cs@ == s@,
                    k <= i < cs.len(),
                    out@ == s@.take(k as int),
                decreases i - k,
            {
                out.push(cs[k]);
                proof {
                    assert(s@.take(k + 1) =~= s@.take(k as int).push(s@[k as int]));
                }
                k = k + 1;
            }
            proof {
                let w = choose|w: int| 0 <= w < s@.len() && s@[w] == ',' && forall|j: int| 0 <= j < w ==> s@[j] != ',';
                assert(s@[i as int] == ',');
                if w < i {
                    assert(s@[w] != ',');
                }
                if w > i {
                    assert(s@[i as int] != ',');
                }
            }
            return out;
        }
        i = i + 1;
    }
    cs
}

/// The scheme a request came in on: the first value of `X-Forwarded-Proto`,
/// trimmed, or "http" when the header is absent.
pub open spec fn request_scheme(forwarded_proto: Option<Seq<char>>) -> Seq<char> {
    match forwarded_proto {
        Some(p) => trim(first_field(p)),
        None => "http"@,
    }
}

pub fn scheme_from_header(forwarded_proto: Option<&str>) -> (r: String)
    ensures
        r@ == request_scheme(
            match forwarded_proto {
                Some(p) => Some(p@),
                None => None,
            },
        ),
{
    match forwarded_proto {
        Some(p) => {
            let field = first_field_exec(p);
            let text = string_from_chars(field.as_slice());
            trim_text(text.as_str())
        },
        None => {
            let mut s = String::new();
            push_str(&mut s, "http");
            s
        },
    }
}

pub open spec fn opt_view(o: Option<&str>) -> Option<Seq<char>> {
    match o {
        Some(s) => Some(s@),
        None => None,
    }
}

/// "<scheme>://<host>".
pub open spec fn origin_of(scheme: Seq<char>, host: Seq<char>) -> Seq<char> {
    scheme + "://"@ + host
}

/// The base URL of this server as the client reached it, from the `Host`
/// header (default "localhost:3000") and `X-Forwarded-Proto`.
pub fn base_url_from_headers(host: Option<&str>, forwarded_proto: Option<&str>) -> (r: String)
    ensures
        r@ == origin_of(
            request_scheme(opt_view(forwarded_proto)),
            match host {
                Some(h) => h@,
                None => "localhost:3000"@,
            },
        ),
{
    let mut out = scheme_from_header(forwarded_proto);
    push_str(&mut out, "://");
    match host {
        Some(h) => push_str(&mut out, h),
        None => push_str(&mut out, "localhost:3000"),
    }
    out
}

/// Methods that cannot change state and so skip the origin check.
pub open spec fn is_safe_method(method: Seq<char>) -> bool {
    method == "GET"@ || method == "HEAD"@ || method == "OPTIONS"@
}

/// The same-origin rule for cookie-authenticated requests: safe methods
/// pass; otherwise a `Host` header is required, and an `Origin` header, when
/// sent, must equal "<scheme>://<host>".
pub open spec fn same_origin_verdict(
    method: Seq<char>,
    origin: Option<Seq<char>>,
    host: Option<Seq<char>>,
    forwarded_proto: Option<Seq<char>>,
) -> Result<(), u16> {
    if is_safe_method(method) {
        Ok(())
    } else {
        match host {
            None => Err(FORBIDDEN),
            Some(h) => match origin {
                Some(o) => if o == origin_of(request_scheme(forwarded_proto), h) {
                    Ok(())
                } else {
                    Err(FORBIDDEN)
                },
                None => Ok(()),
            },
        }
    }
}

pub fn check_same_origin(
    method: &str,
    origin: Option<&str>,
    host: Option<&str>,
    forwarded_proto: Option<&str>,
) -> (r: Result<(), u16>)
    ensures
        r == same_origin_verdict(method@, opt_view(origin), opt_view(host), opt_view(forwarded_proto)),
{
    if str_eq(method, "GET") || str_eq(method, "HEAD") || str_eq(method, "OPTIONS") {
        return Ok(());
    }
    let h = match host {
        Some(h) => h,
        None => {
            return Err(FORBIDDEN);
        },
    };
    let mut expected = scheme_from_header(forwarded_proto);
    push_str(&mut expected, "://");
    push_str(&mut expected, h);
    match origin {
        Some(o) => if str_eq(o, expected.as_str()) {
            Ok(())
        } else {
            Err(FORBIDDEN)
        },
        None => Ok(()),
    }
}

/// While a password change is pending, only these paths are reachable.
pub open spec fn allowed_during_forced_change(path: Seq<char>) -> bool {
    path == "/change-password"@ || path == "/me"@
}

/// A session whose password must be changed may reach only the
/// password-change and identity endpoints (428 elsewhere).
pub fn forced_change_gate(must_change_password: bool, path: &str) -> (r: Result<(), u16>)
    ensures
        r == (if must_change_password && !allowed_during_forced_change(path@) {
            Err(PRECONDITION_REQUIRED)
        } else {
            Ok(())
        }),
{
    if must_change_password && !(str_eq(path, "/change-password") || str_eq(path, "/me")) {
        Err(PRECONDITION_REQUIRED)
    } else {
        Ok(())
    }
}

/// Admin-only endpoints refuse every other role with 403.
pub fn admin_gate(role: &str) -> (r: Result<(), u16>)
    ensures
        r == (if role@ == "admin"@ {
            Ok(())
        } else {
            Err(FORBIDDEN)
        }),
{
    if str_eq(role, "admin") {
        Ok(())
    } else {
        Err(FORBIDDEN)
    }
}

/// Shortest acceptable password, in characters.
pub const MIN_PASSWORD_CHARS: usize = 15;

/// A password is long enough when it has at least 15 characters.
pub open spec fn password_long_enough(password: Seq<char>) -> bool {
    password.len() >= MIN_PASSWORD_CHARS
}

/// A generated temporary password (24 letters and digits) always clears the
/// password minimum.
pub proof fn lemma_temporary_password_long_enough(s: Seq<char>)
    requires
        crate::auth::is_alnum_text(s, 24),
    ensures
        password_long_enough(s),
{
}

pub fn is_password_long_enough(password: &str) -> (r: bool)
    ensures
        r == (password@.len() >= 15),
        r == password_long_enough(password@),
{
    chars_of(password).len() >= MIN_PASSWORD_CHARS
}

/// The signup rule: a blank user name or a short password is a bad request;
/// once any account exists, signup needs self-signup to be enabled (403).
pub open spec fn signup_verdict(
    username: Seq<char>,
    password: Seq<char>,
    self_signup_enabled: bool,
    user_count: usize,
) -> Result<(), u16> {
    if is_blank(username) || !password_long_enough(password) {
        Err(BAD_REQUEST)
    } else if user_count > 0 && !self_signup_enabled {
        Err(FORBIDDEN)
    } else {
        Ok(())
    }
}

/// The first step of signup, before anything is read from the database: a
/// blank user name or a short password is a bad request.
pub fn check_signup_request(username: &str, password: &str) -> (r: Result<(), u16>)
    ensures
        r is Err <==> (is_blank(username@) || password@.len() < 15),
        r == (if is_blank(username@) || !password_long_enough(password@) {
            Err(BAD_REQUEST)
        } else {
            Ok(())
        }),
{
    if str_is_blank(username) || !is_password_long_enough(password) {
        Err(BAD_REQUEST)
    } else {
        Ok(())
    }
}

/// The signup rules, each on every input: a blank user name or a password of
/// fewer than 15 characters is always a bad request, the first account
/// included; the check of the request alone refuses exactly those; past
/// that, the first account may always sign up, and a later one exactly when
/// self-signup is enabled (else 403).
pub proof fn lemma_signup_rules(username: Seq<char>, password: Seq<char>, enabled: bool, user_count: usize)
    ensures
        (is_blank(username) || password.len() < 15) ==> signup_verdict(username, password, enabled, user_count)
            == Err::<(), u16>(400),
        password_long_enough(password) <==> password.len() >= 15,
        (!is_blank(username) && password.len() >= 15 && user_count == 0) ==> signup_verdict(
            username,
            password,
            enabled,
            user_count,
        ) == Ok::<(), u16>(()),
        (!is_blank(username) && password.len() >= 15 && user_count > 0) ==> signup_verdict(
            username,
            password,
            enabled,
            user_count,
        ) == (if enabled {
            Ok::<(), u16>(())
        } else {
            Err(403)
        }),
{
}

pub fn check_signup(username: &str, password: &str, self_signup_enabled: bool, user_count: usize) -> (r:
    Result<(), u16>)
    ensures
        r == signup_verdict(username@, password@, self_signup_enabled, user_count),
        (is_blank(username@) || password@.len() < 15) ==> r == Err::<(), u16>(BAD_REQUEST),
{
    if check_signup_request(username, password).is_err() {
        return Err(BAD_REQUEST);
    }
    if user_count > 0 && !self_signup_enabled {
        return Err(FORBIDDEN);
    }
    Ok(())
}

/// Whether signup is open, and whether the next account is the first one
/// (which always may sign up and becomes admin).
pub fn signup_status(user_count: usize, self_signup_enabled: bool) -> (r: (bool, bool))
    ensures
        r == (user_count == 0 || self_signup_enabled, user_count == 0),
{
    (user_count == 0 || self_signup_enabled, user_count == 0)
}

/// An admin-created account needs a non-blank user name of at most 255 bytes.
pub fn check_admin_create_user(username: &str) -> (r: Result<(), u16>)
    ensures
        r == (if is_blank(username@) || byte_len(username@) > 255 {
            Err(BAD_REQUEST)
        } else {
            Ok(())
        }),
{
    if str_is_blank(username) || !byte_len_at_most(username, 255) {
        Err(BAD_REQUEST)
    } else {
        Ok(())
    }
}

/// A new password shorter than the minimum is refused (400).
pub fn check_new_password(new_password: &str) -> (r: Result<(), u16>)
    ensures
        r is Err <==> new_password@.len() < 15,
        r == (if password_long_enough(new_password@) {
            Ok(())
        } else {
            Err(BAD_REQUEST)
        }),
{
    if is_password_long_enough(new_password) {
        Ok(())
    } else {
        Err(BAD_REQUEST)
    }
}

/// An admin may not delete their own account (400).
pub fn check_user_deletion(target_user_id: i32, admin_user_id: i32) -> (r: Result<(), u16>)
    ensures
        r == (if target_user_id == admin_user_id {
            Err(BAD_REQUEST)
        } else {
            Ok(())
        }),
{
    if target_user_id == admin_user_id {
        Err(BAD_REQUEST)
    } else {
        Ok(())
    }
}

/// A non-blank value, for host names and watched paths (400 otherwise).
pub fn check_not_blank(value: &str) -> (r: Result<(), u16>)
    ensures
        r == (if is_blank(value@) {
            Err(BAD_REQUEST)
        } else {
            Ok(())
        }),
{
    if str_is_blank(value) {
        Err(BAD_REQUEST)
    } else {
        Ok(())
    }
}

/// The text that identifies a submitted event for de-duplication: its four
/// fields run together.
pub open spec fn submission_text(e: (Seq<char>, Seq<char>, Seq<char>, Seq<char>)) -> Seq<char> {
    e.0 + e.1 + e.2 + e.3
}

/// Accepts a submitted event: an invalid one is a bad request; a valid one
/// gets its de-duplication key, the SHA-256 hex of its four fields run
/// together, so that a resubmission is recognised as the same row.
pub fn accept_submission(entry: &NewLogEntry) -> (r: Result<String, u16>)
    ensures
        match r {
            Ok(key) => new_log_entry_ok(entry.severity@, entry.user@, entry.message@, entry.host@)
                && key@ == spec_sha256_hex(
                submission_text((entry.severity@, entry.user@, entry.message@, entry.host@)),
            ),
            Err(code) => !new_log_entry_ok(entry.severity@, entry.user@, entry.message@, entry.host@)
                && code == BAD_REQUEST,
        },
{
    if !entry.is_valid() {
        return Err(BAD_REQUEST);
    }
    let mut combined = String::new();
    push_str(&mut combined, entry.severity.as_str());
    push_str(&mut combined, entry.user.as_str());
    push_str(&mut combined, entry.message.as_str());
    push_str(&mut combined, entry.host.as_str());
    Ok(hash_line(combined.as_str()))
}

/// A release tag without its leading 'v's (`trim_start_matches('v')`).
pub open spec fn strip_leading_v(tag: Seq<char>) -> Seq<char>
    decreases tag.len(),
{
    if tag.len() > 0 && tag[0] == 'v' {
        strip_leading_v(tag.drop_first())
    } else {
        tag
    }
}

pub fn release_version(tag: &str) -> (r: String)
    ensures
        r@ == strip_leading_v(tag@),
{
    let cs = chars_of(tag);
    let mut i: usize = 0;
    proof {
        assert(tag@.skip(0) =~= tag@);
    }
    while i < cs.len() && cs[i] == 'v'
        invariant
            cs@ == tag@,
            i <= cs.len(),
            strip_leading_v(tag@) == strip_leading_v(tag@.skip(i as int)),
        decreases cs.len() - i,
    {
        proof {
            assert(tag@.skip(i as int).drop_first() =~= tag@.skip(i + 1));
        }
        i = i + 1;
    }
    let mut out = String::new();
    let mut k: usize = i;
    while k < cs.len()
        invariant
            cs@ == tag@,
            i <= k <= cs.len(),
            out@ == tag@.subrange(i as int, k as int),
        decreases cs.len() - k,
    {
        push_char(&mut out, cs[k]);
        proof {
            assert(tag@.subrange(i as int, k + 1) =~= tag@.subrange(i as int, k as int).push(tag@[k as int]));
        }
        k = k + 1;
    }
    proof {
        assert(tag@.skip(i as int) =~= tag@.subrange(i as int, cs@.len() as int));
    }
    out
}

/// An update is available when the latest release is known and differs
/// from the running version.
pub fn update_available(latest: Option<&str>, current: &str) -> (r: bool)
    ensures
        r == match latest {
            Some(l) => l@ != current@,
            None => false,
        },
{
    match latest {
        Some(l) => !str_eq(l, current),
        None => false,
    }
}

} // verus!
