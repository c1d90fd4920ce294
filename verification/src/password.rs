//! Password policy for local accounts: NIST SP 800-63B length rules plus
//! complexity, personal-data and breached-password checks.
use vstd::prelude::*;
use crate::text;

verus! {

pub const MIN_LENGTH: usize = 16;

pub const MAX_LENGTH: usize = 128;

/// One of the characters of the special-character class:
/// `!@#$%^&*()_+-=[]{}\|;':",./<>?` and backtick and `~`.
pub open spec fn spec_is_special(c: char) -> bool {
    ||| c == '!' ||| c == '@' ||| c == '#' ||| c == '$' ||| c == '%' ||| c == '^'
    ||| c == '&' ||| c == '*' ||| c == '(' ||| c == ')' ||| c == '_' ||| c == '+'
    ||| c == '-' ||| c == '=' ||| c == '[' ||| c == ']' ||| c == '{' ||| c == '}'
    ||| c == '\\' ||| c == '|' ||| c == ';' ||| c == '\'' ||| c == ':' ||| c == '"'
    ||| c == ',' ||| c == '.' ||| c == '/' ||| c == '<' ||| c == '>' ||| c == '?'
    ||| c == '`' ||| c == '~'
}

pub fn is_special(c: char) -> (r: bool)
    ensures
        r == spec_is_special(c),
{
    c == '!' || c == '@' || c == '#' || c == '$' || c == '%' || c == '^' || c == '&' || c
        == '*' || c == '(' || c == ')' || c == '_' || c == '+' || c == '-' || c == '=' || c
        == '[' || c == ']' || c == '{' || c == '}' || c == '\\' || c == '|' || c == ';' || c
        == '\'' || c == ':' || c == '"' || c == ',' || c == '.' || c == '/' || c == '<' || c
        == '>' || c == '?' || c == '`' || c == '~'
}

pub open spec fn has_upper(p: Seq<char>) -> bool {
    exists|i: int| 0 <= i < p.len() && text::spec_is_ascii_upper(#[trigger] p[i])
}

pub open spec fn has_lower(p: Seq<char>) -> bool {
    exists|i: int| 0 <= i < p.len() && text::spec_is_ascii_lower(#[trigger] p[i])
}

pub open spec fn has_digit(p: Seq<char>) -> bool {
    exists|i: int| 0 <= i < p.len() && text::spec_is_ascii_digit(#[trigger] p[i])
}

pub open spec fn has_special(p: Seq<char>) -> bool {
    exists|i: int| 0 <= i < p.len() && spec_is_special(#[trigger] p[i])
}

/// The built-in list of breached passwords, compared against the
/// lower-cased password.
pub open spec fn is_common_password(p: Seq<char>) -> bool {
    ||| p == "password"@
    ||| p == "123456"@
    ||| p == "123456789"@
    ||| p == "12345678"@
    ||| p == "qwerty"@
    ||| p == "abc123"@
    ||| p == "password1"@
    ||| p == "111111"@
    ||| p == "iloveyou"@
    ||| p == "letmein"@
    ||| p == "welcome"@
    ||| p == "monkey"@
    ||| p == "dragon"@
    ||| p == "trustno1"@
    ||| p == "passwordpassword"@
    ||| p == "1234567890123456"@
    ||| p == "qwertyuiopasdfgh"@
    ||| p == "iloveyouiloveyou"@
    ||| p == "correcthorsebatterystaple"@
    ||| p == "password12345678"@
}

pub fn check_common_password(p: &[char]) -> (r: bool)
    ensures
        r == is_common_password(p@),
{
    text::eq_str(p, "password") || text::eq_str(p, "123456") || text::eq_str(p, "123456789") || text::eq_str(
        p,
        "12345678",
    ) || text::eq_str(p, "qwerty") || text::eq_str(p, "abc123") || text::eq_str(p, "password1") || text::eq_str(
        p,
        "111111",
    ) || text::eq_str(p, "iloveyou") || text::eq_str(p, "letmein") || text::eq_str(p, "welcome") || text::eq_str(
        p,
        "monkey",
    ) || text::eq_str(p, "dragon") || text::eq_str(p, "trustno1") || text::eq_str(p, "passwordpassword")
        || text::eq_str(p, "1234567890123456") || text::eq_str(p, "qwertyuiopasdfgh") || text::eq_str(
        p,
        "iloveyouiloveyou",
    ) || text::eq_str(p, "correcthorsebatterystaple") || text::eq_str(p, "password12345678")
}

pub open spec fn msg_too_short() -> Seq<char> {
    "Password must be at least 16 characters long"@
}

pub open spec fn msg_too_long() -> Seq<char> {
    "Password must be no more than 128 characters long"@
}

pub open spec fn msg_no_upper() -> Seq<char> {
    "Password must contain at least one uppercase letter"@
}

pub open spec fn msg_no_lower() -> Seq<char> {
    "Password must contain at least one lowercase letter"@
}

pub open spec fn msg_no_digit() -> Seq<char> {
    "Password must contain at least one number"@
}

pub open spec fn msg_no_special() -> Seq<char> {
    "Password must contain at least one special character"@
}

pub open spec fn msg_contains_email() -> Seq<char> {
    "Password cannot contain your email address"@
}

pub open spec fn msg_contains_username() -> Seq<char> {
    "Password cannot contain your username"@
}

pub open spec fn msg_common() -> Seq<char> {
    "This password is too common and has been found in data breaches"@
}

/// `seq![m]` when `b` holds, otherwise the empty sequence.
pub open spec fn msg_if(b: bool, m: Seq<char>) -> Seq<Seq<char>> {
    if b {
        seq![m]
    } else {
        Seq::empty()
    }
}

/// The local part of a (lower-cased) email address: everything before the
/// first `@`.
pub open spec fn username_of(email_lower: Seq<char>) -> Seq<char> {
    text::before_first(email_lower, '@')
}

/// Every policy message that applies to `p`, in the order the checks run.
/// `p_lower` and `e_lower` are the lower-cased password and email.
pub open spec fn password_errors(p: Seq<char>, p_lower: Seq<char>, e_lower: Seq<char>) -> Seq<
    Seq<char>,
> {
    let user = username_of(e_lower);
    msg_if(p.len() < 16, msg_too_short()) + msg_if(p.len() > 128, msg_too_long())
        + msg_if(!has_upper(p), msg_no_upper()) + msg_if(!has_lower(p), msg_no_lower()) + msg_if(
        !has_digit(p),
        msg_no_digit(),
    ) + msg_if(!has_special(p), msg_no_special()) + msg_if(
        text::seq_contains(p_lower, e_lower),
        msg_contains_email(),
    ) + msg_if(text::utf8_len(user) >= 3 && text::seq_contains(p_lower, user), msg_contains_username())
        + msg_if(is_common_password(p_lower), msg_common())
}

/// The character views of a list of strings.
pub open spec fn string_views(v: Seq<String>) -> Seq<Seq<char>> {
    text::views(v)
}

fn push_msg(errs: &mut Vec<String>, b: bool, m: &str)
    ensures
        string_views(final(errs)@) == string_views(old(errs)@) + msg_if(b, m@),
{
    let ghost before = errs@;
    if b {
        errs.push(text::owned(m));
        assert(string_views(errs@) =~= string_views(before) + msg_if(b, m@));
    } else {
        assert(string_views(errs@) =~= string_views(before) + msg_if(b, m@));
    }
}

/// Classifies the characters of `p`: (has upper, has lower, has digit, has special).
fn char_classes(p: &[char]) -> (r: (bool, bool, bool, bool))
    ensures
        r.0 == has_upper(p@),
        r.1 == has_lower(p@),
        r.2 == has_digit(p@),
        r.3 == has_special(p@),
{
    let mut up = false;
    let mut lo = false;
    let mut dg = false;
    let mut sp = false;
    let mut i: usize = 0;
    while i < p.len()
        invariant
            i <= p@.len(),
            up == (exists|j: int| 0 <= j < i && text::spec_is_ascii_upper(#[trigger] p@[j])),
            lo == (exists|j: int| 0 <= j < i && text::spec_is_ascii_lower(#[trigger] p@[j])),
            dg == (exists|j: int| 0 <= j < i && text::spec_is_ascii_digit(#[trigger] p@[j])),
            sp == (exists|j: int| 0 <= j < i && spec_is_special(#[trigger] p@[j])),
        decreases p@.len() - i,
    {
        let c = p[i];
        if text::is_ascii_upper(c) {
            up = true;
        }
        if text::is_ascii_lower(c) {
            lo = true;
        }
        if text::is_ascii_digit(c) {
            dg = true;
        }
        if is_special(c) {
            sp = true;
        }
        i = i + 1;
    }
    (up, lo, dg, sp)
}

/// Stateless validator for new local-account passwords.
pub struct PasswordValidator;

impl PasswordValidator {
    /// The policy messages for `password`, given the lower-cased password
    /// and email. Exactly the messages of [`password_errors`], in order.
    pub fn errors_for(password: &str, password_lower: &str, email_lower: &str) -> (errs: Vec<
        String,
    >)
        ensures
            string_views(errs@) == password_errors(password@, password_lower@, email_lower@),
    {
        let p = text::chars_of(password);
        let pl = text::chars_of(password_lower);
        let el = text::chars_of(email_lower);
        let mut errs: Vec<String> = Vec::new();
        assert(string_views(errs@) =~= Seq::<Seq<char>>::empty());
        let ghost e0 = string_views(errs@);
        let n = p.len();
        push_msg(&mut errs, n < 16, "Password must be at least 16 characters long");
        push_msg(&mut errs, n > 128, "Password must be no more than 128 characters long");
        let (up, lo, dg, sp) = char_classes(&p);
        push_msg(&mut errs, !up, "Password must contain at least one uppercase letter");
        push_msg(&mut errs, !lo, "Password must contain at least one lowercase letter");
        push_msg(&mut errs, !dg, "Password must contain at least one number");
        push_msg(&mut errs, !sp, "Password must contain at least one special character");
        let has_email = text::contains_sub(&pl, &el);
        push_msg(&mut errs, has_email, "Password cannot contain your email address");
        let user = text::chars_before_first(&el, '@');
        let ulen = text::utf8_len_capped(&user, 3);
        let has_user = ulen >= 3 && text::contains_sub(&pl, &user);
        push_msg(&mut errs, has_user, "Password cannot contain your username");
        let common = check_common_password(&pl);
        push_msg(
            &mut errs,
            common,
            "This password is too common and has been found in data breaches",
        );
        assert(string_views(errs@) =~= password_errors(password@, password_lower@, email_lower@));
        errs
    }

    /// Validate a password against all requirements, for the account with
    /// the given email. `Ok(())` when no rule is broken; otherwise every
    /// message that applies, in order.
    pub fn validate(password: &str, email: &str) -> (r: Result<(), Vec<String>>)
        ensures
            ({
                let errs = password_errors(
                    password@,
                    text::unicode_lowercase(password@),
                    text::unicode_lowercase(email@),
                );
                match r {
                    Ok(()) => errs.len() == 0,
                    Err(v) => string_views(v@) == errs && errs.len() > 0,
                }
            }),
    {
        let password_lower = text::to_lowercase(password);
        let email_lower = text::to_lowercase(email);
        let errs = Self::errors_for(password, password_lower.as_str(), email_lower.as_str());
        if errs.len() == 0 {
            Ok(())
        } else {
            Err(errs)
        }
    }
}

/// A password that the policy accepts has 16 to 128 characters, an upper-case
/// letter, a lower-case letter, a digit and a special character, does not
/// contain the (lower-cased) email, and is not on the breached list.
pub proof fn accepted_password_meets_policy(p: Seq<char>, p_lower: Seq<char>, e_lower: Seq<char>)
    requires
        password_errors(p, p_lower, e_lower).len() == 0,
    ensures
        16 <= p.len() <= 128,
        has_upper(p),
        has_lower(p),
        has_digit(p),
        has_special(p),
        !text::seq_contains(p_lower, e_lower),
        !is_common_password(p_lower),
        text::utf8_len(username_of(e_lower)) >= 3 ==> !text::seq_contains(p_lower, username_of(e_lower)),
{
}

/// Every rule that a password breaks contributes exactly one message: the
/// number of messages equals the number of broken rules.
pub proof fn one_message_per_broken_rule(p: Seq<char>, p_lower: Seq<char>, e_lower: Seq<char>)
    ensures
        password_errors(p, p_lower, e_lower).len() == (if p.len() < 16 { 1int } else { 0 }) + (
        if p.len() > 128 { 1int } else { 0 }) + (if !has_upper(p) { 1int } else { 0 }) + (
        if !has_lower(p) { 1int } else { 0 }) + (if !has_digit(p) { 1int } else { 0 }) + (
        if !has_special(p) { 1int } else { 0 }) + (if text::seq_contains(p_lower, e_lower) { 1int } else { 0 }) + (
        if text::utf8_len(username_of(e_lower)) >= 3 && text::seq_contains(p_lower, username_of(e_lower)) {
            1int
        } else {
            0
        }) + (if is_common_password(p_lower) { 1int } else { 0 }),
{
}

} // verus!
