//! The identity an OIDC sign-in yields: role lists read from token claims
//! along a dotted claim path, the payload of a JWT access token, and the
//! user info assembled from the ID token.
use vstd::prelude::*;
use base64::Engine;
use crate::auth::oidc::OidcUserInfo;
use crate::text;

verus! {

/// A JSON value as the claims hold it. Object keys are distinct.
#[derive(Debug)]
pub enum JsonValue {
    Null,
    Bool(bool),
    /// A number, as its JSON text.
    Number(String),
    Str(String),
    Array(Vec<JsonValue>),
    Object(Vec<(String, JsonValue)>),
}

/// The value under `key` of the object pairs `pairs`: the first pair with
/// that key.
pub open spec fn lookup(pairs: Seq<(String, JsonValue)>, key: Seq<char>) -> Option<JsonValue>
    decreases pairs.len(),
{
    if pairs.len() == 0 {
        None
    } else if pairs[0].0@ == key {
        Some(pairs[0].1)
    } else {
        lookup(pairs.drop_first(), key)
    }
}

/// `Value::get` with a key: the member of an object; `None` for any other
/// value or a missing key.
pub open spec fn spec_get(v: JsonValue, key: Seq<char>) -> Option<JsonValue> {
    match v {
        JsonValue::Object(pairs) => lookup(pairs@, key),
        _ => None,
    }
}

/// Follow the keys of `path` from `v`, one after another.
pub open spec fn spec_navigate(v: JsonValue, path: Seq<Seq<char>>) -> Option<JsonValue>
    decreases path.len(),
{
    if path.len() == 0 {
        Some(v)
    } else {
        match spec_get(v, path[0]) {
            Some(w) => spec_navigate(w, path.drop_first()),
            None => None,
        }
    }
}

/// The string items of an array, in order; other items are skipped.
pub open spec fn string_items(items: Seq<JsonValue>) -> Seq<Seq<char>>
    decreases items.len(),
{
    if items.len() == 0 {
        Seq::empty()
    } else {
        let rest = string_items(items.drop_last());
        match items.last() {
            JsonValue::Str(s) => rest.push(s@),
            _ => rest,
        }
    }
}

/// `str::split` on one character: the pieces between the separators, one
/// more than there are separators.
pub open spec fn split_on(s: Seq<char>, sep: char) -> Seq<Seq<char>>
    decreases s.len(),
{
    if s.len() == 0 {
        seq![Seq::empty()]
    } else {
        let prev = split_on(s.drop_last(), sep);
        if s.last() == sep {
            prev.push(Seq::empty())
        } else {
            prev.drop_last().push(prev.last().push(s.last()))
        }
    }
}

proof fn lemma_split_nonempty(s: Seq<char>, sep: char)
    ensures
        split_on(s, sep).len() >= 1,
    decreases s.len(),
{
    if s.len() > 0 {
        lemma_split_nonempty(s.drop_last(), sep);
    }
}

/// Split `s` at every `sep`.
pub fn split_char(s: &str, sep: char) -> (r: Vec<String>)
    ensures
        text::views(r@) == split_on(s@, sep),
        r@.len() >= 1,
{
    let v = text::chars_of(s);
    let mut pieces: Vec<String> = Vec::new();
    let mut cur: Vec<char> = Vec::new();
    let mut i: usize = 0;
    proof {
        assert(v@.take(0) =~= Seq::<char>::empty());
    }
    while i < v.len()
        invariant
            i <= v@.len(),
            v@ == s@,
            text::views(pieces@).push(cur@) == split_on(v@.take(i as int), sep),
        decreases v@.len() - i,
    {
        let ghost before = text::views(pieces@).push(cur@);
        let c = v[i];
        proof {
            assert(v@.take(i + 1).drop_last() =~= v@.take(i as int));
            assert(v@.take(i + 1).last() == c);
        }
        if c == sep {
            let piece = text::string_of(&cur);
            pieces.push(piece);
            cur = Vec::new();
            proof {
                assert(text::views(pieces@) =~= before);
                assert(text::views(pieces@).push(cur@) =~= before.push(Seq::empty()));
            }
        } else {
            cur.push(c);
            proof {
                assert(text::views(pieces@).push(cur@) =~= before.drop_last().push(before.last().push(c)));
            }
        }
        i = i + 1;
    }
    let last = text::string_of(&cur);
    let ghost before = text::views(pieces@).push(cur@);
    pieces.push(last);
    proof {
        assert(v@.take(i as int) =~= v@);
        assert(text::views(pieces@) =~= before);
    }
    pieces
}

fn lookup_in<'a>(pairs: &'a Vec<(String, JsonValue)>, key: &str) -> (r: Option<&'a JsonValue>)
    ensures
        match r {
            Some(w) => lookup(pairs@, key@) == Some(*w),
            None => lookup(pairs@, key@) is None,
        },
{
    let mut i: usize = 0;
    proof {
        assert(pairs@.skip(0) =~= pairs@);
    }
    while i < pairs.len()
        invariant
            i <= pairs@.len(),
            lookup(pairs@, key@) == lookup(pairs@.skip(i as int), key@),
        decreases pairs@.len() - i,
    {
        proof {
            assert(pairs@.skip(i as int).drop_first() =~= pairs@.skip(i + 1));
            assert(pairs@.skip(i as int)[0] == pairs@[i as int]);
        }
        if text::str_eq(pairs[i].0.as_str(), key) {
            return Some(&pairs[i].1);
        }
        i = i + 1;
    }
    None
}

/// The member `key` of an object value.
pub fn get<'a>(v: &'a JsonValue, key: &str) -> (r: Option<&'a JsonValue>)
    ensures
        match r {
            Some(w) => spec_get(*v, key@) == Some(*w),
            None => spec_get(*v, key@) is None,
        },
{
    match v {
        JsonValue::Object(pairs) => lookup_in(pairs, key),
        _ => None,
    }
}

fn collect_strings(items: &Vec<JsonValue>) -> (r: Vec<String>)
    ensures
        text::views(r@) == string_items(items@),
{
    let mut out: Vec<String> = Vec::new();
    let mut i: usize = 0;
    while i < items.len()
        invariant
            i <= items@.len(),
            text::views(out@) == string_items(items@.take(i as int)),
        decreases items@.len() - i,
    {
        let ghost before = text::views(out@);
        proof {
            assert(items@.take(i + 1).drop_last() =~= items@.take(i as int));
        }
        match &items[i] {
            JsonValue::Str(s) => {
                out.push(s.clone());
                proof {
                    assert(text::views(out@) =~= before.push(s@));
                }
            },
            _ => {},
        }
        i = i + 1;
    }
    proof {
        assert(items@.take(i as int) =~= items@);
    }
    out
}

/// The string items of the array at the dotted `role_claim` path of the
/// claims; `None` when a key is missing or the value there is not an array.
pub open spec fn spec_roles_at(claims: JsonValue, role_claim: Seq<char>) -> Option<Seq<Seq<char>>> {
    let parts = split_on(role_claim, '.');
    match spec_navigate(claims, parts.drop_last()) {
        None => None,
        Some(v) => match spec_get(v, parts.last()) {
            Some(JsonValue::Array(items)) => Some(string_items(items@)),
            _ => None,
        },
    }
}

fn roles_at(claims: &JsonValue, role_claim: &str) -> (r: Option<Vec<String>>)
    ensures
        match r {
            None => spec_roles_at(*claims, role_claim@) is None,
            Some(v) => spec_roles_at(*claims, role_claim@) == Some(text::views(v@)),
        },
{
    let parts = split_char(role_claim, '.');
    let ghost path = text::views(parts@);
    let n = parts.len() - 1;
    let mut current: &JsonValue = claims;
    let mut i: usize = 0;
    proof {
        assert(path.drop_last().skip(0) =~= path.drop_last());
    }
    while i < n
        invariant
            n == parts@.len() - 1,
            i <= n,
            path == text::views(parts@),
            path == split_on(role_claim@, '.'),
            spec_navigate(*claims, path.drop_last()) == spec_navigate(
                *current,
                path.drop_last().skip(i as int),
            ),
        decreases n - i,
    {
        let ghost rest = path.drop_last().skip(i as int);
        proof {
            assert(rest.len() > 0);
            assert(rest[0] == parts@[i as int]@);
            assert(rest.drop_first() =~= path.drop_last().skip(i + 1));
        }
        match get(current, parts[i].as_str()) {
            Some(w) => {
                current = w;
            },
            None => {
                proof {
                    assert(spec_navigate(*current, rest) is None);
                }
                return None;
            },
        }
        i = i + 1;
    }
    proof {
        assert(path.drop_last().skip(i as int) =~= Seq::<Seq<char>>::empty());
        assert(path.last() == parts@[n as int]@);
    }
    match get(current, parts[n].as_str()) {
        Some(JsonValue::Array(items)) => Some(collect_strings(items)),
        _ => None,
    }
}

/// Roles carried by the claims of an ID token at the dotted path; no roles
/// when the path is missing or not an array.
pub fn extract_roles_from_claims(claims: &JsonValue, role_claim: &str) -> (r: Vec<String>)
    ensures
        text::views(r@) == (match spec_roles_at(*claims, role_claim@) {
            Some(v) => v,
            None => Seq::empty(),
        }),
{
    match roles_at(claims, role_claim) {
        Some(v) => v,
        None => {
            let v: Vec<String> = Vec::new();
            proof {
                assert(text::views(v@) =~= Seq::<Seq<char>>::empty());
            }
            v
        },
    }
}

/// Roles carried by the decoded payload of an access token: present only
/// when the path leads to an array with at least one string.
pub fn extract_roles_from_payload(claims: &JsonValue, role_claim: &str) -> (r: Option<Vec<String>>)
    ensures
        match spec_roles_at(*claims, role_claim@) {
            Some(v) if v.len() > 0 => r matches Some(x) && text::views(x@) == v,
            _ => r is None,
        },
{
    match roles_at(claims, role_claim) {
        Some(v) => if v.len() == 0 {
            None
        } else {
            Some(v)
        },
        None => None,
    }
}

/// What `base64::engine::general_purpose::URL_SAFE_NO_PAD.decode` gives for
/// a text: the bytes, or `None` on error.
pub uninterp spec fn base64url_decode(s: Seq<char>) -> Option<Seq<u8>>;

/// Calls `URL_SAFE_NO_PAD.decode`. The result is named.
#[verifier::external_body]
fn decode_base64url(s: &str) -> (r: Option<Vec<u8>>)
    ensures
        match r {
            None => base64url_decode(s@) is None,
            Some(v) => base64url_decode(s@) == Some(v@),
        },
{
    base64::engine::general_purpose::URL_SAFE_NO_PAD.decode(s).ok()
}

/// The payload bytes of a JWT: the token has exactly three dot-separated
/// segments and the middle one is unpadded URL-safe base64. The signature
/// is not checked (the ID token already was).
pub open spec fn spec_jwt_payload(token: Seq<char>) -> Option<Seq<u8>> {
    let parts = split_on(token, '.');
    if parts.len() != 3 {
        None
    } else {
        base64url_decode(parts[1])
    }
}

pub fn jwt_payload(token: &str) -> (r: Option<Vec<u8>>)
    ensures
        match r {
            None => spec_jwt_payload(token@) is None,
            Some(v) => spec_jwt_payload(token@) == Some(v@),
        },
{
    let parts = split_char(token, '.');
    if parts.len() != 3 {
        return None;
    }
    proof {
        assert(text::views(parts@)[1] == parts@[1]@);
    }
    decode_base64url(parts[1].as_str())
}

/// The user info of a verified ID token. The email claim is required; the
/// display name is the `name` claim, else the preferred user name; the
/// roles are those of the ID token, else those of the access token.
pub fn user_info_from_claims(
    sub: String,
    email: Option<String>,
    email_verified: Option<bool>,
    name: Option<String>,
    preferred_username: Option<String>,
    id_token_roles: Vec<String>,
    access_token_roles: Option<Vec<String>>,
) -> (r: Result<OidcUserInfo, String>)
    ensures
        email is None ==> (r matches Err(m) && m@ == "No email claim in ID token"@),
        email matches Some(e) ==> (r matches Ok(u) && {
            &&& u.sub == sub
            &&& u.email == e
            &&& u.email_verified == (email_verified == Some(true))
            &&& u.display_name == (if name is Some {
                name
            } else {
                preferred_username
            })
            &&& u.roles@ == (if id_token_roles@.len() > 0 {
                id_token_roles@
            } else {
                match access_token_roles {
                    Some(a) => a@,
                    None => Seq::empty(),
                }
            })
        }),
{
    let email = match email {
        Some(e) => e,
        None => return Err(text::owned("No email claim in ID token")),
    };
    let display_name = match name {
        Some(n) => Some(n),
        None => preferred_username,
    };
    let roles = if id_token_roles.len() > 0 {
        id_token_roles
    } else {
        match access_token_roles {
            Some(a) => a,
            None => Vec::new(),
        }
    };
    let email_verified = match email_verified {
        Some(b) => b,
        None => false,
    };
    Ok(OidcUserInfo { sub, email, email_verified, display_name, roles })
}

} // verus!
