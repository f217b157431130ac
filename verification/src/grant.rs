//! Decoding the cookie-issuing side channel's response.
//!
//! The side channel answers with a JSON object holding an optional
//! `cookies` field (an object mapping cookie names to string values) and an
//! optional `user_agent` field (a string). Missing fields mean "no cookies"
//! and "no custom user agent"; a cookie value that is present but not a
//! string is a fatal parse error. The JSON itself is decoded by
//! `serde_json`; the decisions over the decoded value — which fields are
//! read, what is fatal and what defaults — are made here, in verified code.

use vstd::prelude::*;

use crate::session::CookieGrant;

verus! {

#[verifier::external_type_specification]
#[verifier::external_body]
pub struct ExJsonValue(serde_json::Value);

#[verifier::external_type_specification]
#[verifier::external_body]
pub struct ExJsonError(serde_json::Error);

/// Why a side-channel response yielded no grant.
#[derive(Clone, Copy, Debug, PartialEq, Eq)]
pub enum GrantError {
    /// The body was not well-formed JSON.
    MalformedJson,
    /// A cookie value was present but not a string.
    NonStringCookie,
}

/// Whether the bytes decode as a well-formed JSON document: the name of
/// what `serde_json::from_slice` decides, a function of the bytes alone.
pub uninterp spec fn json_wf(body: Seq<u8>) -> bool;

/// The string content of a JSON value — `Some` with its bytes when the
/// value is a JSON string, `None` otherwise: the name of what
/// `serde_json::Value::as_str` returns, a function of the value alone.
pub uninterp spec fn value_str(v: serde_json::Value) -> Option<Seq<u8>>;

/// Relies on `serde_json::from_slice`: decodes the bytes as a JSON
/// document, `Err` exactly when they are not well-formed JSON.
#[verifier::external_body]
fn json_parse(body: &Vec<u8>) -> (r: Result<serde_json::Value, serde_json::Error>)
    ensures
        r is Ok <==> json_wf(body@),
{
    serde_json::from_slice(body.as_slice())
}

/// Relies on `serde_json::Value::as_object`: `Some` exactly when the value
/// is a JSON object, handing its entries out as key bytes paired with the
/// entry's value.
#[verifier::external_body]
fn json_object_entries(v: &serde_json::Value) -> Option<Vec<(Vec<u8>, serde_json::Value)>> {
    v.as_object().map(|m| m.iter().map(|(k, x)| (k.as_bytes().to_vec(), x.clone())).collect())
}

/// Relies on `serde_json::Value::as_str`: `Some` exactly when the value is
/// a JSON string, handing its bytes — `value_str(v)` — out.
#[verifier::external_body]
fn json_string_bytes(v: &serde_json::Value) -> (r: Option<Vec<u8>>)
    ensures
        match r {
            Some(b) => value_str(*v) == Some(b@),
            None => value_str(*v) is None,
        },
{
    v.as_str().map(|s| s.as_bytes().to_vec())
}

/// The bytes of the field name `cookies`.
pub open spec fn cookies_key() -> Seq<u8> {
    seq![99u8, 111u8, 111u8, 107u8, 105u8, 101u8, 115u8]
}

/// The bytes of the field name `user_agent`.
pub open spec fn user_agent_key() -> Seq<u8> {
    seq![117u8, 115u8, 101u8, 114u8, 95u8, 97u8, 103u8, 101u8, 110u8, 116u8]
}

fn cookies_key_bytes() -> (k: Vec<u8>)
    ensures
        k@ == cookies_key(),
{
    let mut k: Vec<u8> = Vec::new();
    k.push(99);
    k.push(111);
    k.push(111);
    k.push(107);
    k.push(105);
    k.push(101);
    k.push(115);
    proof {
        assert(k@ =~= cookies_key());
    }
    k
}

fn user_agent_key_bytes() -> (k: Vec<u8>)
    ensures
        k@ == user_agent_key(),
{
    let mut k: Vec<u8> = Vec::new();
    k.push(117);
    k.push(115);
    k.push(101);
    k.push(114);
    k.push(95);
    k.push(97);
    k.push(103);
    k.push(101);
    k.push(110);
    k.push(116);
    proof {
        assert(k@ =~= user_agent_key());
    }
    k
}

/// True exactly when the two byte vectors hold the same bytes.
pub fn bytes_eq(a: &Vec<u8>, b: &Vec<u8>) -> (r: bool)
    ensures
        r == (a@ == b@),
{
    let n = a.len();
    if n != b.len() {
        return false;
    }
    let mut i: usize = 0;
    while i < n
        invariant
            i <= n == a@.len(),
            n == b@.len(),
            forall|k: int| 0 <= k < i ==> a@[k] == b@[k],
        decreases n - i,
    {
        if a[i] != b[i] {
            return false;
        }
        i += 1;
    }
    proof {
        assert(a@ =~= b@);
    }
    true
}

/// The value of the first entry whose key is `key`, if any: how a field is
/// looked up in a decoded JSON object.
pub fn lookup<'a>(
    entries: &'a Vec<(Vec<u8>, serde_json::Value)>,
    key: &Vec<u8>,
) -> (r: Option<&'a serde_json::Value>)
    ensures
        match r {
            Some(v) => exists|i: int|
                #![trigger entries@[i]]
                0 <= i < entries@.len() && entries@[i].0@ == key@ && *v == entries@[i].1
                    && forall|j: int| #![trigger entries@[j]] 0 <= j < i ==> entries@[j].0@ != key@,
            None => forall|i: int|
                #![trigger entries@[i]]
                0 <= i < entries@.len() ==> entries@[i].0@ != key@,
        },
{
    let n = entries.len();
    let mut i: usize = 0;
    while i < n
        invariant
            i <= n == entries@.len(),
            forall|j: int| #![trigger entries@[j]] 0 <= j < i ==> entries@[j].0@ != key@,
        decreases n - i,
    {
        if bytes_eq(&entries[i].0, key) {
            return Some(&entries[i].1);
        }
        i += 1;
    }
    None
}

/// Turn the entries of the `cookies` object into name/value byte pairs, in
/// order, with every key kept and every value the entry's JSON string
/// content; `Err` exactly when some entry's value is not a JSON string.
pub fn collect_cookies(entries: &Vec<(Vec<u8>, serde_json::Value)>) -> (r: Result<
    Vec<(Vec<u8>, Vec<u8>)>,
    GrantError,
>)
    ensures
        match r {
            Ok(cs) => cs@.len() == entries@.len() && forall|i: int|
                #![trigger cs@[i]]
                0 <= i < cs@.len() ==> cs@[i].0@ == entries@[i].0@ && value_str(entries@[i].1)
                    == Some(cs@[i].1@),
            Err(e) => e == GrantError::NonStringCookie && exists|i: int|
                #![trigger entries@[i]]
                0 <= i < entries@.len() && value_str(entries@[i].1) is None,
        },
{
    let n = entries.len();
    let mut cs: Vec<(Vec<u8>, Vec<u8>)> = Vec::new();
    let mut i: usize = 0;
    while i < n
        invariant
            i <= n == entries@.len(),
            cs@.len() == i,
            forall|k: int|
                #![trigger cs@[k]]
                0 <= k < i ==> cs@[k].0@ == entries@[k].0@ && value_str(entries@[k].1) == Some(
                    cs@[k].1@,
                ),
        decreases n - i,
    {
        let value = match json_string_bytes(&entries[i].1) {
            Some(v) => v,
            None => {
                proof {
                    assert(value_str(entries@[i as int].1) is None);
                }
                return Err(GrantError::NonStringCookie);
            },
        };
        let name = clone_bytes(&entries[i].0);
        cs.push((name, value));
        i += 1;
    }
    Ok(cs)
}

fn clone_bytes(v: &Vec<u8>) -> (r: Vec<u8>)
    ensures
        r@ == v@,
{
    let n = v.len();
    let mut r: Vec<u8> = Vec::new();
    let mut i: usize = 0;
    while i < n
        invariant
            i <= n == v@.len(),
            r@ == v@.subrange(0, i as int),
        decreases n - i,
    {
        r.push(v[i]);
        proof {
            assert(v@.subrange(0, i + 1) =~= v@.subrange(0, i as int).push(v@[i as int]));
        }
        i += 1;
    }
    proof {
        assert(v@.subrange(0, n as int) =~= v@);
    }
    r
}

/// Decode a side-channel response body into a grant.
///
/// The body must be well-formed JSON — `MalformedJson` exactly otherwise.
/// A top-level value that is not an object, a missing `cookies` field, or
/// a `cookies` field that is not an object all mean "no cookies"; a
/// missing or non-string `user_agent` means "no custom user agent"; a
/// cookie value that is not a string is `NonStringCookie`. Which entries
/// the decoded object holds is `serde_json`'s result and opaque here, so
/// the grant's contents are pinned one layer down, where the decoded
/// values are arguments: `lookup` for the field reads, `collect_cookies`
/// for the cookie pairs.
pub fn parse_grant(body: &Vec<u8>) -> (r: Result<CookieGrant, GrantError>)
    ensures
        r == Err::<CookieGrant, GrantError>(GrantError::MalformedJson) <==> !json_wf(body@),
        match r {
            Ok(g) => true,
            Err(e) => e == GrantError::MalformedJson || e == GrantError::NonStringCookie,
        },
{
    let top = match json_parse(body) {
        Ok(v) => v,
        Err(_) => {
            return Err(GrantError::MalformedJson);
        },
    };
    let entries = match json_object_entries(&top) {
        Some(es) => es,
        None => {
            return Ok(CookieGrant { cookies: Vec::new(), user_agent: None });
        },
    };
    let cookies = match lookup(&entries, &cookies_key_bytes()) {
        None => Vec::new(),
        Some(cv) => match json_object_entries(cv) {
            None => Vec::new(),
            Some(centries) => match collect_cookies(&centries) {
                Ok(cs) => cs,
                Err(e) => {
                    return Err(e);
                },
            },
        },
    };
    let user_agent = match lookup(&entries, &user_agent_key_bytes()) {
        None => None,
        Some(uv) => json_string_bytes(uv),
    };
    Ok(CookieGrant { cookies, user_agent })
}

} // verus!
