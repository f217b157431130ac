use price_agent::grant::{parse_grant, GrantError};
use price_agent::session::Session;

fn bytes(s: &str) -> Vec<u8> {
    s.as_bytes().to_vec()
}

fn pair(name: &str, value: &str) -> (Vec<u8>, Vec<u8>) {
    (name.as_bytes().to_vec(), value.as_bytes().to_vec())
}

#[test]
fn full_grant_is_decoded() {
    let body = bytes("{\"cookies\":{\"cf\":\"abc\",\"id\":\"42\"},\"user_agent\":\"Mozilla/5.0\"}");
    let g = parse_grant(&body).unwrap();
    assert_eq!(g.cookies.len(), 2);
    assert!(g.cookies.contains(&pair("cf", "abc")));
    assert!(g.cookies.contains(&pair("id", "42")));
    assert_eq!(g.user_agent, Some(bytes("Mozilla/5.0")));
}

#[test]
fn missing_fields_mean_defaults() {
    let g = parse_grant(&bytes("{}")).unwrap();
    assert_eq!(g.cookies.len(), 0);
    assert_eq!(g.user_agent, None);
}

#[test]
fn non_object_top_level_means_defaults() {
    let g = parse_grant(&bytes("[1,2,3]")).unwrap();
    assert_eq!(g.cookies.len(), 0);
    assert_eq!(g.user_agent, None);
}

#[test]
fn non_object_cookies_field_means_no_cookies() {
    let g = parse_grant(&bytes("{\"cookies\":5,\"user_agent\":\"ua\"}")).unwrap();
    assert_eq!(g.cookies.len(), 0);
    assert_eq!(g.user_agent, Some(bytes("ua")));
}

#[test]
fn empty_cookies_object_means_no_cookies() {
    let g = parse_grant(&bytes("{\"cookies\":{}}")).unwrap();
    assert_eq!(g.cookies.len(), 0);
}

#[test]
fn non_string_cookie_value_is_fatal() {
    let body = bytes("{\"cookies\":{\"cf\":1}}");
    assert_eq!(parse_grant(&body), Err(GrantError::NonStringCookie));
}

#[test]
fn malformed_json_is_fatal() {
    assert_eq!(parse_grant(&bytes("not json at all")), Err(GrantError::MalformedJson));
    assert_eq!(parse_grant(&bytes("{\"cookies\":")), Err(GrantError::MalformedJson));
}

#[test]
fn non_string_user_agent_is_ignored() {
    let g = parse_grant(&bytes("{\"user_agent\":17}")).unwrap();
    assert_eq!(g.user_agent, None);
}

#[test]
fn session_is_built_wholesale_from_one_grant() {
    let g1 = parse_grant(&bytes("{\"cookies\":{\"a\":\"1\"}}")).unwrap();
    let g2 = parse_grant(&bytes("{\"cookies\":{\"b\":\"2\",\"c\":\"3\"}}")).unwrap();
    let s1 = Session::from_grant(g1).unwrap();
    let s2 = Session::from_grant(g2).unwrap();
    // Each session holds exactly the cookies of its own grant: a replace
    // can never leave cookies of two refreshes mixed together.
    assert_eq!(s1.cookies, vec![pair("a", "1")]);
    assert_eq!(s2.cookies.len(), 2);
    assert!(s2.cookies.contains(&pair("b", "2")));
    assert!(s2.cookies.contains(&pair("c", "3")));
    assert_eq!(s1.cookie_header(), Some(bytes("a=1")));
}

#[test]
fn cookie_header_joins_pairs() {
    let s = Session::from_grant(price_agent::session::CookieGrant {
        cookies: vec![pair("a", "1"), pair("b", "2"), pair("c", "3")],
        user_agent: None,
    })
    .unwrap();
    assert_eq!(s.cookie_header(), Some(bytes("a=1;b=2;c=3")));
}

#[test]
fn unset_session_has_no_cookie_header() {
    let s = Session::unset();
    assert_eq!(s.cookie_header(), None);
    assert_eq!(s.user_agent, None);
}

#[test]
fn grant_with_invalid_header_byte_is_rejected() {
    let g = price_agent::session::CookieGrant {
        cookies: vec![(bytes("a"), vec![b'o', b'\n', b'k'])],
        user_agent: None,
    };
    assert!(Session::from_grant(g).is_none());
    let g2 = price_agent::session::CookieGrant {
        cookies: vec![pair("a", "1")],
        user_agent: Some(vec![127u8]),
    };
    assert!(Session::from_grant(g2).is_none());
}
