//! Session data: the cookie set and user-agent that let a request pass the
//! anti-bot check, and the construction of the `Cookie` header line.
//!
//! A `Session` is only ever built wholesale from a single `CookieGrant`, so
//! a reader of the shared session store can never observe cookies from two
//! different refreshes mixed together. Header bytes are validated here, in
//! verified code, with the same rule the HTTP layer enforces; a grant that
//! would not encode as a header value is rejected as a configuration error.

use vstd::prelude::*;

verus! {

/// A byte acceptable inside an HTTP header value: horizontal tab, or any
/// byte from 32 up, except delete (127).
pub open spec fn header_byte_ok(b: u8) -> bool {
    b == 9 || (32 <= b && b != 127)
}

/// Every byte of `s` is acceptable inside an HTTP header value.
pub open spec fn bytes_ok(s: Seq<u8>) -> bool {
    forall|i: int| 0 <= i < s.len() ==> header_byte_ok(s[i])
}

/// The response of the cookie-issuing side channel, reduced to plain
/// values: cookie name/value pairs and an optional user-agent string, all
/// as raw bytes. Consumed once to build a new `Session`.
#[derive(Debug, PartialEq, Eq)]
pub struct CookieGrant {
    pub cookies: Vec<(Vec<u8>, Vec<u8>)>,
    pub user_agent: Option<Vec<u8>>,
}

/// The cookie pairs as sequences of bytes.
pub open spec fn pair_views(s: Seq<(Vec<u8>, Vec<u8>)>) -> Seq<(Seq<u8>, Seq<u8>)> {
    s.map_values(|p: (Vec<u8>, Vec<u8>)| (p.0@, p.1@))
}

/// The `Cookie` header line for a list of pairs: `name=value` entries
/// joined with `;`.
pub open spec fn joined(s: Seq<(Seq<u8>, Seq<u8>)>) -> Seq<u8>
    decreases s.len(),
{
    if s.len() == 0 {
        Seq::empty()
    } else if s.len() == 1 {
        s[0].0 + seq![61u8] + s[0].1
    } else {
        joined(s.drop_last()) + seq![59u8] + s.last().0 + seq![61u8] + s.last().1
    }
}

impl CookieGrant {
    /// Every cookie name, cookie value, and the user-agent (when present)
    /// can stand inside an HTTP header value.
    pub open spec fn encodable(self) -> bool {
        &&& forall|i: int|
            #![trigger self.cookies@[i]]
            0 <= i < self.cookies@.len() ==> bytes_ok(self.cookies@[i].0@) && bytes_ok(
                self.cookies@[i].1@,
            )
        &&& match self.user_agent {
            Some(ua) => bytes_ok(ua@),
            None => true,
        }
    }
}

/// The mutable state needed to impersonate a real browser: the cookie set
/// and the optional user-agent installed by the latest refresh. The initial
/// session is fully unset; every later one is built atomically from one
/// grant by `from_grant`.
pub struct Session {
    pub cookies: Vec<(Vec<u8>, Vec<u8>)>,
    pub user_agent: Option<Vec<u8>>,
}

impl Session {
    /// All header material this session would install is valid.
    pub open spec fn wf(self) -> bool {
        &&& forall|i: int|
            #![trigger self.cookies@[i]]
            0 <= i < self.cookies@.len() ==> bytes_ok(self.cookies@[i].0@) && bytes_ok(
                self.cookies@[i].1@,
            )
        &&& match self.user_agent {
            Some(ua) => bytes_ok(ua@),
            None => true,
        }
    }

    /// The initial session: no cookies, default user-agent.
    pub fn unset() -> (s: Session)
        ensures
            s.cookies@.len() == 0,
            s.user_agent is None,
            s.wf(),
    {
        Session { cookies: Vec::new(), user_agent: None }
    }

    /// Build a session from a grant, wholesale: exactly the grant's cookies
    /// and user-agent, or `None` when some byte of the grant cannot stand
    /// in an HTTP header (the configuration-error case).
    pub fn from_grant(g: CookieGrant) -> (r: Option<Session>)
        ensures
            match r {
                Some(s) => {
                    &&& g.encodable()
                    &&& s.cookies@ == g.cookies@
                    &&& s.user_agent == g.user_agent
                    &&& s.wf()
                },
                None => !g.encodable(),
            },
    {
        let mut i: usize = 0;
        let n = g.cookies.len();
        while i < n
            invariant
                i <= n == g.cookies@.len(),
                forall|k: int|
                    #![trigger g.cookies@[k]]
                    0 <= k < i ==> bytes_ok(g.cookies@[k].0@) && bytes_ok(g.cookies@[k].1@),
            decreases n - i,
        {
            let pair = &g.cookies[i];
            if !bytes_acceptable(&pair.0) || !bytes_acceptable(&pair.1) {
                return None;
            }
            proof {
                assert(bytes_ok(g.cookies@[i as int].0@));
                assert(bytes_ok(g.cookies@[i as int].1@));
            }
            i += 1;
        }
        match &g.user_agent {
            Some(ua) => {
                if !bytes_acceptable(ua) {
                    return None;
                }
            },
            None => {},
        }
        Some(Session { cookies: g.cookies, user_agent: g.user_agent })
    }

    /// The `Cookie` header line this session installs: `name=value` pairs
    /// joined with `;`, or `None` when the session holds no cookies.
    pub fn cookie_header(&self) -> (r: Option<Vec<u8>>)
        ensures
            match r {
                Some(h) => self.cookies@.len() > 0 && h@ == joined(pair_views(self.cookies@)),
                None => self.cookies@.len() == 0,
            },
    {
        let n = self.cookies.len();
        if n == 0 {
            return None;
        }
        let mut h: Vec<u8> = Vec::new();
        let mut i: usize = 0;
        while i < n
            invariant
                i <= n == self.cookies@.len(),
                h@ == joined(pair_views(self.cookies@).subrange(0, i as int)),
            decreases n - i,
        {
            if i > 0 {
                h.push(59);
            }
            push_all(&mut h, &self.cookies[i].0);
            h.push(61);
            push_all(&mut h, &self.cookies[i].1);
            proof {
                let pv = pair_views(self.cookies@);
                assert(pv.subrange(0, i + 1).drop_last() =~= pv.subrange(0, i as int));
                assert(pv.subrange(0, i + 1).last() == pv[i as int]);
                if i == 0 {
                    assert(h@ =~= pv[0].0 + seq![61u8] + pv[0].1);
                } else {
                    assert(h@ =~= joined(pv.subrange(0, i as int)) + seq![59u8] + pv[i as int].0
                        + seq![61u8] + pv[i as int].1);
                }
            }
            i += 1;
        }
        proof {
            assert(pair_views(self.cookies@).subrange(0, n as int) =~= pair_views(self.cookies@));
        }
        Some(h)
    }
}

/// True exactly when every byte of `v` is acceptable in a header value.
pub fn bytes_acceptable(v: &Vec<u8>) -> (r: bool)
    ensures
        r == bytes_ok(v@),
{
    let n = v.len();
    let mut i: usize = 0;
    while i < n
        invariant
            i <= n == v@.len(),
            forall|k: int| 0 <= k < i ==> header_byte_ok(v@[k]),
        decreases n - i,
    {
        let b = v[i];
        if !(b == 9 || (32 <= b && b != 127)) {
            return false;
        }
        i += 1;
    }
    true
}

fn push_all(dst: &mut Vec<u8>, src: &Vec<u8>)
    ensures
        final(dst)@ == old(dst)@ + src@,
{
    let n = src.len();
    let mut i: usize = 0;
    while i < n
        invariant
            i <= n == src@.len(),
            dst@ == old(dst)@ + src@.subrange(0, i as int),
        decreases n - i,
    {
        dst.push(src[i]);
        proof {
            assert(old(dst)@ + src@.subrange(0, i + 1) =~= (old(dst)@ + src@.subrange(
                0,
                i as int,
            )).push(src@[i as int]));
        }
        i += 1;
    }
    proof {
        assert(src@.subrange(0, n as int) =~= src@);
    }
}

} // verus!
