//! The authentication guard in front of every protected route: a request
//! carries `Authorization: Bearer <token>` or is turned away before any
//! coordinator state is touched.

use vstd::prelude::*;
use vstd::string::StrSliceExecFns;
use crate::auth::{decode_jwt, AuthError, Claims};

verus! {

/// The guard itself. The HTTP plumbing around it extracts the header value
/// and acts on the outcome; the decision is made here.
pub struct Authentication;

/// The guard's answer for one request.
pub enum AuthDecision {
    /// The token was accepted; these are its claims.
    Authorized(Claims),
    /// No header, no `Bearer ` prefix, or a rejected token.
    Unauthorized,
}

/// Whether a header value is `Bearer ` followed by a token.
pub open spec fn has_bearer_prefix(h: Seq<char>) -> bool {
    h.len() >= 7 && h[0] == 'B' && h[1] == 'e' && h[2] == 'a' && h[3] == 'r' && h[4] == 'e'
        && h[5] == 'r' && h[6] == ' '
}

/// What follows the `Bearer ` prefix.
pub open spec fn bearer_token_of(h: Seq<char>) -> Seq<char> {
    h.skip(7)
}

/// Strip the `Bearer ` prefix from a header value, if it carries one.
pub fn bearer_token(header: &str) -> (r: Option<&str>)
    ensures
        match r {
            Some(t) => has_bearer_prefix(header@) && t@ == bearer_token_of(header@),
            None => !has_bearer_prefix(header@),
        },
{
    let n = header.unicode_len();
    if n < 7 {
        return None;
    }
    if header.get_char(0) != 'B' || header.get_char(1) != 'e' || header.get_char(2) != 'a'
        || header.get_char(3) != 'r' || header.get_char(4) != 'e' || header.get_char(5) != 'r'
        || header.get_char(6) != ' ' {
        return None;
    }
    let t = header.substring_char(7, n);
    proof {
        assert(t@ =~= bearer_token_of(header@));
    }
    Some(t)
}

/// How the token verifier's answer maps to a decision: accepted claims
/// authorize the request, any rejection turns it away.
pub fn decision_of(checked: Result<Claims, AuthError>) -> (d: AuthDecision)
    ensures
        checked matches Ok(c) ==> d matches AuthDecision::Authorized(granted) && granted == c,
        checked is Err ==> d is Unauthorized,
{
    match checked {
        Ok(c) => AuthDecision::Authorized(c),
        Err(_) => AuthDecision::Unauthorized,
    }
}

impl Authentication {
    /// Judge one request: a missing or prefix-less header is turned away
    /// here; otherwise the outside verifier judges the token and
    /// [`decision_of`] maps its answer.
    pub fn authorize(&self, header: Option<&str>, secret: &str) -> (d: AuthDecision)
        ensures
            header is None ==> d is Unauthorized,
            header matches Some(h) && !has_bearer_prefix(h@) ==> d is Unauthorized,
            d matches AuthDecision::Authorized(granted) ==> header matches Some(h)
                && has_bearer_prefix(h@),
    {
        match header {
            None => AuthDecision::Unauthorized,
            Some(h) => match bearer_token(h) {
                None => AuthDecision::Unauthorized,
                Some(token) => decision_of(decode_jwt(token, secret)),
            },
        }
    }
}

} // verus!
