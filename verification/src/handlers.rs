//! The computing half of the HTTP handlers. Each route's I/O — reading the
//! request, querying the durable store, writing the response — stays
//! outside; what is decided between those steps is here, on plain values.

use vstd::prelude::*;
use vstd::string::StringExecFns;
use crate::auth::{bcrypt_verifies, create_jwt, exp_at, jwt_for};
use crate::models::User;
use crate::ws::StoreError;

verus! {

/// Credentials presented to the register and login routes.
pub struct AuthPayload {
    pub username: String,
    pub password: String,
}

/// The row the register route asks the store to insert.
pub struct NewUserRequest {
    pub username: String,
    pub password_hash: String,
}

/// Why registration was refused.
#[derive(Clone, Copy, PartialEq, Eq, Structural, Debug)]
pub enum RegisterError {
    /// The password could not be hashed.
    Hash,
    /// The store could not create the user.
    Store,
}

/// A store-backed route failed; the surrounding server answers with its
/// internal-error response.
#[derive(Clone, Copy, PartialEq, Eq, Structural, Debug)]
pub struct ApiError;

/// What the login route answers.
pub enum LoginOutcome {
    /// The credentials matched; this bearer token is issued.
    Token(String),
    /// Unknown user, wrong password, or an unreadable stored hash.
    Unauthorized,
}

/// Registration, step one: hash the password and assemble the row to
/// insert. The username is carried verbatim; the stored hash verifies the
/// presented password.
pub fn register_request(payload: &AuthPayload) -> (r: Result<NewUserRequest, RegisterError>)
    ensures
        r matches Ok(req) ==> req.username == payload.username && bcrypt_verifies(
            payload.password@,
            req.password_hash@,
        ),
        r matches Err(e) ==> e == RegisterError::Hash,
{
    match crate::auth::hash_password(payload.password.as_str()) {
        Ok(h) => Ok(NewUserRequest { username: payload.username.clone(), password_hash: h }),
        Err(_) => Err(RegisterError::Hash),
    }
}

/// Registration, step two: how the store's answer maps to the response —
/// the created user on success, a refusal on a store error.
pub fn register_response(inserted: Result<User, StoreError>) -> (r: Result<User, RegisterError>)
    ensures
        match inserted {
            Ok(u) => r matches Ok(created) && created == u,
            Err(_) => r matches Err(e) && e == RegisterError::Store,
        },
{
    match inserted {
        Ok(u) => Ok(u),
        Err(_) => Err(RegisterError::Store),
    }
}

/// The digit character of `d`.
pub open spec fn digit_char(d: int) -> char {
    if d == 0 {
        '0'
    } else if d == 1 {
        '1'
    } else if d == 2 {
        '2'
    } else if d == 3 {
        '3'
    } else if d == 4 {
        '4'
    } else if d == 5 {
        '5'
    } else if d == 6 {
        '6'
    } else if d == 7 {
        '7'
    } else if d == 8 {
        '8'
    } else {
        '9'
    }
}

/// `n` written in decimal, most significant digit first, no leading zeros.
pub open spec fn dec_digits(n: nat) -> Seq<char>
    decreases n,
{
    if n < 10 {
        seq![digit_char(n as int)]
    } else {
        dec_digits(n / 10).push(digit_char((n % 10) as int))
    }
}

fn digit_str(d: u128) -> (s: &'static str)
    requires
        d < 10,
    ensures
        s@ == seq![digit_char(d as int)],
{
    proof {
        reveal_strlit("0");
        reveal_strlit("1");
        reveal_strlit("2");
        reveal_strlit("3");
        reveal_strlit("4");
        reveal_strlit("5");
        reveal_strlit("6");
        reveal_strlit("7");
        reveal_strlit("8");
        reveal_strlit("9");
    }
    let s: &'static str = match d {
        0 => "0",
        1 => "1",
        2 => "2",
        3 => "3",
        4 => "4",
        5 => "5",
        6 => "6",
        7 => "7",
        8 => "8",
        _ => "9",
    };
    proof {
        assert(s@ =~= seq![digit_char(d as int)]);
    }
    s
}

/// Render an id in decimal, as the token subject carries it.
pub fn u128_to_string(n: u128) -> (s: String)
    ensures
        s@ == dec_digits(n as nat),
    decreases n,
{
    if n < 10 {
        String::from_str(digit_str(n))
    } else {
        let mut s = u128_to_string(n / 10);
        s.append(digit_str(n % 10));
        s
    }
}

/// Login: an unknown user or a failed password check is turned away;
/// matching credentials are owed a token, whose subject is the user's id in
/// decimal.
pub fn login_attempt(user: Option<User>, password: &str, secret: &str) -> (r: LoginOutcome)
    ensures
        user is None ==> r is Unauthorized,
        user matches Some(u) && !bcrypt_verifies(password@, u.password_hash@) ==> r is Unauthorized,
        r matches LoginOutcome::Token(t) ==> user matches Some(u) && bcrypt_verifies(
            password@,
            u.password_hash@,
        ) && exists|now: i64| t@ == #[trigger] jwt_for(
            dec_digits(u.id as nat),
            exp_at(now),
            secret@,
        ),
        user matches Some(u) ==> (bcrypt_verifies(password@, u.password_hash@) ==> (
        r matches LoginOutcome::Token(t) && exists|now: i64| t@ == #[trigger] jwt_for(
            dec_digits(u.id as nat),
            exp_at(now),
            secret@,
        ))),
{
    let user = match user {
        Some(u) => u,
        None => {
            return LoginOutcome::Unauthorized;
        },
    };
    let verified = match crate::auth::verify_password(password, user.password_hash.as_str()) {
        Ok(b) => b,
        Err(_) => false,
    };
    if !verified {
        return LoginOutcome::Unauthorized;
    }
    let subject = u128_to_string(user.id);
    match create_jwt(subject.as_str(), secret) {
        Ok(t) => LoginOutcome::Token(t),
        // Unreachable: issuing a token with an HMAC secret cannot fail.
        Err(_) => LoginOutcome::Unauthorized,
    }
}

/// The search pattern the user-search route hands the store: the fragment
/// between two wildcards.
pub fn like_pattern(fragment: &str) -> (p: String)
    ensures
        p@ == seq!['%'] + fragment@ + seq!['%'],
{
    proof {
        reveal_strlit("%");
    }
    let mut p = String::from_str("%");
    p.append(fragment);
    p.append("%");
    proof {
        assert(p@ =~= seq!['%'] + fragment@ + seq!['%']);
    }
    p
}

/// How every store-backed read or create maps the store's answer to a
/// response: the value through unchanged, a store error to [`ApiError`].
pub fn store_response<T>(fetched: Result<T, StoreError>) -> (r: Result<T, ApiError>)
    ensures
        match fetched {
            Ok(v) => r matches Ok(out) && out == v,
            Err(_) => r is Err,
        },
{
    match fetched {
        Ok(v) => Ok(v),
        Err(_) => Err(ApiError),
    }
}

} // verus!
