//! Opening an account, signing in, and reading who a request comes from.

use vstd::prelude::*;
use vstd::utf8::encode_utf8;
use crate::errors::{AppError, ErrorKind};
use crate::models::user::{Claims, LoginRequest, RegisterRequest, User};
use crate::text::{
    blank, decimal, law_decimal_reads_back, is_blank, lower_case, parse_i32, parse_i64, parsed_i32, parsed_i64,
    push_decimal, to_lower_case, trim, trimmed,
};

verus! {

/// A user as stored, with the hash of the password.
#[derive(Debug, Clone, PartialEq, Eq)]
pub struct UserAuthRow {
    pub id: i32,
    pub email: String,
    pub name: String,
    pub avatar_url: Option<String>,
    pub password_hash: String,
    pub created_at: i64,
    pub updated_at: i64,
}

/// The user that a stored row shows to callers: everything but the hash.
pub fn into_user(row: UserAuthRow) -> (user: User)
    ensures
        user == (User {
            id: row.id,
            email: row.email,
            name: row.name,
            avatar_url: row.avatar_url,
            created_at: row.created_at,
            updated_at: row.updated_at,
        }),
{
    User {
        id: row.id,
        email: row.email,
        name: row.name,
        avatar_url: row.avatar_url,
        created_at: row.created_at,
        updated_at: row.updated_at,
    }
}

/// For how many hours a token is valid: what the setting says where it is
/// a whole number above zero, and 24 otherwise.
pub fn jwt_exp_hours(setting: Option<&str>) -> (hours: i64)
    ensures
        hours == match setting {
            Some(text) => match parsed_i64(text@) {
                Some(value) => if value > 0 {
                    value
                } else {
                    24
                },
                None => 24,
            },
            None => 24,
        },
{
    match setting {
        Some(text) => match parse_i64(text) {
            Some(value) => if value > 0 {
                value
            } else {
                24
            },
            None => 24,
        },
        None => 24,
    }
}

/// The second at which a token issued at the second `now` expires when it
/// is valid for `hours` hours.
pub open spec fn expiry(now: i64, hours: i64) -> int {
    now + 3600 * hours
}

/// What a token for the user `user_id` asserts when it is issued at the
/// second `now` for `hours` hours; `None` where the second at which it
/// would expire cannot be held.
pub fn token_claims(user_id: i32, email: &str, now: i64, hours: i64) -> (claims: Option<Claims>)
    ensures
        match claims {
            Some(claims) => {
                &&& 0 <= expiry(now, hours) <= usize::MAX
                &&& claims.exp == expiry(now, hours)
                &&& claims.sub@ == decimal(user_id as int)
                &&& claims.email@ == email@
            },
            None => !(0 <= expiry(now, hours) <= usize::MAX),
        },
{
    let exp: i128 = now as i128 + 3600 * (hours as i128);
    if exp < 0 || exp > usize::MAX as i128 {
        return None;
    }
    let mut sub = String::new();
    push_decimal(&mut sub, user_id as i64);
    assert(sub@ =~= decimal(user_id as int));
    Some(Claims { sub, email: String::from_str(email), exp: exp as usize })
}

/// What the request said about who sends it.
#[derive(Debug, Clone, PartialEq, Eq)]
pub enum AuthorizationHeader {
    /// The request has no `Authorization` header.
    Missing,
    /// The header is not text.
    Unreadable,
    /// The header, as text.
    Text(String),
}

/// The text with which a bearer token is announced.
pub open spec fn bearer_prefix() -> Seq<char> {
    "Bearer "@
}

/// `raw` announces a bearer token.
pub open spec fn announces_bearer(raw: Seq<char>) -> bool {
    raw.len() >= bearer_prefix().len() && raw.subrange(0, bearer_prefix().len() as int)
        == bearer_prefix()
}

/// Why no bearer token can be taken from `header`, if none can.
pub open spec fn bearer_refusal(header: AuthorizationHeader) -> Option<Seq<char>> {
    match header {
        AuthorizationHeader::Missing => Some("Missing Authorization header"@),
        AuthorizationHeader::Unreadable => Some("Invalid Authorization header"@),
        AuthorizationHeader::Text(raw) => if !announces_bearer(raw@) {
            Some("Invalid bearer token format"@)
        } else if blank(raw@.skip(bearer_prefix().len() as int)) {
            Some("Bearer token cannot be empty"@)
        } else {
            None
        },
    }
}

/// Whether `raw` announces a bearer token.
fn starts_with_bearer(raw: &str) -> (answer: bool)
    ensures
        answer == announces_bearer(raw@),
        bearer_prefix().len() == 7,
{
    proof {
        reveal_strlit("Bearer ");
    }
    let prefix = "Bearer ";
    if raw.unicode_len() < 7 {
        return false;
    }
    let mut i: usize = 0;
    while i < 7
        invariant
            i <= 7,
            raw@.len() >= 7,
            prefix@ == bearer_prefix(),
            prefix@.len() == 7,
            forall|k: int| 0 <= k < i ==> raw@[k] == prefix@[k],
        decreases 7 - i,
    {
        if raw.get_char(i) != prefix.get_char(i) {
            assert(raw@.subrange(0, 7)[i as int] != prefix@[i as int]);
            return false;
        }
        i += 1;
    }
    assert(raw@.subrange(0, 7) =~= prefix@);
    true
}

/// The bearer token that the request carries: what follows `Bearer ` in
/// its `Authorization` header, as it stands.
pub fn extract_bearer_token(header: AuthorizationHeader) -> (outcome: Result<String, AppError>)
    ensures
        match outcome {
            Ok(token) => {
                &&& bearer_refusal(header).is_none()
                &&& header matches AuthorizationHeader::Text(raw)
                &&& token@ == raw@.skip(bearer_prefix().len() as int)
            },
            Err(error) => {
                &&& error.kind() == ErrorKind::Unauthorized
                &&& bearer_refusal(header) == Some(error.text())
            },
        },
{
    match header {
        AuthorizationHeader::Missing => Err(
            AppError::Unauthorized(String::from_str("Missing Authorization header")),
        ),
        AuthorizationHeader::Unreadable => Err(
            AppError::Unauthorized(String::from_str("Invalid Authorization header")),
        ),
        AuthorizationHeader::Text(raw) => {
            if !starts_with_bearer(raw.as_str()) {
                return Err(AppError::Unauthorized(String::from_str("Invalid bearer token format")));
            }
            let token = raw.as_str().substring_char(7, raw.as_str().unicode_len());
            assert(token@ =~= raw@.skip(7));
            if is_blank(token) {
                return Err(
                    AppError::Unauthorized(String::from_str("Bearer token cannot be empty")),
                );
            }
            Ok(String::from_str(token))
        },
    }
}

/// The identifier of the user that the claims name.
pub fn token_subject(claims: &Claims) -> (outcome: Result<i32, AppError>)
    ensures
        match outcome {
            Ok(user_id) => parsed_i32(claims.sub@) == Some(user_id),
            Err(error) => parsed_i32(claims.sub@).is_none() && error.kind()
                == ErrorKind::Unauthorized && error.text() == "Invalid token subject"@,
        },
{
    match parse_i32(claims.sub.as_str()) {
        Some(user_id) => Ok(user_id),
        None => Err(AppError::Unauthorized(String::from_str("Invalid token subject"))),
    }
}

/// The claims of a token name the user that the token was issued for.
pub proof fn law_subject_names_the_user(claims: Claims, user_id: i32)
    requires
        claims.sub@ == decimal(user_id as int),
    ensures
        parsed_i32(claims.sub@) == Some(user_id),
{
    law_decimal_reads_back(user_id as int);
}

/// Accepts the user that the claims name if the user exists.
pub fn require_user(found: Option<User>) -> (outcome: Result<User, AppError>)
    ensures
        match outcome {
            Ok(user) => found == Some(user),
            Err(error) => found.is_none() && error.kind() == ErrorKind::Unauthorized
                && error.text() == "User not found"@,
        },
{
    match found {
        Some(user) => Ok(user),
        None => Err(AppError::Unauthorized(String::from_str("User not found"))),
    }
}

/// Whether `password` is the password that `hash` was made from, as
/// `bcrypt::verify` decides it; `None` where `hash` is not a hash it can
/// read.
pub uninterp spec fn password_check(password: Seq<char>, hash: Seq<char>) -> Option<bool>;

/// Whether `password` is the password that `hash` was made from.
///
/// Trusted: calls `bcrypt::verify`, which reads cost and salt from `hash`,
/// hashes `password` with them and compares; the contract only names its
/// answer, and gives `None` for its error.
#[verifier::external_body]
pub(crate) fn verify_password(password: &str, hash: &str) -> (verdict: Option<bool>)
    ensures
        verdict == password_check(password@, hash@),
{
    bcrypt::verify(password, hash).ok()
}

/// A fresh hash of `password`.
///
/// Trusted: calls `bcrypt::hash` with `bcrypt::DEFAULT_COST`, which draws
/// a random salt, so the hash itself is not named. What is claimed is that
/// the hash is one of `password`: `bcrypt::verify` reads cost and salt back
/// from it, hashes `password` with them as `bcrypt::hash` did, and finds
/// the two equal. `None` stands for the error of `bcrypt::hash`.
#[verifier::external_body]
pub(crate) fn hash_password(password: &str) -> (hash: Option<String>)
    ensures
        hash matches Some(h) ==> password_check(password@, h@) == Some(true),
{
    bcrypt::hash(password, bcrypt::DEFAULT_COST).ok()
}

/// Why a registration is refused before the tables are asked, if it is: a
/// name that holds nothing but white space first, then such an email, then
/// a password of fewer than eight bytes.
pub open spec fn registration_refusal(request: RegisterRequest) -> Option<Seq<char>> {
    if blank(request.name@) {
        Some("Name is required"@)
    } else if blank(request.email@) {
        Some("Email is required"@)
    } else if encode_utf8(request.password@).len() < 8 {
        Some("Password must be at least 8 characters"@)
    } else {
        None
    }
}

/// Checks a registration and gives the email to look for among the users:
/// that of the request, without white space around it.
pub fn check_registration(request: &RegisterRequest) -> (outcome: Result<String, AppError>)
    ensures
        match outcome {
            Ok(email) => registration_refusal(*request).is_none() && email@ == trimmed(
                request.email@,
            ),
            Err(error) => error.kind() == ErrorKind::Validation && registration_refusal(*request)
                == Some(error.text()),
        },
{
    if is_blank(request.name.as_str()) {
        return Err(AppError::ValidationError(String::from_str("Name is required")));
    }
    if is_blank(request.email.as_str()) {
        return Err(AppError::ValidationError(String::from_str("Email is required")));
    }
    if request.password.as_str().as_bytes().len() < 8 {
        return Err(
            AppError::ValidationError(String::from_str("Password must be at least 8 characters")),
        );
    }
    Ok(trim(request.email.as_str()))
}

/// A user to store.
#[derive(Debug, Clone, PartialEq, Eq)]
pub struct NewUser {
    pub email: String,
    pub password_hash: String,
    pub name: String,
}

/// Accepts a registration if no user has its email.
pub fn require_unregistered(existing: i64) -> (outcome: Result<(), AppError>)
    ensures
        match outcome {
            Ok(()) => existing <= 0,
            Err(error) => existing > 0 && error.kind() == ErrorKind::Conflict && error.text()
                == "Email already registered"@,
        },
{
    if existing > 0 {
        Err(AppError::Conflict(String::from_str("Email already registered")))
    } else {
        Ok(())
    }
}

/// The user to store under `email` and `name` with the hash `hashed` of
/// the password. Refused where the password could not be hashed.
pub fn new_user(email: String, name: String, hashed: Option<String>) -> (outcome: Result<
    NewUser,
    AppError,
>)
    ensures
        match outcome {
            Ok(user) => hashed == Some(user.password_hash) && user.email == email && user.name
                == name,
            Err(error) => hashed.is_none() && error.kind() == ErrorKind::Internal && error.text()
                == "Failed to hash password"@,
        },
{
    match hashed {
        Some(password_hash) => Ok(NewUser { email, password_hash, name }),
        None => Err(AppError::InternalError(String::from_str("Failed to hash password"))),
    }
}

/// The user to store for a registration, given how many users have its
/// email: refused where one has, or where the password cannot be hashed;
/// otherwise the email in lower case and the name, both without white
/// space around them, and a fresh hash of the request's password, one
/// that the password verifies against.
pub fn prepare_user(request: &RegisterRequest, existing: i64) -> (outcome: Result<
    NewUser,
    AppError,
>)
    ensures
        match outcome {
            Ok(user) => {
                &&& existing <= 0
                &&& user.email@ == lower_case(trimmed(request.email@))
                &&& user.name@ == trimmed(request.name@)
                &&& password_check(request.password@, user.password_hash@) == Some(true)
            },
            Err(error) => if existing > 0 {
                error.kind() == ErrorKind::Conflict && error.text() == "Email already registered"@
            } else {
                error.kind() == ErrorKind::Internal && error.text() == "Failed to hash password"@
            },
        },
{
    match require_unregistered(existing) {
        Err(error) => Err(error),
        Ok(()) => {
            let email = trim(request.email.as_str());
            new_user(
                to_lower_case(email.as_str()),
                trim(request.name.as_str()),
                hash_password(request.password.as_str()),
            )
        },
    }
}

/// Why a sign-in is refused before the tables are asked, if it is.
pub open spec fn login_refused(request: LoginRequest) -> bool {
    blank(request.email@) || request.password@.len() == 0
}

/// Checks a sign-in and gives the email to look for among the users: that
/// of the request, without white space around it.
pub fn check_login(request: &LoginRequest) -> (outcome: Result<String, AppError>)
    ensures
        match outcome {
            Ok(email) => !login_refused(*request) && email@ == trimmed(request.email@),
            Err(error) => login_refused(*request) && error.kind() == ErrorKind::Validation
                && error.text() == "Email and password are required"@,
        },
{
    if is_blank(request.email.as_str()) || request.password.as_str().is_empty() {
        return Err(AppError::ValidationError(String::from_str("Email and password are required")));
    }
    Ok(trim(request.email.as_str()))
}

/// The outcome of a sign-in for the stored user `row` whose password was
/// checked with the answer `verdict`: the user where the password is
/// right, a refusal where it is wrong or could not be checked.
pub fn login_outcome(row: UserAuthRow, verdict: Option<bool>) -> (outcome: Result<User, AppError>)
    ensures
        match outcome {
            Ok(user) => verdict == Some(true) && user == (User {
                id: row.id,
                email: row.email,
                name: row.name,
                avatar_url: row.avatar_url,
                created_at: row.created_at,
                updated_at: row.updated_at,
            }),
            Err(error) => verdict != Some(true) && error.kind() == ErrorKind::Unauthorized
                && error.text() == "Invalid email or password"@,
        },
{
    match verdict {
        Some(true) => Ok(into_user(row)),
        _ => Err(AppError::Unauthorized(String::from_str("Invalid email or password"))),
    }
}

/// The outcome of a sign-in with `password`, given the stored user that
/// has the email, if there is one: the user where the password is right,
/// a refusal that does not say why otherwise.
pub fn check_credentials(password: &str, found: Option<UserAuthRow>) -> (outcome: Result<
    User,
    AppError,
>)
    ensures
        match outcome {
            Ok(user) => found matches Some(row) && password_check(password@, row.password_hash@)
                == Some(true) && user == (User {
                id: row.id,
                email: row.email,
                name: row.name,
                avatar_url: row.avatar_url,
                created_at: row.created_at,
                updated_at: row.updated_at,
            }),
            Err(error) => {
                &&& found matches Some(row) ==> password_check(password@, row.password_hash@)
                    != Some(true)
                &&& error.kind() == ErrorKind::Unauthorized
                &&& error.text() == "Invalid email or password"@
            },
        },
{
    match found {
        None => Err(AppError::Unauthorized(String::from_str("Invalid email or password"))),
        Some(row) => {
            let verdict = verify_password(password, row.password_hash.as_str());
            login_outcome(row, verdict)
        },
    }
}

} // verus!
