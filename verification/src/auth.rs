//! Authentication decisions: reading the bearer token, admin gating,
//! credential normalisation, password hashing and checking, the role a
//! login is granted, and the claims of a session token.
use vstd::prelude::*;
use argon2::{Argon2, PasswordHash, PasswordHasher, PasswordVerifier};
use password_hash::SaltString;
use crate::errors::{
    ApiError, BAD_REQUEST, CONFLICT, FORBIDDEN, INTERNAL_SERVER_ERROR, UNAUTHORIZED, api_error,
};
use crate::strings::{
    concat2, concat3, contains, has_prefix, has_substring, lowercase, starts_with, str_eq,
    to_lowercase, trim, trimmed,
};

verus! {

/// The claims carried by a session token.
#[derive(Debug)]
pub struct Claims {
    pub sub: String,
    pub email: String,
    pub role: String,
    pub exp: usize,
}

/// An authenticated user: the claims of a valid token.
#[derive(Debug)]
pub struct AuthUser(pub Claims);

/// An authenticated user holding the `admin` or `super_admin` role.
#[derive(Debug)]
pub struct RequireAdmin(pub Claims);

/// An authenticated user holding the `super_admin` role.
#[derive(Debug)]
pub struct RequireSuperAdmin(pub Claims);

/// Body of `POST /api/auth/register`.
#[derive(Debug)]
pub struct RegisterRequest {
    pub name: String,
    pub email: String,
    pub password: String,
}

/// Body of `POST /api/auth/admin/create`; the role granted is always
/// `admin`, never taken from the payload.
#[derive(Debug)]
pub struct CreateAdminRequest {
    pub name: String,
    pub email: String,
    pub password: String,
}

/// Body of `POST /api/auth/login`.
#[derive(Debug)]
pub struct LoginRequest {
    pub email: String,
    pub password: String,
}

/// The answer to a successful registration or login.
#[derive(Debug)]
pub struct AuthResponse {
    pub token: String,
    pub user_id: String,
    pub name: String,
    pub email: String,
    pub role: String,
}

/// A user account as stored.
#[derive(Debug)]
pub struct StoredUser {
    pub id: String,
    pub name: String,
    pub email: String,
    pub password_hash: String,
    pub role: String,
}

/// How long a session token lives: seven days, in seconds.
pub const SESSION_SECONDS: i64 = 604800;

/// The token of an `Authorization` header value: what follows `Bearer `.
/// A missing (or unreadable) header and a header without that prefix are
/// refused with 401.
pub fn bearer_token(header: Option<&str>) -> (r: Result<String, ApiError>)
    ensures
        match header {
            None => r matches Err(e) && e.status == UNAUTHORIZED && e.message@
                == "Missing Authorization header"@,
            Some(h) => if has_prefix(h@, "Bearer "@) {
                r matches Ok(t) && t@ == h@.skip(7)
            } else {
                r matches Err(e) && e.status == UNAUTHORIZED && e.message@
                    == "Invalid Bearer token format"@
            },
        },
{
    match header {
        None => Err(api_error(UNAUTHORIZED, String::from_str("Missing Authorization header"))),
        Some(h) => {
            proof {
                reveal_strlit("Bearer ");
            }
            if starts_with(h, "Bearer ") {
                let cs = crate::strings::chars_of(h);
                let rest = crate::strings::slice_chars(&cs, 7, cs.len());
                assert(rest@ =~= h@.skip(7));
                Ok(crate::strings::string_from_chars(rest.as_slice()))
            } else {
                Err(api_error(UNAUTHORIZED, String::from_str("Invalid Bearer token format")))
            }
        },
    }
}

/// The roles allowed through the admin gate.
pub open spec fn is_admin_role(role: Seq<char>) -> bool {
    role == "admin"@ || role == "super_admin"@
}

/// Lets through a user whose role is `admin` or `super_admin`; anyone else
/// is refused with 403.
pub fn require_admin(claims: Claims) -> (r: Result<RequireAdmin, ApiError>)
    ensures
        is_admin_role(claims.role@) ==> (r matches Ok(RequireAdmin(c)) && c == claims),
        !is_admin_role(claims.role@) ==> (r matches Err(e) && e.status == FORBIDDEN && e.message@
            == "Access Denied: Admin or Super Admin privileges required."@),
{
    if str_eq(claims.role.as_str(), "admin") || str_eq(claims.role.as_str(), "super_admin") {
        Ok(RequireAdmin(claims))
    } else {
        Err(
            api_error(
                FORBIDDEN,
                String::from_str("Access Denied: Admin or Super Admin privileges required."),
            ),
        )
    }
}

/// Lets through only a user whose role is `super_admin`, the role that may
/// add admin accounts; anyone else is refused with 403.
pub fn require_super_admin(claims: Claims) -> (r: Result<RequireSuperAdmin, ApiError>)
    ensures
        claims.role@ == "super_admin"@ ==> (r matches Ok(RequireSuperAdmin(c)) && c == claims),
        claims.role@ != "super_admin"@ ==> (r matches Err(e) && e.status == FORBIDDEN && e.message@
            == "Access Denied: Super Admin privileges required."@),
{
    if str_eq(claims.role.as_str(), "super_admin") {
        Ok(RequireSuperAdmin(claims))
    } else {
        Err(api_error(FORBIDDEN, String::from_str("Access Denied: Super Admin privileges required.")))
    }
}

/// The name and email under which an account is created: the trimmed name
/// and the trimmed, lowercased email. When either comes out empty, or the
/// password is empty, the request is refused with 400.
pub fn normalize_credentials(name: &str, email: &str, password: &str) -> (r: Result<
    (String, String),
    ApiError,
>)
    ensures
        ({
            let n = trimmed(name@);
            let m = lowercase(trimmed(email@));
            if n.len() == 0 || m.len() == 0 || password@.len() == 0 {
                r matches Err(e) && e.status == BAD_REQUEST && e.message@
                    == "Name, email and password are required"@
            } else {
                r matches Ok((a, b)) && a@ == n && b@ == m
            }
        }),
{
    let n = trim(name);
    let t = trim(email);
    let m = to_lowercase(t.as_str());
    if n.as_str().is_empty() || m.as_str().is_empty() || password.is_empty() {
        Err(api_error(BAD_REQUEST, String::from_str("Name, email and password are required")))
    } else {
        Ok((n, m))
    }
}

/// The email a login looks up: trimmed and lowercased.
pub fn normalize_login_email(email: &str) -> (r: String)
    ensures
        r@ == lowercase(trimmed(email@)),
{
    let t = trim(email);
    to_lowercase(t.as_str())
}

/// The claims of a session token issued at time `now` (seconds since the
/// epoch): it expires seven days later.
pub fn session_claims(id: &str, email: &str, role: &str, now: i64) -> (c: Claims)
    requires
        now <= i64::MAX - SESSION_SECONDS,
    ensures
        c.sub@ == id@,
        c.email@ == email@,
        c.role@ == role@,
        c.exp == (now + SESSION_SECONDS) as usize,
{
    Claims {
        sub: String::from_str(id),
        email: String::from_str(email),
        role: String::from_str(role),
        exp: (now + SESSION_SECONDS) as usize,
    }
}

/// The answer when inserting a user account failed with database message
/// `message`: a uniqueness violation means the email is taken (409); any
/// other failure is a 500 naming the `context` (`Registration`, `Admin
/// creation`).
pub fn user_insert_error(message: &str, context: &str) -> (e: ApiError)
    ensures
        has_substring(message@, "UNIQUE"@) ==> e.status == CONFLICT && e.message@
            == "An account with this email already exists"@,
        !has_substring(message@, "UNIQUE"@) ==> e.status == INTERNAL_SERVER_ERROR && e.message@
            == context@ + " failed: "@ + message@,
{
    if contains(message, "UNIQUE") {
        api_error(CONFLICT, String::from_str("An account with this email already exists"))
    } else {
        api_error(INTERNAL_SERVER_ERROR, concat3(context, " failed: ", message))
    }
}

/// The role a login is granted: `super_admin` when the account's email
/// equals the configured bootstrap address (both lowercased), else the
/// stored role.
pub open spec fn granted_role(email: Seq<char>, role: Seq<char>, bootstrap: Option<Seq<char>>) -> Seq<
    char,
> {
    match bootstrap {
        Some(b) => if lowercase(email) == lowercase(b) {
            "super_admin"@
        } else {
            role
        },
        None => role,
    }
}

/// Computes [`granted_role`].
pub fn effective_role(email: &str, role: &str, bootstrap: Option<&str>) -> (r: String)
    ensures
        r@ == granted_role(
            email@,
            role@,
            match bootstrap {
                Some(b) => Some(b@),
                None => None,
            },
        ),
{
    match bootstrap {
        Some(b) => {
            let x = to_lowercase(email);
            let y = to_lowercase(b);
            if x == y {
                String::from_str("super_admin")
            } else {
                String::from_str(role)
            }
        },
        None => String::from_str(role),
    }
}

/// The password lengths, in characters, that Argon2 always accepts: at
/// most four bytes each, so at most `0xFFFF_FFFC` bytes, within Argon2's
/// `MAX_PWD_LEN` of `0xFFFF_FFFF` bytes.
pub open spec fn hashable_len(password: Seq<char>) -> bool {
    password.len() <= 0x3FFF_FFFF
}

/// Hashes `password` with `Argon2::default().hash_password` under a salt
/// drawn by `SaltString::generate(&mut rand::thread_rng())`, and gives the
/// PHC string, or the text of the error. The default is Argon2id, version
/// 19, so the string begins `$argon2id$v=19$`; it parses back with
/// `PasswordHash::new` and `verify_password` accepts the same password
/// against it. The generated salt is 16 bytes (within Argon2's 8-byte
/// minimum) and the default output length is valid, so the only failure
/// left is a password longer than `MAX_PWD_LEN` bytes: below
/// [`hashable_len`] the result is `Ok`. The rest of the string depends on
/// the random salt and is not stated.
#[verifier::external_body]
fn argon2_hash_fresh_salt(password: &str) -> (r: Result<String, String>)
    ensures
        r matches Ok(h) ==> has_prefix(h@, "$argon2id$v=19$"@) && phc_parses(h@) && argon2_accepts(
            password@,
            h@,
        ),
        hashable_len(password@) ==> r is Ok,
{
    let salt = SaltString::generate(&mut rand::thread_rng());
    Argon2::default().hash_password(password.as_bytes(), &salt).map(|h| h.to_string()).map_err(
        |e| e.to_string(),
    )
}

/// `stored` parses as a PHC string and Argon2 accepts `password` against
/// it: the condition under which a login succeeds.
pub open spec fn password_matches(password: Seq<char>, stored: Seq<char>) -> bool {
    phc_parses(stored) && argon2_accepts(password, stored)
}

/// `h` is an Argon2id (version 19) hash of `password`.
pub open spec fn is_password_hash(password: Seq<char>, h: Seq<char>) -> bool {
    has_prefix(h, "$argon2id$v=19$"@) && password_matches(password, h)
}

/// Hashes `password` with Argon2id under a fresh random salt. It succeeds
/// for every password of a [`hashable_len`]; a failure of the hasher is a
/// 500 carrying its message. A hash it returns is one that
/// [`login_decision`] accepts for the same password.
pub fn hash_password(password: &str) -> (r: Result<String, ApiError>)
    ensures
        hashable_len(password@) ==> r is Ok,
        match r {
            Ok(h) => is_password_hash(password@, h@),
            Err(e) => e.status == INTERNAL_SERVER_ERROR && has_prefix(e.message@, "Hashing error: "@),
        },
{
    match argon2_hash_fresh_salt(password) {
        Ok(h) => Ok(h),
        Err(m) => {
            let msg = concat2("Hashing error: ", m.as_str());
            assert(msg@.subrange(0, "Hashing error: "@.len() as int) =~= "Hashing error: "@);
            Err(api_error(INTERNAL_SERVER_ERROR, msg))
        },
    }
}

/// Whether `PasswordHash::new` accepts `stored` as a PHC string.
pub uninterp spec fn phc_parses(stored: Seq<char>) -> bool;

/// Whether `Argon2::default().verify_password` accepts `password` against
/// the parsed PHC string `stored`.
pub uninterp spec fn argon2_accepts(password: Seq<char>, stored: Seq<char>) -> bool;

/// Parses `stored` with `PasswordHash::new` (`None` when that fails, named
/// [`phc_parses`]) and checks `password` against it with
/// `Argon2::default().verify_password` (named [`argon2_accepts`]).
#[verifier::external_body]
fn argon2_check(password: &str, stored: &str) -> (r: Option<bool>)
    ensures
        r is Some <==> phc_parses(stored@),
        r matches Some(ok) ==> ok == argon2_accepts(password@, stored@),
{
    match PasswordHash::new(stored) {
        Ok(parsed) => Some(Argon2::default().verify_password(password.as_bytes(), &parsed).is_ok()),
        Err(_) => None,
    }
}

/// The outcome of a login against the account `user`, given what checking
/// the password against its stored hash gave: `None` when the stored hash
/// does not parse (500), `Some(false)` when the password does not match
/// (401). On a match the account comes back with the role the login is
/// granted.
pub fn login_outcome(check: Option<bool>, user: StoredUser, bootstrap: Option<&str>) -> (r: Result<
    StoredUser,
    ApiError,
>)
    ensures
        match check {
            None => r matches Err(e) && e.status == INTERNAL_SERVER_ERROR && e.message@
                == "Invalid stored credential"@,
            Some(false) => r matches Err(e) && e.status == UNAUTHORIZED && e.message@
                == "Invalid email or password"@,
            Some(true) => r matches Ok(v) && v.id == user.id && v.name == user.name && v.email
                == user.email && v.password_hash == user.password_hash && v.role@ == granted_role(
                user.email@,
                user.role@,
                match bootstrap {
                    Some(b) => Some(b@),
                    None => None,
                },
            ),
        },
{
    match check {
        None => Err(api_error(INTERNAL_SERVER_ERROR, String::from_str("Invalid stored credential"))),
        Some(false) => Err(api_error(UNAUTHORIZED, String::from_str("Invalid email or password"))),
        Some(true) => {
            let role = effective_role(user.email.as_str(), user.role.as_str(), bootstrap);
            Ok(StoredUser {
                id: user.id,
                name: user.name,
                email: user.email,
                password_hash: user.password_hash,
                role,
            })
        },
    }
}

/// The outcome of a login attempt with `password` against the account
/// found for the email, if any. No account, or a password that does not
/// match, is a 401; a stored hash that does not parse is a 500. On success
/// the account comes back with the role the login is granted.
pub fn login_decision(password: &str, found: Option<StoredUser>, bootstrap: Option<&str>) -> (r:
    Result<StoredUser, ApiError>)
    ensures
        match found {
            None => r matches Err(e) && e.status == UNAUTHORIZED && e.message@
                == "Invalid email or password"@,
            Some(u) => if !phc_parses(u.password_hash@) {
                r matches Err(e) && e.status == INTERNAL_SERVER_ERROR && e.message@
                    == "Invalid stored credential"@
            } else if !password_matches(password@, u.password_hash@) {
                r matches Err(e) && e.status == UNAUTHORIZED && e.message@
                    == "Invalid email or password"@
            } else {
                r matches Ok(v) && v.id == u.id && v.name == u.name && v.email == u.email
                    && v.password_hash == u.password_hash && v.role@ == granted_role(
                    u.email@,
                    u.role@,
                    match bootstrap {
                        Some(b) => Some(b@),
                        None => None,
                    },
                )
            },
        },
{
    match found {
        None => Err(api_error(UNAUTHORIZED, String::from_str("Invalid email or password"))),
        Some(u) => {
            let check = argon2_check(password, u.password_hash.as_str());
            login_outcome(check, u, bootstrap)
        },
    }
}

/// A password hashed at registration logs in: an account storing what
/// [`hash_password`] returned for a password passes [`login_decision`]'s
/// check for that same password, and is neither refused as a bad
/// credential nor as a wrong password.
pub proof fn lemma_hashed_password_logs_in(password: Seq<char>, stored: Seq<char>)
    requires
        is_password_hash(password, stored),
    ensures
        phc_parses(stored),
        password_matches(password, stored),
{
}

} // verus!
