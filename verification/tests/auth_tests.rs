use capadvisors_backend::auth::{
    bearer_token, effective_role, hash_password, login_decision, login_outcome, normalize_credentials,
    normalize_login_email, require_admin, session_claims, user_insert_error, Claims, StoredUser,
};

fn claims(role: &str) -> Claims {
    Claims { sub: "u1".into(), email: "a@b.c".into(), role: role.into(), exp: 1 }
}

#[test]
fn bearer_token_extraction() {
    assert_eq!(bearer_token(Some("Bearer abc.def")).unwrap(), "abc.def");
    assert_eq!(bearer_token(Some("Bearer ")).unwrap(), "");
    let e = bearer_token(None).unwrap_err();
    assert_eq!((e.status, e.message.as_str()), (401, "Missing Authorization header"));
    let e = bearer_token(Some("Basic xyz")).unwrap_err();
    assert_eq!((e.status, e.message.as_str()), (401, "Invalid Bearer token format"));
    assert!(bearer_token(Some("bearer abc")).is_err());
}

#[test]
fn admin_gate_lets_admins_through() {
    assert!(require_admin(claims("admin")).is_ok());
    assert!(require_admin(claims("super_admin")).is_ok());
    let e = require_admin(claims("quiz_taker")).err().unwrap();
    assert_eq!(e.status, 403);
    assert_eq!(e.message, "Access Denied: Admin or Super Admin privileges required.");
    assert!(require_admin(claims("Admin")).is_err());
}

#[test]
fn credentials_are_trimmed_and_lowercased() {
    let (n, m) = normalize_credentials("  Asha Rao ", " Asha.RAO@Example.COM ", "pw").unwrap();
    assert_eq!(n, "Asha Rao");
    assert_eq!(m, "asha.rao@example.com");
    let e = normalize_credentials("   ", "a@b.c", "pw").unwrap_err();
    assert_eq!((e.status, e.message.as_str()), (400, "Name, email and password are required"));
    assert!(normalize_credentials("A", " ", "pw").is_err());
    assert!(normalize_credentials("A", "a@b.c", "").is_err());
    assert_eq!(normalize_login_email("  X@Y.Z\n"), "x@y.z");
}

#[test]
fn session_claims_expire_after_seven_days() {
    let c = session_claims("id-1", "e@x.y", "admin", 1_700_000_000);
    assert_eq!(c.sub, "id-1");
    assert_eq!(c.email, "e@x.y");
    assert_eq!(c.role, "admin");
    assert_eq!(c.exp, 1_700_604_800);
}

#[test]
fn insert_errors_are_classified() {
    let e = user_insert_error("UNIQUE constraint failed: users.email", "Registration");
    assert_eq!((e.status, e.message.as_str()), (409, "An account with this email already exists"));
    let e = user_insert_error("disk I/O error", "Admin creation");
    assert_eq!((e.status, e.message.as_str()), (500, "Admin creation failed: disk I/O error"));
}

#[test]
fn bootstrap_email_grants_super_admin() {
    assert_eq!(effective_role("Boss@Corp.com", "admin", Some("boss@corp.COM")), "super_admin");
    assert_eq!(effective_role("other@corp.com", "admin", Some("boss@corp.com")), "admin");
    assert_eq!(effective_role("boss@corp.com", "quiz_taker", None), "quiz_taker");
}

fn user(hash: &str, email: &str) -> StoredUser {
    StoredUser {
        id: "id".into(),
        name: "N".into(),
        email: email.into(),
        password_hash: hash.into(),
        role: "quiz_taker".into(),
    }
}

#[test]
fn hashed_password_verifies_and_others_do_not() {
    let h = hash_password("s3cret").unwrap();
    assert!(h.starts_with("$argon2id$v=19$"));
    let h2 = hash_password("s3cret").unwrap();
    assert_ne!(h, h2, "salts are fresh");
    let ok = login_decision("s3cret", Some(user(&h, "a@b.c")), Some("A@B.C")).unwrap();
    assert_eq!(ok.role, "super_admin");
    let ok = login_decision("s3cret", Some(user(&h, "a@b.c")), None).unwrap();
    assert_eq!(ok.role, "quiz_taker");
    let e = login_decision("wrong", Some(user(&h, "a@b.c")), None).err().unwrap();
    assert_eq!((e.status, e.message.as_str()), (401, "Invalid email or password"));
}

#[test]
fn unknown_account_and_broken_hash() {
    let e = login_decision("pw", None, None).err().unwrap();
    assert_eq!((e.status, e.message.as_str()), (401, "Invalid email or password"));
    let e = login_decision("pw", Some(user("not a phc string", "a@b.c")), None).err().unwrap();
    assert_eq!((e.status, e.message.as_str()), (500, "Invalid stored credential"));
}

#[test]
fn login_outcome_follows_the_credential_check() {
    let u = login_outcome(Some(true), user("h", "boss@corp.com"), Some("BOSS@corp.com")).unwrap();
    assert_eq!((u.id.as_str(), u.role.as_str()), ("id", "super_admin"));
    let u = login_outcome(Some(true), user("h", "x@corp.com"), Some("boss@corp.com")).unwrap();
    assert_eq!(u.role, "quiz_taker");
    let e = login_outcome(Some(false), user("h", "x@corp.com"), None).err().unwrap();
    assert_eq!((e.status, e.message.as_str()), (401, "Invalid email or password"));
    let e = login_outcome(None, user("h", "x@corp.com"), None).err().unwrap();
    assert_eq!((e.status, e.message.as_str()), (500, "Invalid stored credential"));
}

#[test]
fn every_ordinary_password_hashes() {
    for pw in ["", "x", "pässwörd ✓", &"long".repeat(1000)] {
        let h = hash_password(pw).unwrap();
        assert!(h.starts_with("$argon2id$v=19$"));
    }
}
