use argon2::password_hash::{PasswordHasher, SaltString};
use argon2::Argon2;
use floatctf_api::accounts::{
    admit_request, admits_user, bearer_token, claims_from_decoded, gen_jwt_token, issue_token,
    role_from_name, role_name, user_login, validate_jwt, DecodedClaims, new_password_hash, check_login, check_reset, login_verdict, none_if_empty, reset_link,
    reset_lookup, token_claims, without_password, AccountLookup, AdminAccount, ResetPasswordOption,
    PatchMeRequest, ResetPasswordRequest, Role, SuperAdminJwtGuard, UserAccount, UserJwtGuard,
};
use floatctf_api::error::UniError;

fn stored_hash(password: &str) -> String {
    let salt = SaltString::encode_b64(b"0123456789abcdef").unwrap();
    Argon2::default().hash_password(password.as_bytes(), &salt).unwrap().to_string()
}

#[test]
fn bearer_tokens() {
    assert_eq!(bearer_token("Bearer abc.def"), Some("abc.def".to_string()));
    assert_eq!(bearer_token("Bearer Bearer  tok  "), Some("tok".to_string()));
    assert_eq!(bearer_token("Bearer "), Some(String::new()));
    assert_eq!(bearer_token("bearer abc"), None);
    assert_eq!(bearer_token("Token abc"), None);
}

#[test]
fn token_lifetimes() {
    let c = token_claims(7, Role::User, None, 1_000);
    assert_eq!(c.sub, 7);
    assert_eq!(c.role, Role::User);
    assert_eq!(c.exp, 1_000 + 8 * 3600);
    let r = token_claims(7, Role::ResetAccount, Some(10), 1_000);
    assert_eq!(r.exp, 1_600);
    assert!(admits_user(&c));
    assert!(!admits_user(&r));
    assert!(!admits_user(&token_claims(1, Role::SuperAdmin, None, 0)));
}

#[test]
fn blank_fields_count_as_missing() {
    assert_eq!(none_if_empty(Some("  ".to_string())), None);
    assert_eq!(none_if_empty(Some("".to_string())), None);
    assert_eq!(none_if_empty(Some(" x ".to_string())), Some(" x ".to_string()));
    assert_eq!(none_if_empty(None), None);
}

#[test]
fn reset_mail_lookup() {
    let req = |e: Option<&str>, u: Option<&str>| ResetPasswordRequest {
        email: e.map(|x| x.to_string()),
        username: u.map(|x| x.to_string()),
    };
    match reset_lookup(req(None, None)) {
        Err(UniError::CustomError(m)) => assert_eq!(m, "Email or username is required"),
        _ => panic!(),
    }
    match reset_lookup(req(Some(" "), Some(""))) {
        Err(UniError::CustomError(m)) => assert_eq!(m, "Email or username required"),
        _ => panic!(),
    }
    assert!(matches!(reset_lookup(req(Some("a@b.c"), Some("bob"))), Ok(AccountLookup::ByEmail(e)) if e == "a@b.c"));
    assert!(matches!(reset_lookup(req(Some(""), Some("bob"))), Ok(AccountLookup::ByUsername(u)) if u == "bob"));
    assert_eq!(reset_link("https://ctf.x", "t0k"), "https://ctf.x/reset_password?token=t0k");
}

#[test]
fn password_reset_checks() {
    let ok = ResetPasswordOption { password: "a".into(), confirmed_password: "a".into() };
    let bad = ResetPasswordOption { password: "a".into(), confirmed_password: "b".into() };
    let reset = token_claims(1, Role::ResetAccount, Some(10), 0);
    let user = token_claims(1, Role::User, None, 0);
    assert!(check_reset(&ok, &reset).is_ok());
    assert!(matches!(check_reset(&bad, &reset), Err(UniError::CustomError(m)) if m == "Passwords do not match"));
    assert!(matches!(check_reset(&ok, &user), Err(UniError::CustomError(m)) if m == "Invalid token"));
}

#[test]
fn logins_check_the_stored_hash() {
    let h = stored_hash("hunter2");
    assert!(check_login("hunter2", &Some(h.clone())).is_ok());
    assert!(matches!(check_login("wrong", &Some(h)), Err(UniError::AuthError)));
    assert!(matches!(check_login("x", &None), Err(UniError::AuthError)));
    match check_login("x", &Some("not a hash".to_string())) {
        Err(UniError::InternalError(m)) => assert!(m.starts_with("Failed to new the PasswordHash: ")),
        _ => panic!(),
    }
    assert!(login_verdict(true, Ok(true)).is_ok());
    assert!(matches!(login_verdict(true, Err("e".into())), Err(UniError::InternalError(m)) if m == "Failed to new the PasswordHash: e"));
}

#[test]
fn guards_and_profiles() {
    let u = UserAccount {
        id: 3,
        username: "bob".into(),
        nickname: "Bob".into(),
        email: "b@x".into(),
        avatar: None,
        password: "$argon2...".into(),
    };
    let g = UserJwtGuard(u.clone());
    let inner = g.into_inner();
    assert_eq!(inner.username, "bob");
    let shown = without_password(inner);
    assert_eq!(shown.password, "");
    assert_eq!(shown.nickname, "Bob");
    let a = SuperAdminJwtGuard(AdminAccount { id: 1, username: "root".into(), password: "h".into() });
    assert_eq!(a.into_inner().username, "root");
}

#[test]
fn changing_ones_own_account() {
    let u = UserAccount {
        id: 3,
        username: "bob".into(),
        nickname: "Bob".into(),
        email: "b@x".into(),
        avatar: None,
        password: "old".into(),
    };
    let p = PatchMeRequest { nickname: None, email: Some("new@x".into()), password: Some("pw".into()) };
    let r = p.apply(u, Some("new-hash".into()));
    assert_eq!(r.email, "new@x");
    assert_eq!(r.nickname, "Bob");
    assert_eq!(r.password, "new-hash");
    assert_eq!(r.username, "bob");
}

#[test]
fn a_new_password_logs_in() {
    let h = new_password_hash("correct horse").ok().unwrap();
    assert!(h.starts_with("$argon2"));
    assert!(check_login("correct horse", &Some(h.clone())).is_ok());
    assert!(check_login("battery staple", &Some(h)).is_err());
}

#[test]
fn user_routes_admit_preflight_and_user_tokens() {
    assert!(admit_request(true, None));
    assert!(admit_request(false, Some(Role::User)));
    assert!(!admit_request(false, Some(Role::ResetAccount)));
    assert!(!admit_request(false, None));
}

#[test]
fn role_names_round_trip() {
    for r in [Role::User, Role::SuperAdmin, Role::ResetAccount, Role::AwdJudger] {
        assert_eq!(role_from_name(&role_name(r)), Some(r));
    }
    assert_eq!(role_name(Role::SuperAdmin), "SuperAdmin");
    assert_eq!(role_from_name("user"), None);
}

#[test]
fn decoded_claims_map_to_auth_claims() {
    let ok = DecodedClaims {
        sub: Some("67e55044-10b1-426f-9247-bb680e5fe0c8".into()),
        role: Some("User".into()),
        exp: Some(42),
    };
    let c = claims_from_decoded(Ok(ok.clone())).ok().unwrap();
    assert_eq!(c.sub, 0x67e5504410b1426f9247bb680e5fe0c8);
    assert_eq!(c.role, Role::User);
    assert_eq!(c.exp, 42);
    let bad_role = DecodedClaims { role: Some("Root".into()), ..ok.clone() };
    assert!(matches!(claims_from_decoded(Ok(bad_role)), Err(UniError::AuthError)));
    let bad_sub = DecodedClaims { sub: Some("nope".into()), ..ok.clone() };
    assert!(matches!(claims_from_decoded(Ok(bad_sub)), Err(UniError::AuthError)));
    let no_exp = DecodedClaims { exp: None, ..ok };
    assert!(matches!(claims_from_decoded(Ok(no_exp)), Err(UniError::AuthError)));
    assert!(matches!(claims_from_decoded(Err("expired".into())), Err(UniError::AuthError)));
}

#[test]
fn issued_tokens_validate_to_their_claims() {
    let now = chrono::Utc::now().timestamp();
    let id = 0x67e5504410b1426f9247bb680e5fe0c8u128;
    let t = issue_token("s3cret", id, Role::ResetAccount, Some(10), now).ok().unwrap();
    let c = validate_jwt("s3cret", &t).ok().unwrap();
    assert_eq!(c.sub, id);
    assert_eq!(c.role, Role::ResetAccount);
    assert_eq!(c.exp as i64, now + 600);
    assert!(matches!(validate_jwt("other", &t), Err(UniError::AuthError)));
    assert!(matches!(validate_jwt("s3cret", "not.a.token"), Err(UniError::AuthError)));
    let old = issue_token("s3cret", id, Role::User, Some(10), now - 3600).ok().unwrap();
    assert!(matches!(validate_jwt("s3cret", &old), Err(UniError::AuthError)));
    let g = gen_jwt_token("k", 7, Role::User, None).ok().unwrap();
    let c = validate_jwt("k", &g).ok().unwrap();
    assert_eq!((c.sub, c.role), (7, Role::User));
    assert!(c.exp as i64 >= now + 28800);
}

#[test]
fn login_issues_a_user_token() {
    let now = chrono::Utc::now().timestamp();
    let account = Some((5u128, stored_hash("pw")));
    let t = user_login("pw", &account, "k", now).ok().unwrap();
    let c = validate_jwt("k", &t).ok().unwrap();
    assert_eq!((c.sub, c.role, c.exp as i64), (5, Role::User, now + 28800));
    assert!(matches!(user_login("wrong", &account, "k", now), Err(UniError::AuthError)));
    assert!(matches!(user_login("pw", &None, "k", now), Err(UniError::AuthError)));
    let broken = Some((5u128, "not a hash".to_string()));
    assert!(matches!(user_login("pw", &broken, "k", now), Err(UniError::InternalError(_))));
}
