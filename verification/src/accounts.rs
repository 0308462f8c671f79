//! Accounts and sessions: roles and tokens, what a request's credentials
//! admit, logging in and resetting a password.

use vstd::prelude::*;
use crate::error::UniError;
use crate::text::{chars_of, string_from_chars, trim, trimmed, starts_with, is_prefix, str_equals};
use crate::membership::is_custom;
use argon2::{PasswordHasher, PasswordVerifier};

verus! {

/// The roles a token can carry.
#[derive(Clone, Copy, Debug, PartialEq, Eq, Structural)]
pub enum Role {
    User,
    SuperAdmin,
    /// A token that only allows resetting a password.
    ResetAccount,
    AwdJudger,
}

/// What a token states: whose it is, its role, and when it expires (seconds
/// since the epoch).
#[derive(Clone, Copy, Debug)]
pub struct AuthClaims {
    pub sub: u128,
    pub role: Role,
    pub exp: usize,
}

/// How long a token lasts when no other lifetime is asked: eight hours.
pub const SESSION_SECONDS: i64 = 28800;

/// When a token issued at `now` expires: after `minutes` if given, else
/// after eight hours.
pub open spec fn expiry_of(now: i64, minutes: Option<i64>) -> int {
    match minutes {
        Some(m) => now + m * 60,
        None => now + SESSION_SECONDS,
    }
}

/// The claims of a token for `id` with `role`, issued at `now`; the expiry
/// is stored as `usize` (a moment before the epoch wraps, as `as` does). A
/// lifetime in minutes beyond what chrono's `Duration::minutes` accepts
/// (i64::MAX milliseconds) is left out.
pub fn token_claims(id: u128, role: Role, minutes: Option<i64>, now: i64) -> (r: AuthClaims)
    requires
        minutes.is_some() ==> -153722867280912 <= minutes.unwrap() <= 153722867280912,
        -0x4000_0000_0000_0000 <= now <= 0x4000_0000_0000_0000,
    ensures
        r.sub == id,
        r.role == role,
        r.exp == expiry_of(now, minutes) as usize,
{
    let exp: i128 = match minutes {
        Some(m) => now as i128 + m as i128 * 60,
        None => now as i128 + SESSION_SECONDS as i128,
    };
    AuthClaims { sub: id, role, exp: exp as usize }
}

// ── tokens ─────────────────────────────────────────────────────────────────

/// The name a role has in a token: its variant's name.
pub open spec fn role_text(r: Role) -> Seq<char> {
    match r {
        Role::User => "User"@,
        Role::SuperAdmin => "SuperAdmin"@,
        Role::ResetAccount => "ResetAccount"@,
        Role::AwdJudger => "AwdJudger"@,
    }
}

/// The role a token's role name stands for, if any.
pub open spec fn role_of_text(s: Seq<char>) -> Option<Role> {
    if s == "User"@ {
        Some(Role::User)
    } else if s == "SuperAdmin"@ {
        Some(Role::SuperAdmin)
    } else if s == "ResetAccount"@ {
        Some(Role::ResetAccount)
    } else if s == "AwdJudger"@ {
        Some(Role::AwdJudger)
    } else {
        None
    }
}

/// A role's name in a token.
pub fn role_name(r: Role) -> (s: String)
    ensures
        s@ == role_text(r),
{
    match r {
        Role::User => String::from_str("User"),
        Role::SuperAdmin => String::from_str("SuperAdmin"),
        Role::ResetAccount => String::from_str("ResetAccount"),
        Role::AwdJudger => String::from_str("AwdJudger"),
    }
}

/// The role a name in a token stands for.
pub fn role_from_name(s: &str) -> (r: Option<Role>)
    ensures
        r == role_of_text(s@),
{
    if str_equals(s, "User") {
        Some(Role::User)
    } else if str_equals(s, "SuperAdmin") {
        Some(Role::SuperAdmin)
    } else if str_equals(s, "ResetAccount") {
        Some(Role::ResetAccount)
    } else if str_equals(s, "AwdJudger") {
        Some(Role::AwdJudger)
    } else {
        None
    }
}

proof fn lemma_role_names(r: Role)
    ensures
        role_of_text(role_text(r)) == Some(r),
{
    reveal_strlit("User");
    reveal_strlit("SuperAdmin");
    reveal_strlit("ResetAccount");
    reveal_strlit("AwdJudger");
    assert("User"@.len() == 4);
    assert("SuperAdmin"@.len() == 10);
    assert("ResetAccount"@.len() == 12);
    assert("AwdJudger"@.len() == 9);
}

/// A hexadecimal digit, in lower case.
pub open spec fn hex_digit(d: nat) -> char {
    if d < 10 {
        (d + 48) as char
    } else {
        (d + 87) as char
    }
}

/// The last `n` hexadecimal digits of `x`, most significant first.
pub open spec fn hex_digits(x: nat, n: nat) -> Seq<char>
    decreases n,
{
    if n == 0 {
        Seq::empty()
    } else {
        hex_digits(x / 16, (n - 1) as nat).push(hex_digit(x % 16))
    }
}

/// The hyphenated text of a UUID: its 32 lower-case hexadecimal digits in
/// groups of 8, 4, 4, 4 and 12.
pub open spec fn uuid_text(id: u128) -> Seq<char> {
    let h = hex_digits(id as nat, 32);
    h.subrange(0, 8) + seq!['-'] + h.subrange(8, 12) + seq!['-'] + h.subrange(12, 16) + seq!['-']
        + h.subrange(16, 20) + seq!['-'] + h.subrange(20, 32)
}

/// The UUID a text stands for, as uuid's `Uuid::parse_str` reads it (the
/// simple, hyphenated, braced and URN forms, in either case).
pub uninterp spec fn uuid_value(s: Seq<char>) -> Option<u128>;

/// The hyphenated text of a UUID (uuid's `Uuid::from_u128` and its
/// `Display`, which writes the lower-case hyphenated form).
#[verifier::external_body]
pub(crate) fn uuid_hyphenated(id: u128) -> (r: String)
    ensures
        r@ == uuid_text(id),
{
    uuid::Uuid::from_u128(id).to_string()
}

/// Reads a UUID (uuid's `Uuid::parse_str`, then `as_u128`); the forms it
/// accepts are named, not stated, but the hyphenated text of a UUID reads
/// back as that UUID.
#[verifier::external_body]
fn parse_uuid(s: &str) -> (r: Option<u128>)
    ensures
        r == uuid_value(s@),
        forall|id: u128| s@ == #[trigger] uuid_text(id) ==> r == Some(id),
{
    uuid::Uuid::parse_str(s).ok().map(|u| u.as_u128())
}

/// The token jsonwebtoken signs with HS512 under `secret` for the claims
/// object `{"exp": exp, "role": role, "sub": sub}` (the header
/// `{"typ":"JWT","alg":"HS512"}`; the object's keys in sorted order).
pub uninterp spec fn hs512_token(sub: Seq<char>, role: Seq<char>, exp: usize, secret: Seq<char>) -> Seq<char>;

/// Signs the claims `sub`, `role` and `exp` with HS512 under `secret`
/// (jsonwebtoken's `encode` with `Header::new(Algorithm::HS512)` and
/// `EncodingKey::from_secret`); a token it gives is `hs512_token` of them.
#[verifier::external_body]
fn encode_token(sub: &str, role: &str, exp: usize, secret: &str) -> (r: Result<String, String>)
    ensures
        r is Ok ==> r->Ok_0@ == hs512_token(sub@, role@, exp, secret@),
{
    let mut claims = serde_json::Map::new();
    claims.insert("sub".to_string(), serde_json::Value::from(sub));
    claims.insert("role".to_string(), serde_json::Value::from(role));
    claims.insert("exp".to_string(), serde_json::Value::from(exp));
    jsonwebtoken::encode(
        &jsonwebtoken::Header::new(jsonwebtoken::Algorithm::HS512),
        &claims,
        &jsonwebtoken::EncodingKey::from_secret(secret.as_bytes()),
    ).map_err(|e| e.to_string())
}

/// The claims read from a token whose signature and expiry were accepted:
/// `sub` and `role` when they are strings, `exp` when it is a whole number.
#[derive(Clone, Debug)]
pub struct DecodedClaims {
    pub sub: Option<String>,
    pub role: Option<String>,
    pub exp: Option<usize>,
}

/// Checks a token's HS512 signature under `secret` and reads its claims
/// (jsonwebtoken's `decode` with `Validation::new(Algorithm::HS512)`, its
/// expiry check switched off: the expiry is checked against the clock by
/// `validate_jwt`). The claims object must hold a numeric `exp`. A token
/// signed by `encode_token` under the same secret is accepted and gives back
/// the claims it was signed with.
#[verifier::external_body]
fn decode_token(token: &str, secret: &str) -> (r: Result<DecodedClaims, String>)
    ensures
        forall|sub: Seq<char>, role: Seq<char>, exp: usize|
            #[trigger] hs512_token(sub, role, exp, secret@) == token@ ==> {
                &&& r is Ok
                &&& r->Ok_0.sub is Some && r->Ok_0.sub->Some_0@ == sub
                &&& r->Ok_0.role is Some && r->Ok_0.role->Some_0@ == role
                &&& r->Ok_0.exp == Some(exp)
            },
{
    let mut validation = jsonwebtoken::Validation::new(jsonwebtoken::Algorithm::HS512);
    validation.validate_exp = false;
    let data = jsonwebtoken::decode::<serde_json::Map<String, serde_json::Value>>(
        token,
        &jsonwebtoken::DecodingKey::from_secret(secret.as_bytes()),
        &validation,
    ).map_err(|e| e.to_string())?;
    let c = data.claims;
    Ok(DecodedClaims {
        sub: c.get("sub").and_then(|v| v.as_str()).map(|s| s.to_string()),
        role: c.get("role").and_then(|v| v.as_str()).map(|s| s.to_string()),
        exp: c.get("exp").and_then(|v| v.as_u64()).map(|e| e as usize),
    })
}

/// The claims a decoded token gives: all three present, `sub` a UUID and
/// `role` the name of a role.
pub open spec fn claims_of(d: Result<DecodedClaims, String>) -> Option<AuthClaims> {
    match d {
        Ok(c) => if c.sub is Some && c.role is Some && c.exp is Some && uuid_value(
            c.sub->Some_0@,
        ) is Some && role_of_text(c.role->Some_0@) is Some {
            Some(
                AuthClaims {
                    sub: uuid_value(c.sub->Some_0@)->Some_0,
                    role: role_of_text(c.role->Some_0@)->Some_0,
                    exp: c.exp->Some_0,
                },
            )
        } else {
            None
        },
        Err(_) => None,
    }
}

/// The claims of a token, from what decoding it gave; anything else is an
/// authentication error.
pub fn claims_from_decoded(d: Result<DecodedClaims, String>) -> (r: Result<AuthClaims, UniError>)
    ensures
        match claims_of(d) {
            Some(c) => r == Ok::<AuthClaims, UniError>(c),
            None => r matches Err(UniError::AuthError),
        },
        d is Ok && d->Ok_0.sub is Some ==> forall|id: u128|
            d->Ok_0.sub->Some_0@ == #[trigger] uuid_text(id) ==> uuid_value(d->Ok_0.sub->Some_0@)
                == Some(id),
{
    match d {
        Err(_) => Err(UniError::AuthError),
        Ok(c) => match c.sub {
            None => Err(UniError::AuthError),
            Some(s) => {
                let id = parse_uuid(s.as_str());
                match (id, c.role, c.exp) {
                    (Some(sub), Some(rt), Some(exp)) => match role_from_name(rt.as_str()) {
                        Some(role) => Ok(AuthClaims { sub, role, exp }),
                        None => Err(UniError::AuthError),
                    },
                    _ => Err(UniError::AuthError),
                }
            },
        },
    }
}

/// How long after its expiry a token is still accepted (jsonwebtoken's
/// default leeway), in seconds.
pub const EXPIRY_LEEWAY: i64 = 60;

/// Whether a token that expires at `exp` is still accepted at `now`: until
/// its expiry has passed by more than the leeway.
pub open spec fn unexpired(exp: usize, now: i64) -> bool {
    exp as int >= now as int - EXPIRY_LEEWAY
}

/// The claims, when they have not expired at `now`; an expired token is an
/// authentication error.
pub fn check_expiry(c: AuthClaims, now: i64) -> (r: Result<AuthClaims, UniError>)
    ensures
        unexpired(c.exp, now) ==> r == Ok::<AuthClaims, UniError>(c),
        !unexpired(c.exp, now) ==> r matches Err(UniError::AuthError),
{
    if (c.exp as i128) < (now as i128) - (EXPIRY_LEEWAY as i128) {
        Err(UniError::AuthError)
    } else {
        Ok(c)
    }
}

/// What validating `token` under `secret` at `now` gives for a token issued
/// under that secret for a UUID, a role and an expiry: exactly those claims
/// while it has not expired, else an authentication error.
pub open spec fn validated_at(
    r: Result<AuthClaims, UniError>,
    token: Seq<char>,
    secret: Seq<char>,
    now: i64,
) -> bool {
    forall|id: u128, role: Role, exp: usize|
        #[trigger] hs512_token(uuid_text(id), role_text(role), exp, secret) == token ==> r == if unexpired(
            exp,
            now,
        ) {
            Ok::<AuthClaims, UniError>(AuthClaims { sub: id, role, exp })
        } else {
            Err::<AuthClaims, UniError>(UniError::AuthError)
        }
}

/// The claims of a token signed under `secret`, checked at `now` (seconds).
/// A token issued under the same secret for a UUID, a role and an expiry
/// validates, for every role, to exactly those claims while it has not
/// expired, and is an authentication error once it has; anything not
/// accepted is an authentication error.
pub fn validate_jwt_at(secret: &str, token: &str, now: i64) -> (r: Result<AuthClaims, UniError>)
    ensures
        r is Err ==> r->Err_0 is AuthError,
        validated_at(r, token@, secret@, now),
{
    let d = decode_token(token, secret);
    let ghost gd = d;
    let c = claims_from_decoded(d);
    let r = match c {
        Ok(claims) => check_expiry(claims, now),
        Err(e) => Err(e),
    };
    proof {
        assert forall|id: u128, role: Role, exp: usize|
            #[trigger] hs512_token(uuid_text(id), role_text(role), exp, secret@) == token@ implies r
                == if unexpired(exp, now) {
                Ok::<AuthClaims, UniError>(AuthClaims { sub: id, role, exp })
            } else {
                Err::<AuthClaims, UniError>(UniError::AuthError)
            } by {
            lemma_role_names(role);
            assert(gd is Ok);
            assert(gd->Ok_0.sub->Some_0@ == uuid_text(id));
            assert(uuid_value(gd->Ok_0.sub->Some_0@) == Some(id));
            assert(c == Ok::<AuthClaims, UniError>(AuthClaims { sub: id, role, exp }));
        }
    }
    r
}

/// The claims of a token signed under `secret`, checked at the present
/// moment. A token issued under the same secret for a UUID, a role and an
/// expiry validates to exactly those claims unless it has expired at the
/// clock's reading; one whose expiry lies beyond any reading of the clock
/// always validates, whatever its role; anything not accepted is an
/// authentication error.
pub fn validate_jwt(secret: &str, token: &str) -> (r: Result<AuthClaims, UniError>)
    ensures
        r is Err ==> r->Err_0 is AuthError,
        forall|id: u128, role: Role, exp: usize|
            #[trigger] hs512_token(uuid_text(id), role_text(role), exp, secret@) == token@ && r is Ok
                ==> r == Ok::<AuthClaims, UniError>(AuthClaims { sub: id, role, exp }),
        exists|now: i64| #[trigger] validated_at(r, token@, secret@, now),
        forall|id: u128, role: Role, exp: usize|
            #[trigger] hs512_token(uuid_text(id), role_text(role), exp, secret@) == token@ && exp
                >= i64::MAX ==> r == Ok::<AuthClaims, UniError>(AuthClaims { sub: id, role, exp }),
{
    let now = clock_seconds();
    validate_jwt_at(secret, token, now)
}

/// A token for `id` with `role`, issued at `now` (seconds) and valid for
/// `minutes` (eight hours when not given), signed under `secret`; a failure
/// of the signer gives its message.
pub fn issue_token(secret: &str, id: u128, role: Role, minutes: Option<i64>, now: i64) -> (r: Result<
    String,
    String,
>)
    requires
        minutes.is_some() ==> -153722867280912 <= minutes.unwrap() <= 153722867280912,
        -0x4000_0000_0000_0000 <= now <= 0x4000_0000_0000_0000,
    ensures
        r is Ok ==> r->Ok_0@ == hs512_token(
            uuid_text(id),
            role_text(role),
            expiry_of(now, minutes) as usize,
            secret@,
        ),
{
    let c = token_claims(id, role, minutes, now);
    let sub = uuid_hyphenated(c.sub);
    let rn = role_name(c.role);
    encode_token(sub.as_str(), rn.as_str(), c.exp, secret)
}

/// The present moment in whole seconds since the epoch (chrono's
/// `Utc::now().timestamp()`); it depends on the clock, so nothing is stated.
#[verifier::external_body]
fn clock_seconds() -> (r: i64) {
    chrono::Utc::now().timestamp()
}

/// A token for `id` with `role`, issued now and valid for `minutes` (eight
/// hours when not given), signed under `secret`. The clock lies within
/// chrono's range, so the expiry is always computed; a clock beyond it is
/// answered with chrono's message.
pub fn gen_jwt_token(secret: &str, id: u128, role: Role, minutes: Option<i64>) -> (r: Result<
    String,
    String,
>)
    requires
        minutes.is_some() ==> -153722867280912 <= minutes.unwrap() <= 153722867280912,
    ensures
        r is Ok ==> exists|now: i64|
            r->Ok_0@ == hs512_token(
                uuid_text(id),
                role_text(role),
                expiry_of(now, minutes) as usize,
                secret@,
            ),
{
    let now = clock_seconds();
    if now < -0x4000_0000_0000_0000 || now > 0x4000_0000_0000_0000 {
        return Err(String::from_str("valid timestamp"));
    }
    issue_token(secret, id, role, minutes, now)
}

/// `s` with every leading copy of `p` taken off (`str::trim_start_matches`).
pub open spec fn strip_all(s: Seq<char>, p: Seq<char>) -> Seq<char>
    decreases s.len(),
{
    if p.len() > 0 && p.len() <= s.len() && s.subrange(0, p.len() as int) == p {
        strip_all(s.subrange(p.len() as int, s.len() as int), p)
    } else {
        s
    }
}

/// The token of an `Authorization` header: `None` unless it starts with
/// `Bearer `; else what follows every leading `Bearer `, trimmed.
pub fn bearer_token(header: &str) -> (r: Option<String>)
    ensures
        r.is_some() == is_prefix("Bearer "@, header@),
        r.is_some() ==> r.unwrap()@ == trim(strip_all(header@, "Bearer "@)),
{
    let cs = chars_of(header);
    let p = chars_of("Bearer ");
    if !starts_with(&cs, &p) {
        return None;
    }
    let plen = p.len();
    let mut rest = cs;
    proof {
        reveal_strlit("Bearer ");
        assert(p@.len() == 7);
    }
    while plen <= rest.len() && starts_with(&rest, &p)
        invariant
            p@ == "Bearer "@,
            plen == p@.len(),
            plen > 0,
            strip_all(rest@, p@) == strip_all(header@, p@),
        decreases rest.len(),
    {
        proof {
            assert(rest@.subrange(0, plen as int) == p@);
        }
        let tail = rest.split_off(plen);
        rest = tail;
    }
    proof {
        if plen <= rest@.len() {
            assert(rest@.subrange(0, plen as int) != p@);
        }
    }
    let s = string_from_chars(&rest);
    Some(trimmed(s.as_str()))
}

/// User routes admit only tokens of the `User` role.
pub fn admits_user(claims: &AuthClaims) -> (r: bool)
    ensures
        r == (claims.role == Role::User),
{
    claims.role == Role::User
}

/// The user routes let a request through when it is a CORS preflight
/// (`OPTIONS`) or carries a valid token of the `User` role (`role` is the
/// role of the token, when the request has a valid one).
pub fn admit_request(is_preflight: bool, role: Option<Role>) -> (r: bool)
    ensures
        r == (is_preflight || role == Some(Role::User)),
{
    if is_preflight {
        return true;
    }
    match role {
        Some(Role::User) => true,
        _ => false,
    }
}

/// An account of a user.
#[derive(Clone, Debug)]
pub struct UserAccount {
    pub id: u128,
    pub username: String,
    pub nickname: String,
    pub email: String,
    pub avatar: Option<String>,
    pub password: String,
}

/// An account of a super admin.
#[derive(Clone, Debug)]
pub struct AdminAccount {
    pub id: u128,
    pub username: String,
    pub password: String,
}

/// The user a request's token belongs to.
pub struct UserJwtGuard(pub UserAccount);

impl UserJwtGuard {
    /// The user.
    pub fn into_inner(self) -> (r: UserAccount)
        ensures
            r == self.0,
    {
        self.0
    }
}

/// The super admin a request's token belongs to.
pub struct SuperAdminJwtGuard(pub AdminAccount);

impl SuperAdminJwtGuard {
    /// The super admin.
    pub fn into_inner(self) -> (r: AdminAccount)
        ensures
            r == self.0,
    {
        self.0
    }
}

/// The account as shown to its owner: without the password hash.
pub fn without_password(user: UserAccount) -> (r: UserAccount)
    ensures
        r.id == user.id,
        r.username == user.username,
        r.nickname == user.nickname,
        r.email == user.email,
        r.avatar == user.avatar,
        r.password@ == Seq::<char>::empty(),
{
    let mut u = user;
    u.password = String::new();
    u
}

/// The body of a user's login request.
#[derive(Clone, Debug)]
pub struct UserLoginRequest {
    pub username: String,
    pub password: String,
}

/// The body of a super admin's login request.
#[derive(Clone, Debug)]
pub struct SuperAdminLoginRequest {
    pub username: String,
    pub password: String,
}

/// The body of a registration.
#[derive(Clone, Debug)]
pub struct CreateUserRequest {
    pub username: String,
    pub nickname: String,
    pub password: String,
    pub email: String,
}

/// The body of a change of one's own account.
#[derive(Clone, Debug)]
pub struct PatchMeRequest {
    pub nickname: Option<String>,
    pub email: Option<String>,
    pub password: Option<String>,
}

/// One's own account after a change; `hashed` is the hash of the given
/// password (there is one exactly when a password is given).
pub open spec fn me_patched(u: UserAccount, p: PatchMeRequest, hashed: Option<String>) -> UserAccount {
    UserAccount {
        nickname: match p.nickname {
            Some(n) => n,
            None => u.nickname,
        },
        email: match p.email {
            Some(e) => e,
            None => u.email,
        },
        password: match hashed {
            Some(h) => h,
            None => u.password,
        },
        ..u
    }
}

impl PatchMeRequest {
    /// The account with the given fields replaced.
    pub fn apply(self, u: UserAccount, hashed: Option<String>) -> (r: UserAccount)
        requires
            self.password.is_some() == hashed.is_some(),
        ensures
            r == me_patched(u, self, hashed),
            match self.nickname {
                Some(v) => r.nickname == v,
                None => r.nickname == u.nickname,
            },
            match self.email {
                Some(v) => r.email == v,
                None => r.email == u.email,
            },
            match hashed {
                Some(v) => r.password == v,
                None => r.password == u.password,
            },
            r.id == u.id,
            r.username == u.username,
            r.avatar == u.avatar,
    {
        let mut u = u;
        if let Some(n) = self.nickname {
            u.nickname = n;
        }
        if let Some(e) = self.email {
            u.email = e;
        }
        if let Some(h) = hashed {
            u.password = h;
        }
        u
    }
}

/// The body of a request for a password reset mail.
#[derive(Clone, Debug)]
pub struct ResetPasswordRequest {
    pub email: Option<String>,
    pub username: Option<String>,
}

/// The body of a password reset.
#[derive(Clone, Debug)]
pub struct ResetPasswordOption {
    pub password: String,
    pub confirmed_password: String,
}

/// The query of a password reset: the token from the mail.
#[derive(Clone, Debug)]
pub struct TokenQuery {
    pub token: String,
}

/// Whether `s` holds only white space (or nothing).
pub open spec fn blank(s: Seq<char>) -> bool {
    trim(s).len() == 0
}

/// A text field that is missing or blank counts as missing.
pub fn none_if_empty(s: Option<String>) -> (r: Option<String>)
    ensures
        s.is_none() ==> r.is_none(),
        s.is_some() && blank(s.unwrap()@) ==> r.is_none(),
        s.is_some() && !blank(s.unwrap()@) ==> r == s,
{
    match s {
        Some(x) => {
            let t = trimmed(x.as_str());
            if t.as_str().unicode_len() == 0 {
                None
            } else {
                Some(x)
            }
        },
        None => None,
    }
}

/// How the account of a password reset is looked up.
#[derive(Clone, Debug)]
pub enum AccountLookup {
    ByEmail(String),
    ByUsername(String),
}

/// How to find the account a reset mail is asked for: by e-mail when one is
/// given (not blank), else by user name. Asking with neither is refused
/// ("Email or username is required"), as is asking with only blank ones
/// ("Email or username required").
pub fn reset_lookup(req: ResetPasswordRequest) -> (r: Result<AccountLookup, UniError>)
    ensures
        req.email.is_none() && req.username.is_none() ==> r.is_err() && is_custom(
            r->Err_0,
            "Email or username is required"@,
        ),
        req.email.is_some() && !blank(req.email.unwrap()@) ==> (r matches Ok(
            AccountLookup::ByEmail(e),
        ) && e == req.email.unwrap()),
        !(req.email.is_some() && !blank(req.email.unwrap()@)) && req.username.is_some()
            && !blank(req.username.unwrap()@) ==> (r matches Ok(AccountLookup::ByUsername(u))
            && u == req.username.unwrap()),
        !(req.email.is_none() && req.username.is_none()) && !(req.email.is_some() && !blank(
            req.email.unwrap()@,
        )) && !(req.username.is_some() && !blank(req.username.unwrap()@)) ==> r.is_err()
            && is_custom(r->Err_0, "Email or username required"@),
{
    if req.email.is_none() && req.username.is_none() {
        return Err(UniError::CustomError(String::from_str("Email or username is required")));
    }
    let email = none_if_empty(req.email);
    let username = none_if_empty(req.username);
    match (email, username) {
        (Some(e), _) => Ok(AccountLookup::ByEmail(e)),
        (_, Some(u)) => Ok(AccountLookup::ByUsername(u)),
        _ => Err(UniError::CustomError(String::from_str("Email or username required"))),
    }
}

/// The link of a reset mail.
pub fn reset_link(main_url: &str, token: &str) -> (r: String)
    ensures
        r@ == main_url@ + "/reset_password?token="@ + token@,
{
    let mut s = String::from_str(main_url);
    s.append("/reset_password?token=");
    s.append(token);
    s
}

/// A password reset goes through only when both passwords agree ("Passwords
/// do not match") and the token is a reset token ("Invalid token").
pub fn check_reset(req: &ResetPasswordOption, claims: &AuthClaims) -> (r: Result<(), UniError>)
    ensures
        req.password@ != req.confirmed_password@ ==> r.is_err() && is_custom(
            r->Err_0,
            "Passwords do not match"@,
        ),
        req.password@ == req.confirmed_password@ && claims.role != Role::ResetAccount ==> r.is_err()
            && is_custom(r->Err_0, "Invalid token"@),
        req.password@ == req.confirmed_password@ && claims.role == Role::ResetAccount ==> r.is_ok(),
{
    if req.password != req.confirmed_password {
        return Err(UniError::CustomError(String::from_str("Passwords do not match")));
    }
    if claims.role != Role::ResetAccount {
        return Err(UniError::CustomError(String::from_str("Invalid token")));
    }
    Ok(())
}

/// What checking a password against a stored Argon2 hash gives: whether it
/// matches, or the message of a stored hash that cannot be read.
pub uninterp spec fn argon2_check(password: Seq<char>, stored: Seq<char>) -> Result<bool, Seq<char>>;

/// Checks a password against a stored hash (argon2's `PasswordHash::new` on
/// the stored text, then `Argon2::default().verify_password`); the outcome is
/// named, not stated.
#[verifier::external_body]
fn argon2_matches(password: &str, stored: &str) -> (r: Result<bool, String>)
    ensures
        match r {
            Ok(b) => argon2_check(password@, stored@) == Ok::<bool, Seq<char>>(b),
            Err(m) => argon2_check(password@, stored@) == Err::<bool, Seq<char>>(m@),
        },
{
    match argon2::PasswordHash::new(stored) {
        Ok(h) => Ok(argon2::Argon2::default().verify_password(password.as_bytes(), &h).is_ok()),
        Err(e) => Err(e.to_string()),
    }
}

/// Hashes a new password with Argon2's defaults and a random salt (argon2's
/// `SaltString::encode_b64` over the sixteen random bytes of uuid's
/// `Uuid::new_v4`, then `PasswordHasher::hash_password`, written in the PHC
/// string format). The hash itself depends on the salt, so it is not
/// stated; what is stated is what argon2 promises of it: checking the same
/// password against it succeeds.
#[verifier::external_body]
fn hash_password(password: &str) -> (r: Result<String, String>)
    ensures
        match r {
            Ok(h) => argon2_check(password@, h@) == Ok::<bool, Seq<char>>(true),
            Err(_) => true,
        },
{
    let salt = argon2::password_hash::SaltString::encode_b64(uuid::Uuid::new_v4().as_bytes())
        .map_err(|e| e.to_string())?;
    argon2::Argon2::default().hash_password(password.as_bytes(), &salt).map(|h| h.to_string()).map_err(
        |e| e.to_string(),
    )
}

/// The stored form of a new password (on registration, a change of one's
/// account, a reset); a failure of the hasher is answered with its message.
pub fn new_password_hash(password: &str) -> (r: Result<String, UniError>)
    ensures
        match r {
            Ok(h) => login_accepts(password@, Some(h@)),
            Err(e) => e is CustomError,
        },
{
    match hash_password(password) {
        Ok(h) => Ok(h),
        Err(m) => Err(UniError::CustomError(m)),
    }
}

/// The answer to a login, given the stored hash of the account (if one has
/// the name) and what checking the password against it gave.
pub fn login_verdict(found: bool, check: Result<bool, String>) -> (r: Result<(), UniError>)
    ensures
        !found ==> r matches Err(UniError::AuthError),
        found && check == Ok::<bool, String>(true) ==> r.is_ok(),
        found && check == Ok::<bool, String>(false) ==> (r matches Err(UniError::AuthError)),
        found && check is Err ==> (r matches Err(UniError::InternalError(m)) && m@
            == "Failed to new the PasswordHash: "@ + check->Err_0@),
{
    if !found {
        return Err(UniError::AuthError);
    }
    match check {
        Ok(true) => Ok(()),
        Ok(false) => Err(UniError::AuthError),
        Err(m) => {
            let mut s = String::from_str("Failed to new the PasswordHash: ");
            s.append(m.as_str());
            Err(UniError::InternalError(s))
        },
    }
}

/// Logging in with `password` to an account whose stored hash is `stored`
/// (`None` when no account has the name).
pub fn check_login(password: &str, stored: &Option<String>) -> (r: Result<(), UniError>)
    ensures
        stored.is_none() ==> r matches Err(UniError::AuthError),
        stored.is_some() ==> match argon2_check(password@, stored.unwrap()@) {
            Ok(true) => r.is_ok(),
            Ok(false) => r matches Err(UniError::AuthError),
            Err(m) => (r matches Err(UniError::InternalError(x)) && x@
                == "Failed to new the PasswordHash: "@ + m),
        },
{
    match stored {
        None => login_verdict(false, Ok(false)),
        Some(h) => {
            let c = argon2_matches(password, h.as_str());
            login_verdict(true, c)
        },
    }
}

/// Logging a user in at `now` (seconds) with `password`: `account` is the id
/// and stored hash of the user with the given name, if there is one. An
/// unknown name and a wrong password give the same authentication error; on
/// success the answer is a token of the `User` role for the user, valid for
/// eight hours and signed under `secret`; a failure of the signer is answered
/// with its message.
pub fn user_login(password: &str, account: &Option<(u128, String)>, secret: &str, now: i64) -> (r:
    Result<String, UniError>)
    requires
        -0x4000_0000_0000_0000 <= now <= 0x4000_0000_0000_0000,
    ensures
        account.is_none() ==> r matches Err(UniError::AuthError),
        account.is_some() ==> match argon2_check(password@, account.unwrap().1@) {
            Ok(true) => match r {
                Ok(t) => t@ == hs512_token(
                    uuid_text(account.unwrap().0),
                    role_text(Role::User),
                    expiry_of(now, None) as usize,
                    secret@,
                ),
                Err(e) => e is CustomError,
            },
            Ok(false) => r matches Err(UniError::AuthError),
            Err(m) => (r matches Err(UniError::InternalError(x)) && x@
                == "Failed to new the PasswordHash: "@ + m),
        },
{
    match account {
        None => Err(UniError::AuthError),
        Some((id, stored)) => {
            let c = argon2_matches(password, stored.as_str());
            match login_verdict(true, c) {
                Err(e) => Err(e),
                Ok(()) => match issue_token(secret, *id, Role::User, None, now) {
                    Ok(t) => Ok(t),
                    Err(m) => Err(UniError::CustomError(m)),
                },
            }
        },
    }
}

/// An account whose stored hash was made from a password accepts that
/// password at login.
pub proof fn lemma_hashed_password_logs_in(password: Seq<char>, stored: Seq<char>)
    requires
        argon2_check(password, stored) == Ok::<bool, Seq<char>>(true),
    ensures
        login_accepts(password, Some(stored)),
{
}

/// Whether a login with `password` succeeds against the stored hash (`None`
/// when no account has the name).
pub open spec fn login_accepts(password: Seq<char>, stored: Option<Seq<char>>) -> bool {
    match stored {
        Some(h) => argon2_check(password, h) == Ok::<bool, Seq<char>>(true),
        None => false,
    }
}

} // verus!
