use kz_api::auth::{
    check_token_header, login_claims, protected_permissions, server_from_lookup, steam_user_id, user_from_claims,
    user_guard, AuthError, Claims, Permission, Server, TokenHeader, User, SESSION_TTL_SECS,
    STEAMID64_BASE,
};

const SECRET: &[u8] = b"0123456789abcdef0123456789abcdef";

fn claims_json(c: &Claims) -> serde_json::Value {
    let mut m = serde_json::Map::new();
    m.insert("user_id".to_string(), serde_json::Value::from(c.user_id));
    let perms: Vec<serde_json::Value> = c
        .permissions
        .iter()
        .map(|p| match p {
            Permission::ViewBans => serde_json::Value::from("ViewBans"),
            Permission::ViewMaps => serde_json::Value::from("ViewMaps"),
        })
        .collect();
    m.insert("permissions".to_string(), serde_json::Value::Array(perms));
    m.insert("exp".to_string(), serde_json::Value::from(c.exp));
    serde_json::Value::Object(m)
}

fn claims_from_json(v: &serde_json::Value) -> Option<Claims> {
    let user_id = v.get("user_id")?.as_u64()?;
    let exp = v.get("exp")?.as_i64()?;
    let mut permissions = Vec::new();
    for p in v.get("permissions")?.as_array()? {
        permissions.push(match p.as_str()? {
            "ViewBans" => Permission::ViewBans,
            "ViewMaps" => Permission::ViewMaps,
            _ => return None,
        });
    }
    Some(Claims { user_id, permissions, exp })
}

fn encode(c: &Claims, secret: &[u8]) -> String {
    jsonwebtoken::encode(
        &jsonwebtoken::Header::default(),
        &claims_json(c),
        &jsonwebtoken::EncodingKey::from_secret(secret),
    )
    .unwrap()
}

fn decode(token: &str, secret: &[u8]) -> Option<Claims> {
    let data = jsonwebtoken::decode::<serde_json::Value>(
        token,
        &jsonwebtoken::DecodingKey::from_secret(secret),
        &jsonwebtoken::Validation::default(),
    )
    .ok()?;
    claims_from_json(&data.claims)
}

fn now() -> i64 {
    chrono::Utc::now().timestamp()
}

#[test]
fn steam_id_maps_to_account_number() {
    assert_eq!(steam_user_id(76561198000000001), Ok(39734273));
    assert_eq!(steam_user_id(STEAMID64_BASE + 1), Ok(1));
    assert_eq!(steam_user_id(u64::MAX), Ok(u64::MAX - STEAMID64_BASE));
}

#[test]
fn steam_id_at_or_below_base_is_refused() {
    assert_eq!(steam_user_id(STEAMID64_BASE), Err(AuthError::InvalidSteamId));
    assert_eq!(steam_user_id(0), Err(AuthError::InvalidSteamId));
    assert_eq!(AuthError::InvalidSteamId.status(), 500);
}

#[test]
fn login_issues_empty_permissions_for_two_hours() {
    let c = login_claims(76561198000000001, 1_000).unwrap();
    assert_eq!(c.user_id, 39734273);
    assert!(c.permissions.is_empty());
    assert_eq!(c.exp, 1_000 + 7200);
    assert_eq!(SESSION_TTL_SECS, 7200);
    assert_eq!(login_claims(5, 1_000), Err(AuthError::InvalidSteamId));
}

#[test]
fn token_round_trip_keeps_claims() {
    let t = now();
    let c = Claims::new(42, vec![Permission::ViewMaps, Permission::ViewBans], t, 3600);
    let token = encode(&c, SECRET);
    assert_eq!(decode(&token, SECRET), Some(c.clone()));
    let user = user_from_claims(decode(&token, SECRET), t).unwrap();
    assert_eq!(user.id(), 42);
    assert_eq!(user.permissions(), &vec![Permission::ViewMaps, Permission::ViewBans]);
}

#[test]
fn token_with_other_key_fails() {
    let t = now();
    let c = Claims::new(42, Vec::new(), t, 3600);
    let token = encode(&c, SECRET);
    let other = decode(&token, b"ffffffffffffffffffffffffffffffff");
    assert_eq!(other, None);
    assert_eq!(user_from_claims(other, t), Err(AuthError::UserTokenInvalid));
}

#[test]
fn expired_claims_fail() {
    let c = Claims { user_id: 1, permissions: Vec::new(), exp: 100 };
    assert!(!c.is_valid_at(100));
    assert!(!c.is_valid_at(101));
    assert!(c.is_valid_at(99));
    assert_eq!(user_from_claims(Some(c.clone()), 100), Err(AuthError::UserTokenInvalid));
    assert_eq!(user_from_claims(Some(c), 250), Err(AuthError::UserTokenInvalid));
}

#[test]
fn garbage_token_is_invalid() {
    assert_eq!(check_token_header(Some(b"garbage"), TokenHeader::User), Ok(()));
    let r = user_from_claims(decode("garbage", SECRET), now());
    assert_eq!(r, Err(AuthError::UserTokenInvalid));
    let e = r.unwrap_err();
    assert_eq!(e.status(), 401);
    assert_eq!(e.message(), "X-User-Token is invalid");
}

#[test]
fn missing_header_is_bad_request() {
    let e = check_token_header(None, TokenHeader::User).unwrap_err();
    assert_eq!(e, AuthError::UserTokenMissing);
    assert_eq!(e.status(), 400);
    assert_eq!(e.message(), "X-User-Token header missing");
    let s = check_token_header(None, TokenHeader::Server).unwrap_err();
    assert_eq!(s, AuthError::ServerTokenMissing);
    assert_eq!(s.message(), "X-Server-Token header missing");
}

#[test]
fn non_ascii_header_is_bad_request() {
    let u = check_token_header(Some("tök".as_bytes()), TokenHeader::User).unwrap_err();
    assert_eq!(u, AuthError::UserTokenNotAscii);
    assert_eq!(u.status(), 400);
    assert_eq!(u.message(), "X-User-Token must be ASCII");
    let s = check_token_header(Some(&[b'a', 0x7f]), TokenHeader::Server).unwrap_err();
    assert_eq!(s, AuthError::ServerTokenNotAscii);
    assert_eq!(check_token_header(Some(b"a\tb ~"), TokenHeader::Server), Ok(()));
}

#[test]
fn fresh_login_token_is_forbidden_on_protected() {
    let t = now();
    let c = login_claims(76561198000000001, t).unwrap();
    let token = encode(&c, SECRET);
    let user = user_from_claims(decode(&token, SECRET), t).unwrap();
    assert_eq!(user.id(), 39734273);
    let guard = user_guard(user.has_permission(Permission::ViewBans));
    assert_eq!(guard, Err(AuthError::Forbidden));
    assert_eq!(AuthError::Forbidden.status(), 403);
    assert_eq!(AuthError::Forbidden.message(), "forbidden");
}

#[test]
fn user_permissions_are_queried() {
    let u = User::new(9, vec![Permission::ViewBans]);
    assert_eq!(u.id(), 9);
    assert!(u.has_permission(Permission::ViewBans));
    assert!(!u.has_permission(Permission::ViewMaps));
    assert_eq!(user_guard(true), Ok(()));
}

#[test]
fn server_lookup_outcomes() {
    assert_eq!(server_from_lookup(Ok(Some(17))).map(|s| s.id()), Ok(17));
    assert_eq!(server_from_lookup(Ok(None)), Err(AuthError::ServerTokenInvalid));
    assert_eq!(AuthError::ServerTokenInvalid.status(), 401);
    assert_eq!(server_from_lookup(Err("gone".to_string())), Err(AuthError::ServerLookupFailed));
    assert_eq!(AuthError::ServerLookupFailed.status(), 500);
    assert_eq!(Server::new(3).id(), 3);
}

#[test]
fn protected_route_answers_permissions_or_forbidden() {
    let allowed = User::new(5, vec![Permission::ViewMaps, Permission::ViewBans]);
    assert_eq!(
        protected_permissions(&allowed),
        Ok(vec![Permission::ViewMaps, Permission::ViewBans])
    );
    let denied = User::new(6, vec![Permission::ViewMaps]);
    assert_eq!(protected_permissions(&denied), Err(AuthError::Forbidden));
    assert_eq!(protected_permissions(&User::new(7, Vec::new())), Err(AuthError::Forbidden));
}
