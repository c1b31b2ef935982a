use vstd::prelude::*;

verus! {

/// Base of Valve's individual-account namespace for 64-bit Steam identifiers.
pub const STEAMID64_BASE: u64 = 76561197960265728;

/// How long a session token stays valid, in seconds.
pub const SESSION_TTL_SECS: i64 = 7200;

/// Errors of the identity layer.
#[derive(Debug, PartialEq, Eq, Structural, Clone, Copy)]
pub enum AuthError {
    UserTokenMissing,
    UserTokenNotAscii,
    UserTokenInvalid,
    ServerTokenMissing,
    ServerTokenNotAscii,
    ServerTokenInvalid,
    ServerLookupFailed,
    Forbidden,
    VerificationFailed,
    InvalidSteamId,
    TokenEncodingFailed,
}

impl AuthError {
    pub open spec fn status_spec(self) -> u16 {
        match self {
            AuthError::UserTokenMissing | AuthError::UserTokenNotAscii
            | AuthError::ServerTokenMissing | AuthError::ServerTokenNotAscii => 400,
            AuthError::UserTokenInvalid | AuthError::ServerTokenInvalid
            | AuthError::VerificationFailed => 401,
            AuthError::Forbidden => 403,
            AuthError::ServerLookupFailed | AuthError::InvalidSteamId
            | AuthError::TokenEncodingFailed => 500,
        }
    }

    /// The HTTP status that answers this error.
    pub fn status(&self) -> (r: u16)
        ensures
            r == self.status_spec(),
    {
        match self {
            AuthError::UserTokenMissing | AuthError::UserTokenNotAscii
            | AuthError::ServerTokenMissing | AuthError::ServerTokenNotAscii => 400,
            AuthError::UserTokenInvalid | AuthError::ServerTokenInvalid
            | AuthError::VerificationFailed => 401,
            AuthError::Forbidden => 403,
            AuthError::ServerLookupFailed | AuthError::InvalidSteamId
            | AuthError::TokenEncodingFailed => 500,
        }
    }

    pub open spec fn message_spec(self) -> Seq<char> {
        match self {
            AuthError::UserTokenMissing => "X-User-Token header missing"@,
            AuthError::UserTokenNotAscii => "X-User-Token must be ASCII"@,
            AuthError::UserTokenInvalid => "X-User-Token is invalid"@,
            AuthError::ServerTokenMissing => "X-Server-Token header missing"@,
            AuthError::ServerTokenNotAscii => "X-Server-Token must be ASCII"@,
            AuthError::ServerTokenInvalid => "X-Server-Token is invalid"@,
            AuthError::ServerLookupFailed => ""@,
            AuthError::Forbidden => "forbidden"@,
            AuthError::VerificationFailed => "Verification failed"@,
            AuthError::InvalidSteamId => "Invalid Steam identifier"@,
            AuthError::TokenEncodingFailed => "Failed to encode token"@,
        }
    }

    /// The response body that goes with the status.
    pub fn message(&self) -> (r: &'static str)
        ensures
            r@ == self.message_spec(),
    {
        match self {
            AuthError::UserTokenMissing => "X-User-Token header missing",
            AuthError::UserTokenNotAscii => "X-User-Token must be ASCII",
            AuthError::UserTokenInvalid => "X-User-Token is invalid",
            AuthError::ServerTokenMissing => "X-Server-Token header missing",
            AuthError::ServerTokenNotAscii => "X-Server-Token must be ASCII",
            AuthError::ServerTokenInvalid => "X-Server-Token is invalid",
            AuthError::ServerLookupFailed => "",
            AuthError::Forbidden => "forbidden",
            AuthError::VerificationFailed => "Verification failed",
            AuthError::InvalidSteamId => "Invalid Steam identifier",
            AuthError::TokenEncodingFailed => "Failed to encode token",
        }
    }
}

/// What an authenticated user may do.
#[derive(Debug, PartialEq, Eq, Structural, Clone, Copy)]
pub enum Permission {
    ViewBans,
    ViewMaps,
}

/// An authenticated user: an account number and its permissions.
#[derive(Debug, PartialEq, Eq, Clone)]
pub struct User {
    id: u64,
    permissions: Vec<Permission>,
}

impl User {
    pub closed spec fn id_spec(&self) -> u64 {
        self.id
    }

    pub closed spec fn permissions_spec(&self) -> Seq<Permission> {
        self.permissions@
    }

    pub fn new(id: u64, permissions: Vec<Permission>) -> (r: User)
        ensures
            r.id_spec() == id,
            r.permissions_spec() == permissions@,
    {
        User { id, permissions }
    }

    pub fn id(&self) -> (r: u64)
        ensures
            r == self.id_spec(),
    {
        self.id
    }

    pub fn permissions(&self) -> (r: &Vec<Permission>)
        ensures
            r@ == self.permissions_spec(),
    {
        &self.permissions
    }

    /// Whether the user holds `p`.
    pub fn has_permission(&self, p: Permission) -> (r: bool)
        ensures
            r == self.permissions_spec().contains(p),
    {
        let mut i: usize = 0;
        while i < self.permissions.len()
            invariant
                i <= self.permissions@.len(),
                forall|j: int| 0 <= j < i ==> #[trigger] self.permissions@[j] != p,
            decreases self.permissions@.len() - i,
        {
            if self.permissions[i] == p {
                return true;
            }
            i = i + 1;
        }
        false
    }
}

/// An authenticated game server.
#[derive(Debug, PartialEq, Eq, Structural, Clone, Copy)]
pub struct Server {
    id: u32,
}

impl Server {
    pub closed spec fn id_spec(&self) -> u32 {
        self.id
    }

    pub fn new(id: u32) -> (r: Server)
        ensures
            r.id_spec() == id,
    {
        Server { id }
    }

    pub fn id(&self) -> (r: u32)
        ensures
            r == self.id_spec(),
    {
        self.id
    }
}

/// The claims carried inside a session token; `exp` is in Unix seconds.
#[derive(Debug, PartialEq, Eq, Clone)]
pub struct Claims {
    pub user_id: u64,
    pub permissions: Vec<Permission>,
    pub exp: i64,
}

impl Claims {
    /// Claims for `user_id` that expire `valid_for` seconds after `now`.
    pub fn new(user_id: u64, permissions: Vec<Permission>, now: i64, valid_for: i64) -> (r: Claims)
        requires
            i64::MIN <= now + valid_for <= i64::MAX,
        ensures
            r.user_id == user_id,
            r.permissions == permissions,
            r.exp == now + valid_for,
    {
        Claims { user_id, permissions, exp: now + valid_for }
    }

    /// Whether the claims have not yet expired at `now`.
    pub fn is_valid_at(&self, now: i64) -> (r: bool)
        ensures
            r == (self.exp > now),
    {
        self.exp > now
    }
}

/// Converts a 64-bit Steam identifier into the compact account number.
pub fn steam_user_id(steamid64: u64) -> (r: Result<u64, AuthError>)
    ensures
        steamid64 <= STEAMID64_BASE ==> r == Err::<u64, AuthError>(AuthError::InvalidSteamId),
        steamid64 > STEAMID64_BASE ==> r == Ok::<u64, AuthError>(
            (steamid64 - STEAMID64_BASE) as u64,
        ),
{
    if steamid64 <= STEAMID64_BASE {
        Err(AuthError::InvalidSteamId)
    } else {
        Ok(steamid64 - STEAMID64_BASE)
    }
}

/// Every identifier above the base maps to a nonzero account number that fits
/// in 64 bits, namely the difference.
pub proof fn lemma_steam_user_id_fits(steamid64: u64)
    requires
        steamid64 > STEAMID64_BASE,
    ensures
        0 < steamid64 - STEAMID64_BASE <= u64::MAX,
{
}

/// The claims issued after a successful Steam login at `now`: the account
/// number, no permissions, valid for `SESSION_TTL_SECS`.
pub fn login_claims(steamid64: u64, now: i64) -> (r: Result<Claims, AuthError>)
    requires
        now <= i64::MAX - SESSION_TTL_SECS,
    ensures
        steamid64 <= STEAMID64_BASE ==> r == Err::<Claims, AuthError>(AuthError::InvalidSteamId),
        steamid64 > STEAMID64_BASE ==> (r matches Ok(c) && c.user_id == steamid64
            - STEAMID64_BASE && c.permissions@.len() == 0 && c.exp == now + SESSION_TTL_SECS),
{
    match steam_user_id(steamid64) {
        Ok(user_id) => Ok(Claims::new(user_id, Vec::new(), now, SESSION_TTL_SECS)),
        Err(e) => Err(e),
    }
}

/// Which authentication header a token was read from.
#[derive(Debug, PartialEq, Eq, Structural, Clone, Copy)]
pub enum TokenHeader {
    User,
    Server,
}

/// A byte that may stand in a header value read as text: visible ASCII or tab.
pub open spec fn is_visible_ascii(b: u8) -> bool {
    (32 <= b && b < 127) || b == 9
}

/// Whether every byte of `v` is visible ASCII or tab.
pub open spec fn is_visible_text(v: Seq<u8>) -> bool {
    forall|i: int| 0 <= i < v.len() ==> is_visible_ascii(#[trigger] v[i])
}

pub open spec fn missing_error(header: TokenHeader) -> AuthError {
    match header {
        TokenHeader::User => AuthError::UserTokenMissing,
        TokenHeader::Server => AuthError::ServerTokenMissing,
    }
}

pub open spec fn not_ascii_error(header: TokenHeader) -> AuthError {
    match header {
        TokenHeader::User => AuthError::UserTokenNotAscii,
        TokenHeader::Server => AuthError::ServerTokenNotAscii,
    }
}

/// Checks the raw value of an authentication header: it must be present and
/// hold visible ASCII only.
pub fn check_token_header(value: Option<&[u8]>, header: TokenHeader) -> (r: Result<(), AuthError>)
    ensures
        value is None ==> r == Err::<(), AuthError>(missing_error(header)),
        value matches Some(v) ==> (is_visible_text(v@) ==> r == Ok::<(), AuthError>(())),
        value matches Some(v) ==> (!is_visible_text(v@) ==> r == Err::<(), AuthError>(
            not_ascii_error(header),
        )),
{
    match value {
        None => match header {
            TokenHeader::User => Err(AuthError::UserTokenMissing),
            TokenHeader::Server => Err(AuthError::ServerTokenMissing),
        },
        Some(v) => {
            let mut i: usize = 0;
            while i < v.len()
                invariant
                    value == Some(v),
                    i <= v@.len(),
                    forall|j: int| 0 <= j < i ==> is_visible_ascii(#[trigger] v@[j]),
                decreases v@.len() - i,
            {
                let b = v[i];
                if !((32 <= b && b < 127) || b == 9) {
                    assert(!is_visible_ascii(v@[i as int]));
                    return match header {
                        TokenHeader::User => Err(AuthError::UserTokenNotAscii),
                        TokenHeader::Server => Err(AuthError::ServerTokenNotAscii),
                    };
                }
                i = i + 1;
            }
            Ok(())
        },
    }
}

/// The user that a decoded session token stands for at `now`: none when the
/// token did not decode, or when its claims expire at or before `now`.
pub fn user_from_claims(claims: Option<Claims>, now: i64) -> (r: Result<User, AuthError>)
    ensures
        claims is None ==> r == Err::<User, AuthError>(AuthError::UserTokenInvalid),
        claims matches Some(c) ==> (c.exp <= now ==> r == Err::<User, AuthError>(
            AuthError::UserTokenInvalid,
        )),
        claims matches Some(c) ==> (c.exp > now ==> (r matches Ok(u) && u.id_spec() == c.user_id
            && u.permissions_spec() == c.permissions@)),
{
    match claims {
        None => Err(AuthError::UserTokenInvalid),
        Some(c) => {
            if c.is_valid_at(now) {
                Ok(User::new(c.user_id, c.permissions))
            } else {
                Err(AuthError::UserTokenInvalid)
            }
        },
    }
}

/// The server that a token lookup found: the lookup failed, found no row, or
/// found the server's id.
pub fn server_from_lookup(found: Result<Option<u32>, String>) -> (r: Result<Server, AuthError>)
    ensures
        found is Err ==> r == Err::<Server, AuthError>(AuthError::ServerLookupFailed),
        found == Ok::<Option<u32>, String>(None) ==> r == Err::<Server, AuthError>(
            AuthError::ServerTokenInvalid,
        ),
        found matches Ok(Some(id)) ==> (r matches Ok(s) && s.id_spec() == id),
{
    match found {
        Err(_) => Err(AuthError::ServerLookupFailed),
        Ok(None) => Err(AuthError::ServerTokenInvalid),
        Ok(Some(id)) => Ok(Server::new(id)),
    }
}

/// Lets a request through when `condition` holds, and refuses it otherwise.
pub fn user_guard(condition: bool) -> (r: Result<(), AuthError>)
    ensures
        condition ==> r == Ok::<(), AuthError>(()),
        !condition ==> r == Err::<(), AuthError>(AuthError::Forbidden),
{
    if condition {
        Ok(())
    } else {
        Err(AuthError::Forbidden)
    }
}

/// The answer of the route guarded by `ViewBans`: the user's permissions when
/// the user holds it, `Forbidden` otherwise.
pub fn protected_permissions(user: &User) -> (r: Result<Vec<Permission>, AuthError>)
    ensures
        user.permissions_spec().contains(Permission::ViewBans) ==> (r matches Ok(ps) && ps@
            == user.permissions_spec()),
        !user.permissions_spec().contains(Permission::ViewBans) ==> r == Err::<
            Vec<Permission>,
            AuthError,
        >(AuthError::Forbidden),
{
    match user_guard(user.has_permission(Permission::ViewBans)) {
        Err(e) => Err(e),
        Ok(()) => {
            let held = user.permissions();
            let mut out: Vec<Permission> = Vec::new();
            let mut i: usize = 0;
            while i < held.len()
                invariant
                    i <= held@.len(),
                    out@ == held@.subrange(0, i as int),
                decreases held@.len() - i,
            {
                out.push(held[i]);
                i = i + 1;
                assert(held@.subrange(0, i as int) == held@.subrange(0, i - 1).push(held@[i - 1]));
            }
            assert(held@.subrange(0, held@.len() as int) == held@);
            Ok(out)
        },
    }
}

} // verus!
