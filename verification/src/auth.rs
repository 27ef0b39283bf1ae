//! The scoped token hierarchy.
//!
//! Four capability-scoped token kinds, each a signed, stateless claim set:
//! the operator's admin token mints device codes and user tokens; a device
//! token identifies one physical device; a user token is the short-lived
//! session credential gating all document operations; a file access token
//! grants exactly one blob operation. Validation of every kind checks the
//! signature and a kind-specific subject marker, so one kind never validates
//! as another; only user and file access tokens enforce expiry.

use vstd::prelude::*;
use crate::config::ServerConfig;
use crate::USER_TOKEN_EXPIRATION;
use jsonwebtoken::{Algorithm, DecodingKey, EncodingKey, Header, Validation};
use serde_json::Value;

verus! {

// ---------------------------------------------------------------------------
// Signed claim sets
// ---------------------------------------------------------------------------

/// Mathematical model of a full claim set.
#[verifier::ext_equal]
pub struct JwtClaimsModel {
    pub sub: Seq<char>,
    pub device_id: Seq<char>,
    pub device_desc: Seq<char>,
    pub exp: u64,
    pub file_id: Seq<char>,
    pub file_version: i64,
}

/// The full claim set a token carries. Fields a kind does not use stay at
/// their default.
pub struct JwtClaims {
    pub sub: String,
    pub device_id: String,
    pub device_desc: String,
    pub exp: u64,
    pub file_id: String,
    pub file_version: i64,
}

impl View for JwtClaims {
    type V = JwtClaimsModel;

    open spec fn view(&self) -> JwtClaimsModel {
        JwtClaimsModel {
            sub: self.sub@,
            device_id: self.device_id@,
            device_desc: self.device_desc@,
            exp: self.exp,
            file_id: self.file_id@,
            file_version: self.file_version,
        }
    }
}

/// The signed token that a claim set and a key produce. Signing is
/// deterministic: the same claims and key always give the same token.
pub uninterp spec fn jwt_of(
    sub: Seq<char>,
    device_id: Seq<char>,
    device_desc: Seq<char>,
    exp: u64,
    file_id: Seq<char>,
    file_version: i64,
    key: Seq<u8>,
) -> Seq<char>;

/// The signed token of a whole claim set.
pub open spec fn jwt_of_model(c: JwtClaimsModel, key: Seq<u8>) -> Seq<char> {
    jwt_of(c.sub, c.device_id, c.device_desc, c.exp, c.file_id, c.file_version, key)
}

/// Relies on jsonwebtoken::encode with the default HS256 header: serializes
/// the claim set to a canonical JSON object and signs it over the key; the
/// result is a function of the claims and the key alone.
#[verifier::external_body]
fn jwt_encode(c: &JwtClaims, key: &Vec<u8>) -> (r: String)
    ensures
        r@ == jwt_of_model(c@, key@),
{
    let mut m = serde_json::Map::new();
    m.insert("sub".to_owned(), Value::String(c.sub.clone()));
    m.insert("device-id".to_owned(), Value::String(c.device_id.clone()));
    m.insert("device-desc".to_owned(), Value::String(c.device_desc.clone()));
    m.insert("exp".to_owned(), Value::from(c.exp));
    m.insert("file-id".to_owned(), Value::String(c.file_id.clone()));
    m.insert("file-version".to_owned(), Value::from(c.file_version));
    jsonwebtoken::encode(&Header::default(), &Value::Object(m), &EncodingKey::from_secret(key))
        .expect("HS256 signing of a JSON object cannot fail")
}

/// Relies on jsonwebtoken::decode with HS256: verifies the signature over
/// the key and hands the embedded claims back, so a token that
/// jsonwebtoken::encode built from a claim set and this key decodes to that
/// claim set, and a token that fails to decode was built by nothing that
/// encodes over this key. Expiry is deliberately not checked here; callers
/// check it against their own clock.
#[verifier::external_body]
fn jwt_decode(token: &str, key: &Vec<u8>) -> (r: Option<JwtClaims>)
    ensures
        r matches Option::Some(c) ==> forall|sub: Seq<char>, did: Seq<char>, ddesc: Seq<char>, exp: u64, fid: Seq<char>, fver: i64|
            token@ == jwt_of(sub, did, ddesc, exp, fid, fver, key@)
                ==> c.sub@ == sub && c.device_id@ == did && c.device_desc@ == ddesc
                    && c.exp == exp && c.file_id@ == fid && c.file_version == fver,
        r is None ==> forall|sub: Seq<char>, did: Seq<char>, ddesc: Seq<char>, exp: u64, fid: Seq<char>, fver: i64|
            token@ != jwt_of(sub, did, ddesc, exp, fid, fver, key@),
{
    let mut v = Validation::new(Algorithm::HS256);
    v.validate_exp = false;
    v.required_spec_claims.clear();
    let c = jsonwebtoken::decode::<Value>(token, &DecodingKey::from_secret(key), &v).ok()?.claims;
    let s = |k: &str| c.get(k).and_then(Value::as_str).unwrap_or("").to_owned();
    Some(JwtClaims {
        sub: s("sub"),
        device_id: s("device-id"),
        device_desc: s("device-desc"),
        exp: c.get("exp").and_then(Value::as_u64).unwrap_or(0),
        file_id: s("file-id"),
        file_version: c.get("file-version").and_then(Value::as_i64).unwrap_or(0),
    })
}

// ---------------------------------------------------------------------------
// Subject markers
// ---------------------------------------------------------------------------

/// The admin token's subject marker.
pub open spec fn admin_sub_spec() -> Seq<char> {
    "Admin Token"@
}

/// The device token's subject marker.
pub open spec fn device_sub_spec() -> Seq<char> {
    "rM Device Token"@
}

/// The user token's subject marker.
pub open spec fn user_sub_spec() -> Seq<char> {
    "rM User Token"@
}

/// The file access token's subject marker.
pub open spec fn file_sub_spec() -> Seq<char> {
    "rM File Access Token"@
}

/// Law: the four subject markers are pairwise distinct, so a token of one
/// kind can never carry another kind's marker.
pub proof fn lemma_subject_markers_distinct()
    ensures
        admin_sub_spec() != device_sub_spec(),
        admin_sub_spec() != user_sub_spec(),
        admin_sub_spec() != file_sub_spec(),
        device_sub_spec() != user_sub_spec(),
        device_sub_spec() != file_sub_spec(),
        user_sub_spec() != file_sub_spec(),
{
    reveal_strlit("Admin Token");
    reveal_strlit("rM Device Token");
    reveal_strlit("rM User Token");
    reveal_strlit("rM File Access Token");
    assert(admin_sub_spec().len() == 11);
    assert(device_sub_spec().len() == 15);
    assert(user_sub_spec().len() == 13);
    assert(file_sub_spec().len() == 20);
}

// ---------------------------------------------------------------------------
// Errors
// ---------------------------------------------------------------------------

/// Why token validation fails. Authentication failures are surfaced as
/// unauthorized and never retried.
#[derive(Clone, Copy, PartialEq, Eq, Structural, Debug)]
pub enum AuthError {
    /// No authorization header was presented.
    MissingHeader,
    /// The authorization header does not use the bearer scheme.
    NotBearer,
    /// The token's signature or encoding does not check out.
    BadToken,
    /// The token is valid but of another kind than expected.
    KindMismatch,
    /// The token's kind is right but its lifetime is over.
    Expired,
}

impl AuthError {
    /// A human-readable reason, surfaced with the unauthorized response.
    pub fn reason(&self) -> (r: &'static str)
        ensures
            self is MissingHeader ==> r@ == "Missing Authorization Header"@,
            self is NotBearer ==> r@ == "Expects Bearer Authorization"@,
            self is BadToken ==> r@ == "Bad JWT Token"@,
            self is KindMismatch ==> r@ == "Bad JWT Token: wrong token kind"@,
            self is Expired ==> r@ == "Bad JWT Token: expired"@,
    {
        match self {
            AuthError::MissingHeader => "Missing Authorization Header",
            AuthError::NotBearer => "Expects Bearer Authorization",
            AuthError::BadToken => "Bad JWT Token",
            AuthError::KindMismatch => "Bad JWT Token: wrong token kind",
            AuthError::Expired => "Bad JWT Token: expired",
        }
    }
}

// ---------------------------------------------------------------------------
// Token kinds
// ---------------------------------------------------------------------------

/// Model of the admin token's claims.
#[verifier::ext_equal]
pub struct AdminTokenClaimsModel {
    pub sub: Seq<char>,
}

/// The operator's token: no expiry, used only to mint other credentials.
#[derive(Debug)]
pub struct AdminTokenClaims {
    sub: String,
}

impl View for AdminTokenClaims {
    type V = AdminTokenClaimsModel;

    closed spec fn view(&self) -> AdminTokenClaimsModel {
        AdminTokenClaimsModel { sub: self.sub@ }
    }
}

impl AdminTokenClaims {
    /// Mint the admin token over the server's signing key.
    pub fn new(server_config: &ServerConfig) -> (r: String)
        ensures
            r@ == jwt_of(admin_sub_spec(), Seq::empty(), Seq::empty(), 0, Seq::empty(), 0,
                server_config.jwt_secret_key@),
    {
        let claims = JwtClaims {
            sub: "Admin Token".to_owned(),
            device_id: String::new(),
            device_desc: String::new(),
            exp: 0,
            file_id: String::new(),
            file_version: 0,
        };
        jwt_encode(&claims, &server_config.jwt_secret_key)
    }
}

/// Model of a device token's claims.
#[verifier::ext_equal]
pub struct DeviceTokenClaimsModel {
    pub sub: Seq<char>,
    pub device_id: Seq<char>,
    pub device_desc: Seq<char>,
}

/// A physical device's durable credential, minted once per device-code
/// exchange.
#[derive(Debug)]
pub struct DeviceTokenClaims {
    sub: String,
    pub device_id: String,
    pub device_desc: String,
}

impl View for DeviceTokenClaims {
    type V = DeviceTokenClaimsModel;

    closed spec fn view(&self) -> DeviceTokenClaimsModel {
        DeviceTokenClaimsModel {
            sub: self.sub@,
            device_id: self.device_id@,
            device_desc: self.device_desc@,
        }
    }
}

impl DeviceTokenClaims {
    /// Mint a device token for one physical device.
    pub fn new_token(device_desc: String, device_id: String, server_config: &ServerConfig) -> (r: String)
        ensures
            r@ == jwt_of(device_sub_spec(), device_id@, device_desc@, 0, Seq::empty(), 0,
                server_config.jwt_secret_key@),
    {
        let claims = JwtClaims {
            sub: "rM Device Token".to_owned(),
            device_id,
            device_desc,
            exp: 0,
            file_id: String::new(),
            file_version: 0,
        };
        jwt_encode(&claims, &server_config.jwt_secret_key)
    }
}

/// Model of a user token's claims.
#[verifier::ext_equal]
pub struct UserTokenClaimsModel {
    pub sub: Seq<char>,
    pub device_id: Seq<char>,
    pub device_desc: Seq<char>,
    pub exp: u64,
}

/// The short-lived session credential that authorizes all document
/// operations, carrying the originating device's identity for attribution.
#[derive(Debug)]
pub struct UserTokenClaims {
    sub: String,
    pub device_id: String,
    pub device_desc: String,
    exp: u64,
}

impl View for UserTokenClaims {
    type V = UserTokenClaimsModel;

    closed spec fn view(&self) -> UserTokenClaimsModel {
        UserTokenClaimsModel {
            sub: self.sub@,
            device_id: self.device_id@,
            device_desc: self.device_desc@,
            exp: self.exp,
        }
    }
}

impl UserTokenClaims {
    /// Mint a user token for the device that presented a device token.
    pub fn new(device_token: &DeviceTokenClaims, server_config: &ServerConfig, now: u64) -> (r: String)
        requires
            now + USER_TOKEN_EXPIRATION <= u64::MAX,
        ensures
            r@ == jwt_of(user_sub_spec(), device_token@.device_id, device_token@.device_desc,
                (now + USER_TOKEN_EXPIRATION) as u64, Seq::empty(), 0, server_config.jwt_secret_key@),
    {
        Self::new_from_raw(device_token.device_id.clone(), device_token.device_desc.clone(),
            server_config, now)
    }

    /// Mint a user token for the operator, bypassing the device-code path.
    pub fn admin_new(_admin: &ValidatedAdminToken, server_config: &ServerConfig, now: u64) -> (r: String)
        requires
            now + USER_TOKEN_EXPIRATION <= u64::MAX,
        ensures
            r@ == jwt_of(user_sub_spec(), "admin"@, "admin"@,
                (now + USER_TOKEN_EXPIRATION) as u64, Seq::empty(), 0, server_config.jwt_secret_key@),
    {
        Self::new_from_raw("admin".to_owned(), "admin".to_owned(), server_config, now)
    }

    /// Mint a user token for the given device identity, expiring a fixed
    /// interval after now.
    fn new_from_raw(device_id: String, device_desc: String, server_config: &ServerConfig, now: u64) -> (r: String)
        requires
            now + USER_TOKEN_EXPIRATION <= u64::MAX,
        ensures
            r@ == jwt_of(user_sub_spec(), device_id@, device_desc@,
                (now + USER_TOKEN_EXPIRATION) as u64, Seq::empty(), 0, server_config.jwt_secret_key@),
    {
        let exp = now + USER_TOKEN_EXPIRATION;
        let claims = JwtClaims {
            sub: "rM User Token".to_owned(),
            device_id,
            device_desc,
            exp,
            file_id: String::new(),
            file_version: 0,
        };
        jwt_encode(&claims, &server_config.jwt_secret_key)
    }
}

/// Model of a file access token's claims.
#[verifier::ext_equal]
pub struct FileAccessClaimsModel {
    pub exp: u64,
    pub file_id: Seq<char>,
    pub file_version: i64,
}

/// A single-purpose, short-lived capability granting exactly one
/// (file, version) blob operation.
#[derive(Debug)]
pub struct FileAccessClaims {
    pub exp: u64,
    pub file_id: String,
    pub file_version: i64,
}

impl View for FileAccessClaims {
    type V = FileAccessClaimsModel;

    open spec fn view(&self) -> FileAccessClaimsModel {
        FileAccessClaimsModel {
            exp: self.exp,
            file_id: self.file_id@,
            file_version: self.file_version,
        }
    }
}

impl FileAccessClaims {
    /// Mint a file access token for one file and version, expiring at the
    /// given time.
    pub fn new(exp: i64, file_id: String, file_version: i64, server_config: &ServerConfig) -> (r: String)
        requires
            0 <= exp,
        ensures
            r@ == jwt_of(file_sub_spec(), Seq::empty(), Seq::empty(), exp as u64, file_id@,
                file_version, server_config.jwt_secret_key@),
    {
        let claims = JwtClaims {
            sub: "rM File Access Token".to_owned(),
            device_id: String::new(),
            device_desc: String::new(),
            exp: exp as u64,
            file_id,
            file_version: file_version,
        };
        jwt_encode(&claims, &server_config.jwt_secret_key)
    }

    /// Validate a file access token: signature, subject marker and expiry
    /// against the given clock value.
    pub fn validate(token: &str, server_config: &ServerConfig, now: u64) -> (r: Result<FileAccessClaims, AuthError>)
        ensures
            forall|c: JwtClaimsModel| token@ == jwt_of_model(c, server_config.jwt_secret_key@)
                ==> #[trigger] check_of(r, c, file_sub_spec(), true, now),
    {
        match jwt_decode(token, &server_config.jwt_secret_key) {
            None => Err(AuthError::BadToken),
            Some(c) => {
                let expected = "rM File Access Token".to_owned();
                if !c.sub.eq(&expected) {
                    Err(AuthError::KindMismatch)
                } else if now > c.exp {
                    Err(AuthError::Expired)
                } else {
                    let ghost c0 = c@;
                    let r = Ok(FileAccessClaims {
                        exp: c.exp,
                        file_id: c.file_id,
                        file_version: c.file_version,
                    });
                    proof {
                        assert forall|cm: JwtClaimsModel|
                            token@ == jwt_of_model(cm, server_config.jwt_secret_key@)
                            implies #[trigger] check_of(r, cm, file_sub_spec(), true, now) by {
                            assert(c0 =~= cm);
                            assert(r matches Ok(f) && f@ =~= (FileAccessClaimsModel {
                                exp: cm.exp,
                                file_id: cm.file_id,
                                file_version: cm.file_version,
                            }));
                        }
                    }
                    r
                }
            },
        }
    }
}

/// How a validation outcome must relate to the claim set a presented token
/// was signed over: the wrong marker is a kind mismatch, an over-age token
/// of an expiring kind is expired, and otherwise validation succeeds with
/// exactly the embedded claims.
pub open spec fn check_of(
    r: Result<FileAccessClaims, AuthError>,
    c: JwtClaimsModel,
    expected_sub: Seq<char>,
    checks_exp: bool,
    now: u64,
) -> bool {
    if c.sub != expected_sub {
        r matches Err(e) && e is KindMismatch
    } else if checks_exp && now > c.exp {
        r matches Err(e) && e is Expired
    } else {
        r matches Ok(f) && f@ == (FileAccessClaimsModel {
            exp: c.exp,
            file_id: c.file_id,
            file_version: c.file_version,
        })
    }
}

// ---------------------------------------------------------------------------
// Request-side validation
// ---------------------------------------------------------------------------

/// How one token kind is validated: its subject marker, whether it enforces
/// expiry, and which claim fields it keeps.
pub trait JWTValidation: View + Sized {
    /// The subject marker this kind must carry.
    spec fn expected_sub_spec() -> Seq<char>;

    /// Whether this kind enforces expiry.
    spec fn checks_exp_spec() -> bool;

    /// The claims of this kind, read off a full claim set.
    spec fn of_claims_spec(c: JwtClaimsModel) -> Self::V;

    /// The subject marker this kind must carry.
    fn expected_sub() -> (r: String)
        ensures
            r@ == Self::expected_sub_spec(),
    ;

    /// Whether this kind enforces expiry.
    fn checks_exp() -> (r: bool)
        ensures
            r == Self::checks_exp_spec(),
    ;

    /// The claims of this kind, read off a full claim set.
    fn of_claims(c: JwtClaims) -> (r: Self)
        ensures
            r@ == Self::of_claims_spec(c@),
    ;
}

impl JWTValidation for AdminTokenClaims {
    open spec fn expected_sub_spec() -> Seq<char> {
        admin_sub_spec()
    }

    open spec fn checks_exp_spec() -> bool {
        false
    }

    open spec fn of_claims_spec(c: JwtClaimsModel) -> AdminTokenClaimsModel {
        AdminTokenClaimsModel { sub: c.sub }
    }

    fn expected_sub() -> (r: String) {
        "Admin Token".to_owned()
    }

    fn checks_exp() -> (r: bool) {
        false
    }

    fn of_claims(c: JwtClaims) -> (r: AdminTokenClaims) {
        AdminTokenClaims { sub: c.sub }
    }
}

impl JWTValidation for DeviceTokenClaims {
    open spec fn expected_sub_spec() -> Seq<char> {
        device_sub_spec()
    }

    open spec fn checks_exp_spec() -> bool {
        false
    }

    open spec fn of_claims_spec(c: JwtClaimsModel) -> DeviceTokenClaimsModel {
        DeviceTokenClaimsModel { sub: c.sub, device_id: c.device_id, device_desc: c.device_desc }
    }

    fn expected_sub() -> (r: String) {
        "rM Device Token".to_owned()
    }

    fn checks_exp() -> (r: bool) {
        false
    }

    fn of_claims(c: JwtClaims) -> (r: DeviceTokenClaims) {
        DeviceTokenClaims { sub: c.sub, device_id: c.device_id, device_desc: c.device_desc }
    }
}

impl JWTValidation for UserTokenClaims {
    open spec fn expected_sub_spec() -> Seq<char> {
        user_sub_spec()
    }

    open spec fn checks_exp_spec() -> bool {
        true
    }

    open spec fn of_claims_spec(c: JwtClaimsModel) -> UserTokenClaimsModel {
        UserTokenClaimsModel {
            sub: c.sub,
            device_id: c.device_id,
            device_desc: c.device_desc,
            exp: c.exp,
        }
    }

    fn expected_sub() -> (r: String) {
        "rM User Token".to_owned()
    }

    fn checks_exp() -> (r: bool) {
        true
    }

    fn of_claims(c: JwtClaims) -> (r: UserTokenClaims) {
        UserTokenClaims {
            sub: c.sub,
            device_id: c.device_id,
            device_desc: c.device_desc,
            exp: c.exp,
        }
    }
}

impl JWTValidation for FileAccessClaims {
    open spec fn expected_sub_spec() -> Seq<char> {
        file_sub_spec()
    }

    open spec fn checks_exp_spec() -> bool {
        true
    }

    open spec fn of_claims_spec(c: JwtClaimsModel) -> FileAccessClaimsModel {
        FileAccessClaimsModel { exp: c.exp, file_id: c.file_id, file_version: c.file_version }
    }

    fn expected_sub() -> (r: String) {
        "rM File Access Token".to_owned()
    }

    fn checks_exp() -> (r: bool) {
        true
    }

    fn of_claims(c: JwtClaims) -> (r: FileAccessClaims) {
        FileAccessClaims { exp: c.exp, file_id: c.file_id, file_version: c.file_version }
    }
}

/// A validated token of one kind, as extracted from a request.
#[derive(Debug)]
pub struct JWTAuthorization<T>(pub T);

/// A validated admin token.
pub type ValidatedAdminToken = JWTAuthorization<AdminTokenClaims>;

/// A validated device token.
pub type ValidatedDeviceToken = JWTAuthorization<DeviceTokenClaims>;

/// A validated user token.
pub type ValidatedUserToken = JWTAuthorization<UserTokenClaims>;

// ---------------------------------------------------------------------------
// Bearer header parsing
// ---------------------------------------------------------------------------

/// The index of the first space of a header, or its length when it has none.
pub open spec fn space_idx(h: Seq<char>) -> int
    decreases h.len(),
{
    if h.len() == 0 {
        0
    } else if h[0] == ' ' {
        0
    } else {
        1 + space_idx(h.drop_first())
    }
}

/// `space_idx` finds the first space, or reports that none exists.
pub proof fn lemma_space_idx(h: Seq<char>)
    ensures
        0 <= space_idx(h) <= h.len(),
        forall|i: int| 0 <= i < space_idx(h) ==> h[i] != ' ',
        space_idx(h) < h.len() ==> h[space_idx(h)] == ' ',
    decreases h.len(),
{
    if h.len() > 0 && h[0] != ' ' {
        lemma_space_idx(h.drop_first());
        assert forall|i: int| 1 <= i < space_idx(h) implies h[i] != ' ' by {
            assert(h.drop_first()[i - 1] == h[i]);
        }
        if space_idx(h) < h.len() {
            assert(h.drop_first()[space_idx(h) - 1] == h[space_idx(h)]);
        }
    }
}

/// Whether a scheme word is `bearer` up to letter case.
pub open spec fn is_bearer_scheme(s: Seq<char>) -> bool {
    &&& s.len() == 6
    &&& (s[0] == 'b' || s[0] == 'B')
    &&& (s[1] == 'e' || s[1] == 'E')
    &&& (s[2] == 'a' || s[2] == 'A')
    &&& (s[3] == 'r' || s[3] == 'R')
    &&& (s[4] == 'e' || s[4] == 'E')
    &&& (s[5] == 'r' || s[5] == 'R')
}

/// The bearer token of an authorization header: the word after the scheme,
/// up to the next space — or nothing when the scheme is not `bearer`.
pub open spec fn parsed_bearer(h: Seq<char>) -> Option<Seq<char>> {
    let si = space_idx(h);
    if !is_bearer_scheme(h.take(si)) {
        Option::None
    } else if si == h.len() {
        Option::Some(Seq::empty())
    } else {
        let rest = h.skip(si + 1);
        Option::Some(rest.take(space_idx(rest)))
    }
}

/// The index of the first space at or after `from`, or the length when
/// there is none.
fn find_space(h: &str, from: usize, n: usize) -> (r: usize)
    requires
        from <= n,
        n == h@.len(),
    ensures
        r - from == space_idx(h@.skip(from as int)),
        from <= r <= n,
{
    let mut i = from;
    while i < n
        invariant
            from <= i <= n,
            n == h@.len(),
            forall|j: int| from <= j < i ==> h@[j] != ' ',
        decreases n - i,
    {
        if h.get_char(i) == ' ' {
            proof {
                lemma_space_idx(h@.skip(from as int));
                let s = h@.skip(from as int);
                let si = space_idx(s);
                assert(forall|j: int| 0 <= j < s.len() ==> s[j] == h@[from + j]);
                if si < i - from {
                    assert(h@[from + si] != ' ');
                    assert(s[si] == ' ');
                    assert(false);
                }
                if si > i - from {
                    assert(s[i - from] != ' ');
                    assert(false);
                }
            }
            return i;
        }
        i = i + 1;
    }
    proof {
        lemma_space_idx(h@.skip(from as int));
        let s = h@.skip(from as int);
        let si = space_idx(s);
        assert(forall|j: int| 0 <= j < s.len() ==> s[j] == h@[from + j]);
        if si < n - from {
            assert(s[si] == ' ');
            assert(h@[from + si] != ' ');
            assert(false);
        }
    }
    n
}

/// The bearer token of an authorization header, or nothing when the header
/// does not use the bearer scheme.
fn extract_bearer(h: &str) -> (r: Option<&str>)
    ensures
        match r {
            Option::Some(t) => parsed_bearer(h@) == Option::Some(t@),
            Option::None => parsed_bearer(h@) is None,
        },
{
    let n = h.unicode_len();
    let si = find_space(h, 0, n);
    proof {
        assert(h@.skip(0) =~= h@);
        assert(si == space_idx(h@));
    }
    let bearer = si == 6
        && {
            let c = h.get_char(0);
            c == 'b' || c == 'B'
        }
        && {
            let c = h.get_char(1);
            c == 'e' || c == 'E'
        }
        && {
            let c = h.get_char(2);
            c == 'a' || c == 'A'
        }
        && {
            let c = h.get_char(3);
            c == 'r' || c == 'R'
        }
        && {
            let c = h.get_char(4);
            c == 'e' || c == 'E'
        }
        && {
            let c = h.get_char(5);
            c == 'r' || c == 'R'
        };
    proof {
        assert(forall|j: int| 0 <= j < space_idx(h@) ==> h@.take(space_idx(h@))[j] == h@[j]);
        assert(bearer == is_bearer_scheme(h@.take(space_idx(h@))));
    }
    if !bearer {
        return None;
    }
    if si == n {
        let t = "";
        proof {
            reveal_strlit("");
            assert(t@ =~= Seq::<char>::empty());
        }
        return Some(t);
    }
    let e = find_space(h, si + 1, n);
    let t = h.substring_char(si + 1, e);
    proof {
        let rest = h@.skip(si + 1);
        assert(t@ =~= rest.take(space_idx(rest)));
    }
    Some(t)
}

impl<T: JWTValidation> JWTAuthorization<T> {
    /// The inbound-request gate: extract the bearer token from the
    /// authorization header, check its signature against the server's key,
    /// its subject marker against this kind's, and — for expiring kinds —
    /// its expiry against the given clock value. A missing header, another
    /// scheme, a bad signature, another kind's marker, or an over-age token
    /// each yield the matching unauthorized error.
    pub fn from_request(header: Option<&str>, config: &ServerConfig, now: u64) -> (r: Result<JWTAuthorization<T>, AuthError>)
        ensures
            header is None ==> (r matches Err(e) && e is MissingHeader),
            (header matches Some(h) && parsed_bearer(h@) is None)
                ==> (r matches Err(e) && e is NotBearer),
            header matches Some(h)
                ==> (parsed_bearer(h@) matches Some(tok)
                    ==> forall|c: JwtClaimsModel| tok == jwt_of_model(c, config.jwt_secret_key@)
                        ==> #[trigger] kind_check_of(r, c, T::expected_sub_spec(), T::checks_exp_spec(), now)),
    {
        let h = match header {
            None => {
                return Err(AuthError::MissingHeader);
            },
            Some(h) => h,
        };
        let token = match extract_bearer(h) {
            None => {
                return Err(AuthError::NotBearer);
            },
            Some(t) => t,
        };
        match jwt_decode(token, &config.jwt_secret_key) {
            None => Err(AuthError::BadToken),
            Some(c) => {
                let expected = T::expected_sub();
                if !c.sub.eq(&expected) {
                    Err(AuthError::KindMismatch)
                } else if T::checks_exp() && now > c.exp {
                    Err(AuthError::Expired)
                } else {
                    let ghost c0 = c@;
                    let v = T::of_claims(c);
                    let r = Ok(JWTAuthorization(v));
                    proof {
                        assert forall|cm: JwtClaimsModel|
                            token@ == jwt_of_model(cm, config.jwt_secret_key@)
                            implies #[trigger] kind_check_of(r, cm, T::expected_sub_spec(),
                                T::checks_exp_spec(), now) by {
                            assert(c0 =~= cm);
                            assert(v@ == T::of_claims_spec(cm));
                        }
                    }
                    r
                }
            },
        }
    }
}

/// How a kind-gated validation outcome must relate to the claim set a
/// presented token was signed over.
pub open spec fn kind_check_of<T: JWTValidation>(
    r: Result<JWTAuthorization<T>, AuthError>,
    c: JwtClaimsModel,
    expected_sub: Seq<char>,
    checks_exp: bool,
    now: u64,
) -> bool {
    if c.sub != expected_sub {
        r matches Err(e) && e is KindMismatch
    } else if checks_exp && now > c.exp {
        r matches Err(e) && e is Expired
    } else {
        r matches Ok(a) && a.0@ == T::of_claims_spec(c)
    }
}

} // verus!
