use rm_personal_cloud::auth::{
    AdminTokenClaims, AuthError, DeviceTokenClaims, FileAccessClaims, JWTAuthorization,
    UserTokenClaims,
};
use rm_personal_cloud::config::ServerConfig;
use rm_personal_cloud::USER_TOKEN_EXPIRATION;

fn test_config() -> ServerConfig {
    ServerConfig {
        jwt_secret_key: (0u8..32).collect(),
        server_host: "cloud.example.com".to_owned(),
    }
}

fn other_config() -> ServerConfig {
    ServerConfig {
        jwt_secret_key: (100u8..132).collect(),
        server_host: "cloud.example.com".to_owned(),
    }
}

fn bearer(token: &str) -> String {
    let mut h = String::from("Bearer ");
    h.push_str(token);
    h
}

#[test]
fn device_token_roundtrip() {
    let config = test_config();
    let token = DeviceTokenClaims::new_token("a tablet".to_owned(), "d1".to_owned(), &config);
    let header = bearer(&token);
    let auth = JWTAuthorization::<DeviceTokenClaims>::from_request(
        Some(header.as_str()),
        &config,
        0,
    )
    .expect("a freshly minted device token validates");
    assert_eq!(auth.0.device_id, "d1");
    assert_eq!(auth.0.device_desc, "a tablet");
}

#[test]
fn device_token_is_not_a_user_token() {
    let config = test_config();
    let token = DeviceTokenClaims::new_token("a tablet".to_owned(), "d1".to_owned(), &config);
    let header = bearer(&token);
    let err = JWTAuthorization::<UserTokenClaims>::from_request(
        Some(header.as_str()),
        &config,
        0,
    )
    .expect_err("a device token must not validate as a user token");
    assert_eq!(err, AuthError::KindMismatch);
}

#[test]
fn user_token_expires_after_a_day() {
    let config = test_config();
    let minted_at: u64 = 1_000_000;
    let device = {
        let t = DeviceTokenClaims::new_token("desc".to_owned(), "dev".to_owned(), &config);
        let h = bearer(&t);
        JWTAuthorization::<DeviceTokenClaims>::from_request(Some(h.as_str()), &config, 0)
            .unwrap()
            .0
    };
    let token = UserTokenClaims::new(&device, &config, minted_at);
    let header = bearer(&token);

    // Exactly at expiry the token still validates.
    let ok = JWTAuthorization::<UserTokenClaims>::from_request(
        Some(header.as_str()),
        &config,
        minted_at + USER_TOKEN_EXPIRATION,
    )
    .expect("valid until its expiry second");
    assert_eq!(ok.0.device_id, "dev");
    assert_eq!(ok.0.device_desc, "desc");

    // One second past expiry it does not.
    let err = JWTAuthorization::<UserTokenClaims>::from_request(
        Some(header.as_str()),
        &config,
        minted_at + USER_TOKEN_EXPIRATION + 1,
    )
    .expect_err("expired one second past its lifetime");
    assert_eq!(err, AuthError::Expired);
}

#[test]
fn admin_token_roundtrip_and_admin_user_token() {
    let config = test_config();
    let token = AdminTokenClaims::new(&config);
    let header = bearer(&token);
    let admin = JWTAuthorization::<AdminTokenClaims>::from_request(
        Some(header.as_str()),
        &config,
        u64::MAX - USER_TOKEN_EXPIRATION, // admin tokens never expire
    )
    .expect("the admin token validates");

    let user_token = UserTokenClaims::admin_new(&admin, &config, 50);
    let user_header = bearer(&user_token);
    let user = JWTAuthorization::<UserTokenClaims>::from_request(
        Some(user_header.as_str()),
        &config,
        60,
    )
    .expect("the operator's user token validates");
    assert_eq!(user.0.device_id, "admin");
    assert_eq!(user.0.device_desc, "admin");
}

#[test]
fn wrong_key_is_rejected() {
    let config = test_config();
    let token = DeviceTokenClaims::new_token("t".to_owned(), "d".to_owned(), &other_config());
    let header = bearer(&token);
    let err =
        JWTAuthorization::<DeviceTokenClaims>::from_request(Some(header.as_str()), &config, 0)
            .expect_err("a token signed with another key must not validate");
    assert_eq!(err, AuthError::BadToken);
}

#[test]
fn garbled_token_is_rejected() {
    let config = test_config();
    let header = bearer("not.a.token");
    let err =
        JWTAuthorization::<DeviceTokenClaims>::from_request(Some(header.as_str()), &config, 0)
            .expect_err("garbage is not a token");
    assert_eq!(err, AuthError::BadToken);
}

#[test]
fn missing_and_malformed_headers() {
    let config = test_config();
    let missing =
        JWTAuthorization::<UserTokenClaims>::from_request(None, &config, 0).expect_err("no header");
    assert_eq!(missing, AuthError::MissingHeader);

    let basic = JWTAuthorization::<UserTokenClaims>::from_request(
        Some("Basic dXNlcjpwdw=="),
        &config,
        0,
    )
    .expect_err("only the bearer scheme is accepted");
    assert_eq!(basic, AuthError::NotBearer);
}

#[test]
fn bearer_scheme_is_case_insensitive() {
    let config = test_config();
    let token = DeviceTokenClaims::new_token("t".to_owned(), "d".to_owned(), &config);
    let mut header = String::from("bEaReR ");
    header.push_str(&token);
    let auth =
        JWTAuthorization::<DeviceTokenClaims>::from_request(Some(header.as_str()), &config, 0)
            .expect("scheme matching ignores letter case");
    assert_eq!(auth.0.device_id, "d");
}

#[test]
fn file_access_token_roundtrip() {
    let config = test_config();
    let token = FileAccessClaims::new(500, "file-7".to_owned(), 3, &config);
    let claims = FileAccessClaims::validate(&token, &config, 500)
        .expect("valid until its expiry second");
    assert_eq!(claims.file_id, "file-7");
    assert_eq!(claims.file_version, 3);
    assert_eq!(claims.exp, 500);

    let err = FileAccessClaims::validate(&token, &config, 501)
        .expect_err("expired one second past its lifetime");
    assert_eq!(err, AuthError::Expired);
}

#[test]
fn user_token_is_not_a_file_access_token() {
    let config = test_config();
    let device = DeviceTokenClaims::new_token("t".to_owned(), "d".to_owned(), &config);
    let h = bearer(&device);
    let device = JWTAuthorization::<DeviceTokenClaims>::from_request(Some(h.as_str()), &config, 0)
        .unwrap()
        .0;
    let user_token = UserTokenClaims::new(&device, &config, 10);
    let err = FileAccessClaims::validate(&user_token, &config, 20)
        .expect_err("a user token must not grant file access");
    assert_eq!(err, AuthError::KindMismatch);
}

#[test]
fn auth_error_reasons() {
    assert_eq!(AuthError::MissingHeader.reason(), "Missing Authorization Header");
    assert_eq!(AuthError::NotBearer.reason(), "Expects Bearer Authorization");
    assert_eq!(AuthError::BadToken.reason(), "Bad JWT Token");
}
