use chainpulse::api::{
    check_address, default_expiring_minutes, default_limit, default_min_age, height_label, parse_role, timeout_type,
    ApiError, Role, API_VERSION,
};

#[test]
fn query_defaults() {
    assert_eq!(default_limit(), 100);
    assert_eq!(default_min_age(), 900);
    assert_eq!(default_expiring_minutes(), 60);
    assert_eq!(API_VERSION, "1.0");
}

#[test]
fn roles_and_checks() {
    assert_eq!(parse_role("sender"), Role::Sender);
    assert_eq!(parse_role("receiver"), Role::Receiver);
    assert_eq!(parse_role(""), Role::Both);
    assert_eq!(parse_role("both"), Role::Both);
    assert_eq!(check_address(""), Err(ApiError::BadRequest));
    assert_eq!(check_address("osmo1x"), Ok(()));
    assert_eq!(ApiError::BadRequest.status(), 400);
    assert_eq!(ApiError::NotFound.status(), 404);
    assert_eq!(ApiError::Internal.status(), 500);
}

#[test]
fn timeout_labels() {
    assert_eq!(timeout_type(true), "height");
    assert_eq!(timeout_type(false), "timestamp");
    assert_eq!(height_label(1, 100), "1-100");
}
