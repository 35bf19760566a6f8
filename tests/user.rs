use adapter::{
    check_password_verdict, require_user_created, require_user_found, verify_password, UserError,
};

#[test]
fn password_matches_its_hash() {
    let hash = bcrypt::hash("dummy", 4).unwrap();
    assert_eq!(verify_password("dummy", &hash), Ok(()));
}

#[test]
fn wrong_password_is_unauthenticated() {
    let hash = bcrypt::hash("dummy", 4).unwrap();
    assert_eq!(verify_password("new_password", &hash), Err(UserError::Unauthenticated));
}

#[test]
fn malformed_hash_is_hashing_error() {
    assert_eq!(verify_password("dummy", "not a hash"), Err(UserError::Hashing));
}

#[test]
fn password_verdicts() {
    assert_eq!(check_password_verdict(Some(true)), Ok(()));
    assert_eq!(check_password_verdict(Some(false)), Err(UserError::Unauthenticated));
    assert_eq!(check_password_verdict(None), Err(UserError::Hashing));
}

#[test]
fn user_row_counts() {
    assert_eq!(require_user_found(0), Err(UserError::EntityNotFound));
    assert_eq!(require_user_found(1), Ok(()));
    assert_eq!(require_user_created(0), Err(UserError::WriteAnomaly));
    assert_eq!(require_user_created(2), Ok(()));
}
