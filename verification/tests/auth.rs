use nas_rom_manager::auth::{
    authenticate_user, hashes_agree, validate_hash, AuthCheck, PASSWORD_VARIABLE, USERNAME_VARIABLE,
};

const PASSWORD_DIGEST: &str = "5e884898da28047151d0e56f8dc6292773603d0d6aabbdd62a11ef721d1542d8";
const EMPTY_DIGEST: &str = "e3b0c44298fc1c149afbf4c8996fb92427ae41e4649b934ca495991b7852b855";

#[test]
fn variables_are_named() {
    assert_eq!(USERNAME_VARIABLE, "NRM_USERNAME");
    assert_eq!(PASSWORD_VARIABLE, "NRM_PASSWORD");
}

#[test]
fn digests_are_compared_exactly() {
    assert!(hashes_agree(PASSWORD_DIGEST, PASSWORD_DIGEST));
    assert!(!hashes_agree(PASSWORD_DIGEST, EMPTY_DIGEST));
    assert!(!hashes_agree(&PASSWORD_DIGEST.to_uppercase(), PASSWORD_DIGEST));
}

#[test]
fn digest_of_the_password_is_valid() {
    assert_eq!(
        validate_hash(PASSWORD_DIGEST, Some("password")),
        AuthCheck { valid: true, missing_variable: None }
    );
    assert_eq!(validate_hash(EMPTY_DIGEST, Some("")), AuthCheck { valid: true, missing_variable: None });
}

#[test]
fn other_digest_is_invalid() {
    assert_eq!(
        validate_hash(EMPTY_DIGEST, Some("password")),
        AuthCheck { valid: false, missing_variable: None }
    );
    assert_eq!(validate_hash("password", Some("password")), AuthCheck { valid: false, missing_variable: None });
}

#[test]
fn digest_cannot_be_checked_without_password() {
    assert_eq!(
        validate_hash(PASSWORD_DIGEST, None),
        AuthCheck { valid: false, missing_variable: Some("NRM_PASSWORD".to_string()) }
    );
}

#[test]
fn user_with_name_and_digest_is_authenticated() {
    assert_eq!(
        authenticate_user("admin", PASSWORD_DIGEST, Some("admin"), Some("password")),
        AuthCheck { valid: true, missing_variable: None }
    );
}

#[test]
fn user_with_wrong_name_or_digest_is_not_authenticated() {
    assert!(!authenticate_user("Admin", PASSWORD_DIGEST, Some("admin"), Some("password")).valid);
    assert!(!authenticate_user("admin", EMPTY_DIGEST, Some("admin"), Some("password")).valid);
    assert!(!authenticate_user("", "", Some("admin"), Some("password")).valid);
}

#[test]
fn user_cannot_be_checked_without_variables() {
    assert_eq!(
        authenticate_user("admin", PASSWORD_DIGEST, None, Some("password")),
        AuthCheck { valid: false, missing_variable: Some("NRM_USERNAME".to_string()) }
    );
    assert_eq!(
        authenticate_user("admin", PASSWORD_DIGEST, Some("admin"), None),
        AuthCheck { valid: false, missing_variable: Some("NRM_PASSWORD".to_string()) }
    );
    assert_eq!(
        authenticate_user("admin", PASSWORD_DIGEST, None, None),
        AuthCheck { valid: false, missing_variable: Some("NRM_USERNAME".to_string()) }
    );
}
