//! What stands in front of every command: the client shows that it knows the
//! password by sending the SHA-256 digest of it.

use vstd::prelude::*;
use crate::text::{optional_str, optional_text, same_text};

verus! {

/// The SHA-256 digest of the UTF-8 bytes of `text`, in lower-case hexadecimal
/// digits.
pub uninterp spec fn sha256_hex(text: Seq<char>) -> Seq<char>;

/// Feeds `text` to a fresh `crypto::sha2::Sha256` and reads the digest with
/// `crypto::digest::Digest::result_str`.
#[verifier::external_body]
fn hash(text: &str) -> (r: String)
    ensures
        r@ == sha256_hex(text@),
{
    let mut hasher = crypto::sha2::Sha256::new();
    crypto::digest::Digest::input_str(&mut hasher, text);
    crypto::digest::Digest::result_str(&mut hasher)
}

/// Name of the environment variable that holds the user's name.
pub const USERNAME_VARIABLE: &'static str = "NRM_USERNAME";

/// Name of the environment variable that holds the password.
pub const PASSWORD_VARIABLE: &'static str = "NRM_PASSWORD";

/// The outcome of a check of credentials.
#[derive(Debug, PartialEq, Eq)]
pub struct AuthCheck {
    /// Whether the credentials are those of the user.
    pub valid: bool,
    /// The environment variable that would have been needed and is not set.
    pub missing_variable: Option<String>,
}

/// What an [`AuthCheck`] holds, as mathematical values.
pub struct AuthCheckView {
    pub valid: bool,
    pub missing_variable: Option<Seq<char>>,
}

impl View for AuthCheck {
    type V = AuthCheckView;

    open spec fn view(&self) -> AuthCheckView {
        AuthCheckView { valid: self.valid, missing_variable: optional_text(self.missing_variable) }
    }
}

/// Whether a digest sent by the client is the expected one.
pub fn hashes_agree(sent: &str, expected: &str) -> (r: bool)
    ensures
        r == (sent@ == expected@),
{
    same_text(sent, expected)
}

/// The check of a password digest against the configured password, which is
/// absent where its variable is not set.
pub open spec fn hash_check(
    password_hash: Seq<char>,
    password: Option<Seq<char>>,
) -> AuthCheckView {
    match password {
        None => AuthCheckView { valid: false, missing_variable: Some(PASSWORD_VARIABLE@) },
        Some(p) => AuthCheckView { valid: password_hash == sha256_hex(p), missing_variable: None },
    }
}

/// The check of a user's name and password digest against the configured
/// name and password. The name's variable is looked at first.
pub open spec fn user_check(
    username: Seq<char>,
    password_hash: Seq<char>,
    env_username: Option<Seq<char>>,
    env_password: Option<Seq<char>>,
) -> AuthCheckView {
    match env_username {
        None => AuthCheckView { valid: false, missing_variable: Some(USERNAME_VARIABLE@) },
        Some(u) => match env_password {
            None => AuthCheckView { valid: false, missing_variable: Some(PASSWORD_VARIABLE@) },
            Some(p) => AuthCheckView {
                valid: username == u && password_hash == sha256_hex(p),
                missing_variable: None,
            },
        },
    }
}

/// Checks the digest that a client sent against the configured password.
pub fn validate_hash(password_hash: &str, password: Option<&str>) -> (r: AuthCheck)
    ensures
        r@ == hash_check(password_hash@, optional_str(password)),
{
    match password {
        None => AuthCheck {
            valid: false,
            missing_variable: Some(String::from_str(PASSWORD_VARIABLE)),
        },
        Some(p) => {
            let expected = hash(p);
            AuthCheck {
                valid: hashes_agree(password_hash, expected.as_str()),
                missing_variable: None,
            }
        },
    }
}

/// Checks the name and the digest that a client sent against the configured
/// name and password.
pub fn authenticate_user(
    username: &str,
    password_hash: &str,
    env_username: Option<&str>,
    env_password: Option<&str>,
) -> (r: AuthCheck)
    ensures
        r@ == user_check(
            username@,
            password_hash@,
            optional_str(env_username),
            optional_str(env_password),
        ),
{
    let expected_name = match env_username {
        None => {
            return AuthCheck {
                valid: false,
                missing_variable: Some(String::from_str(USERNAME_VARIABLE)),
            };
        },
        Some(u) => u,
    };
    let password = match env_password {
        None => {
            return AuthCheck {
                valid: false,
                missing_variable: Some(String::from_str(PASSWORD_VARIABLE)),
            };
        },
        Some(p) => p,
    };
    let expected = hash(password);
    AuthCheck {
        valid: same_text(username, expected_name) && hashes_agree(
            password_hash,
            expected.as_str(),
        ),
        missing_variable: None,
    }
}

} // verus!
