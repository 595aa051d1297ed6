use dorst::credentials::{
    resolve_credentials, AllowedKinds, Credential, CredentialFailure, KeySettings,
    MISSING_PASSPHRASE, MISSING_USERNAME,
};

fn no_key() -> KeySettings {
    KeySettings { key_path: None, protected: false, passphrase: None }
}

fn key(protected: bool, passphrase: Option<&str>) -> KeySettings {
    KeySettings {
        key_path: Some("/home/user/.ssh/id_ed25519".to_owned()),
        protected,
        passphrase: passphrase.map(str::to_owned),
    }
}

const PLAIN: AllowedKinds = AllowedKinds { user_pass_plaintext: true, ssh_key: false };
const BOTH: AllowedKinds = AllowedKinds { user_pass_plaintext: true, ssh_key: true };
const SSH: AllowedKinds = AllowedKinds { user_pass_plaintext: false, ssh_key: true };
const NONE: AllowedKinds = AllowedKinds { user_pass_plaintext: false, ssh_key: false };

#[test]
fn plain_password_goes_to_the_credential_helper() {
    assert!(matches!(resolve_credentials(PLAIN, None, &no_key()), Ok(Credential::Helper)));
    assert!(matches!(resolve_credentials(BOTH, Some("git"), &key(false, None)), Ok(Credential::Helper)));
}

#[test]
fn ssh_without_a_key_goes_to_the_agent() {
    match resolve_credentials(SSH, Some("git"), &no_key()) {
        Ok(Credential::SshAgent { username }) => assert_eq!(username, "git"),
        other => panic!("{:?}", other),
    }
}

#[test]
fn ssh_with_a_key_uses_the_key() {
    match resolve_credentials(SSH, Some("git"), &key(false, Some("unused"))) {
        Ok(Credential::SshKey { username, key_path, passphrase }) => {
            assert_eq!(username, "git");
            assert_eq!(key_path, "/home/user/.ssh/id_ed25519");
            assert_eq!(passphrase, None);
        }
        other => panic!("{:?}", other),
    }
    match resolve_credentials(SSH, Some("git"), &key(true, Some("secret words"))) {
        Ok(Credential::SshKey { passphrase, .. }) => {
            assert_eq!(passphrase.as_deref(), Some("secret words"))
        }
        other => panic!("{:?}", other),
    }
}

#[test]
fn ssh_without_a_user_name_fails() {
    let outcome = resolve_credentials(SSH, None, &no_key());
    assert!(matches!(outcome, Err(CredentialFailure::MissingUsername)));
    let outcome = resolve_credentials(SSH, None, &key(false, None));
    assert!(matches!(outcome, Err(CredentialFailure::MissingUsername)));
    assert_eq!(CredentialFailure::MissingUsername.message(), "Could not extract username from URL");
    assert_eq!(MISSING_USERNAME, "Could not extract username from URL");
}

#[test]
fn protected_key_without_passphrase_fails() {
    let outcome = resolve_credentials(SSH, Some("git"), &key(true, None));
    assert!(matches!(outcome, Err(CredentialFailure::MissingPassphrase)));
    assert_eq!(CredentialFailure::MissingPassphrase.message(), MISSING_PASSPHRASE);
}

#[test]
fn anything_else_gets_the_default() {
    assert!(matches!(resolve_credentials(NONE, Some("git"), &key(true, None)), Ok(Credential::Default)));
    assert!(matches!(resolve_credentials(NONE, None, &no_key()), Ok(Credential::Default)));
}
