//! Which credential a transport is offered.

use vstd::prelude::*;
use vstd::string::*;

verus! {

/// The kinds of credential that the backend accepts for a connection.
#[derive(Clone, Copy, Debug, PartialEq, Eq, Structural)]
pub struct AllowedKinds {
    /// A user name with a password in plain text.
    pub user_pass_plaintext: bool,
    /// An SSH key.
    pub ssh_key: bool,
}

/// The SSH key that the user configured, if any.
#[derive(Clone, Debug)]
pub struct KeySettings {
    /// The path of the private key.
    pub key_path: Option<String>,
    /// Whether the key is protected by a passphrase.
    pub protected: bool,
    /// The passphrase, once the user has been asked for it in this run.
    pub passphrase: Option<String>,
}

/// What a [`KeySettings`] stands for in contracts.
pub struct KeySettingsView {
    pub key_path: Option<Seq<char>>,
    pub protected: bool,
    pub passphrase: Option<Seq<char>>,
}

impl View for KeySettings {
    type V = KeySettingsView;

    open spec fn view(&self) -> KeySettingsView {
        KeySettingsView {
            key_path: match self.key_path {
                Some(p) => Some(p@),
                None => None,
            },
            protected: self.protected,
            passphrase: match self.passphrase {
                Some(p) => Some(p@),
                None => None,
            },
        }
    }
}

/// The credential to build.
#[derive(Clone, Debug)]
pub enum Credential {
    /// Whatever the system's credential helper gives for the connection.
    Helper,
    /// The configured key, with its passphrase where it has one.
    SshKey { username: String, key_path: String, passphrase: Option<String> },
    /// The identity that the SSH agent offers.
    SshAgent { username: String },
    /// The backend's default credential.
    Default,
}

/// What a [`Credential`] stands for in contracts.
pub enum CredentialView {
    Helper,
    SshKey { username: Seq<char>, key_path: Seq<char>, passphrase: Option<Seq<char>> },
    SshAgent { username: Seq<char> },
    Default,
}

impl View for Credential {
    type V = CredentialView;

    open spec fn view(&self) -> CredentialView {
        match self {
            Credential::Helper => CredentialView::Helper,
            Credential::SshKey { username, key_path, passphrase } => CredentialView::SshKey {
                username: username@,
                key_path: key_path@,
                passphrase: match passphrase {
                    Some(p) => Some(p@),
                    None => None,
                },
            },
            Credential::SshAgent { username } => CredentialView::SshAgent { username: username@ },
            Credential::Default => CredentialView::Default,
        }
    }
}

/// Why no credential can be built. The job that asked fails to authenticate;
/// other jobs are not touched.
#[derive(Clone, Copy, Debug, PartialEq, Eq, Structural)]
pub enum CredentialFailure {
    /// An SSH credential needs a user name, and the address gives none.
    MissingUsername,
    /// The key is protected, and the user has not been asked for its passphrase.
    MissingPassphrase,
}

/// The message of a connection whose address names no user.
pub const MISSING_USERNAME: &'static str = "Could not extract username from URL";

/// The message of a protected key whose passphrase is not at hand.
pub const MISSING_PASSPHRASE: &'static str = "The passphrase of the SSH key is missing";

/// The credential for a connection: the credential helper where a plain
/// password is accepted; else, where an SSH key is accepted, the configured key
/// or, without one, the agent's identity; else the default.
pub open spec fn credential_for(
    allowed: AllowedKinds,
    username: Option<Seq<char>>,
    keys: KeySettingsView,
) -> Result<CredentialView, CredentialFailure> {
    if allowed.user_pass_plaintext {
        Ok(CredentialView::Helper)
    } else if allowed.ssh_key {
        match username {
            None => Err(CredentialFailure::MissingUsername),
            Some(name) => match keys.key_path {
                None => Ok(CredentialView::SshAgent { username: name }),
                Some(path) => {
                    if !keys.protected {
                        Ok(
                            CredentialView::SshKey {
                                username: name,
                                key_path: path,
                                passphrase: None,
                            },
                        )
                    } else {
                        match keys.passphrase {
                            Some(phrase) => Ok(
                                CredentialView::SshKey {
                                    username: name,
                                    key_path: path,
                                    passphrase: Some(phrase),
                                },
                            ),
                            None => Err(CredentialFailure::MissingPassphrase),
                        }
                    }
                },
            },
        }
    } else {
        Ok(CredentialView::Default)
    }
}

/// The view of a resolved credential, or the failure.
pub open spec fn resolution_view(r: Result<Credential, CredentialFailure>) -> Result<
    CredentialView,
    CredentialFailure,
> {
    match r {
        Ok(c) => Ok(c@),
        Err(e) => Err(e),
    }
}

/// Decides which credential to offer; see [`credential_for`].
pub fn resolve_credentials(
    allowed: AllowedKinds,
    username_from_url: Option<&str>,
    keys: &KeySettings,
) -> (r: Result<Credential, CredentialFailure>)
    ensures
        resolution_view(r) == credential_for(
            allowed,
            match username_from_url {
                Some(name) => Some(name@),
                None => None,
            },
            keys@,
        ),
{
    if allowed.user_pass_plaintext {
        return Ok(Credential::Helper);
    }
    if !allowed.ssh_key {
        return Ok(Credential::Default);
    }
    let username = match username_from_url {
        Some(name) => name.to_owned(),
        None => {
            return Err(CredentialFailure::MissingUsername);
        },
    };
    match &keys.key_path {
        None => Ok(Credential::SshAgent { username }),
        Some(path) => {
            if !keys.protected {
                Ok(Credential::SshKey { username, key_path: path.clone(), passphrase: None })
            } else {
                match &keys.passphrase {
                    Some(phrase) => Ok(
                        Credential::SshKey {
                            username,
                            key_path: path.clone(),
                            passphrase: Some(phrase.clone()),
                        },
                    ),
                    None => Err(CredentialFailure::MissingPassphrase),
                }
            }
        },
    }
}

impl CredentialFailure {
    /// The message that the job fails with.
    pub fn message(&self) -> (text: &'static str)
        ensures
            text@ == match *self {
                CredentialFailure::MissingUsername => MISSING_USERNAME@,
                CredentialFailure::MissingPassphrase => MISSING_PASSPHRASE@,
            },
    {
        match self {
            CredentialFailure::MissingUsername => MISSING_USERNAME,
            CredentialFailure::MissingPassphrase => MISSING_PASSPHRASE,
        }
    }
}

} // verus!
