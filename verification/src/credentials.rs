//! Secrets on their way into a connection. The secret itself has a type of its own choosing, which
//! nothing here looks into.
use crate::local_path::{local_display, local_path_text};
use crate::message::SshErrorKind;
use crate::profile::{AuthConfig, ConnectionProfile, ProxyConfig};
use crate::session::SessionId;
use crate::text::{clone_opt_text, text_eq};
use std::path::PathBuf;
use vstd::prelude::*;
use vstd::string::*;

verus! {

/// What a stored secret is for.
#[derive(Clone, Copy, Debug, PartialEq, Eq, Structural)]
pub enum CredentialKind {
    Password,
    PrivateKeyPassphrase,
    ProxyPassword,
    ProxyCommand,
}

/// Where a secret came from.
#[derive(Clone, Copy, Debug, PartialEq, Eq, Structural)]
pub enum CredentialSource {
    SystemKeychain,
    Prompt,
}

/// What the user is asked for.
#[derive(Debug, PartialEq, Eq)]
pub enum CredentialPromptKind {
    Password,
    PrivateKeyPassphrase { path: PathBuf },
    ProxyPassword,
}

impl Clone for CredentialPromptKind {
    fn clone(&self) -> (r: Self)
        ensures
            r == *self,
    {
        match self {
            CredentialPromptKind::Password => CredentialPromptKind::Password,
            CredentialPromptKind::PrivateKeyPassphrase { path } => {
                CredentialPromptKind::PrivateKeyPassphrase { path: path.clone() }
            },
            CredentialPromptKind::ProxyPassword => CredentialPromptKind::ProxyPassword,
        }
    }
}

impl CredentialPromptKind {
    /// What the secret that is asked for is for.
    pub open spec fn kind_of_secret(self) -> CredentialKind {
        match self {
            CredentialPromptKind::Password => CredentialKind::Password,
            CredentialPromptKind::PrivateKeyPassphrase { .. } => {
                CredentialKind::PrivateKeyPassphrase
            },
            CredentialPromptKind::ProxyPassword => CredentialKind::ProxyPassword,
        }
    }

    /// What the secret that is asked for is for.
    pub fn credential_kind(&self) -> (r: CredentialKind)
        ensures
            r == self.kind_of_secret(),
    {
        match self {
            CredentialPromptKind::Password => CredentialKind::Password,
            CredentialPromptKind::PrivateKeyPassphrase { .. } => {
                CredentialKind::PrivateKeyPassphrase
            },
            CredentialPromptKind::ProxyPassword => CredentialKind::ProxyPassword,
        }
    }

    /// The key of the name of the secret's field.
    pub open spec fn field_label(self) -> &'static str {
        match self {
            CredentialPromptKind::Password => "credential-password",
            CredentialPromptKind::PrivateKeyPassphrase { .. } => "credential-passphrase",
            CredentialPromptKind::ProxyPassword => "field-proxy-password",
        }
    }

    /// The key of the name of the secret's field.
    pub fn field_key(&self) -> (r: &'static str)
        ensures
            r == self.field_label(),
    {
        match self {
            CredentialPromptKind::Password => "credential-password",
            CredentialPromptKind::PrivateKeyPassphrase { .. } => "credential-passphrase",
            CredentialPromptKind::ProxyPassword => "field-proxy-password",
        }
    }
}

/// A secret that a connection was started with. `save_on_success` is the secret itself where it is
/// to be kept once it has proved right.
#[derive(Debug, PartialEq, Eq)]
pub struct ConnectionCredential<S> {
    pub profile_id: String,
    pub kind: CredentialKind,
    pub source: CredentialSource,
    pub save_on_success: Option<S>,
}

impl<S> ConnectionCredential<S> {
    /// A secret from the keychain; there is nothing to keep.
    pub fn from_keychain(profile_id: String, kind: CredentialKind) -> (r: Self)
        ensures
            r == (ConnectionCredential::<S> {
                profile_id,
                kind,
                source: CredentialSource::SystemKeychain,
                save_on_success: None,
            }),
    {
        ConnectionCredential {
            profile_id,
            kind,
            source: CredentialSource::SystemKeychain,
            save_on_success: None,
        }
    }

    /// A secret that the user has typed, to be kept if they asked for it.
    pub fn from_prompt(profile_id: String, kind: CredentialKind, save_on_success: Option<S>) -> (r:
        Self)
        ensures
            r == (ConnectionCredential {
                profile_id,
                kind,
                source: CredentialSource::Prompt,
                save_on_success,
            }),
    {
        ConnectionCredential { profile_id, kind, source: CredentialSource::Prompt, save_on_success }
    }
}

/// How a server is logged in to.
#[derive(Debug, PartialEq, Eq)]
pub enum AuthMethod<S> {
    NoPassword,
    Agent,
    Password { password: S },
    PrivateKey { path: PathBuf, passphrase: Option<S> },
}

/// A proxy with its secret.
#[derive(Debug, PartialEq, Eq)]
pub enum RuntimeProxy<S> {
    HttpConnect { host: String, port: u16, username: Option<String>, password: Option<S> },
    Socks5 { host: String, port: u16, username: Option<String>, password: Option<S> },
    ProxyCommand { command: S, approved_digest: Option<String> },
}

/// The way to log in with a secret that was asked for. A proxy's password is no way to log in to
/// a server.
pub fn auth_method_with_secret<S>(prompt_kind: CredentialPromptKind, secret: S) -> (r: AuthMethod<
    S,
>)
    requires
        prompt_kind != CredentialPromptKind::ProxyPassword,
    ensures
        r == match prompt_kind {
            CredentialPromptKind::PrivateKeyPassphrase { path } => AuthMethod::PrivateKey {
                path,
                passphrase: Some(secret),
            },
            _ => AuthMethod::Password { password: secret },
        },
{
    match prompt_kind {
        CredentialPromptKind::PrivateKeyPassphrase { path } => AuthMethod::PrivateKey {
            path,
            passphrase: Some(secret),
        },
        CredentialPromptKind::Password | CredentialPromptKind::ProxyPassword => {
            AuthMethod::Password { password: secret }
        },
    }
}

/// A profile's proxy with its password; none for a profile without a proxy that takes one.
pub open spec fn proxy_with_password<S>(
    proxy: Option<ProxyConfig>,
    password: S,
) -> Option<RuntimeProxy<S>> {
    match proxy {
        Some(ProxyConfig::HttpConnect { host, port, username }) => Some(
            RuntimeProxy::HttpConnect { host, port, username, password: Some(password) },
        ),
        Some(ProxyConfig::Socks5 { host, port, username }) => Some(
            RuntimeProxy::Socks5 { host, port, username, password: Some(password) },
        ),
        Some(ProxyConfig::ProxyCommand { .. }) => None,
        None => None,
    }
}

/// A profile's proxy with its password.
pub fn runtime_proxy_with_password<S>(profile: &ConnectionProfile, password: S) -> (r: Option<
    RuntimeProxy<S>,
>)
    ensures
        r == proxy_with_password(profile.route.upstream_proxy, password),
{
    match &profile.route.upstream_proxy {
        Some(ProxyConfig::HttpConnect { host, port, username }) => Some(
            RuntimeProxy::HttpConnect {
                host: host.clone(),
                port: *port,
                username: clone_opt_text(username),
                password: Some(password),
            },
        ),
        Some(ProxyConfig::Socks5 { host, port, username }) => Some(
            RuntimeProxy::Socks5 {
                host: host.clone(),
                port: *port,
                username: clone_opt_text(username),
                password: Some(password),
            },
        ),
        Some(ProxyConfig::ProxyCommand { .. }) => None,
        None => None,
    }
}

/// The secret that an error says was wrong: a proxy's password, a key's passphrase, or, of a
/// server that takes one, its password.
pub open spec fn rejected_kind(
    error_kind: SshErrorKind,
    authentication: Option<AuthConfig>,
) -> Option<CredentialKind> {
    match error_kind {
        SshErrorKind::ProxyAuthentication => Some(CredentialKind::ProxyPassword),
        SshErrorKind::PrivateKeyPassphrase => Some(CredentialKind::PrivateKeyPassphrase),
        SshErrorKind::Authentication => if authentication == Some(AuthConfig::Password) {
            Some(CredentialKind::Password)
        } else {
            None
        },
        _ => None,
    }
}

/// The secret that an error says was wrong.
pub fn rejected_credential_kind(
    error_kind: SshErrorKind,
    authentication: Option<&AuthConfig>,
) -> (r: Option<CredentialKind>)
    ensures
        r == rejected_kind(
            error_kind,
            match authentication {
                Some(auth) => Some(*auth),
                None => None,
            },
        ),
{
    match error_kind {
        SshErrorKind::ProxyAuthentication => Some(CredentialKind::ProxyPassword),
        SshErrorKind::PrivateKeyPassphrase => Some(CredentialKind::PrivateKeyPassphrase),
        SshErrorKind::Authentication => match authentication {
            Some(AuthConfig::Password) => Some(CredentialKind::Password),
            _ => None,
        },
        _ => None,
    }
}

/// A secret of `kind` for `profile_id`.
pub open spec fn is_credential_for<S>(
    kind: Option<CredentialKind>,
    profile_id: Seq<char>,
) -> spec_fn(ConnectionCredential<S>) -> bool {
    |credential: ConnectionCredential<S>|
        kind == Some(credential.kind) && credential.profile_id@ == profile_id
}

/// A secret that a successful login to `profile_id` has proved right: that server's own, or a
/// proxy's password.
pub open spec fn proved_by<S>(profile_id: Seq<char>) -> spec_fn(ConnectionCredential<S>) -> bool {
    |credential: ConnectionCredential<S>|
        credential.profile_id@ == profile_id || credential.kind == CredentialKind::ProxyPassword
}

/// The position of the secret that an error says was wrong.
pub fn find_rejected_credential<S>(
    credentials: &Vec<ConnectionCredential<S>>,
    kind: Option<CredentialKind>,
    profile_id: &str,
) -> (r: Option<usize>)
    ensures
        ({
            let i = crate::sequences::first_index(
                credentials@,
                is_credential_for::<S>(kind, profile_id@),
            );
            match r {
                Some(found) => found == i && i < credentials@.len(),
                None => i == credentials@.len(),
            }
        }),
{
    let mut i: usize = 0;
    while i < credentials.len()
        invariant
            i <= credentials@.len(),
            forall|k: int|
                0 <= k < i ==> !is_credential_for::<S>(kind, profile_id@)(
                    #[trigger] credentials@[k],
                ),
        decreases credentials@.len() - i,
    {
        if kind == Some(credentials[i].kind) && text_eq(
            credentials[i].profile_id.as_str(),
            profile_id,
        ) {
            proof {
                crate::sequences::first_index_is(
                    credentials@,
                    is_credential_for::<S>(kind, profile_id@),
                    i as int,
                );
            }
            return Some(i);
        }
        i = i + 1;
    }
    proof {
        crate::sequences::first_index_is(
            credentials@,
            is_credential_for::<S>(kind, profile_id@),
            i as int,
        );
    }
    None
}

/// A secret that has been proved right and is to be kept.
#[derive(Debug, PartialEq, Eq)]
pub struct CredentialToSave<S> {
    pub profile_id: String,
    pub kind: CredentialKind,
    pub secret: S,
}

/// Of these secrets, those that are to be kept.
pub open spec fn kept_secrets<S>(
    credentials: Seq<ConnectionCredential<S>>,
) -> Seq<CredentialToSave<S>>
    decreases credentials.len(),
{
    if credentials.len() == 0 {
        Seq::empty()
    } else {
        let before = kept_secrets(credentials.drop_last());
        let last = credentials.last();
        match last.save_on_success {
            Some(secret) => before.push(
                CredentialToSave { profile_id: last.profile_id, kind: last.kind, secret },
            ),
            None => before,
        }
    }
}

/// Parts the secrets after a successful login to `profile_id`: those it has proved right, as far
/// as they are to be kept, and the others.
pub fn take_successful_credentials<S>(
    credentials: Vec<ConnectionCredential<S>>,
    profile_id: &str,
) -> (r: (Vec<CredentialToSave<S>>, Vec<ConnectionCredential<S>>))
    ensures
        r.0@ == kept_secrets(credentials@.filter(proved_by::<S>(profile_id@))),
        r.1@ == credentials@.filter(
            |credential: ConnectionCredential<S>| !proved_by::<S>(profile_id@)(credential),
        ),
{
    let ghost all = credentials@;
    let ghost proved = proved_by::<S>(profile_id@);
    let ghost other = |credential: ConnectionCredential<S>|
        !proved_by::<S>(profile_id@)(credential);
    let mut saved: Vec<CredentialToSave<S>> = Vec::new();
    let mut remaining: Vec<ConnectionCredential<S>> = Vec::new();
    let mut rest: Vec<ConnectionCredential<S>> = credentials;
    let mut i: usize = 0;
    let count: usize = rest.len();
    proof {
        reveal(Seq::filter);
        assert(all.take(0).filter(proved) =~= Seq::<ConnectionCredential<S>>::empty());
        assert(remaining@ =~= all.take(0).filter(other));
        assert(all.skip(0) =~= all);
    }
    while i < count
        invariant
            i <= count,
            count == all.len(),
            rest@ == all.skip(i as int),
            proved == proved_by::<S>(profile_id@),
            other == (|credential: ConnectionCredential<S>|
                !proved_by::<S>(profile_id@)(credential)),
            saved@ == kept_secrets(all.take(i as int).filter(proved)),
            remaining@ == all.take(i as int).filter(other),
        decreases count - i,
    {
        let credential = rest.remove(0);
        proof {
            assert(all.skip(i as int)[0] == all[i as int]);
            assert(all.skip(i as int).remove(0) =~= all.skip(i + 1));
            assert(all.take(i + 1) =~= all.take(i as int).push(all[i as int]));
            crate::text::filter_push(all.take(i as int), all[i as int], proved);
            crate::text::filter_push(all.take(i as int), all[i as int], other);
            let before = all.take(i as int).filter(proved);
            assert(before.push(all[i as int]).drop_last() =~= before);
        }
        if text_eq(credential.profile_id.as_str(), profile_id) || credential.kind
            == CredentialKind::ProxyPassword {
            match credential.save_on_success {
                Some(secret) => {
                    saved.push(
                        CredentialToSave {
                            profile_id: credential.profile_id,
                            kind: credential.kind,
                            secret,
                        },
                    );
                },
                None => {},
            }
        } else {
            remaining.push(credential);
        }
        i = i + 1;
    }
    assert(all.take(i as int) =~= all);
    (saved, remaining)
}

/// The secrets to keep come only from credentials that were to be kept: a secret from the keychain
/// is never written back.
pub proof fn only_prompted_secrets_are_kept<S>(
    credentials: Seq<ConnectionCredential<S>>,
    i: int,
)
    requires
        0 <= i < kept_secrets(credentials).len(),
    ensures
        exists|k: int|
            0 <= k < credentials.len() && (#[trigger] credentials[k]).save_on_success == Some(
                kept_secrets(credentials)[i].secret,
            ) && credentials[k].kind == kept_secrets(credentials)[i].kind
                && credentials[k].profile_id == kept_secrets(credentials)[i].profile_id,
    decreases credentials.len(),
{
    let head = credentials.drop_last();
    if i < kept_secrets(head).len() {
        only_prompted_secrets_are_kept(head, i);
        let k = choose|k: int|
            0 <= k < head.len() && (#[trigger] head[k]).save_on_success == Some(
                kept_secrets(head)[i].secret,
            ) && head[k].kind == kept_secrets(head)[i].kind && head[k].profile_id == kept_secrets(
                head,
            )[i].profile_id;
        assert(credentials[k] == head[k]);
    } else {
        assert(credentials[credentials.len() - 1] == credentials.last());
    }
}

/// A question to the user for a secret.
#[derive(Debug, PartialEq, Eq)]
pub struct CredentialPrompt {
    pub session_id: SessionId,
    pub profile_id: String,
    pub kind: CredentialPromptKind,
    pub remember: bool,
    pub error: Option<String>,
}

impl CredentialPrompt {
    /// A new question: the secret is not remembered unless the user asks for it.
    pub fn new(
        session_id: SessionId,
        profile_id: String,
        kind: CredentialPromptKind,
        error: Option<String>,
    ) -> (r: Self)
        ensures
            r == (CredentialPrompt { session_id, profile_id, kind, remember: false, error }),
    {
        CredentialPrompt { session_id, profile_id, kind, remember: false, error }
    }

    /// The user changes their mind about having the secret remembered.
    pub fn toggle_remember(&mut self)
        ensures
            *final(self) == (CredentialPrompt { remember: !old(self).remember, ..*old(self) }),
    {
        self.remember = !self.remember;
    }
}

/// What the question for a secret shows: the key of its title, the key of its field's name, and
/// the key file where it is about one.
pub fn credential_prompt_labels(kind: &CredentialPromptKind) -> (r: (
    &'static str,
    &'static str,
    Option<String>,
))
    ensures
        r.0 == match *kind {
            CredentialPromptKind::Password => "credential-password",
            CredentialPromptKind::PrivateKeyPassphrase { .. } => {
                "credential-private-key-passphrase"
            },
            CredentialPromptKind::ProxyPassword => "field-proxy-password",
        },
        r.1 == kind.field_label(),
        match *kind {
            CredentialPromptKind::PrivateKeyPassphrase { path } => r.2 matches Some(shown)
                && shown@ == local_display(path),
            _ => r.2 is None,
        },
{
    match kind {
        CredentialPromptKind::Password => ("credential-password", "credential-password", None),
        CredentialPromptKind::PrivateKeyPassphrase { path } => (
            "credential-private-key-passphrase",
            "credential-passphrase",
            Some(local_path_text(path)),
        ),
        CredentialPromptKind::ProxyPassword => (
            "field-proxy-password",
            "field-proxy-password",
            None,
        ),
    }
}

/// Every secret that was to be kept is kept, for the profile and the purpose it was given for.
pub proof fn every_secret_to_keep_is_kept<S>(
    credentials: Seq<ConnectionCredential<S>>,
    i: int,
)
    requires
        0 <= i < credentials.len(),
        credentials[i].save_on_success is Some,
    ensures
        exists|k: int|
            0 <= k < kept_secrets(credentials).len() && (#[trigger] kept_secrets(
                credentials,
            )[k]).profile_id == credentials[i].profile_id && kept_secrets(credentials)[k].kind
                == credentials[i].kind && Some(kept_secrets(credentials)[k].secret)
                == credentials[i].save_on_success,
    decreases credentials.len(),
{
    let head = credentials.drop_last();
    if i < head.len() {
        every_secret_to_keep_is_kept(head, i);
        let k = choose|k: int|
            0 <= k < kept_secrets(head).len() && (#[trigger] kept_secrets(head)[k]).profile_id
                == head[i].profile_id && kept_secrets(head)[k].kind == head[i].kind && Some(
                kept_secrets(head)[k].secret,
            ) == head[i].save_on_success;
        assert(kept_secrets(credentials)[k] == kept_secrets(head)[k]);
    } else {
        let k = kept_secrets(head).len() as int;
        assert(kept_secrets(credentials)[k].profile_id == credentials[i].profile_id);
    }
}

/// One secret more is kept exactly when it was to be kept; those before stay as they are.
pub proof fn one_secret_more_is_kept<S>(
    credentials: Seq<ConnectionCredential<S>>,
    credential: ConnectionCredential<S>,
)
    ensures
        kept_secrets(Seq::<ConnectionCredential<S>>::empty()).len() == 0,
        credential.save_on_success is None ==> kept_secrets(credentials.push(credential))
            == kept_secrets(credentials),
        credential.save_on_success matches Some(secret) ==> kept_secrets(
            credentials.push(credential),
        ) == kept_secrets(credentials).push(
            CredentialToSave { profile_id: credential.profile_id, kind: credential.kind, secret },
        ),
{
    assert(credentials.push(credential).drop_last() =~= credentials);
}

} // verus!
