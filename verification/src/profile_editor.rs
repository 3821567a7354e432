//! Editing a connection profile: what is typed, what is wrong with it, and what it is saved as.
use crate::credentials::CredentialKind;
use crate::local_path::{
    local_lossy, local_path_of, local_paths_equal, path_from_text, path_lossy_text,
};
use crate::number::{
    decimal, decimal_value_of_decimal, is_digit, parse_of_decimal, parse_u16, parsed_number,
    parsed_u16, u64_text,
};
use crate::profile::{
    auth_eq, clone_profiles, find_profile, has_profile, profile_position,
    profile_position_is_first, proxy_eq, same_auth, same_profile, same_proxy, AuthConfig,
    ConnectionProfile, ConnectionRoute, ProxyConfig,
};
use crate::text::{
    clone_opt_text, clone_texts, contains_text, has_part, is_white_space, lower_case, opt_view,
    position_of_text, text_before, text_contains, text_eq, text_is_empty, text_less,
    text_less_total, text_less_transitive, to_lower_case, trim, trimmed, views, views_push,
};
use std::path::PathBuf;
use vstd::prelude::*;
use vstd::string::*;

verus! {

/// What the editor is open for.
#[derive(Clone, Copy, Debug, PartialEq, Eq, Structural)]
pub enum ProfileEditorMode {
    Create,
    Edit,
}

/// The ways to log in to choose from.
#[derive(Clone, Copy, Debug, PartialEq, Eq, Structural)]
pub enum ProfileAuthKind {
    NoPassword,
    Password,
    PrivateKey,
    Agent,
}

/// The kinds of proxy to choose from.
#[derive(Clone, Copy, Debug, PartialEq, Eq, Structural)]
pub enum ProfileProxyKind {
    Direct,
    HttpConnect,
    Socks5,
    ProxyCommand,
}

/// The kind of a proxy.
pub open spec fn proxy_kind_of(config: Option<ProxyConfig>) -> ProfileProxyKind {
    match config {
        None => ProfileProxyKind::Direct,
        Some(ProxyConfig::HttpConnect { .. }) => ProfileProxyKind::HttpConnect,
        Some(ProxyConfig::Socks5 { .. }) => ProfileProxyKind::Socks5,
        Some(ProxyConfig::ProxyCommand { .. }) => ProfileProxyKind::ProxyCommand,
    }
}

impl ProfileProxyKind {
    /// The kinds of proxy, in the order in which they are offered.
    pub fn options() -> (r: [ProfileProxyKind; 4])
        ensures
            r@ == seq![
                ProfileProxyKind::Direct,
                ProfileProxyKind::HttpConnect,
                ProfileProxyKind::Socks5,
                ProfileProxyKind::ProxyCommand,
            ],
    {
        let options = [
            ProfileProxyKind::Direct,
            ProfileProxyKind::HttpConnect,
            ProfileProxyKind::Socks5,
            ProfileProxyKind::ProxyCommand,
        ];
        assert(options@ =~= seq![
            ProfileProxyKind::Direct,
            ProfileProxyKind::HttpConnect,
            ProfileProxyKind::Socks5,
            ProfileProxyKind::ProxyCommand,
        ]);
        options
    }

    /// The kind of a proxy.
    pub fn from_config(config: Option<&ProxyConfig>) -> (r: Self)
        ensures
            r == proxy_kind_of(
                match config {
                    Some(proxy) => Some(*proxy),
                    None => None,
                },
            ),
    {
        match config {
            None => ProfileProxyKind::Direct,
            Some(ProxyConfig::HttpConnect { .. }) => ProfileProxyKind::HttpConnect,
            Some(ProxyConfig::Socks5 { .. }) => ProfileProxyKind::Socks5,
            Some(ProxyConfig::ProxyCommand { .. }) => ProfileProxyKind::ProxyCommand,
        }
    }

    /// The key of the kind's name.
    pub fn label_key(self) -> (r: &'static str)
        ensures
            r == match self {
                ProfileProxyKind::Direct => "profile-proxy-direct",
                ProfileProxyKind::HttpConnect => "profile-proxy-http",
                ProfileProxyKind::Socks5 => "profile-proxy-socks5",
                ProfileProxyKind::ProxyCommand => "profile-proxy-command",
            },
    {
        match self {
            ProfileProxyKind::Direct => "profile-proxy-direct",
            ProfileProxyKind::HttpConnect => "profile-proxy-http",
            ProfileProxyKind::Socks5 => "profile-proxy-socks5",
            ProfileProxyKind::ProxyCommand => "profile-proxy-command",
        }
    }
}

/// The kind of a way to log in.
pub open spec fn auth_kind_of(config: AuthConfig) -> ProfileAuthKind {
    match config {
        AuthConfig::NoPassword => ProfileAuthKind::NoPassword,
        AuthConfig::Password => ProfileAuthKind::Password,
        AuthConfig::PrivateKey { .. } => ProfileAuthKind::PrivateKey,
        AuthConfig::Agent => ProfileAuthKind::Agent,
    }
}

/// The way to log in of a kind, with what was typed as the key file's path: none for a key without
/// a path.
pub open spec fn typed_auth(kind: ProfileAuthKind, private_key_path: Seq<char>) -> Option<
    AuthConfig,
> {
    match kind {
        ProfileAuthKind::NoPassword => Some(AuthConfig::NoPassword),
        ProfileAuthKind::Password => Some(AuthConfig::Password),
        ProfileAuthKind::PrivateKey => if trim(private_key_path).len() == 0 {
            None
        } else {
            Some(AuthConfig::PrivateKey { path: local_path_of(trim(private_key_path)) })
        },
        ProfileAuthKind::Agent => Some(AuthConfig::Agent),
    }
}

impl ProfileAuthKind {
    /// The ways to log in with their names, in the order in which they are offered.
    pub fn options() -> (r: [(ProfileAuthKind, &'static str); 4])
        ensures
            r@ == seq![
                (ProfileAuthKind::NoPassword, "No Password"),
                (ProfileAuthKind::Password, "Password"),
                (ProfileAuthKind::PrivateKey, "Private Key"),
                (ProfileAuthKind::Agent, "SSH Agent"),
            ],
    {
        let options = [
            (ProfileAuthKind::NoPassword, "No Password"),
            (ProfileAuthKind::Password, "Password"),
            (ProfileAuthKind::PrivateKey, "Private Key"),
            (ProfileAuthKind::Agent, "SSH Agent"),
        ];
        assert(options@ =~= seq![
            (ProfileAuthKind::NoPassword, "No Password"),
            (ProfileAuthKind::Password, "Password"),
            (ProfileAuthKind::PrivateKey, "Private Key"),
            (ProfileAuthKind::Agent, "SSH Agent"),
        ]);
        options
    }

    /// The kind of a way to log in.
    pub fn from_config(config: &AuthConfig) -> (r: Self)
        ensures
            r == auth_kind_of(*config),
    {
        match config {
            AuthConfig::NoPassword => ProfileAuthKind::NoPassword,
            AuthConfig::Password => ProfileAuthKind::Password,
            AuthConfig::PrivateKey { .. } => ProfileAuthKind::PrivateKey,
            AuthConfig::Agent => ProfileAuthKind::Agent,
        }
    }

    /// The way to log in of this kind.
    pub fn into_config(self, private_key_path: &str) -> (r: Result<AuthConfig, &'static str>)
        ensures
            match r {
                Ok(auth) => typed_auth(self, private_key_path@) == Some(auth),
                Err(key) => typed_auth(self, private_key_path@) is None && key
                    == "profile-validation-private-key",
            },
    {
        match self {
            ProfileAuthKind::NoPassword => Ok(AuthConfig::NoPassword),
            ProfileAuthKind::Password => Ok(AuthConfig::Password),
            ProfileAuthKind::PrivateKey => {
                let path = trimmed(private_key_path);
                if path.is_empty() {
                    return Err("profile-validation-private-key");
                }
                Ok(AuthConfig::PrivateKey { path: path_from_text(path) })
            },
            ProfileAuthKind::Agent => Ok(AuthConfig::Agent),
        }
    }
}

/// The key of the name of a profile's way to log in.
pub fn profile_auth_label(auth: &AuthConfig) -> (r: &'static str)
    ensures
        r == match *auth {
            AuthConfig::NoPassword => "common-none",
            AuthConfig::Password => "credential-password",
            AuthConfig::PrivateKey { .. } => "profile-auth-private-key",
            AuthConfig::Agent => "profile-auth-agent",
        },
{
    match auth {
        AuthConfig::NoPassword => "common-none",
        AuthConfig::Password => "credential-password",
        AuthConfig::PrivateKey { .. } => "profile-auth-private-key",
        AuthConfig::Agent => "profile-auth-agent",
    }
}

/// The key of the name of a way to log in to choose.
pub fn profile_auth_kind_key(kind: ProfileAuthKind) -> (r: &'static str)
    ensures
        r == match kind {
            ProfileAuthKind::NoPassword => "profile-auth-none",
            ProfileAuthKind::Password => "profile-auth-password",
            ProfileAuthKind::PrivateKey => "profile-auth-private-key",
            ProfileAuthKind::Agent => "profile-auth-agent",
        },
{
    match kind {
        ProfileAuthKind::NoPassword => "profile-auth-none",
        ProfileAuthKind::Password => "profile-auth-password",
        ProfileAuthKind::PrivateKey => "profile-auth-private-key",
        ProfileAuthKind::Agent => "profile-auth-agent",
    }
}

/// An edit makes stored secrets useless: it changes who logs in where, or how.
pub open spec fn identity_changed(
    profile: ConnectionProfile,
    host: Seq<char>,
    port: u16,
    username: Seq<char>,
    auth: AuthConfig,
) -> bool {
    profile.host@ != host || profile.port != port || profile.username@ != username || !same_auth(
        profile.auth,
        auth,
    )
}

/// An edit makes stored secrets useless.
pub fn credentials_invalidated_by_edit(
    profile: &ConnectionProfile,
    host: &str,
    port: u16,
    username: &str,
    auth: &AuthConfig,
) -> (r: bool)
    ensures
        r == identity_changed(*profile, host@, port, username@, *auth),
        profile.host@ != host@ ==> r,
        profile.port != port ==> r,
        profile.username@ != username@ ==> r,
        !same_auth(profile.auth, *auth) ==> r,
{
    !text_eq(profile.host.as_str(), host) || profile.port != port || !text_eq(
        profile.username.as_str(),
        username,
    ) || !auth_eq(&profile.auth, auth)
}

/// What is in the editor's fields.
#[derive(Debug, PartialEq, Eq)]
pub struct ProfileEditor {
    pub mode: ProfileEditorMode,
    pub profile_id: String,
    pub name: String,
    pub host: String,
    pub port: String,
    pub username: String,
    pub auth_kind: ProfileAuthKind,
    pub private_key_path: String,
    pub proxy_kind: ProfileProxyKind,
    pub proxy_host: String,
    pub proxy_port: String,
    pub proxy_username: String,
    pub proxy_password: String,
    pub proxy_command: String,
    pub jump_host_ids: Vec<String>,
    /// The proxy's stored secret has been looked up.
    pub proxy_secret_loaded: bool,
}

/// What is wrong with what was typed.
#[derive(Clone, Copy, Debug, PartialEq, Eq, Structural)]
pub enum EditorError {
    SecretLoading,
    Required,
    Port,
    PrivateKey,
    Proxy,
    ProxyAuth,
    ProxyCommand,
    Jumps,
    ProxyJump,
}

impl EditorError {
    /// The key of what the error says.
    pub fn key(self) -> (r: &'static str)
        ensures
            r == match self {
                EditorError::SecretLoading => "credential-checking",
                EditorError::Required => "profile-validation-required",
                EditorError::Port => "profile-validation-port",
                EditorError::PrivateKey => "profile-validation-private-key",
                EditorError::Proxy => "profile-validation-proxy",
                EditorError::ProxyAuth => "profile-validation-proxy-auth",
                EditorError::ProxyCommand => "profile-validation-proxy-command",
                EditorError::Jumps => "profile-validation-jumps",
                EditorError::ProxyJump => "profile-validation-proxy-jump",
            },
    {
        match self {
            EditorError::SecretLoading => "credential-checking",
            EditorError::Required => "profile-validation-required",
            EditorError::Port => "profile-validation-port",
            EditorError::PrivateKey => "profile-validation-private-key",
            EditorError::Proxy => "profile-validation-proxy",
            EditorError::ProxyAuth => "profile-validation-proxy-auth",
            EditorError::ProxyCommand => "profile-validation-proxy-command",
            EditorError::Jumps => "profile-validation-jumps",
            EditorError::ProxyJump => "profile-validation-proxy-jump",
        }
    }
}

/// A port that was typed: a number from 1 on.
pub open spec fn typed_port(text: Seq<char>) -> Option<u16> {
    match parsed_u16(trim(text)) {
        Some(port) => if port == 0 {
            None
        } else {
            Some(port)
        },
        None => None,
    }
}

/// What is wrong with the proxy that was typed.
pub open spec fn proxy_error(editor: ProfileEditor) -> Option<EditorError> {
    match editor.proxy_kind {
        ProfileProxyKind::Direct => None,
        ProfileProxyKind::HttpConnect | ProfileProxyKind::Socks5 => {
            match parsed_u16(trim(editor.proxy_port@)) {
                None => Some(EditorError::Port),
                Some(port) => if trim(editor.proxy_host@).len() == 0 || port == 0 {
                    Some(EditorError::Proxy)
                } else if trim(editor.proxy_username@).len() == 0 && editor.proxy_password@.len()
                    > 0 {
                    Some(EditorError::ProxyAuth)
                } else {
                    None
                },
            }
        },
        ProfileProxyKind::ProxyCommand => if trim(editor.proxy_command@).len() == 0 {
            Some(EditorError::ProxyCommand)
        } else {
            None
        },
    }
}

/// The server to jump over at `i` is the profile itself, stands before already, or has no profile.
pub open spec fn is_bad_jump(
    jumps: Seq<Seq<char>>,
    own: Seq<char>,
    profiles: Seq<ConnectionProfile>,
    i: int,
) -> bool {
    jumps[i] == own || jumps.take(i).contains(jumps[i]) || !has_profile(profiles, jumps[i])
}

/// Some server to jump over cannot be jumped over.
pub open spec fn has_bad_jump(
    jumps: Seq<Seq<char>>,
    own: Seq<char>,
    profiles: Seq<ConnectionProfile>,
) -> bool {
    exists|i: int| 0 <= i < jumps.len() && #[trigger] is_bad_jump(jumps, own, profiles, i)
}

/// What is wrong with what was typed: the first thing in the order of the fields.
pub open spec fn editor_error(
    editor: ProfileEditor,
    profiles: Seq<ConnectionProfile>,
) -> Option<EditorError> {
    if !editor.proxy_secret_loaded {
        Some(EditorError::SecretLoading)
    } else if trim(editor.name@).len() == 0 || trim(editor.host@).len() == 0 || trim(
        editor.username@,
    ).len() == 0 {
        Some(EditorError::Required)
    } else if typed_port(editor.port@) is None {
        Some(EditorError::Port)
    } else if typed_auth(editor.auth_kind, editor.private_key_path@) is None {
        Some(EditorError::PrivateKey)
    } else if proxy_error(editor) is Some {
        proxy_error(editor)
    } else if has_bad_jump(views(editor.jump_host_ids@), editor.profile_id@, profiles) {
        Some(EditorError::Jumps)
    } else if editor.proxy_kind == ProfileProxyKind::ProxyCommand && editor.jump_host_ids@.len()
        > 0 {
        Some(EditorError::ProxyJump)
    } else {
        None
    }
}

/// What saving comes to: the profiles with the saved one, the secrets to keep, and whether stored
/// ones have to go.
#[derive(Debug, PartialEq, Eq)]
pub struct ProfileSave {
    pub profile: ConnectionProfile,
    pub profiles: Vec<ConnectionProfile>,
    pub proxy_password: Option<String>,
    pub proxy_command: Option<String>,
    /// The secrets of the route have to be written or taken out.
    pub route_secrets_changed: bool,
    /// The stored secrets for logging in have become useless.
    pub credentials_changed: bool,
}

/// The profile that is being edited, as it was saved last.
pub open spec fn existing_profile(
    editor: ProfileEditor,
    profiles: Seq<ConnectionProfile>,
) -> Option<ConnectionProfile> {
    if has_profile(profiles, editor.profile_id@) {
        Some(profiles[profile_position(profiles, editor.profile_id@)])
    } else {
        None
    }
}

/// The proxy that was typed. `digest` is that of the proxy command. An approval is kept where
/// nothing that the expanded command depends on has changed.
pub open spec fn is_typed_proxy(
    editor: ProfileEditor,
    existing: Option<ConnectionProfile>,
    digest: Seq<char>,
    proxy: Option<ProxyConfig>,
) -> bool {
    let username = trim(editor.proxy_username@);
    let shown = if username.len() == 0 {
        None
    } else {
        Some(username)
    };
    match (editor.proxy_kind, proxy) {
        (ProfileProxyKind::Direct, None) => true,
        (
            ProfileProxyKind::HttpConnect,
            Some(ProxyConfig::HttpConnect { host, port, username: given }),
        ) => host@ == trim(editor.proxy_host@) && Some(port) == parsed_u16(
            trim(editor.proxy_port@),
        ) && opt_view(given) == shown,
        (
            ProfileProxyKind::Socks5,
            Some(ProxyConfig::Socks5 { host, port, username: given }),
        ) => host@ == trim(editor.proxy_host@) && Some(port) == parsed_u16(
            trim(editor.proxy_port@),
        ) && opt_view(given) == shown,
        (
            ProfileProxyKind::ProxyCommand,
            Some(ProxyConfig::ProxyCommand { command_digest, approved_digest }),
        ) => command_digest@ == digest && approved_digest == kept_approval(
            editor,
            existing,
            digest,
        ),
        _ => false,
    }
}

/// The approval of a proxy command that an edit keeps.
pub open spec fn kept_approval(
    editor: ProfileEditor,
    existing: Option<ConnectionProfile>,
    digest: Seq<char>,
) -> Option<String> {
    match existing {
        Some(profile) => match profile.route.upstream_proxy {
            Some(ProxyConfig::ProxyCommand { command_digest, approved_digest }) => {
                if profile.name@ == trim(editor.name@) && profile.host@ == trim(editor.host@)
                    && Some(profile.port) == typed_port(editor.port@) && profile.username@ == trim(
                    editor.username@,
                ) && command_digest@ == digest {
                    approved_digest
                } else {
                    None
                }
            },
            _ => None,
        },
        None => None,
    }
}

/// `profile` is what was typed.
pub open spec fn is_typed_profile(
    editor: ProfileEditor,
    existing: Option<ConnectionProfile>,
    digest: Seq<char>,
    profile: ConnectionProfile,
) -> bool {
    &&& profile.id@ == editor.profile_id@
    &&& profile.name@ == trim(editor.name@)
    &&& profile.host@ == trim(editor.host@)
    &&& Some(profile.port) == typed_port(editor.port@)
    &&& profile.username@ == trim(editor.username@)
    &&& Some(profile.auth) == typed_auth(editor.auth_kind, editor.private_key_path@)
    &&& is_typed_proxy(editor, existing, digest, profile.route.upstream_proxy)
    &&& profile.route.jump_host_ids@ == editor.jump_host_ids@
}

/// `after` is `before` with `profile` in the place of the one with its identifier, or at the end.
pub open spec fn with_profile(
    before: Seq<ConnectionProfile>,
    profile: ConnectionProfile,
    after: Seq<ConnectionProfile>,
) -> bool {
    let p = profile_position(before, profile.id@);
    if has_profile(before, profile.id@) {
        &&& after.len() == before.len()
        &&& same_profile(after[p], profile)
        &&& forall|i: int|
            0 <= i < before.len() && i != p ==> same_profile(#[trigger] after[i], before[i])
    } else {
        &&& after.len() == before.len() + 1
        &&& same_profile(after[before.len() as int], profile)
        &&& forall|i: int| 0 <= i < before.len() ==> same_profile(#[trigger] after[i], before[i])
    }
}

/// `save` is what saving what was typed comes to.
pub open spec fn is_save_of(
    editor: ProfileEditor,
    profiles: Seq<ConnectionProfile>,
    digest: Seq<char>,
    save: ProfileSave,
) -> bool {
    let existing = existing_profile(editor, profiles);
    let is_login_proxy = editor.proxy_kind == ProfileProxyKind::HttpConnect || editor.proxy_kind
        == ProfileProxyKind::Socks5;
    &&& is_typed_profile(editor, existing, digest, save.profile)
    &&& with_profile(profiles, save.profile, save.profiles@)
    &&& opt_view(save.proxy_password) == if is_login_proxy && editor.proxy_password@.len() > 0 {
        Some(editor.proxy_password@)
    } else {
        None
    }
    &&& opt_view(save.proxy_command) == if editor.proxy_kind == ProfileProxyKind::ProxyCommand {
        Some(trim(editor.proxy_command@))
    } else {
        None
    }
    &&& save.route_secrets_changed == (save.proxy_password is Some || save.proxy_command is Some
        || match existing {
        Some(profile) => profile.route.upstream_proxy is Some && !same_proxy(
            profile.route.upstream_proxy,
            save.profile.route.upstream_proxy,
        ),
        None => false,
    })
    &&& save.credentials_changed == (editor.mode == ProfileEditorMode::Edit && match existing {
        Some(profile) => identity_changed(
            profile,
            save.profile.host@,
            save.profile.port,
            save.profile.username@,
            save.profile.auth,
        ),
        None => false,
    })
}

/// Some server to jump over cannot be jumped over.
fn jumps_are_bad(jumps: &Vec<String>, own: &str, profiles: &Vec<ConnectionProfile>) -> (r: bool)
    ensures
        r == has_bad_jump(views(jumps@), own@, profiles@),
{
    let ghost all = views(jumps@);
    let mut seen: Vec<String> = Vec::new();
    let mut i: usize = 0;
    assert(views(seen@) =~= all.take(0));
    while i < jumps.len()
        invariant
            i <= jumps@.len(),
            all == views(jumps@),
            views(seen@) == all.take(i as int),
            forall|k: int| 0 <= k < i ==> !#[trigger] is_bad_jump(all, own@, profiles@, k),
        decreases jumps@.len() - i,
    {
        let jump = jumps[i].as_str();
        assert(all[i as int] == jump@);
        if text_eq(jump, own) || contains_text(&seen, jump) || find_profile(
            profiles,
            jump,
        ).is_none() {
            assert(is_bad_jump(all, own@, profiles@, i as int));
            return true;
        }
        assert(!is_bad_jump(all, own@, profiles@, i as int));
        let copy = jumps[i].clone();
        proof {
            views_push(seen@, copy);
            assert(all.take(i + 1) =~= all.take(i as int).push(all[i as int]));
        }
        seen.push(copy);
        i = i + 1;
    }
    false
}

/// The proxy that was typed.
fn typed_proxy(
    editor: &ProfileEditor,
    existing: &Option<ConnectionProfile>,
    port: u16,
    digest: &str,
) -> (r: Result<Option<ProxyConfig>, EditorError>)
    requires
        typed_port(editor.port@) == Some(port),
    ensures
        match r {
            Ok(proxy) => proxy_error(*editor) is None && is_typed_proxy(
                *editor,
                *existing,
                digest@,
                proxy,
            ),
            Err(error) => proxy_error(*editor) == Some(error),
        },
{
    let kind = editor.proxy_kind;
    match kind {
        ProfileProxyKind::Direct => Ok(None),
        ProfileProxyKind::HttpConnect | ProfileProxyKind::Socks5 => {
            let proxy_port: u16 = match parse_u16(trimmed(editor.proxy_port.as_str())) {
                Some(port) => port,
                None => {
                    return Err(EditorError::Port);
                },
            };
            let host = trimmed(editor.proxy_host.as_str());
            let username = trimmed(editor.proxy_username.as_str());
            if host.is_empty() || proxy_port == 0 {
                return Err(EditorError::Proxy);
            }
            if username.is_empty() && !text_is_empty(editor.proxy_password.as_str()) {
                return Err(EditorError::ProxyAuth);
            }
            let given: Option<String> = if username.is_empty() {
                None
            } else {
                Some(username.to_owned())
            };
            if kind == ProfileProxyKind::HttpConnect {
                Ok(
                    Some(
                        ProxyConfig::HttpConnect {
                            host: host.to_owned(),
                            port: proxy_port,
                            username: given,
                        },
                    ),
                )
            } else {
                Ok(
                    Some(
                        ProxyConfig::Socks5 {
                            host: host.to_owned(),
                            port: proxy_port,
                            username: given,
                        },
                    ),
                )
            }
        },
        ProfileProxyKind::ProxyCommand => {
            if trimmed(editor.proxy_command.as_str()).is_empty() {
                return Err(EditorError::ProxyCommand);
            }
            let approved_digest: Option<String> = match existing {
                Some(profile) => match &profile.route.upstream_proxy {
                    Some(ProxyConfig::ProxyCommand { command_digest, approved_digest }) => {
                        if text_eq(profile.name.as_str(), trimmed(editor.name.as_str()))
                            && text_eq(profile.host.as_str(), trimmed(editor.host.as_str()))
                            && profile.port == port && text_eq(
                            profile.username.as_str(),
                            trimmed(editor.username.as_str()),
                        ) && text_eq(command_digest.as_str(), digest) {
                            clone_opt_text(approved_digest)
                        } else {
                            None
                        }
                    },
                    _ => None,
                },
                None => None,
            };
            Ok(
                Some(
                    ProxyConfig::ProxyCommand {
                        command_digest: digest.to_owned(),
                        approved_digest,
                    },
                ),
            )
        },
    }
}

/// The list of profiles with one saved.
fn save_into(profiles: &Vec<ConnectionProfile>, profile: &ConnectionProfile) -> (r: Vec<
    ConnectionProfile,
>)
    ensures
        with_profile(profiles@, *profile, r@),
{
    let mut next: Vec<ConnectionProfile> = clone_profiles(profiles);
    match find_profile(profiles, profile.id.as_str()) {
        Some(index) => {
            next.set(index, profile.clone());
        },
        None => {
            next.push(profile.clone());
        },
    }
    next
}

/// Checks what was typed and says what saving it comes to. `command_digest` is the digest of the
/// proxy command without the white space around it.
pub fn save_editor(
    editor: &ProfileEditor,
    profiles: &Vec<ConnectionProfile>,
    command_digest: &str,
) -> (r: Result<ProfileSave, EditorError>)
    ensures
        match r {
            Ok(save) => editor_error(*editor, profiles@) is None && is_save_of(
                *editor,
                profiles@,
                command_digest@,
                save,
            ),
            Err(error) => editor_error(*editor, profiles@) == Some(error),
        },
{
    if !editor.proxy_secret_loaded {
        return Err(EditorError::SecretLoading);
    }
    let name = trimmed(editor.name.as_str());
    let host = trimmed(editor.host.as_str());
    let username = trimmed(editor.username.as_str());
    if name.is_empty() || host.is_empty() || username.is_empty() {
        return Err(EditorError::Required);
    }
    let port: u16 = match parse_u16(trimmed(editor.port.as_str())) {
        Some(port) => port,
        None => {
            return Err(EditorError::Port);
        },
    };
    if port == 0 {
        return Err(EditorError::Port);
    }
    let auth = match editor.auth_kind.into_config(editor.private_key_path.as_str()) {
        Ok(auth) => auth,
        Err(_) => {
            return Err(EditorError::PrivateKey);
        },
    };
    let existing_at = find_profile(profiles, editor.profile_id.as_str());
    let existing: Option<ConnectionProfile> = match existing_at {
        Some(index) => Some(profiles[index].clone()),
        None => None,
    };
    let upstream_proxy = match typed_proxy(editor, &existing, port, command_digest) {
        Ok(proxy) => proxy,
        Err(error) => {
            return Err(error);
        },
    };
    if jumps_are_bad(&editor.jump_host_ids, editor.profile_id.as_str(), profiles) {
        return Err(EditorError::Jumps);
    }
    if editor.proxy_kind == ProfileProxyKind::ProxyCommand && editor.jump_host_ids.len() > 0 {
        return Err(EditorError::ProxyJump);
    }
    let credentials_changed = match &existing {
        Some(profile) => editor.mode == ProfileEditorMode::Edit
            && credentials_invalidated_by_edit(profile, host, port, username, &auth),
        None => false,
    };
    let login_proxy = matches!(
        editor.proxy_kind,
        ProfileProxyKind::HttpConnect | ProfileProxyKind::Socks5
    );
    let proxy_password: Option<String> = if login_proxy && !text_is_empty(
        editor.proxy_password.as_str(),
    ) {
        Some(editor.proxy_password.clone())
    } else {
        None
    };
    let proxy_command: Option<String> = if editor.proxy_kind == ProfileProxyKind::ProxyCommand {
        Some(trimmed(editor.proxy_command.as_str()).to_owned())
    } else {
        None
    };
    let route_changed = match &existing {
        Some(profile) => profile.route.upstream_proxy.is_some() && !proxy_eq(
            &profile.route.upstream_proxy,
            &upstream_proxy,
        ),
        None => false,
    };
    let profile = ConnectionProfile {
        id: editor.profile_id.clone(),
        name: name.to_owned(),
        host: host.to_owned(),
        port,
        username: username.to_owned(),
        auth,
        route: ConnectionRoute {
            upstream_proxy,
            jump_host_ids: clone_texts(&editor.jump_host_ids),
        },
    };
    let next = save_into(profiles, &profile);
    let route_secrets_changed = proxy_password.is_some() || proxy_command.is_some()
        || route_changed;
    Ok(
        ProfileSave {
            profile,
            profiles: next,
            proxy_password,
            proxy_command,
            route_secrets_changed,
            credentials_changed,
        },
    )
}

/// The fields of the proxy of a profile: host, port and user name.
pub open spec fn proxy_fields(proxy: Option<ProxyConfig>) -> (Seq<char>, Seq<char>, Seq<char>) {
    match proxy {
        Some(ProxyConfig::HttpConnect { host, port, username }) => (
            host@,
            decimal(port as nat),
            match username {
                Some(name) => name@,
                None => Seq::empty(),
            },
        ),
        Some(ProxyConfig::Socks5 { host, port, username }) => (
            host@,
            decimal(port as nat),
            match username {
                Some(name) => name@,
                None => Seq::empty(),
            },
        ),
        _ => (Seq::empty(), Seq::empty(), Seq::empty()),
    }
}

/// `editor` shows `profile`. The proxy's secret, if it takes one, is still to be looked up.
pub open spec fn shows_profile(editor: ProfileEditor, profile: ConnectionProfile) -> bool {
    let proxy = proxy_fields(profile.route.upstream_proxy);
    &&& editor.mode == ProfileEditorMode::Edit
    &&& editor.profile_id == profile.id
    &&& editor.name == profile.name
    &&& editor.host == profile.host
    &&& editor.port@ == decimal(profile.port as nat)
    &&& editor.username == profile.username
    &&& editor.auth_kind == auth_kind_of(profile.auth)
    &&& editor.private_key_path@ == match profile.auth {
        AuthConfig::PrivateKey { path } => local_lossy(path),
        _ => Seq::empty(),
    }
    &&& editor.proxy_kind == proxy_kind_of(profile.route.upstream_proxy)
    &&& editor.proxy_host@ == proxy.0
    &&& editor.proxy_port@ == proxy.1
    &&& editor.proxy_username@ == proxy.2
    &&& editor.jump_host_ids@ == profile.route.jump_host_ids@
}

/// The stored secret that the editor shows with a proxy.
pub open spec fn editor_secret(kind: ProfileProxyKind) -> Option<CredentialKind> {
    match kind {
        ProfileProxyKind::HttpConnect | ProfileProxyKind::Socks5 => Some(
            CredentialKind::ProxyPassword,
        ),
        ProfileProxyKind::ProxyCommand => Some(CredentialKind::ProxyCommand),
        ProfileProxyKind::Direct => None,
    }
}

/// An editor for a profile, and the stored secret to look up for it.
pub fn load_editor(profile: &ConnectionProfile) -> (r: (ProfileEditor, Option<CredentialKind>))
    ensures
        shows_profile(r.0, *profile),
        r.0.proxy_password@.len() == 0,
        r.0.proxy_command@.len() == 0,
        r.1 == editor_secret(r.0.proxy_kind),
        r.0.proxy_secret_loaded == r.1 is None,
{
    let private_key_path: String = match &profile.auth {
        AuthConfig::PrivateKey { path } => path_lossy_text(path),
        _ => String::new(),
    };
    let proxy_kind = ProfileProxyKind::from_config(profile.route.upstream_proxy.as_ref());
    let (proxy_host, proxy_port, proxy_username): (String, String, String) =
        match &profile.route.upstream_proxy {
        Some(ProxyConfig::HttpConnect { host, port, username }) => (
            host.clone(),
            u64_text(*port as u64),
            match username {
                Some(name) => name.clone(),
                None => String::new(),
            },
        ),
        Some(ProxyConfig::Socks5 { host, port, username }) => (
            host.clone(),
            u64_text(*port as u64),
            match username {
                Some(name) => name.clone(),
                None => String::new(),
            },
        ),
        _ => (String::new(), String::new(), String::new()),
    };
    let secret: Option<CredentialKind> = match proxy_kind {
        ProfileProxyKind::HttpConnect | ProfileProxyKind::Socks5 => Some(
            CredentialKind::ProxyPassword,
        ),
        ProfileProxyKind::ProxyCommand => Some(CredentialKind::ProxyCommand),
        ProfileProxyKind::Direct => None,
    };
    (
        ProfileEditor {
            mode: ProfileEditorMode::Edit,
            profile_id: profile.id.clone(),
            name: profile.name.clone(),
            host: profile.host.clone(),
            port: u64_text(profile.port as u64),
            username: profile.username.clone(),
            auth_kind: ProfileAuthKind::from_config(&profile.auth),
            private_key_path,
            proxy_kind,
            proxy_host,
            proxy_port,
            proxy_username,
            proxy_password: String::new(),
            proxy_command: String::new(),
            jump_host_ids: clone_texts(&profile.route.jump_host_ids),
            proxy_secret_loaded: secret.is_none(),
        },
        secret,
    )
}

/// An editor for a new profile, called `demo-` and its number.
pub fn new_editor(number: u64) -> (r: ProfileEditor)
    ensures
        r.mode == ProfileEditorMode::Create,
        r.profile_id@ == "demo-"@ + decimal(number as nat),
        r.name@.len() == 0,
        r.host@.len() == 0,
        r.port@ == "22"@,
        r.username@.len() == 0,
        r.auth_kind == ProfileAuthKind::Password,
        r.private_key_path@.len() == 0,
        r.proxy_kind == ProfileProxyKind::Direct,
        r.proxy_host@.len() == 0,
        r.proxy_port@.len() == 0,
        r.proxy_username@.len() == 0,
        r.proxy_password@.len() == 0,
        r.proxy_command@.len() == 0,
        r.jump_host_ids@.len() == 0,
        r.proxy_secret_loaded,
{
    let mut profile_id: String = "demo-".to_owned();
    profile_id.append(u64_text(number).as_str());
    ProfileEditor {
        mode: ProfileEditorMode::Create,
        profile_id,
        name: String::new(),
        host: String::new(),
        port: "22".to_owned(),
        username: String::new(),
        auth_kind: ProfileAuthKind::Password,
        private_key_path: String::new(),
        proxy_kind: ProfileProxyKind::Direct,
        proxy_host: String::new(),
        proxy_port: String::new(),
        proxy_username: String::new(),
        proxy_password: String::new(),
        proxy_command: String::new(),
        jump_host_ids: Vec::new(),
        proxy_secret_loaded: true,
    }
}

/// The editor after a stored secret of the proxy was looked up.
pub open spec fn secret_loaded(
    editor: ProfileEditor,
    kind: CredentialKind,
    secret: Option<String>,
) -> ProfileEditor {
    ProfileEditor {
        proxy_secret_loaded: true,
        proxy_password: match secret {
            Some(value) => if kind == CredentialKind::ProxyPassword {
                value
            } else {
                editor.proxy_password
            },
            None => editor.proxy_password,
        },
        proxy_command: match secret {
            Some(value) => if kind == CredentialKind::ProxyCommand {
                value
            } else {
                editor.proxy_command
            },
            None => editor.proxy_command,
        },
        ..editor
    }
}

/// `after` is `before` with another kind of proxy chosen.
pub open spec fn proxy_selected(
    before: ProfileEditor,
    proxy_kind: ProfileProxyKind,
    after: ProfileEditor,
) -> bool {
    &&& after == (ProfileEditor {
        proxy_kind,
        proxy_secret_loaded: true,
        jump_host_ids: after.jump_host_ids,
        ..before
    })
    &&& after.jump_host_ids@ == if proxy_kind == ProfileProxyKind::ProxyCommand {
        Seq::empty()
    } else {
        before.jump_host_ids@
    }
}

/// `after` is `before` with a server to jump over added or taken out.
pub open spec fn jump_toggled(
    before: ProfileEditor,
    jump_id: Seq<char>,
    after: ProfileEditor,
) -> bool {
    let jumps = views(before.jump_host_ids@);
    let left = views(after.jump_host_ids@);
    &&& after == (ProfileEditor {
        jump_host_ids: after.jump_host_ids,
        proxy_kind: after.proxy_kind,
        ..before
    })
    &&& if jump_id == before.profile_id@ {
        after == before
    } else if jumps.contains(jump_id) {
        &&& exists|i: int|
            0 <= i < jumps.len() && #[trigger] jumps[i] == jump_id && !jumps.take(i).contains(
                jump_id,
            ) && left == jumps.remove(i)
        &&& after.proxy_kind == before.proxy_kind
    } else {
        &&& left == jumps.push(jump_id)
        &&& after.proxy_kind == if before.proxy_kind == ProfileProxyKind::ProxyCommand {
            ProfileProxyKind::Direct
        } else {
            before.proxy_kind
        }
    }
}

/// `after` is `before` with a server to jump over moved by some places.
pub open spec fn jump_moved(
    before: ProfileEditor,
    jump_id: Seq<char>,
    direction: isize,
    after: ProfileEditor,
) -> bool {
    let jumps = views(before.jump_host_ids@);
    let left = views(after.jump_host_ids@);
    &&& after == (ProfileEditor { jump_host_ids: after.jump_host_ids, ..before })
    &&& if jumps.contains(jump_id) {
        exists|i: int| #[trigger]
            is_first_at(jumps, jump_id, i) && left == moved(
                jumps,
                i,
                if i + direction < 0 {
                    0
                } else {
                    i + direction
                },
            )
    } else {
        left == jumps
    }
}

impl ProfileEditor {
    /// Takes in a stored secret that was looked up for the proxy, if there was one.
    pub fn load_secret(&mut self, kind: CredentialKind, secret: Option<String>)
        requires
            kind == CredentialKind::ProxyPassword || kind == CredentialKind::ProxyCommand,
        ensures
            *final(self) == secret_loaded(*old(self), kind, secret),
    {
        if let Some(value) = secret {
            if kind == CredentialKind::ProxyPassword {
                self.proxy_password = value;
            } else {
                self.proxy_command = value;
            }
        }
        self.proxy_secret_loaded = true;
    }

    /// Chooses a kind of proxy. A proxy command leads straight to the server.
    pub fn select_proxy_method(&mut self, proxy_kind: ProfileProxyKind)
        ensures
            proxy_selected(*old(self), proxy_kind, *final(self)),
    {
        self.proxy_kind = proxy_kind;
        self.proxy_secret_loaded = true;
        if proxy_kind == ProfileProxyKind::ProxyCommand {
            self.jump_host_ids.clear();
        }
    }

    /// Adds a server to jump over at the end, or takes it out. There is no jumping over the
    /// profile's own server, and none behind a proxy command.
    pub fn toggle_jump_host(&mut self, jump_id: String)
        ensures
            jump_toggled(*old(self), jump_id@, *final(self)),
    {
        if text_eq(jump_id.as_str(), self.profile_id.as_str()) {
            return;
        }
        let ghost jumps = views(self.jump_host_ids@);
        match position_of_text(&self.jump_host_ids, jump_id.as_str()) {
            Some(index) => {
                proof {
                    assert(jumps[index as int] == jump_id@);
                    if jumps.take(index as int).contains(jump_id@) {
                        let k = jumps.take(index as int).index_of(jump_id@);
                        assert(self.jump_host_ids@[k]@ == jump_id@);
                    }
                }
                self.jump_host_ids.remove(index);
                assert(views(self.jump_host_ids@) =~= jumps.remove(index as int));
            },
            None => {
                if self.proxy_kind == ProfileProxyKind::ProxyCommand {
                    self.proxy_kind = ProfileProxyKind::Direct;
                }
                proof {
                    views_push(self.jump_host_ids@, jump_id);
                }
                self.jump_host_ids.push(jump_id);
            },
        }
    }

    /// Moves a server to jump over by some places, if there are as many; before the first place it
    /// stays at the first.
    pub fn move_jump_host(&mut self, jump_id: &str, direction: isize)
        ensures
            jump_moved(*old(self), jump_id@, direction, *final(self)),
    {
        let ghost jumps = views(self.jump_host_ids@);
        let index: usize = match position_of_text(&self.jump_host_ids, jump_id) {
            Some(index) => index,
            None => {
                return;
            },
        };
        proof {
            assert(jumps[index as int] == jump_id@);
            if jumps.take(index as int).contains(jump_id@) {
                let k = jumps.take(index as int).index_of(jump_id@);
                assert(self.jump_host_ids@[k]@ == jump_id@);
            }
            assert(is_first_at(jumps, jump_id@, index as int));
        }
        let count: usize = self.jump_host_ids.len();
        let next: usize = if direction < 0 {
            let back: usize = (-(direction + 1)) as usize + 1;
            if back > index {
                0
            } else {
                index - back
            }
        } else {
            let forward: usize = direction as usize;
            if forward >= count - index {
                return;
            }
            index + forward
        };
        let moving = self.jump_host_ids[index].clone();
        let other = self.jump_host_ids[next].clone();
        self.jump_host_ids.set(index, other);
        self.jump_host_ids.set(next, moving);
        assert(views(self.jump_host_ids@) =~= moved(jumps, index as int, next as int));
    }

    /// Takes in the key file that was chosen, if the editor still shows the profile it was chosen
    /// for.
    pub fn set_private_key_path(&mut self, profile_id: &str, path: &PathBuf)
        ensures
            if old(self).profile_id@ == profile_id@ {
                &&& *final(self) == (ProfileEditor {
                    private_key_path: final(self).private_key_path,
                    ..*old(self)
                })
                &&& final(self).private_key_path@ == local_lossy(*path)
            } else {
                *final(self) == *old(self)
            },
    {
        if text_eq(self.profile_id.as_str(), profile_id) {
            self.private_key_path = path_lossy_text(path);
        }
    }

    /// The stored secret that the user can have forgotten: that of the way to log in.
    pub fn forgettable_credential(&self) -> (r: Option<CredentialKind>)
        ensures
            r == match self.auth_kind {
                ProfileAuthKind::Password => Some(CredentialKind::Password),
                ProfileAuthKind::PrivateKey => Some(CredentialKind::PrivateKeyPassphrase),
                ProfileAuthKind::NoPassword | ProfileAuthKind::Agent => None,
            },
    {
        match self.auth_kind {
            ProfileAuthKind::Password => Some(CredentialKind::Password),
            ProfileAuthKind::PrivateKey => Some(CredentialKind::PrivateKeyPassphrase),
            ProfileAuthKind::NoPassword | ProfileAuthKind::Agent => None,
        }
    }

    /// What the form shows beyond the fields that are always there: the key file, the stored
    /// secret, and the servers to jump over.
    pub fn shown_rows(&self) -> (r: (bool, bool, bool))
        ensures
            r.0 == (self.auth_kind == ProfileAuthKind::PrivateKey),
            r.1 == (self.mode == ProfileEditorMode::Edit && (self.auth_kind
                == ProfileAuthKind::Password || self.auth_kind == ProfileAuthKind::PrivateKey)),
            r.2 == (self.proxy_kind != ProfileProxyKind::ProxyCommand),
    {
        (
            self.auth_kind == ProfileAuthKind::PrivateKey,
            self.mode == ProfileEditorMode::Edit && matches!(
                self.auth_kind,
                ProfileAuthKind::Password | ProfileAuthKind::PrivateKey
            ),
            self.proxy_kind != ProfileProxyKind::ProxyCommand,
        )
    }
}

/// `id` stands at `i` and nowhere before.
pub open spec fn is_first_at(ids: Seq<Seq<char>>, id: Seq<char>, i: int) -> bool {
    0 <= i < ids.len() && ids[i] == id && !ids.take(i).contains(id)
}

/// `ids` with the places `i` and `j` exchanged, if there is a place `j`.
pub open spec fn moved(ids: Seq<Seq<char>>, i: int, j: int) -> Seq<Seq<char>> {
    if j < ids.len() {
        ids.update(i, ids[j]).update(j, ids[i])
    } else {
        ids
    }
}

/// Moving a server to jump over loses none.
pub proof fn moving_keeps_jumps(ids: Seq<Seq<char>>, i: int, j: int)
    requires
        0 <= i < ids.len(),
        0 <= j,
    ensures
        moved(ids, i, j).to_multiset() == ids.to_multiset(),
{
    broadcast use vstd::seq_lib::group_to_multiset_ensures;

    if j < ids.len() {
        let once = ids.update(i, ids[j]);
        vstd::seq_lib::to_multiset_update(ids, i, ids[j]);
        vstd::seq_lib::to_multiset_update(once, j, ids[i]);
        if i == j {
            assert(moved(ids, i, j) =~= ids);
        } else {
            assert(once[j] == ids[j]);
            assert(moved(ids, i, j).to_multiset() =~= ids.to_multiset());
        }
    }
}

/// A text that reading from a field leaves as it is.
pub open spec fn is_plain_field(text: Seq<char>) -> bool {
    text.len() > 0 && trim(text) == text
}

/// A profile as saving leaves it.
pub open spec fn is_saved_profile(
    profile: ConnectionProfile,
    profiles: Seq<ConnectionProfile>,
) -> bool {
    &&& is_plain_field(profile.name@)
    &&& is_plain_field(profile.host@)
    &&& is_plain_field(profile.username@)
    &&& profile.port > 0
    &&& !has_bad_jump(views(profile.route.jump_host_ids@), profile.id@, profiles)
    &&& match profile.route.upstream_proxy {
        Some(ProxyConfig::HttpConnect { host, port, username }) => is_plain_field(host@) && port
            > 0 && (username matches Some(name) ==> is_plain_field(name@)),
        Some(ProxyConfig::Socks5 { host, port, username }) => is_plain_field(host@) && port > 0 && (
        username matches Some(name) ==> is_plain_field(name@)),
        Some(ProxyConfig::ProxyCommand { .. }) => profile.route.jump_host_ids@.len() == 0,
        None => true,
    }
}

/// The secret that the editor has looked up goes with the profile's proxy: a command with the
/// digest of the profile's, and no password without a user name.
pub open spec fn secret_goes_with(
    editor: ProfileEditor,
    profile: ConnectionProfile,
    digest: Seq<char>,
) -> bool {
    match profile.route.upstream_proxy {
        Some(ProxyConfig::HttpConnect { username, .. }) => username is None
            ==> editor.proxy_password@.len() == 0,
        Some(ProxyConfig::Socks5 { username, .. }) => username is None
            ==> editor.proxy_password@.len() == 0,
        Some(ProxyConfig::ProxyCommand { command_digest, .. }) => command_digest@ == digest && trim(
            editor.proxy_command@,
        ).len() > 0,
        None => true,
    }
}

/// A text whose first and last characters are no white space has none to be cut off.
proof fn trim_of_solid(s: Seq<char>)
    requires
        s.len() > 0,
        !is_white_space(s[0]),
        !is_white_space(s.last()),
    ensures
        trim(s) == s,
{
}

/// A port in decimal notation is read back.
proof fn typed_port_of_decimal(port: u16)
    ensures
        trim(decimal(port as nat)) == decimal(port as nat),
        parsed_u16(trim(decimal(port as nat))) == Some(port),
{
    decimal_value_of_decimal(port as nat);
    let text = decimal(port as nat);
    assert(is_digit(text[0]));
    assert(is_digit(text[text.len() - 1]));
    trim_of_solid(text);
    parse_of_decimal(port as nat, 0xffff);
}

/// Saving a profile that was opened and not changed gives the same profile. (Of a key file, whose
/// path is shown as text, this is so where the text names the same path.)
pub proof fn saving_unchanged_profile_keeps_it(
    profile: ConnectionProfile,
    profiles: Seq<ConnectionProfile>,
    editor: ProfileEditor,
    digest: Seq<char>,
    save: ProfileSave,
)
    requires
        is_saved_profile(profile, profiles),
        existing_profile(editor, profiles) == Some(profile),
        shows_profile(editor, profile),
        editor.proxy_secret_loaded,
        secret_goes_with(editor, profile, digest),
        profile.auth matches AuthConfig::PrivateKey { path } ==> trim(local_lossy(path)).len() > 0
            && local_path_of(trim(local_lossy(path))) == path,
        is_save_of(editor, profiles, digest, save),
    ensures
        editor_error(editor, profiles) is None,
        save.profile.id@ == profile.id@,
        save.profile.name@ == profile.name@,
        save.profile.host@ == profile.host@,
        save.profile.port == profile.port,
        save.profile.username@ == profile.username@,
        save.profile.auth == profile.auth,
        same_proxy(save.profile.route.upstream_proxy, profile.route.upstream_proxy),
        save.profile.route.jump_host_ids@ == profile.route.jump_host_ids@,
        profile.auth !is PrivateKey ==> !save.credentials_changed,
{
    typed_port_of_decimal(profile.port);
    match profile.route.upstream_proxy {
        Some(ProxyConfig::HttpConnect { host, port, username }) => {
            typed_port_of_decimal(port);
            assert(trim(Seq::<char>::empty()) =~= Seq::<char>::empty());
        },
        Some(ProxyConfig::Socks5 { host, port, username }) => {
            typed_port_of_decimal(port);
            assert(trim(Seq::<char>::empty()) =~= Seq::<char>::empty());
        },
        _ => {},
    }
}

/// A profile that is offered to jump over: not the edited one itself, and with the search text in
/// its name or host.
pub open spec fn is_offered(profile: ConnectionProfile, own: Seq<char>, query: Seq<char>) -> bool {
    profile.id@ != own && (query.len() == 0 || has_part(lower_case(profile.name@), query)
        || has_part(lower_case(profile.host@), query))
}

/// The place of a profile among the servers to jump over; -1 for one that is not among them.
pub open spec fn jump_place(jumps: Seq<Seq<char>>, id: Seq<char>) -> int
    decreases jumps.len(),
{
    if jumps.len() == 0 {
        -1
    } else {
        let before = jump_place(jumps.drop_last(), id);
        if before >= 0 {
            before
        } else if jumps.last() == id {
            jumps.len() - 1
        } else {
            -1
        }
    }
}

/// The order of the profiles that are offered: first those not chosen, then the chosen ones in
/// their order; those at the same place by name, and then as they stand.
pub open spec fn offered_before(
    profiles: Seq<ConnectionProfile>,
    jumps: Seq<Seq<char>>,
    a: int,
    b: int,
) -> bool {
    let x = jump_place(jumps, profiles[a].id@);
    let y = jump_place(jumps, profiles[b].id@);
    let left = lower_case(profiles[a].name@);
    let right = lower_case(profiles[b].name@);
    x < y || (x == y && (text_less(left, right) || (left == right && a < b)))
}

/// The place of a profile among the servers to jump over.
fn place_of(jumps: &Vec<String>, id: &str) -> (r: Option<usize>)
    ensures
        match r {
            Some(i) => i == jump_place(views(jumps@), id@),
            None => jump_place(views(jumps@), id@) == -1,
        },
{
    let ghost all = views(jumps@);
    let mut i: usize = 0;
    let mut found: Option<usize> = None;
    while i < jumps.len()
        invariant
            i <= jumps@.len(),
            all == views(jumps@),
            jump_place(all.take(i as int), id@) == match found {
                Some(at) => at as int,
                None => -1,
            },
        decreases jumps@.len() - i,
    {
        assert(all.take(i + 1).drop_last() =~= all.take(i as int));
        assert(all.take(i + 1).last() == jumps@[i as int]@);
        if found.is_none() && text_eq(jumps[i].as_str(), id) {
            found = Some(i);
        }
        i = i + 1;
    }
    assert(all.take(i as int) =~= all);
    found
}

/// One profile comes before another in the order in which they are offered.
fn comes_before(
    profiles: &Vec<ConnectionProfile>,
    jumps: &Vec<String>,
    a: usize,
    b: usize,
) -> (r: bool)
    requires
        a < profiles@.len(),
        b < profiles@.len(),
    ensures
        r == offered_before(profiles@, views(jumps@), a as int, b as int),
{
    let x = place_of(jumps, profiles[a].id.as_str());
    let y = place_of(jumps, profiles[b].id.as_str());
    let earlier: bool = match (x, y) {
        (None, None) => false,
        (None, Some(_)) => true,
        (Some(_), None) => false,
        (Some(p), Some(q)) => p < q,
    };
    if earlier {
        return true;
    }
    let same: bool = match (x, y) {
        (None, None) => true,
        (Some(p), Some(q)) => p == q,
        _ => false,
    };
    if !same {
        return false;
    }
    let left = to_lower_case(profiles[a].name.as_str());
    let right = to_lower_case(profiles[b].name.as_str());
    if text_before(left.as_str(), right.as_str()) {
        return true;
    }
    a < b && text_eq(left.as_str(), right.as_str())
}

/// The order in which profiles are offered is total.
proof fn offered_before_total(
    profiles: Seq<ConnectionProfile>,
    jumps: Seq<Seq<char>>,
    a: int,
    b: int,
)
    ensures
        a != b ==> (offered_before(profiles, jumps, a, b) <==> !offered_before(
            profiles,
            jumps,
            b,
            a,
        )),
{
    text_less_total(lower_case(profiles[a].name@), lower_case(profiles[b].name@));
}

/// The order in which profiles are offered is transitive.
proof fn offered_before_transitive(
    profiles: Seq<ConnectionProfile>,
    jumps: Seq<Seq<char>>,
    a: int,
    b: int,
    c: int,
)
    requires
        offered_before(profiles, jumps, a, b),
        offered_before(profiles, jumps, b, c),
    ensures
        offered_before(profiles, jumps, a, c),
{
    let x = lower_case(profiles[a].name@);
    let y = lower_case(profiles[b].name@);
    let z = lower_case(profiles[c].name@);
    if text_less(x, y) && text_less(y, z) {
        text_less_transitive(x, y, z);
    }
}

/// The positions of the profiles that are offered to jump over, in the order in which they are
/// offered. `search` is what was typed to find them.
pub fn jump_host_choices(
    profiles: &Vec<ConnectionProfile>,
    own: &str,
    search: &str,
    jumps: &Vec<String>,
) -> (r: Vec<usize>)
    ensures
        forall|k: int|
            0 <= k < profiles@.len() && is_offered(
                #[trigger] profiles@[k],
                own@,
                lower_case(trim(search@)),
            ) ==> r@.contains(k as usize),
        forall|i: int|
            0 <= i < r@.len() ==> (#[trigger] r@[i]) < profiles@.len() && is_offered(
                profiles@[r@[i] as int],
                own@,
                lower_case(trim(search@)),
            ),
        forall|i: int, j: int|
            0 <= i < j < r@.len() ==> offered_before(
                profiles@,
                views(jumps@),
                (#[trigger] r@[i]) as int,
                (#[trigger] r@[j]) as int,
            ),
{
    let query = to_lower_case(trimmed(search));
    let ghost wanted = lower_case(trim(search@));
    let ghost places = views(jumps@);
    let mut order: Vec<usize> = Vec::new();
    let mut k: usize = 0;
    while k < profiles.len()
        invariant
            k <= profiles@.len(),
            query@ == wanted,
            places == views(jumps@),
            forall|m: int|
                0 <= m < k && is_offered(#[trigger] profiles@[m], own@, wanted)
                    ==> order@.contains(m as usize),
            forall|i: int|
                0 <= i < order@.len() ==> (#[trigger] order@[i]) < k && is_offered(
                    profiles@[order@[i] as int],
                    own@,
                    wanted,
                ),
            forall|i: int, j: int|
                0 <= i < j < order@.len() ==> offered_before(
                    profiles@,
                    places,
                    (#[trigger] order@[i]) as int,
                    (#[trigger] order@[j]) as int,
                ),
        decreases profiles@.len() - k,
    {
        let profile = &profiles[k];
        let offered = !text_eq(profile.id.as_str(), own) && (text_is_empty(query.as_str())
            || text_contains(
            to_lower_case(profile.name.as_str()).as_str(),
            query.as_str(),
        ) || text_contains(to_lower_case(profile.host.as_str()).as_str(), query.as_str()));
        assert(offered == is_offered(profiles@[k as int], own@, wanted));
        if offered {
            let ghost before = order@;
            let mut at: usize = 0;
            while at < order.len() && comes_before(profiles, jumps, order[at], k)
                invariant
                    k < profiles@.len(),
                    at <= order@.len(),
                    places == views(jumps@),
                    forall|i: int| 0 <= i < order@.len() ==> (#[trigger] order@[i]) < k,
                    forall|i: int|
                        0 <= i < at ==> offered_before(
                            profiles@,
                            places,
                            (#[trigger] order@[i]) as int,
                            k as int,
                        ),
                decreases order@.len() - at,
            {
                at = at + 1;
            }
            proof {
                assert forall|i: int| at <= i < order@.len() implies offered_before(
                    profiles@,
                    places,
                    k as int,
                    (#[trigger] order@[i]) as int,
                ) by {
                    offered_before_total(profiles@, places, order@[at as int] as int, k as int);
                    if i > at {
                        offered_before_transitive(
                            profiles@,
                            places,
                            k as int,
                            order@[at as int] as int,
                            order@[i] as int,
                        );
                    }
                }
            }
            order.insert(at, k);
            proof {
                let after = order@;
                assert(after == before.insert(at as int, k));
                assert forall|i: int, j: int| 0 <= i < j < after.len() implies offered_before(
                    profiles@,
                    places,
                    (#[trigger] after[i]) as int,
                    (#[trigger] after[j]) as int,
                ) by {
                    let i0 = if i < at { i } else { i - 1 };
                    let j0 = if j < at { j } else { j - 1 };
                    if i == at {
                        assert(after[j] == before[j0]);
                    } else if j == at {
                        assert(after[i] == before[i0]);
                    } else {
                        assert(after[i] == before[i0]);
                        assert(after[j] == before[j0]);
                    }
                }
                assert forall|i: int| 0 <= i < after.len() implies (#[trigger] after[i]) < k + 1
                    && is_offered(profiles@[after[i] as int], own@, wanted) by {
                    if i != at {
                        let i0 = if i < at { i } else { i - 1 };
                        assert(after[i] == before[i0]);
                    }
                }
                assert forall|m: int|
                    0 <= m < k + 1 && is_offered(
                        #[trigger] profiles@[m],
                        own@,
                        wanted,
                    ) implies after.contains(m as usize) by {
                    if m == k {
                        assert(after[at as int] == k);
                    } else {
                        let i = before.index_of(m as usize);
                        let i1 = if i < at { i } else { i + 1 };
                        assert(after[i1] == m as usize);
                    }
                }
            }
        }
        k = k + 1;
    }
    order
}

/// Saving an edit tells that the stored secrets have become useless exactly where the host, the
/// port, the user name or the way to log in is another than before: each of them by itself. A new
/// profile has no stored secrets.
pub proof fn kept_secrets_belong_to_the_same_login(
    editor: ProfileEditor,
    profiles: Seq<ConnectionProfile>,
    digest: Seq<char>,
    save: ProfileSave,
    i: int,
)
    requires
        is_save_of(editor, profiles, digest, save),
        0 <= i < profiles.len(),
        profiles[i].id@ == editor.profile_id@,
        forall|k: int| 0 <= k < i ==> (#[trigger] profiles[k]).id@ != editor.profile_id@,
    ensures
        editor.mode == ProfileEditorMode::Create ==> !save.credentials_changed,
        editor.mode == ProfileEditorMode::Edit ==> {
            let was = profiles[i];
            let saved = save.profile;
            let same_login = match (was.auth, saved.auth) {
                (AuthConfig::NoPassword, AuthConfig::NoPassword) => true,
                (AuthConfig::Password, AuthConfig::Password) => true,
                (AuthConfig::Agent, AuthConfig::Agent) => true,
                (AuthConfig::PrivateKey { path }, AuthConfig::PrivateKey { path: other }) => {
                    local_paths_equal(path, other)
                },
                _ => false,
            };
            !save.credentials_changed <==> was.host@ == saved.host@ && was.port == saved.port
                && was.username@ == saved.username@ && same_login
        },
{
    profile_position_is_first(profiles, editor.profile_id@);
    assert(profile_position(profiles, editor.profile_id@) == i) by {
        let p = profile_position(profiles, editor.profile_id@);
        if p < i {
            assert(profiles[p].id@ == editor.profile_id@);
        }
    }
}

/// A proxy command stays approved only where neither the command nor anything that it is expanded
/// with has changed, and only if it was approved before; then it stays approved.
pub proof fn approval_is_for_the_same_command(
    editor: ProfileEditor,
    profiles: Seq<ConnectionProfile>,
    digest: Seq<char>,
    save: ProfileSave,
)
    requires
        is_save_of(editor, profiles, digest, save),
        save.profile.route.upstream_proxy is Some,
        save.profile.route.upstream_proxy->0 is ProxyCommand,
    ensures
        save.profile.route.upstream_proxy->0->command_digest@ == digest,
        ({
            let approved = save.profile.route.upstream_proxy->0->approved_digest;
            let saved = save.profile;
            &&& approved is Some ==> exists|i: int|
                0 <= i < profiles.len() && (#[trigger] profiles[i]).id@ == saved.id@
                    && profiles[i].name@ == saved.name@ && profiles[i].host@ == saved.host@
                    && profiles[i].port == saved.port && profiles[i].username@ == saved.username@
                    && (profiles[i].route.upstream_proxy matches Some(
                    ProxyConfig::ProxyCommand { command_digest, approved_digest },
                ) && command_digest@ == digest && approved_digest == approved)
            &&& forall|i: int|
                0 <= i < profiles.len() && (#[trigger] profiles[i]).id@ == saved.id@
                    && profiles[i].name@ == saved.name@ && profiles[i].host@ == saved.host@
                    && profiles[i].port == saved.port && profiles[i].username@ == saved.username@
                    && (forall|k: int| 0 <= k < i ==> (#[trigger] profiles[k]).id@ != saved.id@)
                    && (profiles[i].route.upstream_proxy matches Some(
                    ProxyConfig::ProxyCommand { command_digest, .. },
                ) && command_digest@ == digest) ==> approved
                    == profiles[i].route.upstream_proxy->0->approved_digest
        }),
{
    let id = editor.profile_id@;
    let p = profile_position(profiles, id);
    profile_position_is_first(profiles, id);
    assert forall|i: int|
        0 <= i < profiles.len() && (#[trigger] profiles[i]).id@ == id && (forall|k: int|
            0 <= k < i ==> (#[trigger] profiles[k]).id@ != id) implies i == p by {
        if p < i {
            assert(profiles[p].id@ == id);
        }
    }
}

/// What is saved is what was typed, without the white space around it: the identifier is that of
/// the edited profile, the port the number that was typed, and the proxy of the kind that was
/// chosen. A proxy's user name is there exactly where one was typed.
pub proof fn saved_profile_is_what_was_typed(
    editor: ProfileEditor,
    profiles: Seq<ConnectionProfile>,
    digest: Seq<char>,
    save: ProfileSave,
)
    requires
        is_save_of(editor, profiles, digest, save),
    ensures
        save.profile.id@ == editor.profile_id@,
        save.profile.name@ == trim(editor.name@),
        save.profile.host@ == trim(editor.host@),
        save.profile.username@ == trim(editor.username@),
        save.profile.port > 0,
        parsed_number(trim(editor.port@), 0xffff) == Some(save.profile.port as nat),
        match editor.auth_kind {
            ProfileAuthKind::NoPassword => save.profile.auth == AuthConfig::NoPassword,
            ProfileAuthKind::Password => save.profile.auth == AuthConfig::Password,
            ProfileAuthKind::Agent => save.profile.auth == AuthConfig::Agent,
            ProfileAuthKind::PrivateKey => trim(editor.private_key_path@).len() > 0
                && save.profile.auth == (AuthConfig::PrivateKey {
                path: local_path_of(trim(editor.private_key_path@)),
            }),
        },
        save.profile.route.jump_host_ids@ == editor.jump_host_ids@,
        match (editor.proxy_kind, save.profile.route.upstream_proxy) {
            (ProfileProxyKind::Direct, None) => true,
            (
                ProfileProxyKind::HttpConnect,
                Some(ProxyConfig::HttpConnect { host, port, username }),
            ) => host@ == trim(editor.proxy_host@) && parsed_number(
                trim(editor.proxy_port@),
                0xffff,
            ) == Some(port as nat) && (username is Some <==> trim(editor.proxy_username@).len()
                > 0) && (username is Some ==> username->0@ == trim(editor.proxy_username@)),
            (
                ProfileProxyKind::Socks5,
                Some(ProxyConfig::Socks5 { host, port, username }),
            ) => host@ == trim(editor.proxy_host@) && parsed_number(
                trim(editor.proxy_port@),
                0xffff,
            ) == Some(port as nat) && (username is Some <==> trim(editor.proxy_username@).len()
                > 0) && (username is Some ==> username->0@ == trim(editor.proxy_username@)),
            (ProfileProxyKind::ProxyCommand, Some(ProxyConfig::ProxyCommand { .. })) => true,
            _ => false,
        },
{
}

/// The secrets of the route are kept where they were typed: a password only for a proxy that takes
/// one, a command only for a proxy command. They are written where there is one of them, or where
/// the proxy of the profile is another than before.
pub proof fn route_secrets_go_with_the_proxy(
    editor: ProfileEditor,
    profiles: Seq<ConnectionProfile>,
    digest: Seq<char>,
    save: ProfileSave,
)
    requires
        is_save_of(editor, profiles, digest, save),
    ensures
        save.proxy_password is Some <==> editor.proxy_password@.len() > 0 && (editor.proxy_kind
            == ProfileProxyKind::HttpConnect || editor.proxy_kind == ProfileProxyKind::Socks5),
        save.proxy_password is Some ==> save.proxy_password->0@ == editor.proxy_password@,
        save.proxy_command is Some <==> editor.proxy_kind == ProfileProxyKind::ProxyCommand,
        save.proxy_command is Some ==> save.proxy_command->0@ == trim(editor.proxy_command@),
        save.proxy_password is Some || save.proxy_command is Some ==> save.route_secrets_changed,
        !save.route_secrets_changed ==> forall|i: int|
            0 <= i < profiles.len() && (#[trigger] profiles[i]).id@ == editor.profile_id@ && (
            forall|k: int| 0 <= k < i ==> (#[trigger] profiles[k]).id@ != editor.profile_id@)
                ==> profiles[i].route.upstream_proxy is None || same_proxy(
                profiles[i].route.upstream_proxy,
                save.profile.route.upstream_proxy,
            ),
        save.route_secrets_changed && save.proxy_password is None && save.proxy_command is None
            ==> exists|i: int|
            0 <= i < profiles.len() && (#[trigger] profiles[i]).id@ == editor.profile_id@
                && profiles[i].route.upstream_proxy is Some && !same_proxy(
                profiles[i].route.upstream_proxy,
                save.profile.route.upstream_proxy,
            ),
{
    let id = editor.profile_id@;
    let p = profile_position(profiles, id);
    profile_position_is_first(profiles, id);
    assert forall|i: int|
        0 <= i < profiles.len() && (#[trigger] profiles[i]).id@ == id && (forall|k: int|
            0 <= k < i ==> (#[trigger] profiles[k]).id@ != id) implies i == p by {
        if p < i {
            assert(profiles[p].id@ == id);
        }
    }
}

/// Saving a profile touches no other: each stays in its place with all its values. The saved one
/// takes the place of the one with its identifier, or stands at the end.
pub proof fn saving_touches_no_other_profile(
    editor: ProfileEditor,
    profiles: Seq<ConnectionProfile>,
    digest: Seq<char>,
    save: ProfileSave,
    i: int,
)
    requires
        is_save_of(editor, profiles, digest, save),
        0 <= i < profiles.len(),
    ensures
        save.profiles@.len() == profiles.len() || save.profiles@.len() == profiles.len() + 1,
        save.profiles@.len() == profiles.len() <==> exists|k: int|
            0 <= k < profiles.len() && (#[trigger] profiles[k]).id@ == editor.profile_id@,
        ({
            let replaced = profiles[i].id@ == editor.profile_id@ && forall|k: int|
                0 <= k < i ==> (#[trigger] profiles[k]).id@ != editor.profile_id@;
            let saved = save.profiles@[i];
            let wanted = if replaced {
                save.profile
            } else {
                profiles[i]
            };
            &&& saved.id == wanted.id
            &&& saved.name == wanted.name
            &&& saved.host == wanted.host
            &&& saved.port == wanted.port
            &&& saved.username == wanted.username
            &&& saved.auth == wanted.auth
            &&& saved.route.upstream_proxy == wanted.route.upstream_proxy
            &&& saved.route.jump_host_ids@ == wanted.route.jump_host_ids@
        }),
        save.profiles@.len() == profiles.len() + 1 ==> save.profiles@.last().id == save.profile.id
            && save.profiles@.last().host == save.profile.host && save.profiles@.last().auth
            == save.profile.auth && save.profiles@.last().username == save.profile.username
            && save.profiles@.last().port == save.profile.port && save.profiles@.last().name
            == save.profile.name && save.profiles@.last().route.upstream_proxy
            == save.profile.route.upstream_proxy && save.profiles@.last().route.jump_host_ids@
            == save.profile.route.jump_host_ids@,
{
    let id = editor.profile_id@;
    let p = profile_position(profiles, id);
    profile_position_is_first(profiles, id);
    if profiles[i].id@ == id && (forall|k: int|
        0 <= k < i ==> (#[trigger] profiles[k]).id@ != id) {
        if p < i {
            assert(profiles[p].id@ == id);
        }
    }
}

/// Where a server cannot be jumped over: it is the profile's own, one before it is the same, or it
/// is not there.
proof fn bad_jump_at(jumps: Seq<String>, own: Seq<char>, profiles: Seq<ConnectionProfile>) -> (r: (
    int,
    int,
))
    requires
        has_bad_jump(views(jumps), own, profiles),
    ensures
        0 <= r.0 < jumps.len(),
        jumps[r.0]@ == own || (0 <= r.1 < r.0 && jumps[r.1]@ == jumps[r.0]@) || forall|k: int|
            0 <= k < profiles.len() ==> (#[trigger] profiles[k]).id@ != jumps[r.0]@,
{
    let all = views(jumps);
    let i = choose|i: int| 0 <= i < all.len() && #[trigger] is_bad_jump(all, own, profiles, i);
    assert(all[i] == jumps[i]@);
    profile_position_is_first(profiles, jumps[i]@);
    if all.take(i).contains(all[i]) {
        let h = all.take(i).index_of(all[i]);
        assert(all.take(i)[h] == jumps[h]@);
        (i, h)
    } else {
        (i, i)
    }
}

/// Where every server can be jumped over, each is another profile that is there, and none before it
/// is the same.
proof fn good_jump_at(
    jumps: Seq<String>,
    own: Seq<char>,
    profiles: Seq<ConnectionProfile>,
    h: int,
    i: int,
) -> (k: int)
    requires
        !has_bad_jump(views(jumps), own, profiles),
        0 <= i < jumps.len(),
    ensures
        jumps[i]@ != own,
        0 <= k < profiles.len(),
        profiles[k].id@ == jumps[i]@,
        0 <= h < i ==> jumps[h]@ != jumps[i]@,
{
    let all = views(jumps);
    assert(!is_bad_jump(all, own, profiles, i));
    assert(all[i] == jumps[i]@);
    profile_position_is_first(profiles, jumps[i]@);
    if 0 <= h < i {
        assert(all.take(i)[h] == jumps[h]@);
    }
    profile_position(profiles, jumps[i]@)
}

/// A form is accepted exactly where nothing is wrong with it: the proxy's secret was looked up,
/// there is a name, a host and a user name, the port is a number from 1 on, a key has a path, a
/// proxy has a host and a port, and no password without a user name, a proxy command has a text
/// and stands alone, and each server to jump over is another profile that is there, once.
pub proof fn accepted_form_is_complete(
    editor: ProfileEditor,
    profiles: Seq<ConnectionProfile>,
    h: int,
    i: int,
)
    ensures
        editor_error(editor, profiles) is None ==> {
            let login_proxy = editor.proxy_kind == ProfileProxyKind::HttpConnect
                || editor.proxy_kind == ProfileProxyKind::Socks5;
            let jumps = editor.jump_host_ids@;
            &&& editor.proxy_secret_loaded
            &&& trim(editor.name@).len() > 0
            &&& trim(editor.host@).len() > 0
            &&& trim(editor.username@).len() > 0
            &&& parsed_number(trim(editor.port@), 0xffff) is Some
            &&& parsed_number(trim(editor.port@), 0xffff)->0 > 0
            &&& editor.auth_kind == ProfileAuthKind::PrivateKey ==> trim(
                editor.private_key_path@,
            ).len() > 0
            &&& login_proxy ==> trim(editor.proxy_host@).len() > 0
            &&& login_proxy ==> parsed_number(trim(editor.proxy_port@), 0xffff) is Some
            &&& login_proxy ==> parsed_number(trim(editor.proxy_port@), 0xffff)->0 > 0
            &&& login_proxy && editor.proxy_password@.len() > 0 ==> trim(
                editor.proxy_username@,
            ).len() > 0
            &&& editor.proxy_kind == ProfileProxyKind::ProxyCommand ==> trim(
                editor.proxy_command@,
            ).len() > 0 && editor.jump_host_ids@.len() == 0
            &&& 0 <= i < jumps.len() ==> jumps[i]@ != editor.profile_id@ && exists|k: int|
                0 <= k < profiles.len() && (#[trigger] profiles[k]).id@ == jumps[i]@
            &&& 0 <= h < i < jumps.len() ==> jumps[h]@ != jumps[i]@
        },
        ({
            let login_proxy = editor.proxy_kind == ProfileProxyKind::HttpConnect
                || editor.proxy_kind == ProfileProxyKind::Socks5;
            let jumps = editor.jump_host_ids@;
            &&& editor.proxy_secret_loaded
            &&& trim(editor.name@).len() > 0
            &&& trim(editor.host@).len() > 0
            &&& trim(editor.username@).len() > 0
            &&& parsed_number(trim(editor.port@), 0xffff) is Some
            &&& parsed_number(trim(editor.port@), 0xffff)->0 > 0
            &&& editor.auth_kind == ProfileAuthKind::PrivateKey ==> trim(
                editor.private_key_path@,
            ).len() > 0
            &&& login_proxy ==> trim(editor.proxy_host@).len() > 0
            &&& login_proxy ==> parsed_number(trim(editor.proxy_port@), 0xffff) is Some
            &&& login_proxy ==> parsed_number(trim(editor.proxy_port@), 0xffff)->0 > 0
            &&& login_proxy && editor.proxy_password@.len() > 0 ==> trim(
                editor.proxy_username@,
            ).len() > 0
            &&& editor.proxy_kind == ProfileProxyKind::ProxyCommand ==> trim(
                editor.proxy_command@,
            ).len() > 0 && editor.jump_host_ids@.len() == 0
            &&& forall|a: int|
                0 <= a < jumps.len() ==> (#[trigger] jumps[a])@ != editor.profile_id@ && exists|
                    k: int,
                |
                    0 <= k < profiles.len() && (#[trigger] profiles[k]).id@ == jumps[a]@
            &&& forall|a: int, b: int|
                0 <= a < b < jumps.len() ==> (#[trigger] jumps[a])@ != (#[trigger] jumps[b])@
        }) ==> editor_error(editor, profiles) is None,
{
    let jumps = editor.jump_host_ids@;
    let own = editor.profile_id@;
    if has_bad_jump(views(jumps), own, profiles) {
        let (b, a) = bad_jump_at(jumps, own, profiles);
        if forall|a: int|
            0 <= a < jumps.len() ==> (#[trigger] jumps[a])@ != own && exists|k: int|
                0 <= k < profiles.len() && (#[trigger] profiles[k]).id@ == jumps[a]@ {
            assert(jumps[b]@ != own);
            let k = choose|k: int|
                0 <= k < profiles.len() && (#[trigger] profiles[k]).id@ == jumps[b]@;
            assert(profiles[k].id@ == jumps[b]@);
            assert(0 <= a < b && jumps[a]@ == jumps[b]@);
        }
    } else if 0 <= i < jumps.len() {
        let k = good_jump_at(jumps, own, profiles, h, i);
        assert(profiles[k].id@ == jumps[i]@);
    }
}

/// Opening a profile shows it: each field holds what the profile has, and the proxy is of the
/// profile's kind.
pub proof fn editor_shows_every_value(editor: ProfileEditor, profile: ConnectionProfile)
    requires
        shows_profile(editor, profile),
    ensures
        editor.mode == ProfileEditorMode::Edit,
        editor.profile_id == profile.id,
        editor.name == profile.name,
        editor.host == profile.host,
        editor.username == profile.username,
        parsed_number(editor.port@, 0xffff) == Some(profile.port as nat),
        editor.jump_host_ids@ == profile.route.jump_host_ids@,
        match profile.auth {
            AuthConfig::NoPassword => editor.auth_kind == ProfileAuthKind::NoPassword,
            AuthConfig::Password => editor.auth_kind == ProfileAuthKind::Password,
            AuthConfig::Agent => editor.auth_kind == ProfileAuthKind::Agent,
            AuthConfig::PrivateKey { path } => editor.auth_kind == ProfileAuthKind::PrivateKey
                && editor.private_key_path@ == local_lossy(path),
        },
        match profile.route.upstream_proxy {
            None => editor.proxy_kind == ProfileProxyKind::Direct,
            Some(ProxyConfig::HttpConnect { host, port, username }) => editor.proxy_kind
                == ProfileProxyKind::HttpConnect && editor.proxy_host@ == host@ && parsed_number(
                editor.proxy_port@,
                0xffff,
            ) == Some(port as nat) && (username is Some ==> editor.proxy_username@ == username->0@),
            Some(ProxyConfig::Socks5 { host, port, username }) => editor.proxy_kind
                == ProfileProxyKind::Socks5 && editor.proxy_host@ == host@ && parsed_number(
                editor.proxy_port@,
                0xffff,
            ) == Some(port as nat) && (username is Some ==> editor.proxy_username@ == username->0@),
            Some(ProxyConfig::ProxyCommand { .. }) => editor.proxy_kind
                == ProfileProxyKind::ProxyCommand,
        },
{
    parse_of_decimal(profile.port as nat, 0xffff);
    match profile.route.upstream_proxy {
        Some(ProxyConfig::HttpConnect { port, .. }) => parse_of_decimal(port as nat, 0xffff),
        Some(ProxyConfig::Socks5 { port, .. }) => parse_of_decimal(port as nat, 0xffff),
        _ => (),
    }
}

/// The profile's own server is never added to those to jump over. Any other is added at the end,
/// or taken out, and the others stay in their order; jumping and a proxy command exclude each
/// other, whichever was chosen last.
pub proof fn jumps_are_chosen_one_by_one(
    before: ProfileEditor,
    jump_id: Seq<char>,
    after: ProfileEditor,
    other: Seq<char>,
)
    requires
        jump_toggled(before, jump_id, after),
    ensures
        jump_id == before.profile_id@ ==> after == before,
        jump_id != before.profile_id@ && !views(before.jump_host_ids@).contains(jump_id) ==> views(
            after.jump_host_ids@,
        ) == views(before.jump_host_ids@).push(jump_id) && after.proxy_kind
            != ProfileProxyKind::ProxyCommand,
        jump_id != before.profile_id@ && views(before.jump_host_ids@).contains(jump_id) ==> views(
            after.jump_host_ids@,
        ).len() == views(before.jump_host_ids@).len() - 1,
        other != jump_id ==> (views(after.jump_host_ids@).contains(other) <==> views(
            before.jump_host_ids@,
        ).contains(other)),
        before.proxy_kind != ProfileProxyKind::ProxyCommand ==> after.proxy_kind
            == before.proxy_kind,
        after.host == before.host && after.username == before.username && after.port
            == before.port,
        after.proxy_host == before.proxy_host && after.proxy_password == before.proxy_password,
{
    let jumps = views(before.jump_host_ids@);
    let left = views(after.jump_host_ids@);
    if jump_id != before.profile_id@ && other != jump_id {
        if jumps.contains(jump_id) {
            let i = choose|i: int|
                0 <= i < jumps.len() && #[trigger] jumps[i] == jump_id && !jumps.take(i).contains(
                    jump_id,
                ) && left == jumps.remove(i);
            if jumps.contains(other) {
                let k = jumps.index_of(other);
                let k1 = if k < i { k } else { k - 1 };
                assert(left[k1] == other);
            }
            if left.contains(other) {
                let k = left.index_of(other);
                let k1 = if k < i { k } else { k + 1 };
                assert(jumps[k1] == other);
            }
        } else {
            if jumps.contains(other) {
                assert(left[jumps.index_of(other)] == other);
            }
            if left.contains(other) {
                assert(jumps[left.index_of(other)] == other);
            }
        }
    }
}

/// A kind of proxy that is chosen is the one that the form shows then; a proxy command takes the
/// servers to jump over away, and any other kind leaves them. What was typed stays.
pub proof fn proxy_command_takes_the_jumps_away(
    before: ProfileEditor,
    proxy_kind: ProfileProxyKind,
    after: ProfileEditor,
)
    requires
        proxy_selected(before, proxy_kind, after),
    ensures
        after.proxy_kind == proxy_kind,
        proxy_kind == ProfileProxyKind::ProxyCommand ==> after.jump_host_ids@.len() == 0,
        proxy_kind != ProfileProxyKind::ProxyCommand ==> after.jump_host_ids@
            == before.jump_host_ids@,
        after.proxy_host == before.proxy_host && after.proxy_port == before.proxy_port,
        after.proxy_username == before.proxy_username && after.proxy_password
            == before.proxy_password,
        after.proxy_command == before.proxy_command,
        after.host == before.host && after.auth_kind == before.auth_kind,
{
}

/// A stored secret goes into the field it is for and no other; where there is none, what the field
/// holds stays.
pub proof fn loaded_secret_goes_into_its_field(
    editor: ProfileEditor,
    kind: CredentialKind,
    secret: Option<String>,
)
    requires
        kind == CredentialKind::ProxyPassword || kind == CredentialKind::ProxyCommand,
    ensures
        ({
            let after = secret_loaded(editor, kind, secret);
            &&& after.proxy_secret_loaded
            &&& secret is None ==> after.proxy_password == editor.proxy_password
                && after.proxy_command == editor.proxy_command
            &&& secret matches Some(value) ==> {
                &&& kind == CredentialKind::ProxyPassword ==> after.proxy_password == value
                    && after.proxy_command == editor.proxy_command
                &&& kind == CredentialKind::ProxyCommand ==> after.proxy_command == value
                    && after.proxy_password == editor.proxy_password
            }
            &&& after.proxy_username == editor.proxy_username && after.username == editor.username
        }),
{
}

/// A server to jump over that is moved changes places with one other; the rest stays where it was.
pub proof fn moved_jump_changes_places(ids: Seq<Seq<char>>, i: int, j: int, k: int)
    requires
        0 <= i < ids.len(),
        0 <= j,
        0 <= k < ids.len(),
    ensures
        moved(ids, i, j).len() == ids.len(),
        j < ids.len() ==> moved(ids, i, j)[j] == ids[i] && moved(ids, i, j)[i] == ids[j],
        k != i && k != j ==> moved(ids, i, j)[k] == ids[k],
        j >= ids.len() ==> moved(ids, i, j) == ids,
{
}

/// The profile that is edited is never offered to be jumped over; every other one is while nothing
/// is searched for.
pub proof fn own_server_is_not_offered(profile: ConnectionProfile, own: Seq<char>, query: Seq<char>)
    ensures
        profile.id@ == own ==> !is_offered(profile, own, query),
        profile.id@ != own && query.len() == 0 ==> is_offered(profile, own, query),
{
}

} // verus!
