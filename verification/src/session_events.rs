//! What an event of a connection does to its session, and what is to be done then.
use crate::browser::{
    completed, failed, paths_removed, placement_of_request, sftp_browser_placement_for_request,
    PendingSftpDownloadTree, SftpAvailability, SftpBrowserPlacement, SftpBrowserState,
    SftpOperation,
};
use crate::credentials::{
    every_secret_to_keep_is_kept, find_rejected_credential, is_credential_for, kept_secrets,
    proved_by, rejected_credential_kind, rejected_kind, take_successful_credentials,
    ConnectionCredential, CredentialKind, CredentialSource, CredentialToSave,
};
use crate::message::{
    connecting, connecting_message, connection_error, detailed_text, details_stand_at_the_end,
    with_technical_details, ConnectionStage, SessionMessage, SshError, SshErrorKind,
};
use crate::profile::{
    find_profile, has_profile, profile_position, AuthConfig, ConnectionProfile, ProxyConfig,
};
use crate::remote_files::{RemoteDirectory, RemoteDirectoryTree, RemoteFileKind};
use crate::remote_path::{parent_path, remote_parent_path};
use crate::sequences::{any_where, any_where_iff, filter_is_exact, first_index_properties};
use crate::session::{
    file_after_read, HostKeyInfo, PerformanceState, RemoteFile, Session, SessionState, TerminalInfo,
};
use crate::text::{text_eq, views};
use crate::transfers::{
    cancelled, conflicted, fails_pending, is_active_task, progressed, task_position_is_first,
    with_tasks, SftpTransferDirection, SftpTransferState, SftpTransferTask,
};
use vstd::prelude::*;
use vstd::string::*;

verus! {

/// What the remote shell tells.
#[derive(Debug, PartialEq, Eq)]
pub enum ShellEvent {
    Output(Vec<u8>),
    ExtendedOutput(Vec<u8>),
    ExitStatus(u32),
    ExitSignal { signal: String, core_dumped: bool, message: String },
    Eof,
    Closed,
}

/// What a connection's worker tells. `Resized` comes once the terminal has taken the new size in,
/// and says whether it differs from the old one.
#[derive(Debug, PartialEq, Eq)]
pub enum ConnectionEvent {
    StateChanged(SessionState),
    ConnectionStageChanged(ConnectionStage),
    AuthenticationSucceeded { stage: ConnectionStage, method: String },
    HostKeyVerificationRequired { stage: ConnectionStage, info: HostKeyInfo },
    Failed(SshError),
    DirectoryRead { request_id: u64, directory: RemoteDirectory },
    DirectoryTreeRead { request_id: u64, tree: RemoteDirectoryTree },
    FileRead { request_id: u64, file: RemoteFile },
    FileWritten { request_id: u64, file: RemoteFile },
    PathCreated { request_id: u64, path: String, kind: RemoteFileKind },
    DirectoriesCreated { request_id: u64, paths: Vec<String> },
    PathsDeleted { request_id: u64, paths: Vec<String> },
    TransferProgress { transfer_id: u64, transferred: u64, total: Option<u64> },
    TransferConflict { transfer_id: u64 },
    TransferCompleted {
        transfer_id: u64,
        direction: SftpTransferDirection,
        path: String,
        bytes: u64,
    },
    TransferCancelled { transfer_id: u64 },
    SftpAvailabilityChanged { available: bool, scp_available: bool, message: Option<String> },
    SftpFailed { request_id: u64, operation: SftpOperation, error: SshError },
    PerformanceSnapshot,
    PerformanceFailed(SshError),
    Resized { dimensions_changed: bool },
    Shell(ShellEvent),
}

/// What is to be done after an event, outside the session.
#[derive(Debug, PartialEq, Eq)]
pub enum FollowUp<S> {
    /// Take the session off the list.
    RemoveSession,
    /// Forget what was known of the server's performance.
    ClearPerformance,
    /// Take the snapshot of the server's performance in.
    UpdatePerformance,
    /// Watch the performance of the sessions that are shown.
    SyncPerformance,
    /// Put these secrets into the keychain.
    SaveCredentials(Vec<CredentialToSave<S>>),
    /// Bring the session to the front.
    ActivateSession,
    /// Take a stored secret that was wrong out of the keychain, then ask for it.
    RemoveRejectedCredential { profile_id: String, kind: CredentialKind },
    /// Start over and ask for a secret.
    AskForCredential { profile_id: String, kind: CredentialKind },
    /// Make the directories and queue the files of a directory to download.
    PrepareDownload {
        placement: SftpBrowserPlacement,
        pending: PendingSftpDownloadTree,
        tree: RemoteDirectoryTree,
    },
    /// Ask for the browser's directory anew.
    RefreshDirectory(SftpBrowserPlacement),
    /// Ask for the shell's directory where the browser does not show it.
    EnsureDirectory(SftpBrowserPlacement),
    /// Open a file for editing.
    OpenFile(String),
    /// Take the browser's error away after a while, if it is still the one of this generation.
    ClearErrorLater { placement: SftpBrowserPlacement, generation: u64 },
    /// Start transfers that wait, as far as there is room.
    StartTransfers,
    /// Hand the bytes to the terminal.
    ProcessOutput(Vec<u8>),
    /// Show what has changed.
    Notify,
}

/// What the user sees, as far as an event's outcome depends on it.
#[derive(Clone, Copy, Debug, PartialEq, Eq, Structural)]
pub struct EventContext {
    /// The session is the active one.
    pub active: bool,
    /// The right sidebar is open and shows files.
    pub sidebar_shows_files: bool,
    /// The active tab shows files.
    pub tab_shows_files: bool,
}

/// The localized texts that events are told with.
#[derive(Debug, PartialEq, Eq)]
pub struct EventTexts {
    pub connection_closed: String,
    pub connection_failed: String,
    pub server_unavailable: String,
    pub technical_details: String,
    pub sftp_failed: String,
    pub performance_unavailable: String,
}

/// The session after its connection's state has changed. A connection that has ended takes the
/// secrets, what was waited for and the transfers with it.
pub open spec fn after_state_change<S>(
    before: Session<S>,
    state: SessionState,
    closed: Seq<char>,
    after: Session<S>,
) -> bool {
    let reached = state == SessionState::Authenticating || state == SessionState::Connected;
    let ended = state == SessionState::Disconnected;
    &&& after == (Session {
        connection_state: state,
        host_key_prompt: if reached || ended {
            None
        } else {
            before.host_key_prompt
        },
        connection_message: if reached {
            None
        } else {
            before.connection_message
        },
        terminal: match before.terminal {
            Some(terminal) => Some(
                TerminalInfo {
                    was_connected: terminal.was_connected || state == SessionState::Connected,
                    ..terminal
                },
            ),
            None => None,
        },
        resize_pending: before.resize_pending && !ended,
        has_handle: before.has_handle && !ended,
        connection_credentials: after.connection_credentials,
        sftp_availability: if ended {
            SftpAvailability::Checking
        } else {
            before.sftp_availability
        },
        sftp: if ended {
            before.sftp.stopped()
        } else {
            before.sftp
        },
        sidebar_sftp: if ended {
            before.sidebar_sftp.stopped()
        } else {
            before.sidebar_sftp
        },
        transfers: after.transfers,
        terminal_end_reason: if ended && before.connection_state == SessionState::Disconnecting
            && before.terminal_end_reason is None {
            Some(SessionMessage::Localized("terminal-session-disconnected"))
        } else {
            before.terminal_end_reason
        },
        ..before
    })
    &&& if ended {
        &&& after.connection_credentials@.len() == 0
        &&& fails_pending(before.transfers, after.transfers, closed)
    } else {
        &&& after.connection_credentials == before.connection_credentials
        &&& after.transfers == before.transfers
    }
}

/// Being a profile that logs in with a secret of `kind`.
pub open spec fn takes_secret(
    id: Seq<char>,
    kind: CredentialKind,
) -> spec_fn(ConnectionProfile) -> bool {
    |profile: ConnectionProfile|
        profile.id@ == id && match kind {
            CredentialKind::Password => profile.auth == AuthConfig::Password,
            CredentialKind::PrivateKeyPassphrase => profile.auth is PrivateKey,
            _ => false,
        }
}

/// The proxy takes a user name, so a password too.
pub open spec fn proxy_takes_password(proxy: Option<ProxyConfig>) -> bool {
    match proxy {
        Some(ProxyConfig::HttpConnect { username, .. }) => username is Some,
        Some(ProxyConfig::Socks5 { username, .. }) => username is Some,
        Some(ProxyConfig::ProxyCommand { .. }) => false,
        None => false,
    }
}

/// The connection to `target_id` can be tried again with a secret of `kind` for `profile_id` that
/// the user is asked for: there is a step that takes one.
pub open spec fn can_ask_again(
    profiles: Seq<ConnectionProfile>,
    target_id: Seq<char>,
    profile_id: Seq<char>,
    kind: CredentialKind,
) -> bool {
    has_profile(profiles, target_id) && if kind == CredentialKind::ProxyPassword {
        profile_id == target_id && proxy_takes_password(
            profiles[profile_position(profiles, target_id)].route.upstream_proxy,
        )
    } else {
        any_where(profiles, takes_secret(profile_id, kind))
    }
}

/// The connection can be tried again with a secret that the user is asked for.
pub fn retry_is_possible(
    profiles: &Vec<ConnectionProfile>,
    target_id: &str,
    profile_id: &str,
    kind: CredentialKind,
) -> (r: bool)
    ensures
        r == can_ask_again(profiles@, target_id@, profile_id@, kind),
{
    proof {
        any_where_iff(profiles@, takes_secret(profile_id@, kind));
    }
    let target = match find_profile(profiles, target_id) {
        Some(index) => index,
        None => {
            return false;
        },
    };
    if kind == CredentialKind::ProxyPassword {
        let takes_password = match &profiles[target].route.upstream_proxy {
            Some(ProxyConfig::HttpConnect { username, .. }) => username.is_some(),
            Some(ProxyConfig::Socks5 { username, .. }) => username.is_some(),
            Some(ProxyConfig::ProxyCommand { .. }) => false,
            None => false,
        };
        return takes_password && text_eq(profile_id, target_id);
    }
    let mut i: usize = 0;
    while i < profiles.len()
        invariant
            i <= profiles@.len(),
            has_profile(profiles@, target_id@),
            kind != CredentialKind::ProxyPassword,
            any_where(profiles@, takes_secret(profile_id@, kind)) <==> exists|k: int|
                0 <= k < profiles@.len() && takes_secret(profile_id@, kind)(
                    #[trigger] profiles@[k],
                ),
            forall|k: int|
                0 <= k < i ==> !takes_secret(profile_id@, kind)(#[trigger] profiles@[k]),
        decreases profiles@.len() - i,
    {
        if text_eq(profiles[i].id.as_str(), profile_id) {
            let matching = match (&profiles[i].auth, kind) {
                (AuthConfig::Password, CredentialKind::Password) => true,
                (AuthConfig::PrivateKey { .. }, CredentialKind::PrivateKeyPassphrase) => true,
                _ => false,
            };
            if matching {
                assert(takes_secret(profile_id@, kind)(profiles@[i as int]));
                return true;
            }
        }
        i = i + 1;
    }
    false
}

/// What to do about a secret after a connection has failed.
#[derive(Clone, Copy, Debug, PartialEq, Eq, Structural)]
pub enum Retry {
    /// The error is shown.
    Nothing,
    /// A stored secret was wrong: it is taken out of the keychain.
    RemoveStored(CredentialKind),
    /// The user is asked for a secret.
    Ask(CredentialKind),
}

/// What to do about the secret that was wrong: a stored one is taken out of the keychain, a typed
/// one is asked for again; without one, a key's passphrase and a proxy's password are asked for.
pub open spec fn retry_for<S>(
    error_kind: SshErrorKind,
    credential: Option<ConnectionCredential<S>>,
) -> Retry {
    match credential {
        Some(credential) => if credential.source == CredentialSource::SystemKeychain {
            Retry::RemoveStored(credential.kind)
        } else {
            Retry::Ask(credential.kind)
        },
        None => match error_kind {
            SshErrorKind::PrivateKeyPassphrase => Retry::Ask(CredentialKind::PrivateKeyPassphrase),
            SshErrorKind::ProxyAuthentication => Retry::Ask(CredentialKind::ProxyPassword),
            _ => Retry::Nothing,
        },
    }
}

/// The profile that an error is about: that of its stage, else the session's own.
pub open spec fn failed_profile<S>(session: Session<S>, error: SshError) -> String {
    match error.stage {
        Some(stage) => match stage.stage_profile() {
            Some(id) => id,
            None => session.profile_id,
        },
        None => session.profile_id,
    }
}

/// How the server of an error's stage is logged in to, as far as it is known.
pub open spec fn failed_auth(
    profiles: Seq<ConnectionProfile>,
    stage: Option<ConnectionStage>,
) -> Option<AuthConfig> {
    match stage {
        Some(stage) => match stage.stage_profile() {
            Some(id) => if has_profile(profiles, id@) {
                Some(profiles[profile_position(profiles, id@)].auth)
            } else {
                None
            },
            None => None,
        },
        None => None,
    }
}

/// The secret of the session that an error says was wrong.
pub open spec fn failed_credential<S>(
    session: Session<S>,
    profiles: Seq<ConnectionProfile>,
    error: SshError,
) -> Option<ConnectionCredential<S>> {
    crate::sequences::first_where(
        session.connection_credentials@,
        is_credential_for::<S>(
            rejected_kind(error.kind, failed_auth(profiles, error.stage)),
            failed_profile(session, error)@,
        ),
    )
}

/// What is to be done about a secret.
pub open spec fn retry_action<S>(retry: Retry, profile_id: String) -> FollowUp<S> {
    match retry {
        Retry::RemoveStored(kind) => FollowUp::RemoveRejectedCredential { profile_id, kind },
        Retry::Ask(kind) => FollowUp::AskForCredential { profile_id, kind },
        Retry::Nothing => FollowUp::Notify,
    }
}

/// The session after its connection has failed, and what is to be done then. Every secret is
/// dropped. The error is shown unless a secret is asked for or taken out of the keychain.
pub open spec fn after_failure<S>(
    before: Session<S>,
    profiles: Seq<ConnectionProfile>,
    error: SshError,
    failed_text: Seq<char>,
    after: Session<S>,
    actions: Seq<FollowUp<S>>,
) -> bool {
    let profile_id = failed_profile(before, error);
    let retry = retry_for(error.kind, failed_credential(before, profiles, error));
    let shown = match retry {
        Retry::Nothing => true,
        Retry::RemoveStored(_) => false,
        Retry::Ask(kind) => !can_ask_again(profiles, before.profile_id@, profile_id@, kind),
    };
    &&& after == (Session {
        connection_credentials: after.connection_credentials,
        connection_state: SessionState::Failed,
        resize_pending: false,
        has_handle: false,
        host_key_prompt: None,
        sftp: before.sftp.stopped(),
        sidebar_sftp: before.sidebar_sftp.stopped(),
        transfers: after.transfers,
        connection_error: if shown && !before.close_when_disconnected {
            Some(
                SessionMessage::ConnectionError {
                    kind: error.kind,
                    details: error.message,
                    stage: error.stage,
                },
            )
        } else {
            before.connection_error
        },
        ..before
    })
    &&& after.connection_credentials@.len() == 0
    &&& fails_pending(before.transfers, after.transfers, failed_text)
    &&& if before.close_when_disconnected {
        actions == seq![FollowUp::<S>::ClearPerformance, FollowUp::RemoveSession]
    } else if shown {
        actions == seq![
            FollowUp::<S>::ClearPerformance,
            FollowUp::SyncPerformance,
            FollowUp::Notify,
        ]
    } else {
        actions == seq![
            FollowUp::<S>::ClearPerformance,
            FollowUp::SyncPerformance,
            retry_action::<S>(retry, profile_id),
            FollowUp::Notify,
        ]
    }
}

impl<S> Session<S> {
    /// Takes in a new state of the connection.
    pub fn change_state(&mut self, state: SessionState, connection_closed: &str) -> (r: Vec<
        FollowUp<S>,
    >)
        ensures
            after_state_change(*old(self), state, connection_closed@, *final(self)),
            r@ == state_change_actions::<S>(*old(self), state),
    {
        let mut actions: Vec<FollowUp<S>> = Vec::new();
        let previous_state = self.connection_state;
        self.connection_state = state;
        if matches!(state, SessionState::Authenticating | SessionState::Connected) {
            self.host_key_prompt = None;
            self.connection_message = None;
        }
        if let Some(terminal) = self.terminal.as_mut() {
            if state == SessionState::Connected {
                terminal.was_connected = true;
            }
        }
        if state == SessionState::Disconnected {
            self.host_key_prompt = None;
            self.resize_pending = false;
            self.has_handle = false;
            self.connection_credentials = Vec::new();
            self.sftp_availability = SftpAvailability::Checking;
            self.sftp.stop_loading();
            self.sidebar_sftp.stop_loading();
            self.transfers.fail_pending(connection_closed);
            actions.push(FollowUp::ClearPerformance);
            if previous_state == SessionState::Disconnecting
                && self.terminal_end_reason.is_none() {
                self.terminal_end_reason = Some(
                    SessionMessage::Localized("terminal-session-disconnected"),
                );
            }
            if self.close_when_disconnected {
                actions.push(FollowUp::RemoveSession);
            }
        }
        actions.push(FollowUp::SyncPerformance);
        actions.push(FollowUp::Notify);
        assert(actions@ =~= state_change_actions::<S>(*old(self), state));
        actions
    }

    /// Takes in that a login has succeeded; the secrets it has proved right are taken out, and
    /// those to be kept handed on.
    pub fn save_successful_credentials(&mut self, profile_id: &str) -> (r: Vec<
        CredentialToSave<S>,
    >)
        ensures
            r@ == kept_secrets(
                old(self).connection_credentials@.filter(proved_by::<S>(profile_id@)),
            ),
            *final(self) == (Session {
                connection_credentials: final(self).connection_credentials,
                ..*old(self)
            }),
            final(self).connection_credentials@ == old(self).connection_credentials@.filter(
                |credential: ConnectionCredential<S>| !proved_by::<S>(profile_id@)(credential),
            ),
    {
        let mut credentials: Vec<ConnectionCredential<S>> = Vec::new();
        std::mem::swap(&mut credentials, &mut self.connection_credentials);
        let (saved, remaining) = take_successful_credentials(credentials, profile_id);
        self.connection_credentials = remaining;
        saved
    }

    /// Takes in that the connection has failed.
    pub fn fail_connection(
        &mut self,
        profiles: &Vec<ConnectionProfile>,
        error: SshError,
        connection_failed: &str,
    ) -> (r: Vec<FollowUp<S>>)
        ensures
            after_failure(
                *old(self),
                profiles@,
                error,
                connection_failed@,
                *final(self),
                r@,
            ),
    {
        let stage_profile: Option<String> = match &error.stage {
            Some(stage) => stage.profile_id(),
            None => None,
        };
        let auth: Option<AuthConfig> = match &stage_profile {
            Some(id) => match find_profile(profiles, id.as_str()) {
                Some(index) => Some(profiles[index].auth.clone()),
                None => None,
            },
            None => None,
        };
        assert(auth == failed_auth(profiles@, error.stage));
        let rejected = rejected_credential_kind(error.kind, auth.as_ref());
        let profile_id: String = match stage_profile {
            Some(id) => id,
            None => self.profile_id.clone(),
        };
        assert(profile_id == failed_profile(*old(self), error));
        let ghost about = profile_id;
        let found = find_rejected_credential(
            &self.connection_credentials,
            rejected,
            profile_id.as_str(),
        );
        proof {
            first_index_properties(
                self.connection_credentials@,
                is_credential_for::<S>(rejected, profile_id@),
            );
        }
        let retry: Retry = match found {
            Some(index) => {
                let kind = self.connection_credentials[index].kind;
                if self.connection_credentials[index].source == CredentialSource::SystemKeychain {
                    Retry::RemoveStored(kind)
                } else {
                    Retry::Ask(kind)
                }
            },
            None => match error.kind {
                SshErrorKind::PrivateKeyPassphrase => Retry::Ask(
                    CredentialKind::PrivateKeyPassphrase,
                ),
                SshErrorKind::ProxyAuthentication => Retry::Ask(CredentialKind::ProxyPassword),
                _ => Retry::Nothing,
            },
        };
        assert(retry == retry_for(error.kind, failed_credential(*old(self), profiles@, error)));
        self.connection_credentials = Vec::new();
        self.connection_state = SessionState::Failed;
        self.resize_pending = false;
        self.has_handle = false;
        self.host_key_prompt = None;
        self.sftp.stop_loading();
        self.sidebar_sftp.stop_loading();
        self.transfers.fail_pending(connection_failed);
        let mut actions: Vec<FollowUp<S>> = Vec::new();
        actions.push(FollowUp::ClearPerformance);
        if self.close_when_disconnected {
            actions.push(FollowUp::RemoveSession);
            assert(actions@ =~= seq![FollowUp::<S>::ClearPerformance, FollowUp::RemoveSession]);
            return actions;
        }
        actions.push(FollowUp::SyncPerformance);
        let shown: bool = match retry {
            Retry::Nothing => true,
            Retry::RemoveStored(kind) => {
                actions.push(FollowUp::RemoveRejectedCredential { profile_id, kind });
                false
            },
            Retry::Ask(kind) => {
                if retry_is_possible(
                    profiles,
                    self.profile_id.as_str(),
                    profile_id.as_str(),
                    kind,
                ) {
                    actions.push(FollowUp::AskForCredential { profile_id, kind });
                    false
                } else {
                    true
                }
            },
        };
        if shown {
            self.connection_error = Some(connection_error(&error));
        }
        actions.push(FollowUp::Notify);
        proof {
            if shown {
                assert(actions@ =~= seq![
                    FollowUp::<S>::ClearPerformance,
                    FollowUp::SyncPerformance,
                    FollowUp::Notify,
                ]);
            } else {
                assert(actions@ =~= seq![
                    FollowUp::<S>::ClearPerformance,
                    FollowUp::SyncPerformance,
                    retry_action::<S>(retry, about),
                    FollowUp::Notify,
                ]);
            }
        }
        actions
    }
}

/// What is to be done after a change of state.
pub open spec fn state_change_actions<S>(
    before: Session<S>,
    state: SessionState,
) -> Seq<FollowUp<S>> {
    let shown = seq![FollowUp::<S>::SyncPerformance, FollowUp::Notify];
    if state != SessionState::Disconnected {
        shown
    } else if before.close_when_disconnected {
        seq![FollowUp::<S>::ClearPerformance, FollowUp::RemoveSession] + shown
    } else {
        seq![FollowUp::<S>::ClearPerformance] + shown
    }
}

/// The session after a login has succeeded, and what is to be done then.
pub open spec fn after_login<S>(
    before: Session<S>,
    stage: ConnectionStage,
    after: Session<S>,
    actions: Seq<FollowUp<S>>,
) -> bool {
    match stage.stage_profile() {
        None => after == before && actions == seq![FollowUp::<S>::Notify],
        Some(id) => {
            &&& after == (Session {
                connection_credentials: after.connection_credentials,
                ..before
            })
            &&& after.connection_credentials@ == before.connection_credentials@.filter(
                |credential: ConnectionCredential<S>| !proved_by::<S>(id@)(credential),
            )
            &&& actions.len() == 2
            &&& match actions[0] {
                FollowUp::SaveCredentials(saved) => saved@ == kept_secrets(
                    before.connection_credentials@.filter(proved_by::<S>(id@)),
                ),
                _ => false,
            }
            &&& actions[1] == FollowUp::<S>::Notify
        },
    }
}

/// The session after the contents of a directory to download came, and what is to be done then.
pub open spec fn after_tree_read<S>(
    before: Session<S>,
    request_id: u64,
    tree: RemoteDirectoryTree,
    after: Session<S>,
    actions: Seq<FollowUp<S>>,
) -> bool {
    let placement = placement_of_request(request_id);
    let waiting = before.browser(placement).pending_download_trees@;
    let browser = after.browser(placement);
    &&& after == before.with_browser(placement, browser)
    &&& browser == (SftpBrowserState {
        pending_download_trees: browser.pending_download_trees,
        ..before.browser(placement)
    })
    &&& browser.pending_download_trees@ == waiting.remove(request_id)
    &&& actions == if waiting.contains_key(request_id) {
        seq![
            FollowUp::<S>::PrepareDownload { placement, pending: waiting[request_id], tree },
            FollowUp::Notify,
        ]
    } else {
        seq![FollowUp::<S>::Notify]
    }
}

/// The session after a file was opened, read or not.
pub open spec fn after_file_read<S>(
    before: Session<S>,
    request_id: u64,
    file: RemoteFile,
    after: Session<S>,
) -> bool {
    match before.sftp.file {
        Some(state) => if state.read_request_id == Some(request_id) {
            &&& after.sftp.file is Some
            &&& file_after_read(state, file, after.sftp.file->Some_0)
            &&& after == (Session {
                sftp: SftpBrowserState { file: after.sftp.file, ..before.sftp },
                ..before
            })
        } else {
            after == before
        },
        None => after == before,
    }
}

/// The session after a file was written.
pub open spec fn after_file_written<S>(
    before: Session<S>,
    request_id: u64,
    file: RemoteFile,
) -> Session<S> {
    Session {
        sftp: SftpBrowserState {
            file: match before.sftp.file {
                Some(state) => if state.write_request_id == Some(request_id) {
                    Some(
                        crate::browser::SftpFileState {
                            path: file.path,
                            original_contents: file.contents,
                            saving: false,
                            error: None,
                            write_request_id: None,
                            ..state
                        },
                    )
                } else {
                    before.sftp.file
                },
                None => None,
            },
            ..before.sftp
        },
        ..before
    }
}

/// A browser shows the directory that holds `path`.
pub open spec fn shows_parent_of(browser: SftpBrowserState, path: Seq<char>) -> bool {
    browser.loaded && browser.path@ == match parent_path(path) {
        Some(parent) => parent,
        None => "."@,
    }
}

/// What is to be done after a transfer was done: after an upload, the browsers that show the
/// directory it went to show it anew.
pub open spec fn transfer_done_actions<S>(
    session: Session<S>,
    direction: SftpTransferDirection,
    path: Seq<char>,
) -> Seq<FollowUp<S>> {
    let uploaded = direction == SftpTransferDirection::Upload;
    let center = if uploaded && shows_parent_of(session.sftp, path) {
        seq![FollowUp::<S>::RefreshDirectory(SftpBrowserPlacement::Center)]
    } else {
        Seq::empty()
    };
    let sidebar = if uploaded && shows_parent_of(session.sidebar_sftp, path) {
        seq![FollowUp::<S>::RefreshDirectory(SftpBrowserPlacement::Sidebar)]
    } else {
        Seq::empty()
    };
    center + sidebar + seq![FollowUp::<S>::StartTransfers]
}

/// The session after it was told what can be done with its files, and what is to be done then.
pub open spec fn after_availability<S>(
    before: Session<S>,
    available: bool,
    scp_available: bool,
    message: Option<String>,
    context: EventContext,
    texts: EventTexts,
    after: Session<S>,
    actions: Seq<FollowUp<S>>,
) -> bool {
    let text = match message {
        None => texts.server_unavailable@,
        Some(details) => detailed_text(
            texts.server_unavailable@,
            texts.technical_details@,
            details@,
        ),
    };
    &&& after == (Session {
        sftp_availability: after.sftp_availability,
        sftp: if available {
            before.sftp
        } else {
            before.sftp.stopped()
        },
        sidebar_sftp: if available {
            before.sidebar_sftp
        } else {
            before.sidebar_sftp.stopped()
        },
        ..before
    })
    &&& match after.sftp_availability {
        SftpAvailability::Available => available,
        SftpAvailability::ScpOnly(shown) => !available && scp_available && shown@ == text,
        SftpAvailability::Unavailable(shown) => !available && !scp_available && shown@ == text,
        SftpAvailability::Checking => false,
    }
    &&& actions == (if available && context.active && context.sidebar_shows_files {
        seq![FollowUp::<S>::EnsureDirectory(SftpBrowserPlacement::Sidebar)]
    } else {
        Seq::empty()
    }) + (if available && context.active && context.tab_shows_files {
        seq![FollowUp::<S>::EnsureDirectory(SftpBrowserPlacement::Center)]
    } else {
        Seq::empty()
    }) + seq![FollowUp::<S>::Notify]
}

/// The session after an operation on files has failed, and what is to be done then. `shown` is the
/// text that tells of it.
pub open spec fn after_sftp_failure<S>(
    before: Session<S>,
    request_id: u64,
    operation: SftpOperation,
    shown: String,
    after: Session<S>,
    actions: Seq<FollowUp<S>>,
) -> bool {
    let placement = placement_of_request(request_id);
    let browser = before.browser(placement);
    match operation {
        SftpOperation::ReadDirectory | SftpOperation::ReadDirectoryTree => {
            &&& after == before.with_browser(placement, after.browser(placement))
            &&& failed(browser, request_id, shown, after.browser(placement))
            &&& actions == if browser.awaits_failure(request_id) {
                seq![
                    FollowUp::<S>::ClearErrorLater {
                        placement,
                        generation: after.browser(placement).error_generation,
                    },
                    FollowUp::Notify,
                ]
            } else {
                seq![FollowUp::<S>::Notify]
            }
        },
        SftpOperation::ReadFile | SftpOperation::WriteFile => {
            &&& after == (Session {
                sftp: SftpBrowserState {
                    file: match before.sftp.file {
                        Some(file) => Some(
                            SftpBrowserState::file_after_failure(
                                file,
                                request_id,
                                operation,
                                shown,
                            ),
                        ),
                        None => None,
                    },
                    ..before.sftp
                },
                ..before
            })
            &&& actions == seq![FollowUp::<S>::Notify]
        },
        SftpOperation::CreateFile
        | SftpOperation::CreateDirectory
        | SftpOperation::DeletePaths => {
            &&& after == before.with_browser(placement, browser.with_error(shown))
            &&& actions == seq![
                FollowUp::<S>::ClearErrorLater {
                    placement,
                    generation: after.browser(placement).error_generation,
                },
                FollowUp::Notify,
            ]
        },
        SftpOperation::UploadFile
        | SftpOperation::DownloadFile
        | SftpOperation::CancelTransfer => {
            &&& after == (Session { transfers: after.transfers, ..before })
            &&& with_tasks(
                before.transfers,
                after.transfers,
                crate::transfers::failed(before.transfers.tasks@, request_id, shown),
            )
            &&& actions == seq![FollowUp::<S>::StartTransfers, FollowUp::Notify]
        },
    }
}

/// The session after the remote shell has told something, and what is to be done then.
pub open spec fn after_shell_event<S>(
    before: Session<S>,
    event: ShellEvent,
    after: Session<S>,
    actions: Seq<FollowUp<S>>,
) -> bool {
    match event {
        ShellEvent::Output(data) => after == before && actions == seq![
            FollowUp::<S>::ProcessOutput(data),
        ],
        ShellEvent::ExtendedOutput(data) => after == before && actions == seq![
            FollowUp::<S>::ProcessOutput(data),
        ],
        ShellEvent::ExitStatus(status) => {
            let message = Some(SessionMessage::ShellStatus(status));
            &&& after == (Session {
                connection_message: message,
                terminal_end_reason: message,
                ..before
            })
            &&& actions == seq![FollowUp::<S>::Notify]
        },
        ShellEvent::ExitSignal { signal, core_dumped, message } => {
            let shown = Some(SessionMessage::ShellSignal { signal, core_dumped, message });
            &&& after == (Session {
                connection_message: shown,
                terminal_end_reason: shown,
                ..before
            })
            &&& actions == seq![FollowUp::<S>::Notify]
        },
        ShellEvent::Eof => {
            let message = Some(SessionMessage::Localized("terminal-remote-shell-eof"));
            &&& after == (Session {
                connection_message: message,
                terminal_end_reason: if before.terminal_end_reason is None {
                    message
                } else {
                    before.terminal_end_reason
                },
                ..before
            })
            &&& actions == seq![FollowUp::<S>::Notify]
        },
        ShellEvent::Closed => {
            let message = Some(SessionMessage::Localized("terminal-remote-shell-closed"));
            &&& after == (Session {
                connection_message: message,
                terminal_end_reason: if before.terminal_end_reason is None {
                    message
                } else {
                    before.terminal_end_reason
                },
                ..before
            })
            &&& actions == seq![FollowUp::<S>::Notify]
        },
    }
}

/// The session after an event of its connection, and what is to be done then.
pub open spec fn after_event<S>(
    before: Session<S>,
    event: ConnectionEvent,
    profiles: Seq<ConnectionProfile>,
    context: EventContext,
    texts: EventTexts,
    after: Session<S>,
    actions: Seq<FollowUp<S>>,
) -> bool {
    let notify = seq![FollowUp::<S>::Notify];
    match event {
        ConnectionEvent::StateChanged(state) => {
            &&& after_state_change(before, state, texts.connection_closed@, after)
            &&& actions == state_change_actions::<S>(before, state)
        },
        ConnectionEvent::ConnectionStageChanged(stage) => {
            &&& after == (Session { connection_message: Some(connecting(stage)), ..before })
            &&& actions == notify
        },
        ConnectionEvent::AuthenticationSucceeded { stage, .. } => {
            after_login(before, stage, after, actions)
        },
        ConnectionEvent::HostKeyVerificationRequired { stage, info } => {
            &&& after == (Session {
                connection_message: Some(
                    SessionMessage::HostKeyVerification { at: stage, address: info.address },
                ),
                host_key_prompt: Some(info),
                ..before
            })
            &&& actions == seq![FollowUp::<S>::ActivateSession, FollowUp::Notify]
        },
        ConnectionEvent::Failed(error) => {
            after_failure(before, profiles, error, texts.connection_failed@, after, actions)
        },
        ConnectionEvent::DirectoryRead { request_id, directory } => {
            let placement = placement_of_request(request_id);
            &&& after == before.with_browser(placement, after.browser(placement))
            &&& completed(
                before.browser(placement),
                request_id,
                directory,
                after.browser(placement),
            )
            &&& actions == notify
        },
        ConnectionEvent::DirectoryTreeRead { request_id, tree } => {
            after_tree_read(before, request_id, tree, after, actions)
        },
        ConnectionEvent::FileRead { request_id, file } => {
            after_file_read(before, request_id, file, after) && actions == notify
        },
        ConnectionEvent::FileWritten { request_id, file } => {
            after == after_file_written(before, request_id, file) && actions == notify
        },
        ConnectionEvent::PathCreated { request_id, path, kind } => {
            &&& after == before
            &&& actions == if kind == RemoteFileKind::File && context.active {
                seq![
                    FollowUp::<S>::RefreshDirectory(placement_of_request(request_id)),
                    FollowUp::OpenFile(path),
                    FollowUp::Notify,
                ]
            } else {
                seq![
                    FollowUp::<S>::RefreshDirectory(placement_of_request(request_id)),
                    FollowUp::Notify,
                ]
            }
        },
        ConnectionEvent::DirectoriesCreated { request_id, .. } => {
            &&& after == before
            &&& actions == seq![
                FollowUp::<S>::RefreshDirectory(placement_of_request(request_id)),
                FollowUp::Notify,
            ]
        },
        ConnectionEvent::PathsDeleted { request_id, paths } => {
            &&& after == (Session { sftp: after.sftp, sidebar_sftp: after.sidebar_sftp, ..before })
            &&& paths_removed(before.sftp, views(paths@), after.sftp)
            &&& paths_removed(before.sidebar_sftp, views(paths@), after.sidebar_sftp)
            &&& actions == seq![
                FollowUp::<S>::RefreshDirectory(placement_of_request(request_id)),
                FollowUp::Notify,
            ]
        },
        ConnectionEvent::TransferProgress { transfer_id, transferred, total } => {
            &&& after == (Session { transfers: after.transfers, ..before })
            &&& with_tasks(
                before.transfers,
                after.transfers,
                progressed(before.transfers.tasks@, transfer_id, transferred, total),
            )
            &&& actions == notify
        },
        ConnectionEvent::TransferConflict { transfer_id } => {
            &&& after == (Session { transfers: after.transfers, ..before })
            &&& with_tasks(
                before.transfers,
                after.transfers,
                conflicted(before.transfers.tasks@, transfer_id),
            )
            &&& actions == seq![FollowUp::<S>::StartTransfers, FollowUp::Notify]
        },
        ConnectionEvent::TransferCompleted { transfer_id, direction, path, bytes } => {
            &&& after == (Session { transfers: after.transfers, ..before })
            &&& with_tasks(
                before.transfers,
                after.transfers,
                crate::transfers::completed(before.transfers.tasks@, transfer_id, bytes),
            )
            &&& actions == if is_active_task(before.transfers.tasks@, transfer_id) {
                transfer_done_actions(before, direction, path@) + notify
            } else {
                notify
            }
        },
        ConnectionEvent::TransferCancelled { transfer_id } => {
            &&& after == (Session { transfers: after.transfers, ..before })
            &&& with_tasks(
                before.transfers,
                after.transfers,
                cancelled(before.transfers.tasks@, transfer_id),
            )
            &&& actions == seq![FollowUp::<S>::StartTransfers, FollowUp::Notify]
        },
        ConnectionEvent::SftpAvailabilityChanged { available, scp_available, message } => {
            after_availability(
                before,
                available,
                scp_available,
                message,
                context,
                texts,
                after,
                actions,
            )
        },
        ConnectionEvent::SftpFailed { request_id, operation, error } => {
            exists|shown: String|
                shown@ == detailed_text(
                    texts.sftp_failed@,
                    texts.technical_details@,
                    error.message@,
                ) && #[trigger] after_sftp_failure(
                    before,
                    request_id,
                    operation,
                    shown,
                    after,
                    actions,
                )
        },
        ConnectionEvent::PerformanceSnapshot => {
            &&& after == before
            &&& actions == seq![FollowUp::<S>::UpdatePerformance, FollowUp::Notify]
        },
        ConnectionEvent::PerformanceFailed(error) => {
            &&& after == (Session {
                performance: PerformanceState { loading: false, error: after.performance.error },
                ..before
            })
            &&& crate::text::opt_view(after.performance.error) == Some(
                detailed_text(
                    texts.performance_unavailable@,
                    texts.technical_details@,
                    error.message@,
                ),
            )
            &&& actions == notify
        },
        ConnectionEvent::Resized { dimensions_changed } => {
            &&& after == (Session {
                has_selection: before.has_selection && !dimensions_changed,
                selecting: before.selecting && !dimensions_changed,
                ..before
            })
            &&& actions == notify
        },
        ConnectionEvent::Shell(event) => after_shell_event(before, event, after, actions),
    }
}

/// A list with one thing to do.
fn only<S>(action: FollowUp<S>) -> (r: Vec<FollowUp<S>>)
    ensures
        r@ == seq![action],
{
    let mut actions: Vec<FollowUp<S>> = Vec::new();
    actions.push(action);
    assert(actions@ =~= seq![action]);
    actions
}

/// A list with something to do, and the change to show.
fn then_notify<S>(action: FollowUp<S>) -> (r: Vec<FollowUp<S>>)
    ensures
        r@ == seq![action, FollowUp::Notify],
{
    let mut actions: Vec<FollowUp<S>> = Vec::new();
    actions.push(action);
    actions.push(FollowUp::Notify);
    assert(actions@ =~= seq![action, FollowUp::Notify]);
    actions
}

impl<S> Session<S> {
    /// Takes in that a transfer was done.
    pub fn complete_sftp_transfer(
        &mut self,
        transfer_id: u64,
        direction: SftpTransferDirection,
        remote_path: &str,
        bytes: u64,
    ) -> (r: Vec<FollowUp<S>>)
        ensures
            *final(self) == (Session { transfers: final(self).transfers, ..*old(self) }),
            with_tasks(
                old(self).transfers,
                final(self).transfers,
                crate::transfers::completed(old(self).transfers.tasks@, transfer_id, bytes),
            ),
            r@ == if is_active_task(old(self).transfers.tasks@, transfer_id) {
                transfer_done_actions(*old(self), direction, remote_path@)
            } else {
                Seq::empty()
            },
    {
        let mut actions: Vec<FollowUp<S>> = Vec::new();
        if !self.transfers.mark_completed(transfer_id, bytes) {
            return actions;
        }
        if direction == SftpTransferDirection::Upload {
            let parent: String = match remote_parent_path(remote_path) {
                Some(parent) => parent,
                None => ".".to_owned(),
            };
            if self.sftp.loaded && text_eq(self.sftp.path.as_str(), parent.as_str()) {
                actions.push(FollowUp::RefreshDirectory(SftpBrowserPlacement::Center));
            }
            if self.sidebar_sftp.loaded && text_eq(
                self.sidebar_sftp.path.as_str(),
                parent.as_str(),
            ) {
                actions.push(FollowUp::RefreshDirectory(SftpBrowserPlacement::Sidebar));
            }
        }
        actions.push(FollowUp::StartTransfers);
        assert(actions@ =~= transfer_done_actions(*old(self), direction, remote_path@));
        actions
    }

    /// Takes in what can be done with the session's files.
    pub fn change_availability(
        &mut self,
        available: bool,
        scp_available: bool,
        message: Option<String>,
        context: EventContext,
        texts: &EventTexts,
    ) -> (r: Vec<FollowUp<S>>)
        ensures
            after_availability(
                *old(self),
                available,
                scp_available,
                message,
                context,
                *texts,
                *final(self),
                r@,
            ),
    {
        let mut actions: Vec<FollowUp<S>> = Vec::new();
        let text: String = match message {
            None => texts.server_unavailable.clone(),
            Some(details) => with_technical_details(
                texts.server_unavailable.as_str(),
                texts.technical_details.as_str(),
                details.as_str(),
            ),
        };
        self.sftp_availability = if available {
            SftpAvailability::Available
        } else if scp_available {
            SftpAvailability::ScpOnly(text)
        } else {
            SftpAvailability::Unavailable(text)
        };
        if !available {
            self.sftp.stop_loading();
            self.sidebar_sftp.stop_loading();
        }
        if available && context.active {
            if context.sidebar_shows_files {
                actions.push(FollowUp::EnsureDirectory(SftpBrowserPlacement::Sidebar));
            }
            if context.tab_shows_files {
                actions.push(FollowUp::EnsureDirectory(SftpBrowserPlacement::Center));
            }
        }
        actions.push(FollowUp::Notify);
        assert(actions@ =~= (if available && context.active && context.sidebar_shows_files {
            seq![FollowUp::<S>::EnsureDirectory(SftpBrowserPlacement::Sidebar)]
        } else {
            Seq::empty()
        }) + (if available && context.active && context.tab_shows_files {
            seq![FollowUp::<S>::EnsureDirectory(SftpBrowserPlacement::Center)]
        } else {
            Seq::empty()
        }) + seq![FollowUp::<S>::Notify]);
        actions
    }

    /// Takes in that an operation on files has failed; `shown` is the text that tells of it.
    pub fn fail_sftp_operation(
        &mut self,
        request_id: u64,
        operation: SftpOperation,
        shown: String,
    ) -> (r: Vec<FollowUp<S>>)
        ensures
            after_sftp_failure(
                *old(self),
                request_id,
                operation,
                shown,
                *final(self),
                r@,
            ),
    {
        let placement = sftp_browser_placement_for_request(request_id);
        match operation {
            SftpOperation::ReadDirectory | SftpOperation::ReadDirectoryTree => {
                let browser = self.sftp_browser_mut(placement);
                let failed = browser.fail_request(request_id, shown);
                let generation: u64 = browser.error_generation;
                if failed {
                    then_notify(FollowUp::ClearErrorLater { placement, generation })
                } else {
                    only(FollowUp::Notify)
                }
            },
            SftpOperation::ReadFile | SftpOperation::WriteFile => {
                self.sftp.fail_file_request(request_id, operation, shown);
                only(FollowUp::Notify)
            },
            SftpOperation::CreateFile
            | SftpOperation::CreateDirectory
            | SftpOperation::DeletePaths => {
                let generation: u64 = self.sftp_browser_mut(placement).set_error(shown);
                then_notify(FollowUp::ClearErrorLater { placement, generation })
            },
            SftpOperation::UploadFile
            | SftpOperation::DownloadFile
            | SftpOperation::CancelTransfer => {
                self.transfers.mark_failed(request_id, shown);
                then_notify(FollowUp::StartTransfers)
            },
        }
    }

    /// Takes in what the remote shell tells.
    pub fn handle_shell_event(&mut self, event: ShellEvent) -> (r: Vec<FollowUp<S>>)
        ensures
            after_shell_event(*old(self), event, *final(self), r@),
    {
        match event {
            ShellEvent::Output(data) => only(FollowUp::ProcessOutput(data)),
            ShellEvent::ExtendedOutput(data) => only(FollowUp::ProcessOutput(data)),
            ShellEvent::ExitStatus(status) => {
                self.connection_message = Some(SessionMessage::ShellStatus(status));
                self.terminal_end_reason = Some(SessionMessage::ShellStatus(status));
                only(FollowUp::Notify)
            },
            ShellEvent::ExitSignal { signal, core_dumped, message } => {
                let shown = SessionMessage::ShellSignal { signal, core_dumped, message };
                self.connection_message = Some(shown.clone());
                self.terminal_end_reason = Some(shown);
                only(FollowUp::Notify)
            },
            ShellEvent::Eof => {
                self.connection_message = Some(
                    SessionMessage::Localized("terminal-remote-shell-eof"),
                );
                if self.terminal_end_reason.is_none() {
                    self.terminal_end_reason = Some(
                        SessionMessage::Localized("terminal-remote-shell-eof"),
                    );
                }
                only(FollowUp::Notify)
            },
            ShellEvent::Closed => {
                self.connection_message = Some(
                    SessionMessage::Localized("terminal-remote-shell-closed"),
                );
                if self.terminal_end_reason.is_none() {
                    self.terminal_end_reason = Some(
                        SessionMessage::Localized("terminal-remote-shell-closed"),
                    );
                }
                only(FollowUp::Notify)
            },
        }
    }

    /// Takes in an event of the connection. Whatever it is, no transfer comes to replace anything,
    /// and one whose destination was found to exist waits for the user.
    pub fn handle_connection_event(
        &mut self,
        event: ConnectionEvent,
        profiles: &Vec<ConnectionProfile>,
        context: EventContext,
        texts: &EventTexts,
    ) -> (r: Vec<FollowUp<S>>)
        ensures
            after_event(
                *old(self),
                event,
                profiles@,
                context,
                *texts,
                *final(self),
                r@,
            ),
            final(self).transfers.tasks@.len() == old(self).transfers.tasks@.len(),
            forall|i: int|
                0 <= i < old(self).transfers.tasks@.len() ==> (
                #[trigger] final(self).transfers.tasks@[i]).overwrite == old(
                    self,
                ).transfers.tasks@[i].overwrite && (final(self).transfers.tasks@[i].state
                    == SftpTransferState::Queued ==> old(self).transfers.tasks@[i].state
                    == SftpTransferState::Queued),
    {
        let ghost before = *self;
        let ghost happened = event;
        let actions = self.take_event(event, profiles, context, texts);
        proof {
            let after = *self;
            if before.transfers.tasks@.len() == 0 {
                events_keep_the_list(
                    before,
                    happened,
                    profiles@,
                    context,
                    *texts,
                    after,
                    actions@,
                );
            }
            assert forall|i: int|
                0 <= i < before.transfers.tasks@.len() implies after.transfers.tasks@.len()
                == before.transfers.tasks@.len() && (
            #[trigger] after.transfers.tasks@[i]).overwrite == before.transfers.tasks@[i].overwrite
                && (after.transfers.tasks@[i].state == SftpTransferState::Queued
                ==> before.transfers.tasks@[i].state == SftpTransferState::Queued) by {
                events_keep_what_transfers_do(
                    before,
                    happened,
                    profiles@,
                    context,
                    *texts,
                    after,
                    actions@,
                    i,
                );
            }
            assert(before.transfers.tasks@.len() > 0 ==> after.transfers.tasks@[0].overwrite
                == before.transfers.tasks@[0].overwrite);
        }
        actions
    }

    /// Takes in an event of the connection.
    #[verifier::spinoff_prover]
    #[verifier::rlimit(60)]
    fn take_event(
        &mut self,
        event: ConnectionEvent,
        profiles: &Vec<ConnectionProfile>,
        context: EventContext,
        texts: &EventTexts,
    ) -> (r: Vec<FollowUp<S>>)
        ensures
            after_event(
                *old(self),
                event,
                profiles@,
                context,
                *texts,
                *final(self),
                r@,
            ),
    {
        match event {
            ConnectionEvent::StateChanged(state) => {
                self.change_state(state, texts.connection_closed.as_str())
            },
            ConnectionEvent::ConnectionStageChanged(stage) => {
                self.connection_message = Some(connecting_message(&stage));
                only(FollowUp::Notify)
            },
            ConnectionEvent::AuthenticationSucceeded { stage, .. } => match stage.profile_id() {
                Some(profile_id) => {
                    let saved = self.save_successful_credentials(profile_id.as_str());
                    then_notify(FollowUp::SaveCredentials(saved))
                },
                None => only(FollowUp::Notify),
            },
            ConnectionEvent::HostKeyVerificationRequired { stage, info } => {
                self.connection_message = Some(
                    SessionMessage::HostKeyVerification {
                        at: stage,
                        address: info.address.clone(),
                    },
                );
                self.host_key_prompt = Some(info);
                then_notify(FollowUp::ActivateSession)
            },
            ConnectionEvent::Failed(error) => {
                self.fail_connection(profiles, error, texts.connection_failed.as_str())
            },
            ConnectionEvent::DirectoryRead { request_id, directory } => {
                let placement = sftp_browser_placement_for_request(request_id);
                self.sftp_browser_mut(placement).complete_request(request_id, directory);
                only(FollowUp::Notify)
            },
            ConnectionEvent::DirectoryTreeRead { request_id, tree } => {
                let placement = sftp_browser_placement_for_request(request_id);
                match self.sftp_browser_mut(placement).take_download_tree(request_id) {
                    Some(pending) => then_notify(
                        FollowUp::PrepareDownload { placement, pending, tree },
                    ),
                    None => only(FollowUp::Notify),
                }
            },
            ConnectionEvent::FileRead { request_id, file } => {
                self.sftp.complete_file_read(request_id, file);
                only(FollowUp::Notify)
            },
            ConnectionEvent::FileWritten { request_id, file } => {
                self.sftp.complete_file_write(request_id, file);
                only(FollowUp::Notify)
            },
            ConnectionEvent::PathCreated { request_id, path, kind } => {
                let placement = sftp_browser_placement_for_request(request_id);
                let mut actions: Vec<FollowUp<S>> = only(FollowUp::RefreshDirectory(placement));
                let ghost opened = path;
                if kind == RemoteFileKind::File && context.active {
                    actions.push(FollowUp::OpenFile(path));
                }
                actions.push(FollowUp::Notify);
                proof {
                    if kind == RemoteFileKind::File && context.active {
                        assert(actions@ =~= seq![
                            FollowUp::<S>::RefreshDirectory(placement),
                            FollowUp::OpenFile(opened),
                            FollowUp::Notify,
                        ]);
                    } else {
                        assert(actions@ =~= seq![
                            FollowUp::<S>::RefreshDirectory(placement),
                            FollowUp::Notify,
                        ]);
                    }
                }
                actions
            },
            ConnectionEvent::DirectoriesCreated { request_id, paths } => then_notify(
                FollowUp::RefreshDirectory(sftp_browser_placement_for_request(request_id)),
            ),
            ConnectionEvent::PathsDeleted { request_id, paths } => {
                self.sftp.remove_paths(&paths);
                self.sidebar_sftp.remove_paths(&paths);
                then_notify(
                    FollowUp::RefreshDirectory(sftp_browser_placement_for_request(request_id)),
                )
            },
            ConnectionEvent::TransferProgress { transfer_id, transferred, total } => {
                self.transfers.mark_progress(transfer_id, transferred, total);
                only(FollowUp::Notify)
            },
            ConnectionEvent::TransferConflict { transfer_id } => {
                self.transfers.mark_conflict(transfer_id);
                then_notify(FollowUp::StartTransfers)
            },
            ConnectionEvent::TransferCompleted { transfer_id, direction, path, bytes } => {
                let mut actions: Vec<FollowUp<S>> = self.complete_sftp_transfer(
                    transfer_id,
                    direction,
                    path.as_str(),
                    bytes,
                );
                let ghost done = actions@;
                actions.push(FollowUp::Notify);
                assert(actions@ =~= done + seq![FollowUp::<S>::Notify]);
                assert(Seq::<FollowUp<S>>::empty() + seq![FollowUp::<S>::Notify] =~= seq![
                    FollowUp::<S>::Notify,
                ]);
                actions
            },
            ConnectionEvent::TransferCancelled { transfer_id } => {
                self.transfers.mark_cancelled(transfer_id);
                then_notify(FollowUp::StartTransfers)
            },
            ConnectionEvent::SftpAvailabilityChanged { available, scp_available, message } => {
                self.change_availability(available, scp_available, message, context, texts)
            },
            ConnectionEvent::SftpFailed { request_id, operation, error } => {
                let shown: String = with_technical_details(
                    texts.sftp_failed.as_str(),
                    texts.technical_details.as_str(),
                    error.message.as_str(),
                );
                self.fail_sftp_operation(request_id, operation, shown)
            },
            ConnectionEvent::PerformanceSnapshot => then_notify(FollowUp::UpdatePerformance),
            ConnectionEvent::PerformanceFailed(error) => {
                let shown: String = with_technical_details(
                    texts.performance_unavailable.as_str(),
                    texts.technical_details.as_str(),
                    error.message.as_str(),
                );
                self.performance.loading = false;
                self.performance.error = Some(shown);
                only(FollowUp::Notify)
            },
            ConnectionEvent::Resized { dimensions_changed } => {
                if dimensions_changed {
                    self.has_selection = false;
                    self.selecting = false;
                }
                only(FollowUp::Notify)
            },
            ConnectionEvent::Shell(event) => self.handle_shell_event(event),
        }
    }
}

/// Secrets are put into the keychain only when the server has accepted a login.
pub proof fn secrets_are_kept_only_after_login<S>(
    before: Session<S>,
    event: ConnectionEvent,
    profiles: Seq<ConnectionProfile>,
    context: EventContext,
    texts: EventTexts,
    after: Session<S>,
    actions: Seq<FollowUp<S>>,
    i: int,
)
    requires
        after_event(before, event, profiles, context, texts, after, actions),
        0 <= i < actions.len(),
        actions[i] is SaveCredentials,
    ensures
        event is AuthenticationSucceeded,
{
}

/// An unknown host key is shown to the user, and the connection goes no further by itself.
pub proof fn unknown_host_key_is_shown<S>(
    before: Session<S>,
    stage: ConnectionStage,
    info: HostKeyInfo,
    profiles: Seq<ConnectionProfile>,
    context: EventContext,
    texts: EventTexts,
    after: Session<S>,
    actions: Seq<FollowUp<S>>,
)
    requires
        after_event(
            before,
            ConnectionEvent::HostKeyVerificationRequired { stage, info },
            profiles,
            context,
            texts,
            after,
            actions,
        ),
    ensures
        after.host_key_prompt == Some(info),
        after.connection_state == before.connection_state,
{
}

/// Whatever happens, a session stays the session of its profile.
pub proof fn session_keeps_its_identity<S>(
    before: Session<S>,
    event: ConnectionEvent,
    profiles: Seq<ConnectionProfile>,
    context: EventContext,
    texts: EventTexts,
    after: Session<S>,
    actions: Seq<FollowUp<S>>,
)
    requires
        after_event(before, event, profiles, context, texts, after, actions),
    ensures
        after.id == before.id,
        after.kind == before.kind,
        after.profile_id == before.profile_id,
{
}

/// Whatever happens, the transfers stay in their places, and each moves what it did to where it
/// did: no event of the server lets a transfer replace anything, and none puts one back into the
/// queue or sets it going. One that has come to its end stays as it is. Where a transfer comes to
/// another state, the event says so of it.
pub proof fn events_keep_what_transfers_do<S>(
    before: Session<S>,
    event: ConnectionEvent,
    profiles: Seq<ConnectionProfile>,
    context: EventContext,
    texts: EventTexts,
    after: Session<S>,
    actions: Seq<FollowUp<S>>,
    i: int,
)
    requires
        after_event(before, event, profiles, context, texts, after, actions),
        0 <= i < before.transfers.tasks@.len(),
    ensures
        after.transfers.tasks@.len() == before.transfers.tasks@.len(),
        after.transfers.next_id == before.transfers.next_id,
        after.transfers.next_batch_id == before.transfers.next_batch_id,
        ({
            let was = before.transfers.tasks@[i];
            let now = after.transfers.tasks@[i];
            &&& now.id == was.id
            &&& now.batch_id == was.batch_id
            &&& now.direction == was.direction
            &&& now.local_path == was.local_path
            &&& now.remote_path == was.remote_path
            &&& now.overwrite == was.overwrite
            &&& was.state == SftpTransferState::Completed || was.state == SftpTransferState::Failed
                || was.state == SftpTransferState::Cancelled ==> now == was
            &&& now.state != was.state ==> match now.state {
                SftpTransferState::Conflict => was.state == SftpTransferState::Running && event == (
                ConnectionEvent::TransferConflict { transfer_id: was.id }),
                SftpTransferState::Completed => event matches ConnectionEvent::TransferCompleted {
                    transfer_id,
                    ..
                } && transfer_id == was.id,
                SftpTransferState::Cancelled => event == (ConnectionEvent::TransferCancelled {
                    transfer_id: was.id,
                }),
                SftpTransferState::Failed => event is Failed || event
                    == ConnectionEvent::StateChanged(SessionState::Disconnected) || (
                event matches ConnectionEvent::SftpFailed { request_id, .. } && request_id
                    == was.id),
                _ => false,
            }
        }),
{
    let tasks = before.transfers.tasks@;
    match event {
        ConnectionEvent::TransferProgress { transfer_id, .. } => {
            task_position_is_first(tasks, transfer_id);
        },
        ConnectionEvent::TransferConflict { transfer_id } => {
            task_position_is_first(tasks, transfer_id);
        },
        ConnectionEvent::TransferCompleted { transfer_id, .. } => {
            task_position_is_first(tasks, transfer_id);
        },
        ConnectionEvent::TransferCancelled { transfer_id } => {
            task_position_is_first(tasks, transfer_id);
        },
        ConnectionEvent::SftpFailed { request_id, .. } => {
            task_position_is_first(tasks, request_id);
        },
        _ => (),
    }
}

/// Whatever happens, there are as many transfers as before.
pub proof fn events_keep_the_list<S>(
    before: Session<S>,
    event: ConnectionEvent,
    profiles: Seq<ConnectionProfile>,
    context: EventContext,
    texts: EventTexts,
    after: Session<S>,
    actions: Seq<FollowUp<S>>,
)
    requires
        after_event(before, event, profiles, context, texts, after, actions),
    ensures
        after.transfers.tasks@.len() == before.transfers.tasks@.len(),
{
}

/// A transfer whose destination was found to exist waits for the user: the first transfer with that
/// number, if it was running, and no other transfer changes.
pub proof fn conflict_waits_for_the_user<S>(
    before: Session<S>,
    transfer_id: u64,
    profiles: Seq<ConnectionProfile>,
    context: EventContext,
    texts: EventTexts,
    after: Session<S>,
    actions: Seq<FollowUp<S>>,
    i: int,
)
    requires
        after_event(
            before,
            ConnectionEvent::TransferConflict { transfer_id },
            profiles,
            context,
            texts,
            after,
            actions,
        ),
        0 <= i < before.transfers.tasks@.len(),
    ensures
        ({
            let was = before.transfers.tasks@[i];
            let now = after.transfers.tasks@[i];
            let told_of = was.id == transfer_id && forall|k: int|
                0 <= k < i ==> (#[trigger] before.transfers.tasks@[k]).id != transfer_id;
            if told_of && was.state == SftpTransferState::Running {
                &&& now.state == SftpTransferState::Conflict
                &&& !was.overwrite ==> !now.overwrite
                &&& now == (SftpTransferTask { state: SftpTransferState::Conflict, ..was })
            } else {
                now == was
            }
        }),
{
    task_position_is_first(before.transfers.tasks@, transfer_id);
}

/// A transfer that the server has done is completed with the bytes that were moved, one that it has
/// given up is cancelled, one that has failed says why, and the bytes of a running one only grow.
pub proof fn transfer_reports_are_taken_in<S>(
    before: Session<S>,
    event: ConnectionEvent,
    profiles: Seq<ConnectionProfile>,
    context: EventContext,
    texts: EventTexts,
    after: Session<S>,
    actions: Seq<FollowUp<S>>,
    i: int,
)
    requires
        after_event(before, event, profiles, context, texts, after, actions),
        0 <= i < before.transfers.tasks@.len(),
        forall|k: int|
            0 <= k < i ==> (#[trigger] before.transfers.tasks@[k]).id
                != before.transfers.tasks@[i].id,
    ensures
        ({
            let was = before.transfers.tasks@[i];
            let now = after.transfers.tasks@[i];
            let held = was.state == SftpTransferState::Running || was.state
                == SftpTransferState::Cancelling;
            let pending = held || was.state == SftpTransferState::Queued || was.state
                == SftpTransferState::Conflict;
            match event {
                ConnectionEvent::TransferCompleted { transfer_id, bytes, .. } => if transfer_id
                    == was.id && held {
                    now.state == SftpTransferState::Completed && now.transferred == bytes
                        && now.total == Some(bytes) && now.error is None
                } else {
                    now == was
                },
                ConnectionEvent::TransferCancelled { transfer_id } => if transfer_id == was.id
                    && pending {
                    now.state == SftpTransferState::Cancelled && now.transferred == was.transferred
                        && now.error is None
                } else {
                    now == was
                },
                ConnectionEvent::TransferProgress { transfer_id, transferred, total } => {
                    if transfer_id == was.id && held {
                        &&& now.state == was.state
                        &&& now.transferred >= was.transferred && now.transferred >= transferred
                        &&& now.transferred == was.transferred || now.transferred == transferred
                        &&& now.total == if total is Some {
                            total
                        } else {
                            was.total
                        }
                        &&& now.error == was.error
                    } else {
                        now == was
                    }
                },
                ConnectionEvent::SftpFailed { request_id, operation, error } => {
                    let moving = operation == SftpOperation::UploadFile || operation
                        == SftpOperation::DownloadFile || operation
                        == SftpOperation::CancelTransfer;
                    if moving && request_id == was.id && pending {
                        &&& now.state == SftpTransferState::Failed
                        &&& now.error is Some
                        &&& now.error->0@ == texts.sftp_failed@ + "\n"@ + texts.technical_details@
                            + ": "@ + error.message@
                        &&& now.transferred == was.transferred
                    } else {
                        now == was
                    }
                },
                ConnectionEvent::Failed(_) => if pending {
                    now.state == SftpTransferState::Failed && now.error is Some && now.error->0@
                        == texts.connection_failed@ && now.transferred == was.transferred
                } else {
                    now == was
                },
                ConnectionEvent::StateChanged(SessionState::Disconnected) => if pending {
                    now.state == SftpTransferState::Failed && now.error is Some && now.error->0@
                        == texts.connection_closed@ && now.transferred == was.transferred
                } else {
                    now == was
                },
                ConnectionEvent::TransferConflict { .. } => true,
                _ => now == was,
            }
        }),
{
    let tasks = before.transfers.tasks@;
    match event {
        ConnectionEvent::TransferProgress { transfer_id, .. } => {
            task_position_is_first(tasks, transfer_id);
        },
        ConnectionEvent::TransferCompleted { transfer_id, .. } => {
            task_position_is_first(tasks, transfer_id);
        },
        ConnectionEvent::TransferCancelled { transfer_id } => {
            task_position_is_first(tasks, transfer_id);
        },
        ConnectionEvent::SftpFailed { request_id, .. } => {
            task_position_is_first(tasks, request_id);
        },
        _ => (),
    }
}

/// The connection stands where its worker says. When it ends, by itself or by a failure, its
/// worker can no longer be spoken to, no secret is kept, no question about a host key stays, and
/// nothing is waited for. Whether the session is to close and what its terminal was told stay.
pub proof fn connection_follows_its_worker<S>(
    before: Session<S>,
    event: ConnectionEvent,
    profiles: Seq<ConnectionProfile>,
    context: EventContext,
    texts: EventTexts,
    after: Session<S>,
    actions: Seq<FollowUp<S>>,
)
    requires
        after_event(before, event, profiles, context, texts, after, actions),
    ensures
        event is Failed ==> after.connection_state == SessionState::Failed,
        event matches ConnectionEvent::StateChanged(state) ==> after.connection_state == state,
        !(event is Failed) && !(event is StateChanged) ==> after.connection_state
            == before.connection_state,
        event is Failed || event == ConnectionEvent::StateChanged(SessionState::Disconnected) ==> {
            &&& !after.has_handle
            &&& after.connection_credentials@.len() == 0
            &&& after.host_key_prompt is None
            &&& !after.resize_pending
            &&& !after.sftp.loading && after.sftp.active_request_id is None
            &&& !after.sidebar_sftp.loading && after.sidebar_sftp.active_request_id is None
            &&& after.sftp.file matches Some(file) ==> !file.loading && !file.saving
                && file.read_request_id is None && file.write_request_id is None
        },
        !(event is Failed) && event != ConnectionEvent::StateChanged(SessionState::Disconnected)
            ==> after.has_handle == before.has_handle && after.resize_pending
            == before.resize_pending,
        !(event is Failed) && event != ConnectionEvent::StateChanged(SessionState::Disconnected)
            && !(event is AuthenticationSucceeded) ==> after.connection_credentials
            == before.connection_credentials,
        after.close_when_disconnected == before.close_when_disconnected,
        after.has_local_handle == before.has_local_handle,
        before.terminal is None ==> after.terminal is None,
        before.terminal matches Some(terminal) ==> {
            &&& after.terminal is Some
            &&& after.terminal->0.profile_id == terminal.profile_id
            &&& after.terminal->0.remote_cwd == terminal.remote_cwd
            &&& after.terminal->0.was_connected <==> terminal.was_connected || event
                == ConnectionEvent::StateChanged(SessionState::Connected)
        },
{
}

/// A session changes only in what the event is about: an error is shown only after a failure, a
/// host key only where one has to be verified, what can be done with the files changes only when
/// the server tells it or is gone, a selection is lost only by another size of the terminal, and
/// the performance changes only where it could not be had.
pub proof fn events_touch_only_what_they_are_about<S>(
    before: Session<S>,
    event: ConnectionEvent,
    profiles: Seq<ConnectionProfile>,
    context: EventContext,
    texts: EventTexts,
    after: Session<S>,
    actions: Seq<FollowUp<S>>,
)
    requires
        after_event(before, event, profiles, context, texts, after, actions),
    ensures
        after.connection_error != before.connection_error ==> event is Failed,
        after.host_key_prompt is Some && after.host_key_prompt != before.host_key_prompt
            ==> event is HostKeyVerificationRequired,
        before.host_key_prompt is Some && after.host_key_prompt is None ==> {
            ||| event is Failed
            ||| event == ConnectionEvent::StateChanged(SessionState::Authenticating)
            ||| event == ConnectionEvent::StateChanged(SessionState::Connected)
            ||| event == ConnectionEvent::StateChanged(SessionState::Disconnected)
        },
        after.sftp_availability != before.sftp_availability ==> {
            ||| event is SftpAvailabilityChanged
            ||| event == ConnectionEvent::StateChanged(SessionState::Disconnected)
                && after.sftp_availability == SftpAvailability::Checking
        },
        after.has_selection ==> before.has_selection,
        after.selecting ==> before.selecting,
        before.has_selection && !after.has_selection ==> event == (ConnectionEvent::Resized {
            dimensions_changed: true,
        }),
        before.selecting && !after.selecting ==> event == (ConnectionEvent::Resized {
            dimensions_changed: true,
        }),
        event == (ConnectionEvent::Resized { dimensions_changed: true }) ==> !after.has_selection
            && !after.selecting,
        after.performance != before.performance ==> event is PerformanceFailed,
        event is PerformanceFailed ==> !after.performance.loading && after.performance.error
            is Some,
        after.terminal_end_reason != before.terminal_end_reason ==> event is Shell || event
            == ConnectionEvent::StateChanged(SessionState::Disconnected),
        after.terminal_end_reason is None ==> before.terminal_end_reason is None,
{
}

/// A session goes off the list exactly when it was to close and its connection has ended, by
/// itself or by a failure.
pub proof fn session_goes_when_it_was_to_close<S>(
    before: Session<S>,
    event: ConnectionEvent,
    profiles: Seq<ConnectionProfile>,
    context: EventContext,
    texts: EventTexts,
    after: Session<S>,
    actions: Seq<FollowUp<S>>,
)
    requires
        after_event(before, event, profiles, context, texts, after, actions),
    ensures
        (exists|i: int| 0 <= i < actions.len() && (#[trigger] actions[i]) is RemoveSession) <==> {
            &&& before.close_when_disconnected
            &&& event is Failed || event == ConnectionEvent::StateChanged(
                SessionState::Disconnected,
            )
        },
{
    if before.close_when_disconnected && (event is Failed || event
        == ConnectionEvent::StateChanged(SessionState::Disconnected)) {
        assert(actions[1] is RemoveSession);
    }
}

/// What is to be done after a change of state, a transfer or a word on the files, told one by one.
proof fn put_together_actions<S>(
    before: Session<S>,
    event: ConnectionEvent,
    context: EventContext,
    i: int,
)
    ensures
        event matches ConnectionEvent::StateChanged(state) ==> {
            let actions = state_change_actions::<S>(before, state);
            0 <= i < actions.len() ==> actions[i] is ClearPerformance || actions[i] is RemoveSession
                || actions[i] is SyncPerformance || actions[i] is Notify
        },
        event matches ConnectionEvent::TransferCompleted { direction, path, .. } ==> {
            let actions = transfer_done_actions(before, direction, path@) + seq![
                FollowUp::<S>::Notify,
            ];
            0 <= i < actions.len() ==> actions[i] is RefreshDirectory || actions[i]
                is StartTransfers || actions[i] is Notify
        },
        event matches ConnectionEvent::SftpAvailabilityChanged { available, .. } ==> {
            let actions = (if available && context.active && context.sidebar_shows_files {
                seq![FollowUp::<S>::EnsureDirectory(SftpBrowserPlacement::Sidebar)]
            } else {
                Seq::empty()
            }) + (if available && context.active && context.tab_shows_files {
                seq![FollowUp::<S>::EnsureDirectory(SftpBrowserPlacement::Center)]
            } else {
                Seq::empty()
            }) + seq![FollowUp::<S>::Notify];
            0 <= i < actions.len() ==> {
                ||| actions[i] is Notify
                ||| actions[i] == FollowUp::<S>::EnsureDirectory(SftpBrowserPlacement::Sidebar)
                    && available && context.active && context.sidebar_shows_files
                ||| actions[i] == FollowUp::<S>::EnsureDirectory(SftpBrowserPlacement::Center)
                    && available && context.active && context.tab_shows_files
            }
        },
{
}

/// Only a failed connection takes a secret out of the keychain or asks for one, and then no error
/// is shown; a session that was to close asks for nothing.
pub proof fn secrets_are_asked_for_after_a_failure<S>(
    before: Session<S>,
    event: ConnectionEvent,
    profiles: Seq<ConnectionProfile>,
    context: EventContext,
    texts: EventTexts,
    after: Session<S>,
    actions: Seq<FollowUp<S>>,
    i: int,
)
    requires
        after_event(before, event, profiles, context, texts, after, actions),
        0 <= i < actions.len(),
    ensures
        actions[i] is RemoveRejectedCredential || actions[i] is AskForCredential ==> {
            &&& event is Failed
            &&& !before.close_when_disconnected
            &&& after.connection_error == before.connection_error
        },
{
    put_together_actions(before, event, context, i);
}

/// A host key that has to be verified brings its session to the front, and nothing else does.
pub proof fn host_key_brings_its_session_forward<S>(
    before: Session<S>,
    event: ConnectionEvent,
    profiles: Seq<ConnectionProfile>,
    context: EventContext,
    texts: EventTexts,
    after: Session<S>,
    actions: Seq<FollowUp<S>>,
    i: int,
)
    requires
        after_event(before, event, profiles, context, texts, after, actions),
        0 <= i < actions.len(),
    ensures
        actions[i] is ActivateSession ==> event is HostKeyVerificationRequired,
        event is HostKeyVerificationRequired ==> actions[0] is ActivateSession,
{
    put_together_actions(before, event, context, i);
}

/// A download is prepared only when the contents of its directory came that were waited for: with
/// what was chosen for it, and in the browser that asked.
pub proof fn awaited_contents_are_downloaded<S>(
    before: Session<S>,
    event: ConnectionEvent,
    profiles: Seq<ConnectionProfile>,
    context: EventContext,
    texts: EventTexts,
    after: Session<S>,
    actions: Seq<FollowUp<S>>,
    i: int,
)
    requires
        after_event(before, event, profiles, context, texts, after, actions),
        0 <= i < actions.len(),
    ensures
        actions[i] matches FollowUp::PrepareDownload { placement, pending, tree } ==> {
            &&& event matches ConnectionEvent::DirectoryTreeRead { request_id, tree: read }
            &&& read == tree
            &&& placement == SftpBrowserPlacement::Sidebar <==> request_id
                >= 0x8000_0000_0000_0000u64
            &&& placement == SftpBrowserPlacement::Sidebar
                ==> before.sidebar_sftp.pending_download_trees@.contains_key(request_id)
                && before.sidebar_sftp.pending_download_trees@[request_id] == pending
            &&& placement == SftpBrowserPlacement::Center
                ==> before.sftp.pending_download_trees@.contains_key(request_id)
                && before.sftp.pending_download_trees@[request_id] == pending
        },
{
    put_together_actions(before, event, context, i);
}

/// Only a new file is opened, and only bytes of the shell go to the terminal, as they are.
pub proof fn only_new_files_are_opened<S>(
    before: Session<S>,
    event: ConnectionEvent,
    profiles: Seq<ConnectionProfile>,
    context: EventContext,
    texts: EventTexts,
    after: Session<S>,
    actions: Seq<FollowUp<S>>,
    i: int,
)
    requires
        after_event(before, event, profiles, context, texts, after, actions),
        0 <= i < actions.len(),
    ensures
        actions[i] matches FollowUp::OpenFile(path) ==> {
            &&& context.active
            &&& event matches ConnectionEvent::PathCreated { path: created, kind, .. }
            &&& created == path && kind == RemoteFileKind::File
        },
        actions[i] matches FollowUp::ProcessOutput(data) ==> event == ConnectionEvent::Shell(
            ShellEvent::Output(data),
        ) || event == ConnectionEvent::Shell(ShellEvent::ExtendedOutput(data)),
        event matches ConnectionEvent::Shell(ShellEvent::Output(data)) ==> actions[i]
            == FollowUp::<S>::ProcessOutput(data) && after == before,
        event matches ConnectionEvent::Shell(ShellEvent::ExtendedOutput(data)) ==> actions[i]
            == FollowUp::<S>::ProcessOutput(data) && after == before,
{
    put_together_actions(before, event, context, i);
}

/// Only what ends or stops a transfer starts others. A browser's directory is asked for by itself
/// only where it is in sight and can be browsed.
pub proof fn work_is_started_by_its_event<S>(
    before: Session<S>,
    event: ConnectionEvent,
    profiles: Seq<ConnectionProfile>,
    context: EventContext,
    texts: EventTexts,
    after: Session<S>,
    actions: Seq<FollowUp<S>>,
    i: int,
)
    requires
        after_event(before, event, profiles, context, texts, after, actions),
        0 <= i < actions.len(),
    ensures
        actions[i] is StartTransfers ==> {
            ||| event is TransferConflict
            ||| event is TransferCompleted
            ||| event is TransferCancelled
            ||| event is SftpFailed
        },
        actions[i] is ClearErrorLater ==> event is SftpFailed,
        actions[i] matches FollowUp::EnsureDirectory(placement) ==> {
            &&& event matches ConnectionEvent::SftpAvailabilityChanged { available, .. }
            &&& available && context.active
            &&& placement == SftpBrowserPlacement::Sidebar ==> context.sidebar_shows_files
            &&& placement == SftpBrowserPlacement::Center ==> context.tab_shows_files
        },
{
    put_together_actions(before, event, context, i);
}

/// A path that was made or deleted, or directories that were made, show in the browser that asked:
/// its directory is asked for anew, the other browser's is not.
pub proof fn asking_browser_is_refreshed<S>(
    before: Session<S>,
    event: ConnectionEvent,
    profiles: Seq<ConnectionProfile>,
    context: EventContext,
    texts: EventTexts,
    after: Session<S>,
    actions: Seq<FollowUp<S>>,
    request_id: u64,
    placement: SftpBrowserPlacement,
)
    requires
        after_event(before, event, profiles, context, texts, after, actions),
        ({
            ||| event matches ConnectionEvent::PathCreated { request_id: id, .. } && id
                == request_id
            ||| event matches ConnectionEvent::DirectoriesCreated { request_id: id, .. } && id
                == request_id
            ||| event matches ConnectionEvent::PathsDeleted { request_id: id, .. } && id
                == request_id
        }),
    ensures
        actions.contains(FollowUp::RefreshDirectory(placement)) <==> (placement
            == SftpBrowserPlacement::Sidebar <==> request_id >= 0x8000_0000_0000_0000u64),
        event matches ConnectionEvent::PathCreated { path, kind, .. } ==> (actions.contains(
            FollowUp::OpenFile(path),
        ) <==> kind == RemoteFileKind::File && context.active),
{
    assert(actions[0] is RefreshDirectory);
    if let ConnectionEvent::PathCreated { path, kind, .. } = event {
        if kind == RemoteFileKind::File && context.active {
            assert(actions[1] == FollowUp::<S>::OpenFile(path));
        }
    }
}

/// What a request number answers, the browser that gave the number takes: the other one stays as
/// it is. The open file is the first browser's.
pub proof fn answers_reach_the_browser_that_asked<S>(
    before: Session<S>,
    event: ConnectionEvent,
    profiles: Seq<ConnectionProfile>,
    context: EventContext,
    texts: EventTexts,
    after: Session<S>,
    actions: Seq<FollowUp<S>>,
    request_id: u64,
)
    requires
        after_event(before, event, profiles, context, texts, after, actions),
        ({
            ||| event matches ConnectionEvent::DirectoryRead { request_id: id, .. } && id
                == request_id
            ||| event matches ConnectionEvent::DirectoryTreeRead { request_id: id, .. } && id
                == request_id
            ||| event matches ConnectionEvent::SftpFailed { request_id: id, operation, .. } && id
                == request_id && operation != SftpOperation::ReadFile && operation
                != SftpOperation::WriteFile
        }),
    ensures
        request_id < 0x8000_0000_0000_0000u64 ==> after.sidebar_sftp == before.sidebar_sftp,
        request_id >= 0x8000_0000_0000_0000u64 ==> after.sftp == before.sftp,
{
}

/// The contents of a file, and that it was written, are taken in only where they were waited for
/// under that number, and nothing but the open file changes.
pub proof fn file_answers_reach_the_open_file<S>(
    before: Session<S>,
    event: ConnectionEvent,
    profiles: Seq<ConnectionProfile>,
    context: EventContext,
    texts: EventTexts,
    after: Session<S>,
    actions: Seq<FollowUp<S>>,
    request_id: u64,
    file: RemoteFile,
)
    requires
        after_event(before, event, profiles, context, texts, after, actions),
        event == (ConnectionEvent::FileRead { request_id, file }) || event
            == (ConnectionEvent::FileWritten { request_id, file }),
    ensures
        after.sidebar_sftp == before.sidebar_sftp,
        after.transfers == before.transfers,
        after.sftp.path == before.sftp.path,
        after.sftp.entries == before.sftp.entries,
        before.sftp.file is None ==> after.sftp.file is None,
        before.sftp.file matches Some(state) ==> {
            &&& after.sftp.file is Some
            &&& event is FileRead && state.read_request_id != Some(request_id)
                ==> after.sftp.file->0 == state
            &&& event is FileWritten && state.write_request_id != Some(request_id)
                ==> after.sftp.file->0 == state
            &&& event is FileRead && state.read_request_id == Some(request_id) ==> {
                &&& after.sftp.file->0.path == file.path
                &&& after.sftp.file->0.original_contents == file.contents
                &&& !after.sftp.file->0.loading
                &&& after.sftp.file->0.error is None
                &&& after.sftp.file->0.editable == state.editable
                &&& after.sftp.file->0.write_request_id == state.write_request_id
            }
            &&& event is FileWritten && state.write_request_id == Some(request_id) ==> {
                &&& after.sftp.file->0.path == file.path
                &&& after.sftp.file->0.original_contents == file.contents
                &&& !after.sftp.file->0.saving
                &&& after.sftp.file->0.error is None
                &&& after.sftp.file->0.editor == state.editor
                &&& after.sftp.file->0.text_format == state.text_format
                &&& after.sftp.file->0.editable == state.editable
            }
        },
{
}

/// Why the shell ended is remembered: a status or a signal that it tells counts, and that it came
/// to its end or was closed counts only where nothing was told before. The message shown is the
/// latest.
pub proof fn end_of_the_shell_is_told<S>(
    before: Session<S>,
    event: ConnectionEvent,
    profiles: Seq<ConnectionProfile>,
    context: EventContext,
    texts: EventTexts,
    after: Session<S>,
    actions: Seq<FollowUp<S>>,
)
    requires
        after_event(before, event, profiles, context, texts, after, actions),
    ensures
        event matches ConnectionEvent::Shell(ShellEvent::ExitStatus(status)) ==> {
            &&& after.terminal_end_reason == Some(SessionMessage::ShellStatus(status))
            &&& after.connection_message == Some(SessionMessage::ShellStatus(status))
        },
        event matches ConnectionEvent::Shell(
            ShellEvent::ExitSignal { signal, core_dumped, message },
        ) ==> {
            &&& after.terminal_end_reason == Some(
                SessionMessage::ShellSignal { signal, core_dumped, message },
            )
            &&& after.connection_message == after.terminal_end_reason
        },
        event == ConnectionEvent::Shell(ShellEvent::Eof) || event == ConnectionEvent::Shell(
            ShellEvent::Closed,
        ) ==> {
            &&& before.terminal_end_reason is Some ==> after.terminal_end_reason
                == before.terminal_end_reason
            &&& before.terminal_end_reason is None ==> after.terminal_end_reason
                == after.connection_message
            &&& after.connection_message is Some
            &&& after.connection_message->0 is Localized
        },
        event == ConnectionEvent::StateChanged(SessionState::Disconnected)
            && before.terminal_end_reason is None ==> (after.terminal_end_reason is Some
            <==> before.connection_state == SessionState::Disconnecting),
{
}

/// What the server says of its files is what the session knows then: they can be browsed, only
/// copied, or neither; where they cannot be browsed, nothing is waited for.
pub proof fn availability_is_what_the_server_says<S>(
    before: Session<S>,
    available: bool,
    scp_available: bool,
    message: Option<String>,
    profiles: Seq<ConnectionProfile>,
    context: EventContext,
    texts: EventTexts,
    after: Session<S>,
    actions: Seq<FollowUp<S>>,
)
    requires
        after_event(
            before,
            ConnectionEvent::SftpAvailabilityChanged { available, scp_available, message },
            profiles,
            context,
            texts,
            after,
            actions,
        ),
    ensures
        after.sftp_availability is Available <==> available,
        after.sftp_availability is ScpOnly <==> !available && scp_available,
        after.sftp_availability is Unavailable <==> !available && !scp_available,
        available ==> after.sftp == before.sftp && after.sidebar_sftp == before.sidebar_sftp,
        !available ==> !after.sftp.loading && !after.sidebar_sftp.loading
            && after.sftp.active_request_id is None && after.sidebar_sftp.active_request_id is None,
        actions.contains(FollowUp::EnsureDirectory(SftpBrowserPlacement::Sidebar)) <==> available
            && context.active && context.sidebar_shows_files,
        actions.contains(FollowUp::EnsureDirectory(SftpBrowserPlacement::Center)) <==> available
            && context.active && context.tab_shows_files,
{
    let sidebar = FollowUp::<S>::EnsureDirectory(SftpBrowserPlacement::Sidebar);
    let center = FollowUp::<S>::EnsureDirectory(SftpBrowserPlacement::Center);
    if available && context.active {
        if context.sidebar_shows_files {
            assert(actions[0] == sidebar);
            if context.tab_shows_files {
                assert(actions[1] == center);
            }
        } else if context.tab_shows_files {
            assert(actions[0] == center);
        }
    }
}

/// A failure of work on files is shown where the work was asked for: of a listing, only where it
/// is waited for; of a path to be made or deleted, always; of the open file, with the file.
pub proof fn file_failures_are_shown<S>(
    before: Session<S>,
    request_id: u64,
    operation: SftpOperation,
    error: SshError,
    profiles: Seq<ConnectionProfile>,
    context: EventContext,
    texts: EventTexts,
    after: Session<S>,
    actions: Seq<FollowUp<S>>,
)
    requires
        after_event(
            before,
            ConnectionEvent::SftpFailed { request_id, operation, error },
            profiles,
            context,
            texts,
            after,
            actions,
        ),
        request_id < 0x8000_0000_0000_0000u64,
    ensures
        operation == SftpOperation::CreateFile || operation == SftpOperation::CreateDirectory
            || operation == SftpOperation::DeletePaths ==> after.sftp.error is Some
            && after.sftp.entries == before.sftp.entries && after.sftp.path == before.sftp.path
            && after.sftp.file == before.sftp.file,
        operation == SftpOperation::ReadDirectory && before.sftp.active_request_id == Some(
            request_id,
        ) ==> after.sftp.error is Some && after.sftp.entries == before.sftp.entries
            && after.sftp.path == before.sftp.path,
        operation == SftpOperation::ReadDirectory && before.sftp.active_request_id == Some(
            request_id,
        ) && !before.sftp.tree_requests@.contains_key(request_id)
            && !before.sftp.pending_download_trees@.contains_key(request_id)
            ==> !after.sftp.loading && after.sftp.active_request_id is None,
        operation == SftpOperation::ReadDirectory && before.sftp.active_request_id != Some(
            request_id,
        ) && !before.sftp.tree_requests@.contains_key(request_id)
            && !before.sftp.pending_download_trees@.contains_key(request_id) ==> after == before,
        operation == SftpOperation::ReadFile ==> after.sftp.error == before.sftp.error && (
        before.sftp.file matches Some(file) ==> {
            &&& after.sftp.file is Some
            &&& after.sftp.file->0.path == file.path
            &&& after.sftp.file->0.original_contents == file.original_contents
            &&& after.sftp.file->0.editor == file.editor
            &&& file.read_request_id == Some(request_id) ==> after.sftp.file->0.error is Some
                && !after.sftp.file->0.loading && after.sftp.file->0.read_request_id is None
            &&& file.read_request_id != Some(request_id) ==> after.sftp.file->0 == file
        }),
        operation == SftpOperation::WriteFile ==> after.sftp.error == before.sftp.error && (
        before.sftp.file matches Some(file) ==> {
            &&& after.sftp.file is Some
            &&& after.sftp.file->0.path == file.path
            &&& after.sftp.file->0.original_contents == file.original_contents
            &&& after.sftp.file->0.editor == file.editor
            &&& file.write_request_id == Some(request_id) ==> after.sftp.file->0.error is Some
                && !after.sftp.file->0.saving && after.sftp.file->0.write_request_id is None
            &&& file.write_request_id != Some(request_id) ==> after.sftp.file->0 == file
        }),
{
}

/// A secret that the server refused: a stored one is taken out of the keychain, and a typed one is
/// asked for again where a step of the way takes one. Either way no error is shown. A password is
/// known to be wrong only where the profile of the server that refused takes one.
pub proof fn refused_secret_is_replaced<S>(
    before: Session<S>,
    error: SshError,
    profiles: Seq<ConnectionProfile>,
    context: EventContext,
    texts: EventTexts,
    after: Session<S>,
    actions: Seq<FollowUp<S>>,
    id: Seq<char>,
    i: int,
    p: int,
)
    requires
        after_event(
            before,
            ConnectionEvent::Failed(error),
            profiles,
            context,
            texts,
            after,
            actions,
        ),
        !before.close_when_disconnected,
        id == match error.stage {
            Some(ConnectionStage::Jump { profile_id, .. }) => profile_id@,
            Some(ConnectionStage::Target { profile_id }) => profile_id@,
            Some(ConnectionStage::Proxy) => before.profile_id@,
            None => before.profile_id@,
        },
        0 <= i < before.connection_credentials@.len(),
        before.connection_credentials@[i].profile_id@ == id,
        forall|k: int|
            0 <= k < i ==> (#[trigger] before.connection_credentials@[k]).profile_id@ != id
                || before.connection_credentials@[k].kind != before.connection_credentials@[i].kind,
        ({
            let kind = before.connection_credentials@[i].kind;
            ||| error.kind == SshErrorKind::ProxyAuthentication && kind
                == CredentialKind::ProxyPassword
            ||| error.kind == SshErrorKind::PrivateKeyPassphrase && kind
                == CredentialKind::PrivateKeyPassphrase
            ||| {
                &&& error.kind == SshErrorKind::Authentication && kind == CredentialKind::Password
                &&& error.stage is Some && !(error.stage->0 is Proxy)
                &&& 0 <= p < profiles.len() && profiles[p].id@ == id
                &&& forall|k: int| 0 <= k < p ==> (#[trigger] profiles[k]).id@ != id
                &&& profiles[p].auth is Password
            }
        }),
    ensures
        ({
            let used = before.connection_credentials@[i];
            &&& used.source == CredentialSource::SystemKeychain ==> {
                &&& after.connection_error == before.connection_error
                &&& actions.len() == 4
                &&& actions[2] matches FollowUp::RemoveRejectedCredential { profile_id, kind }
                    && profile_id@ == id && kind == used.kind
            }
            &&& used.source == CredentialSource::Prompt && can_ask_again(
                profiles,
                before.profile_id@,
                id,
                used.kind,
            ) ==> {
                &&& after.connection_error == before.connection_error
                &&& actions.len() == 4
                &&& actions[2] matches FollowUp::AskForCredential { profile_id, kind }
                    && profile_id@ == id && kind == used.kind
            }
            &&& used.source == CredentialSource::Prompt && !can_ask_again(
                profiles,
                before.profile_id@,
                id,
                used.kind,
            ) ==> actions.len() == 3 && after.connection_error == Some(
                SessionMessage::ConnectionError {
                    kind: error.kind,
                    details: error.message,
                    stage: error.stage,
                },
            )
        }),
{
    let creds = before.connection_credentials@;
    let kind = rejected_kind(error.kind, failed_auth(profiles, error.stage));
    if error.kind == SshErrorKind::Authentication {
        crate::profile::profile_position_is_first(profiles, id);
        assert(profiles[p].id@ == id);
        assert(profile_position(profiles, id) == p);
    }
    assert(kind == Some(creds[i].kind));
    crate::sequences::first_index_is(creds, is_credential_for::<S>(kind, id), i);
}

/// A failure that no secret is to blame for is shown as it is, and no secret is asked for: such a
/// failure is of another kind than a login, a key's passphrase or a proxy's password.
pub proof fn other_failures_are_shown<S>(
    before: Session<S>,
    error: SshError,
    profiles: Seq<ConnectionProfile>,
    context: EventContext,
    texts: EventTexts,
    after: Session<S>,
    actions: Seq<FollowUp<S>>,
)
    requires
        after_event(
            before,
            ConnectionEvent::Failed(error),
            profiles,
            context,
            texts,
            after,
            actions,
        ),
        !before.close_when_disconnected,
        error.kind != SshErrorKind::Authentication,
        error.kind != SshErrorKind::PrivateKeyPassphrase,
        error.kind != SshErrorKind::ProxyAuthentication,
    ensures
        after.connection_error == Some(
            SessionMessage::ConnectionError {
                kind: error.kind,
                details: error.message,
                stage: error.stage,
            },
        ),
        actions.len() == 3,
{
    let creds = before.connection_credentials@;
    first_index_properties(creds, is_credential_for::<S>(None, failed_profile(before, error)@));
}

/// A secret can be asked for again only on the way to a profile that is there: a proxy's password
/// for the target itself, where the first profile with its name has a proxy with a user name; a
/// password or a key's passphrase for a profile that logs in with one.
pub proof fn secret_is_asked_for_where_one_is_taken(
    profiles: Seq<ConnectionProfile>,
    target_id: Seq<char>,
    profile_id: Seq<char>,
    kind: CredentialKind,
    p: int,
)
    requires
        0 <= p < profiles.len(),
        profiles[p].id@ == target_id,
        forall|k: int| 0 <= k < p ==> (#[trigger] profiles[k]).id@ != target_id,
    ensures
        kind == CredentialKind::ProxyPassword ==> (can_ask_again(
            profiles,
            target_id,
            profile_id,
            kind,
        ) <==> profile_id == target_id && match profiles[p].route.upstream_proxy {
            Some(ProxyConfig::HttpConnect { username, .. }) => username is Some,
            Some(ProxyConfig::Socks5 { username, .. }) => username is Some,
            Some(ProxyConfig::ProxyCommand { .. }) => false,
            None => false,
        }),
        kind == CredentialKind::Password ==> (can_ask_again(profiles, target_id, profile_id, kind)
            <==> exists|k: int|
            0 <= k < profiles.len() && (#[trigger] profiles[k]).id@ == profile_id
                && profiles[k].auth is Password),
        kind == CredentialKind::PrivateKeyPassphrase ==> (can_ask_again(
            profiles,
            target_id,
            profile_id,
            kind,
        ) <==> exists|k: int|
            0 <= k < profiles.len() && (#[trigger] profiles[k]).id@ == profile_id
                && profiles[k].auth is PrivateKey),
        kind == CredentialKind::ProxyCommand ==> !can_ask_again(
            profiles,
            target_id,
            profile_id,
            kind,
        ),
{
    crate::profile::profile_position_is_first(profiles, target_id);
    assert(profiles[p].id@ == target_id);
    assert(profile_position(profiles, target_id) == p);
    any_where_iff(profiles, takes_secret(profile_id, kind));
    assert(forall|k: int|
        0 <= k < profiles.len() && (#[trigger] profiles[k]).id@ == profile_id
            && profiles[k].auth is Password && kind == CredentialKind::Password ==> takes_secret(
            profile_id,
            kind,
        )(profiles[k]));
    assert(forall|k: int|
        0 <= k < profiles.len() && (#[trigger] profiles[k]).id@ == profile_id
            && profiles[k].auth is PrivateKey && kind == CredentialKind::PrivateKeyPassphrase
            ==> takes_secret(profile_id, kind)(profiles[k]));
}

/// A login that succeeded proves the secrets for that server right, and every proxy's password:
/// those leave the session, and all others stay. Of a login to a proxy nothing follows.
pub proof fn login_proves_its_own_secrets<S>(
    before: Session<S>,
    stage: ConnectionStage,
    method: String,
    profiles: Seq<ConnectionProfile>,
    context: EventContext,
    texts: EventTexts,
    after: Session<S>,
    actions: Seq<FollowUp<S>>,
    credential: ConnectionCredential<S>,
)
    requires
        after_event(
            before,
            ConnectionEvent::AuthenticationSucceeded { stage, method },
            profiles,
            context,
            texts,
            after,
            actions,
        ),
    ensures
        stage is Proxy ==> after == before && actions == seq![FollowUp::<S>::Notify],
        ({
            let id = match stage {
                ConnectionStage::Jump { profile_id, .. } => profile_id@,
                ConnectionStage::Target { profile_id } => profile_id@,
                ConnectionStage::Proxy => Seq::empty(),
            };
            !(stage is Proxy) ==> {
                &&& after.connection_credentials@.contains(credential)
                    <==> before.connection_credentials@.contains(credential)
                    && credential.profile_id@ != id && credential.kind
                    != CredentialKind::ProxyPassword
                &&& before.connection_credentials@.contains(credential) && (
                credential.profile_id@ == id || credential.kind == CredentialKind::ProxyPassword)
                    && credential.save_on_success is Some ==> {
                    &&& actions[0] is SaveCredentials
                    &&& exists|k: int|
                        0 <= k < actions[0]->SaveCredentials_0@.len() && (
                        #[trigger] actions[0]->SaveCredentials_0@[k]).profile_id
                            == credential.profile_id && actions[0]->SaveCredentials_0@[k].kind
                            == credential.kind && Some(
                            actions[0]->SaveCredentials_0@[k].secret,
                        ) == credential.save_on_success
                }
            }
        }),
{
    if let Some(id) = stage.stage_profile() {
        let creds = before.connection_credentials@;
        let stays = |credential: ConnectionCredential<S>| !proved_by::<S>(id@)(credential);
        filter_is_exact(creds, stays, credential);
        filter_is_exact(creds, proved_by::<S>(id@), credential);
        let proved = creds.filter(proved_by::<S>(id@));
        if proved.contains(credential) && credential.save_on_success is Some {
            every_secret_to_keep_is_kept(proved, proved.index_of(credential));
        }
    }
}

/// After an upload that was under way is done, each browser that shows the directory of the file
/// asks for it anew, and no other does; after a download none does. Others are started then.
pub proof fn upload_shows_in_its_directory<S>(
    before: Session<S>,
    transfer_id: u64,
    direction: SftpTransferDirection,
    path: String,
    bytes: u64,
    profiles: Seq<ConnectionProfile>,
    context: EventContext,
    texts: EventTexts,
    after: Session<S>,
    actions: Seq<FollowUp<S>>,
    i: int,
)
    requires
        after_event(
            before,
            ConnectionEvent::TransferCompleted { transfer_id, direction, path, bytes },
            profiles,
            context,
            texts,
            after,
            actions,
        ),
        0 <= i < before.transfers.tasks@.len(),
        before.transfers.tasks@[i].id == transfer_id,
        forall|k: int| 0 <= k < i ==> (#[trigger] before.transfers.tasks@[k]).id != transfer_id,
        before.transfers.tasks@[i].state == SftpTransferState::Running,
        parent_path(path@) is Some,
    ensures
        actions.contains(FollowUp::StartTransfers),
        actions.contains(FollowUp::RefreshDirectory(SftpBrowserPlacement::Center)) <==> direction
            == SftpTransferDirection::Upload && before.sftp.loaded && Some(before.sftp.path@)
            == parent_path(path@),
        actions.contains(FollowUp::RefreshDirectory(SftpBrowserPlacement::Sidebar)) <==> direction
            == SftpTransferDirection::Upload && before.sidebar_sftp.loaded && Some(
            before.sidebar_sftp.path@,
        ) == parent_path(path@),
{
    task_position_is_first(before.transfers.tasks@, transfer_id);
    let center = FollowUp::<S>::RefreshDirectory(SftpBrowserPlacement::Center);
    let sidebar = FollowUp::<S>::RefreshDirectory(SftpBrowserPlacement::Sidebar);
    let uploaded = direction == SftpTransferDirection::Upload;
    let one = uploaded && shows_parent_of(before.sftp, path@);
    let two = uploaded && shows_parent_of(before.sidebar_sftp, path@);
    assert(is_active_task(before.transfers.tasks@, transfer_id));
    if one && two {
        assert(actions =~= seq![center, sidebar, FollowUp::StartTransfers, FollowUp::Notify]);
        assert(actions[0] == center && actions[1] == sidebar);
        assert(actions[2] == FollowUp::<S>::StartTransfers);
    } else if one {
        assert(actions =~= seq![center, FollowUp::StartTransfers, FollowUp::Notify]);
        assert(actions[0] == center && actions[1] == FollowUp::<S>::StartTransfers);
    } else if two {
        assert(actions =~= seq![sidebar, FollowUp::StartTransfers, FollowUp::Notify]);
        assert(actions[0] == sidebar && actions[1] == FollowUp::<S>::StartTransfers);
    } else {
        assert(actions =~= seq![FollowUp::StartTransfers, FollowUp::Notify]);
        assert(actions[0] == FollowUp::<S>::StartTransfers);
    }
}

/// What is shown of a file that was read is its text where it is one, and nothing to edit where it
/// is not.
pub proof fn read_text_is_shown<S>(
    before: Session<S>,
    request_id: u64,
    file: RemoteFile,
    profiles: Seq<ConnectionProfile>,
    context: EventContext,
    texts: EventTexts,
    after: Session<S>,
    actions: Seq<FollowUp<S>>,
)
    requires
        after_event(
            before,
            ConnectionEvent::FileRead { request_id, file },
            profiles,
            context,
            texts,
            after,
            actions,
        ),
        before.sftp.file is Some,
        before.sftp.file->0.read_request_id == Some(request_id),
    ensures
        after.sftp.file is Some,
        after.sftp.file->0.editor is Some <==> crate::text_format::is_text(file.contents@),
        after.sftp.file->0.text_format is Some <==> crate::text_format::is_text(file.contents@),
        crate::text_format::is_text(file.contents@) ==> after.sftp.file->0.editor->0@
            == crate::text_format::decoded(file.contents@).1 && after.sftp.file->0.text_format
            == Some(crate::text_format::decoded(file.contents@).0),
        after.sftp.file->0.read_request_id is None,
{
}

/// What the server tells of a failure stands at the end of what is shown of it.
pub proof fn told_details_are_shown<S>(
    before: Session<S>,
    event: ConnectionEvent,
    profiles: Seq<ConnectionProfile>,
    context: EventContext,
    texts: EventTexts,
    after: Session<S>,
    actions: Seq<FollowUp<S>>,
)
    requires
        after_event(before, event, profiles, context, texts, after, actions),
    ensures
        event matches ConnectionEvent::PerformanceFailed(error) ==> {
            let shown = after.performance.error->0@;
            &&& shown.len() >= error.message@.len()
            &&& shown.skip(shown.len() - error.message@.len()) == error.message@
            &&& shown.take(texts.performance_unavailable@.len() as int)
                == texts.performance_unavailable@
        },
        event matches ConnectionEvent::SftpAvailabilityChanged { message, .. } ==> {
            let shown = match after.sftp_availability {
                SftpAvailability::ScpOnly(text) => text@,
                SftpAvailability::Unavailable(text) => text@,
                _ => Seq::empty(),
            };
            !(after.sftp_availability is Available) ==> {
                &&& message is None ==> shown == texts.server_unavailable@
                &&& message matches Some(details) ==> shown.len() >= details@.len() && shown.skip(
                    shown.len() - details@.len(),
                ) == details@ && shown.take(texts.server_unavailable@.len() as int)
                    == texts.server_unavailable@
            }
        },
        event matches ConnectionEvent::SftpFailed { request_id, operation, error } ==> {
            request_id < 0x8000_0000_0000_0000u64 && (operation == SftpOperation::CreateFile
                || operation == SftpOperation::CreateDirectory || operation
                == SftpOperation::DeletePaths) ==> {
                let shown = after.sftp.error->0@;
                &&& shown.len() >= error.message@.len()
                &&& shown.skip(shown.len() - error.message@.len()) == error.message@
                &&& shown.take(texts.sftp_failed@.len() as int) == texts.sftp_failed@
            }
        },
{
    match event {
        ConnectionEvent::PerformanceFailed(error) => {
            details_stand_at_the_end(
                texts.performance_unavailable@,
                texts.technical_details@,
                error.message@,
            );
        },
        ConnectionEvent::SftpAvailabilityChanged { message, .. } => {
            if let Some(details) = message {
                details_stand_at_the_end(
                    texts.server_unavailable@,
                    texts.technical_details@,
                    details@,
                );
            }
        },
        ConnectionEvent::SftpFailed { error, .. } => {
            details_stand_at_the_end(texts.sftp_failed@, texts.technical_details@, error.message@);
        },
        _ => {},
    }
}

} // verus!
