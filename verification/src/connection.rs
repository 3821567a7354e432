//! Starting and ending a session's connection, and what has to be asked on the way.
use crate::browser::{SftpAvailability, SftpBrowserState, SIDEBAR_SFTP_REQUEST_ID_START};
use crate::credentials::{ConnectionCredential, CredentialKind};
use crate::message::{connection_error, labelled, labelled_text, SessionMessage, SshError};
use crate::preparation::{
    are_steps_to, first_missing_jump, ForcedPrompt, PendingConnectionPreparation,
};
use crate::profile::{
    find_profile, has_profile, profile_position, same_profile, ConnectionProfile, ProxyConfig,
};
use crate::sequences::{first_index, first_index_is};
use crate::session::{HostKeyInfo, Session, SessionState, TerminalInfo};
use crate::session_events::{can_ask_again, retry_is_possible};
use crate::text::{clone_opt_text, text_eq};
use vstd::prelude::*;
use vstd::string::*;

verus! {

/// A profile can be connected to in a session: the session has no connection, nothing is being got
/// ready or looked up, and the profile's secrets are not being changed.
pub open spec fn may_connect(
    state: SessionState,
    looking_up: bool,
    preparing: bool,
    approving: bool,
    updating_keychain: bool,
) -> bool {
    state.is_idle() && !looking_up && !preparing && !approving && !updating_keychain
}

/// A profile can be connected to in a session: the session has no connection, nothing is being got
/// ready or looked up, and the profile's secrets are not being changed.
pub fn connect_is_possible(
    state: SessionState,
    looking_up: bool,
    preparing: bool,
    approving: bool,
    updating_keychain: bool,
) -> (r: bool)
    ensures
        r == may_connect(state, looking_up, preparing, approving, updating_keychain),
{
    state.can_connect() && !looking_up && !preparing && !approving && !updating_keychain
}

/// What is to be done with a way that is ready.
#[derive(Debug, PartialEq, Eq)]
pub enum PlanDecision {
    /// The user has to approve the proxy command first.
    AskApproval,
    /// The connection is started.
    Start,
    /// The connection cannot be started.
    Fail(SshError),
}

/// What is to be done with a way that is ready. `preview` says of a way with a proxy command
/// whether the command was approved.
pub open spec fn decision_for(preview: Result<Option<bool>, SshError>) -> PlanDecision {
    match preview {
        Ok(Some(approved)) => if approved {
            PlanDecision::Start
        } else {
            PlanDecision::AskApproval
        },
        Ok(None) => PlanDecision::Start,
        Err(error) => PlanDecision::Fail(error),
    }
}

/// What is to be done with a way that is ready. `preview` says of a way with a proxy command
/// whether the command was approved.
pub fn finish_connection_preparation(preview: Result<Option<bool>, SshError>) -> (r: PlanDecision)
    ensures
        r == decision_for(preview),
{
    match preview {
        Ok(Some(approved)) => {
            if approved {
                PlanDecision::Start
            } else {
                PlanDecision::AskApproval
            }
        },
        Ok(None) => PlanDecision::Start,
        Err(error) => PlanDecision::Fail(error),
    }
}

/// The digest of the command that was approved for a profile; none for a profile without a proxy
/// command.
pub open spec fn approval_of(profile: ConnectionProfile) -> Option<Option<String>> {
    match profile.route.upstream_proxy {
        Some(ProxyConfig::ProxyCommand { approved_digest, .. }) => Some(approved_digest),
        _ => None,
    }
}

/// The profile with another digest approved.
pub open spec fn with_approval(
    profile: ConnectionProfile,
    approved: Option<String>,
) -> ConnectionProfile {
    match profile.route.upstream_proxy {
        Some(ProxyConfig::ProxyCommand { command_digest, .. }) => ConnectionProfile {
            route: crate::profile::ConnectionRoute {
                upstream_proxy: Some(
                    ProxyConfig::ProxyCommand { command_digest, approved_digest: approved },
                ),
                ..profile.route
            },
            ..profile
        },
        _ => profile,
    }
}

/// Sets the digest of the approved command of the profile at `index`.
pub fn set_approval(profiles: &mut Vec<ConnectionProfile>, index: usize, approved: Option<String>)
    requires
        index < old(profiles)@.len(),
    ensures
        final(profiles)@ == old(profiles)@.update(
            index as int,
            with_approval(old(profiles)@[index as int], approved),
        ),
{
    let ghost before = profiles@;
    match &mut profiles[index].route.upstream_proxy {
        Some(ProxyConfig::ProxyCommand { approved_digest, .. }) => {
            *approved_digest = approved;
        },
        _ => {},
    }
    assert(profiles@ =~= before.update(
        index as int,
        with_approval(before[index as int], approved),
    ));
}

/// What noting an approval in the profile `profile_id` comes to.
pub open spec fn approved(
    before: Seq<ConnectionProfile>,
    profile_id: Seq<char>,
    digest: String,
    after: Seq<ConnectionProfile>,
    r: Option<(usize, Option<String>)>,
) -> bool {
    let position = profile_position(before, profile_id);
    let found = has_profile(before, profile_id);
    match r {
        Some((index, previous)) => {
            &&& found
            &&& index == position
            &&& approval_of(before[position]) == Some(previous)
            &&& after == before.update(position, with_approval(before[position], Some(digest)))
        },
        None => {
            &&& !found || approval_of(before[position]) is None
            &&& after == before
        },
    }
}

/// Notes in a profile that its proxy command was approved. The result is where, and what was
/// approved before; none where there is no such profile or it has no proxy command.
pub fn approve_proxy_command(
    profiles: &mut Vec<ConnectionProfile>,
    profile_id: &str,
    digest: String,
) -> (r: Option<(usize, Option<String>)>)
    ensures
        approved(old(profiles)@, profile_id@, digest, final(profiles)@, r),
{
    let index: usize = match find_profile(profiles, profile_id) {
        Some(index) => index,
        None => {
            return None;
        },
    };
    let previous: Option<String> = match &profiles[index].route.upstream_proxy {
        Some(ProxyConfig::ProxyCommand { approved_digest, .. }) => clone_opt_text(approved_digest),
        _ => {
            return None;
        },
    };
    set_approval(profiles, index, Some(digest));
    Some((index, previous))
}

/// The profiles after an approval at `index` was saved or not.
pub open spec fn settled(
    profiles: Seq<ConnectionProfile>,
    index: usize,
    previous: Option<String>,
    saved: bool,
) -> Seq<ConnectionProfile> {
    if saved {
        profiles
    } else {
        profiles.update(index as int, with_approval(profiles[index as int], previous))
    }
}

/// Keeps an approval that was saved, and takes back one that could not be.
pub fn settle_approval(
    profiles: &mut Vec<ConnectionProfile>,
    index: usize,
    previous: Option<String>,
    saved: bool,
)
    requires
        index < old(profiles)@.len(),
    ensures
        final(profiles)@ == settled(old(profiles)@, index, previous, saved),
{
    if !saved {
        set_approval(profiles, index, previous);
    }
}

/// Why a connection was not started after its proxy command was approved.
#[derive(Debug, PartialEq, Eq)]
pub enum ApprovalFailure {
    /// The way does not take the approval.
    Plan(SshError),
    /// There is no such profile any more, or it has no proxy command.
    NoCommand,
    /// The profiles could not be saved.
    NotSaved(String),
}

/// What is said where a connection was not started after its proxy command was approved.
pub open spec fn approval_failure_message(failure: ApprovalFailure) -> SessionMessage {
    match failure {
        ApprovalFailure::Plan(error) => SessionMessage::ConnectionError {
            kind: error.kind,
            details: error.message,
            stage: error.stage,
        },
        ApprovalFailure::NoCommand => SessionMessage::Localized("profile-validation-proxy-command"),
        ApprovalFailure::NotSaved(detail) => SessionMessage::WithDetail {
            key: "app-save-profiles-failed",
            detail,
        },
    }
}

/// Taking an approval back leaves the profiles as they were.
pub proof fn approval_can_be_taken_back(
    profiles: Seq<ConnectionProfile>,
    index: int,
    digest: String,
    previous: Option<String>,
)
    requires
        0 <= index < profiles.len(),
        approval_of(profiles[index]) == Some(previous),
    ensures
        ({
            let approved = profiles.update(index, with_approval(profiles[index], Some(digest)));
            approved.update(index, with_approval(approved[index], previous)) == profiles
        }),
{
    let approved = profiles.update(index, with_approval(profiles[index], Some(digest)));
    assert(with_approval(approved[index], previous) == profiles[index]);
    assert(approved.update(index, with_approval(approved[index], previous)) =~= profiles);
}

/// What ending a connection came to.
#[derive(Clone, Copy, Debug, PartialEq, Eq, Structural)]
pub enum DisconnectOutcome {
    /// The worker was told.
    Pending,
    /// The worker could not be told.
    Failed,
    /// The worker could not be told, and the session goes.
    Remove,
}

/// What taking the host key that waits for a decision off a session comes to.
pub open spec fn host_key_taken<S>(
    before: Session<S>,
    after: Session<S>,
    r: Option<HostKeyInfo>,
) -> bool {
    match before.host_key_prompt {
        None => r is None && after == before,
        Some(info) => {
            &&& r == if before.has_handle {
                Some(info)
            } else {
                None
            }
            &&& after == (Session {
                host_key_prompt: None,
                connection_error: if before.has_handle {
                    before.connection_error
                } else {
                    Some(SessionMessage::Localized("connection-handle-missing"))
                },
                ..before
            })
        },
    }
}

/// What refusing the host key that waits for a decision comes to.
pub open spec fn host_key_refused<S>(before: Session<S>, after: Session<S>, tell: bool) -> bool {
    match before.host_key_prompt {
        None => !tell && after == before,
        Some(_) => {
            &&& tell == before.has_handle
            &&& after == (Session { host_key_prompt: None, connection_message: None, ..before })
        },
    }
}

/// What ending a connection comes to, where telling the worker came to `told`.
pub open spec fn disconnected<S>(
    before: Session<S>,
    told: Result<(), String>,
    after: Session<S>,
    r: DisconnectOutcome,
) -> bool {
    match told {
        Ok(_) => {
            &&& r == DisconnectOutcome::Pending
            &&& after == (Session {
                resize_pending: false,
                connection_state: SessionState::Disconnecting,
                terminal_end_reason: Some(
                    SessionMessage::Localized("terminal-session-disconnected"),
                ),
                ..before
            })
        },
        Err(error) => {
            &&& r == if before.close_when_disconnected {
                DisconnectOutcome::Remove
            } else {
                DisconnectOutcome::Failed
            }
            &&& after == (Session {
                resize_pending: false,
                connection_state: SessionState::Failed,
                has_handle: false,
                has_local_handle: false,
                connection_error: Some(SessionMessage::Plain(error)),
                ..before
            })
        },
    }
}

/// What making a connection to `profile_id` does to its session.
pub open spec fn connection_started<S>(
    before: Session<S>,
    profile_id: String,
    credentials: Vec<ConnectionCredential<S>>,
    after: Session<S>,
) -> bool {
    &&& after == (Session {
        host_key_prompt: None,
        close_when_disconnected: false,
        connection_state: SessionState::Connecting,
        has_handle: true,
        has_local_handle: false,
        connection_credentials: credentials,
        connection_error: None,
        connection_message: None,
        terminal_end_reason: None,
        terminal: Some(TerminalInfo { profile_id, was_connected: false, remote_cwd: None }),
        has_selection: false,
        selecting: false,
        resize_pending: false,
        sftp: after.sftp,
        sidebar_sftp: after.sidebar_sftp,
        sftp_availability: SftpAvailability::Checking,
        ..before
    })
    &&& after.sftp.is_new(1)
    &&& after.sidebar_sftp.is_new(SIDEBAR_SFTP_REQUEST_ID_START)
}

impl<S> Session<S> {
    /// A secret is being looked up.
    pub fn note_lookup(&mut self)
        ensures
            *final(self) == (Session {
                connection_error: None,
                connection_message: Some(SessionMessage::Localized("credential-checking")),
                ..*old(self)
            }),
    {
        self.connection_error = None;
        self.connection_message = Some(SessionMessage::Localized("credential-checking"));
    }

    /// The user is being asked for a secret.
    pub fn note_prompt(&mut self)
        ensures
            *final(self) == (Session {
                connection_error: None,
                connection_message: None,
                ..*old(self)
            }),
    {
        self.connection_error = None;
        self.connection_message = None;
    }

    /// The connection could not be got ready: a server to jump over has no profile.
    pub fn note_missing_jump(&mut self, jump_id: String)
        ensures
            *final(self) == (Session {
                connection_error: Some(
                    SessionMessage::WithDetail {
                        key: "connection-missing-jump",
                        detail: jump_id,
                    },
                ),
                ..*old(self)
            }),
    {
        self.connection_error = Some(
            SessionMessage::WithDetail { key: "connection-missing-jump", detail: jump_id },
        );
    }

    /// The connection could not be got ready.
    pub fn note_preparation_error(&mut self, error: SessionMessage)
        ensures
            *final(self) == (Session {
                connection_error: Some(error),
                connection_message: None,
                ..*old(self)
            }),
    {
        self.connection_error = Some(error);
        self.connection_message = None;
    }

    /// A connection is being made to `profile_id`: what is left of an earlier one is gone.
    pub fn start_connection(
        &mut self,
        profile_id: String,
        credentials: Vec<ConnectionCredential<S>>,
    )
        ensures
            connection_started(*old(self), profile_id, credentials, *final(self)),
    {
        self.host_key_prompt = None;
        self.close_when_disconnected = false;
        self.connection_state = SessionState::Connecting;
        self.has_handle = true;
        self.has_local_handle = false;
        self.connection_credentials = credentials;
        self.connection_error = None;
        self.connection_message = None;
        self.terminal_end_reason = None;
        self.terminal = Some(TerminalInfo { profile_id, was_connected: false, remote_cwd: None });
        self.has_selection = false;
        self.selecting = false;
        self.resize_pending = false;
        self.sftp = SftpBrowserState::default();
        self.sidebar_sftp = SftpBrowserState::with_request_id_start(SIDEBAR_SFTP_REQUEST_ID_START);
        self.sftp_availability = SftpAvailability::Checking;
    }

    /// The host key that waits for a decision, taken off where the worker can be told of it. Where
    /// it cannot, an error is shown in its place.
    pub fn take_host_key_to_trust(&mut self) -> (r: Option<HostKeyInfo>)
        ensures
            host_key_taken(*old(self), *final(self), r),
    {
        match self.host_key_prompt.take() {
            None => None,
            Some(info) => {
                if self.has_handle {
                    Some(info)
                } else {
                    self.connection_error = Some(
                        SessionMessage::Localized("connection-handle-missing"),
                    );
                    None
                }
            },
        }
    }

    /// Notes what telling the worker to trust the host key of `address` came to.
    pub fn note_trusted_host_key(&mut self, address: String, result: Result<(), SshError>)
        ensures
            *final(self) == match result {
                Ok(_) => Session {
                    connection_message: Some(SessionMessage::TrustingHost { address }),
                    ..*old(self)
                },
                Err(error) => Session {
                    connection_error: Some(
                        SessionMessage::ConnectionError {
                            kind: error.kind,
                            details: error.message,
                            stage: error.stage,
                        },
                    ),
                    ..*old(self)
                },
            },
    {
        match result {
            Ok(_) => {
                self.connection_message = Some(SessionMessage::TrustingHost { address });
            },
            Err(error) => {
                self.connection_error = Some(connection_error(&error));
            },
        }
    }

    /// Refuses the host key that waits for a decision; says whether the worker is to be told.
    pub fn reject_host_key(&mut self) -> (r: bool)
        ensures
            host_key_refused(*old(self), *final(self), r),
    {
        match self.host_key_prompt.take() {
            None => false,
            Some(_) => {
                self.connection_message = None;
                self.has_handle
            },
        }
    }

    /// Notes what telling the worker that the host key was refused came to.
    pub fn note_rejected_host_key(&mut self, result: Result<(), String>)
        ensures
            *final(self) == match result {
                Ok(_) => *old(self),
                Err(error) => Session {
                    connection_error: Some(SessionMessage::Plain(error)),
                    ..*old(self)
                },
            },
    {
        match result {
            Ok(_) => (),
            Err(error) => {
                self.connection_error = Some(SessionMessage::Plain(error));
            },
        }
    }

    /// Notes that the proxy command waits for the user's approval.
    pub fn note_approval_question(&mut self)
        ensures
            *final(self) == (Session {
                connection_message: Some(SessionMessage::Localized("proxy-command-approval-title")),
                ..*old(self)
            }),
    {
        self.connection_message = Some(SessionMessage::Localized("proxy-command-approval-title"));
    }

    /// Notes that the user has not approved the proxy command.
    pub fn note_cancelled_approval(&mut self)
        ensures
            *final(self) == (Session {
                connection_error: Some(
                    SessionMessage::Localized("proxy-command-approval-cancelled"),
                ),
                connection_message: None,
                ..*old(self)
            }),
    {
        self.note_preparation_error(SessionMessage::Localized("proxy-command-approval-cancelled"));
    }

    /// Notes why the connection was not started after its proxy command was approved.
    pub fn note_failed_approval(&mut self, failure: ApprovalFailure)
        ensures
            *final(self) == (Session {
                connection_error: Some(approval_failure_message(failure)),
                ..*old(self)
            }),
    {
        let message = match failure {
            ApprovalFailure::Plan(error) => connection_error(&error),
            ApprovalFailure::NoCommand => SessionMessage::Localized(
                "profile-validation-proxy-command",
            ),
            ApprovalFailure::NotSaved(detail) => SessionMessage::WithDetail {
                key: "app-save-profiles-failed",
                detail,
            },
        };
        self.connection_error = Some(message);
    }

    /// Notes that a secret was typed for a connection that is no longer got ready.
    pub fn note_expired_preparation(&mut self)
        ensures
            *final(self) == (Session {
                connection_error: Some(SessionMessage::Localized("connection-preparation-expired")),
                ..*old(self)
            }),
    {
        self.connection_error = Some(SessionMessage::Localized("connection-preparation-expired"));
    }

    /// Ends the connection; `told` is what telling the worker came to.
    pub fn disconnect(&mut self, told: Result<(), String>) -> (r: DisconnectOutcome)
        requires
            old(self).connection_state.is_live(),
        ensures
            disconnected(*old(self), told, *final(self), r),
    {
        self.resize_pending = false;
        match told {
            Ok(_) => {
                self.connection_state = SessionState::Disconnecting;
                self.terminal_end_reason = Some(
                    SessionMessage::Localized("terminal-session-disconnected"),
                );
                DisconnectOutcome::Pending
            },
            Err(error) => {
                self.connection_state = SessionState::Failed;
                self.has_handle = false;
                self.has_local_handle = false;
                self.connection_error = Some(SessionMessage::Plain(error));
                if self.close_when_disconnected {
                    DisconnectOutcome::Remove
                } else {
                    DisconnectOutcome::Failed
                }
            },
        }
    }

    /// Notes what keeping a secret came to.
    pub fn note_saved_credential(&mut self, result: Result<(), SaveCredentialError>)
        ensures
            *final(self) == (Session {
                connection_message: Some(
                    match result {
                        Ok(_) => SessionMessage::Localized("credential-saved"),
                        Err(SaveCredentialError::Keychain(detail)) => SessionMessage::WithDetail {
                            key: "credential-save-failed",
                            detail,
                        },
                        Err(SaveCredentialError::Task(detail)) => SessionMessage::WithDetail {
                            key: "credential-save-task-failed",
                            detail,
                        },
                    },
                ),
                ..*old(self)
            }),
    {
        self.connection_message = Some(
            match result {
                Ok(_) => SessionMessage::Localized("credential-saved"),
                Err(SaveCredentialError::Keychain(detail)) => SessionMessage::WithDetail {
                    key: "credential-save-failed",
                    detail,
                },
                Err(SaveCredentialError::Task(detail)) => SessionMessage::WithDetail {
                    key: "credential-save-task-failed",
                    detail,
                },
            },
        );
    }
}

impl<S> Session<S> {
    /// Notes that a secret was to be taken out of the keychain: `last` where nothing of the
    /// profile changes there any more, `message_key` what is said where that succeeded while the
    /// profile was selected.
    pub fn note_deleted_credential(
        &mut self,
        last: bool,
        deleted: bool,
        selected: bool,
        message_key: Option<&'static str>,
    )
        ensures
            *final(self) == (Session {
                connection_message: if !last {
                    old(self).connection_message
                } else {
                    match message_key {
                        Some(key) if deleted && selected => Some(SessionMessage::Localized(key)),
                        _ => None,
                    }
                },
                ..*old(self)
            }),
    {
        if last {
            self.connection_message = None;
            if deleted && selected {
                match message_key {
                    Some(key) => {
                        self.connection_message = Some(SessionMessage::Localized(key));
                    },
                    None => (),
                }
            }
        }
    }
}

/// What is said where a secret could not be taken out of the keychain.
pub fn deletion_error(result: Result<(), SaveCredentialError>, task_label: &str) -> (r: Option<
    String,
>)
    ensures
        match result {
            Ok(_) => r is None,
            Err(SaveCredentialError::Keychain(detail)) => r == Some(detail),
            Err(SaveCredentialError::Task(detail)) => r is Some && r->0@ == labelled_text(
                task_label@,
                detail@,
            ),
        },
{
    match result {
        Ok(_) => None,
        Err(SaveCredentialError::Keychain(detail)) => Some(detail),
        Err(SaveCredentialError::Task(detail)) => Some(labelled(task_label, detail.as_str())),
    }
}

/// Starts getting a connection of a session ready. Where a server to jump over has no profile, the
/// session says so, and there is nothing to go on with.
pub fn begin_connection_preparation<S>(
    session: &mut Session<S>,
    profiles: &Vec<ConnectionProfile>,
    target_profile: ConnectionProfile,
    force_prompt: Option<ForcedPrompt>,
) -> (r: Option<PendingConnectionPreparation<S>>)
    ensures
        began_preparation(
            *old(session),
            profiles@,
            target_profile,
            force_prompt,
            *final(session),
            r,
        ),
{
    match PendingConnectionPreparation::begin(profiles, session.id, target_profile, force_prompt) {
        Ok(pending) => {
            session.note_lookup();
            Some(pending)
        },
        Err(missing) => {
            session.note_missing_jump(missing.jump_id);
            None
        },
    }
}

/// What starting to get a connection of a session ready comes to.
pub open spec fn began_preparation<S>(
    before: Session<S>,
    profiles: Seq<ConnectionProfile>,
    target: ConnectionProfile,
    force_prompt: Option<ForcedPrompt>,
    after: Session<S>,
    pending: Option<PendingConnectionPreparation<S>>,
) -> bool {
    let jumps = target.route.jump_host_ids@;
    let missing = first_missing_jump(profiles, jumps);
    match pending {
        Some(pending) => {
            &&& missing == jumps.len()
            &&& pending.wf()
            &&& pending.session_id == before.id
            &&& pending.target_profile == target
            &&& are_steps_to(profiles, target, pending.steps@)
            &&& pending.next_step == 0
            &&& pending.prepared_steps@.len() == 0
            &&& pending.credentials@.len() == 0
            &&& pending.runtime_proxy is None
            &&& !pending.proxy_prepared
            &&& pending.force_prompt == force_prompt
            &&& after == (Session {
                connection_error: None,
                connection_message: Some(SessionMessage::Localized("credential-checking")),
                ..before
            })
        },
        None => {
            &&& 0 <= missing < jumps.len()
            &&& after == (Session {
                connection_error: Some(
                    SessionMessage::WithDetail {
                        key: "connection-missing-jump",
                        detail: jumps[missing],
                    },
                ),
                ..before
            })
        },
    }
}

/// What trying a connection again came to.
#[derive(Debug, PartialEq, Eq)]
pub enum RetryOutcome<S> {
    /// No step takes the secret.
    Impossible,
    /// A server to jump over has no profile; the session says so.
    Blocked,
    /// The connection is being got ready.
    Preparing(PendingConnectionPreparation<S>),
}

/// What trying a connection again, with a secret that the user is asked for, comes to.
pub open spec fn retried<S>(
    before: Session<S>,
    profiles: Seq<ConnectionProfile>,
    profile_id: String,
    kind: CredentialKind,
    error: String,
    after: Session<S>,
    r: RetryOutcome<S>,
) -> bool {
    let possible = can_ask_again(profiles, before.profile_id@, profile_id@, kind);
    let noted = Session {
        connection_error: None,
        connection_message: Some(SessionMessage::Plain(error)),
        ..before
    };
    let forced = Some(ForcedPrompt { profile_id, kind, error: Some(error) });
    match r {
        RetryOutcome::Impossible => !possible && after == before,
        RetryOutcome::Blocked => possible && exists|target: ConnectionProfile|
            #[trigger] same_profile(
                target,
                profiles[profile_position(profiles, before.profile_id@)],
            ) && began_preparation(noted, profiles, target, forced, after, None),
        RetryOutcome::Preparing(pending) => possible && exists|target: ConnectionProfile|
            #[trigger] same_profile(
                target,
                profiles[profile_position(profiles, before.profile_id@)],
            ) && began_preparation(noted, profiles, target, forced, after, Some(pending)),
    }
}

/// Tries a connection again with a secret that the user is asked for, with `error` above the
/// question.
pub fn retry_connection_with_prompt<S>(
    session: &mut Session<S>,
    profiles: &Vec<ConnectionProfile>,
    profile_id: String,
    kind: CredentialKind,
    error: String,
) -> (r: RetryOutcome<S>)
    ensures
        retried(*old(session), profiles@, profile_id, kind, error, *final(session), r),
{
    if !retry_is_possible(profiles, session.profile_id.as_str(), profile_id.as_str(), kind) {
        return RetryOutcome::Impossible;
    }
    let target: ConnectionProfile = match find_profile(profiles, session.profile_id.as_str()) {
        Some(index) => profiles[index].clone(),
        None => {
            return RetryOutcome::Impossible;
        },
    };
    session.connection_error = None;
    session.connection_message = Some(SessionMessage::Plain(error.clone()));
    let forced = ForcedPrompt { profile_id, kind, error: Some(error) };
    match begin_connection_preparation(session, profiles, target, Some(forced)) {
        Some(pending) => RetryOutcome::Preparing(pending),
        None => RetryOutcome::Blocked,
    }
}

/// Why a secret could not be kept: the keychain has refused, or was never asked.
#[derive(Debug, PartialEq, Eq)]
pub enum SaveCredentialError {
    Keychain(String),
    Task(String),
}

/// What is told after a wrong secret was taken out of the keychain: why it was wrong, and below it
/// why it could not be taken out, where that is so.
pub open spec fn rejected_text(
    authentication_error: Seq<char>,
    removal_error: Option<Seq<char>>,
) -> Seq<char> {
    match removal_error {
        Some(error) => authentication_error + "\n"@ + error,
        None => authentication_error,
    }
}

/// What is told after a wrong secret was taken out of the keychain.
pub fn rejected_credential_text(
    authentication_error: String,
    removal_error: Option<String>,
) -> (r: String)
    ensures
        r@ == rejected_text(authentication_error@, crate::text::opt_view(removal_error)),
{
    match removal_error {
        Some(error) => {
            let mut text: String = authentication_error;
            text.append("\n");
            text.append(error.as_str());
            text
        },
        None => authentication_error,
    }
}

/// How many changes of each profile's stored secrets are on their way.
#[derive(Debug)]
pub struct KeychainUpdates {
    counts: Vec<(String, usize)>,
}

/// The changes on their way, by profile.
pub open spec fn counts_of(counts: Seq<(String, usize)>) -> Map<Seq<char>, nat> {
    Map::new(
        |id: Seq<char>| exists|i: int| 0 <= i < counts.len() && (#[trigger] counts[i]).0@ == id,
        |id: Seq<char>| counts[count_position(counts, id)].1 as nat,
    )
}

/// Being the count of a profile.
pub open spec fn is_count_of(id: Seq<char>) -> spec_fn((String, usize)) -> bool {
    |entry: (String, usize)| entry.0@ == id
}

/// The position of a profile's count.
pub open spec fn count_position(counts: Seq<(String, usize)>, id: Seq<char>) -> int {
    first_index(counts, is_count_of(id))
}

/// The changes on their way after one more has begun.
pub open spec fn update_begun(updates: Map<Seq<char>, nat>, id: Seq<char>) -> Map<Seq<char>, nat> {
    updates.insert(
        id,
        if updates.contains_key(id) {
            updates[id] + 1
        } else {
            1
        },
    )
}

/// One change of the profile is on its way, and no more.
pub open spec fn is_last_update(updates: Map<Seq<char>, nat>, id: Seq<char>) -> bool {
    updates.contains_key(id) && updates[id] == 1
}

/// The changes on their way after one has ended.
pub open spec fn update_ended(updates: Map<Seq<char>, nat>, id: Seq<char>) -> Map<Seq<char>, nat> {
    if !updates.contains_key(id) {
        updates
    } else if is_last_update(updates, id) {
        updates.remove(id)
    } else {
        updates.insert(id, (updates[id] - 1) as nat)
    }
}

impl KeychainUpdates {
    /// The changes on their way, by profile; a profile without any is not there.
    pub closed spec fn view(&self) -> Map<Seq<char>, nat> {
        counts_of(self.counts@)
    }

    /// Each profile has one count, and none is zero.
    #[verifier::type_invariant]
    spec fn counted(&self) -> bool {
        &&& forall|i: int, j: int|
            0 <= i < j < self.counts@.len() ==> (#[trigger] self.counts@[i]).0@ != (
            #[trigger] self.counts@[j]).0@
        &&& forall|i: int| 0 <= i < self.counts@.len() ==> (#[trigger] self.counts@[i]).1 > 0
    }

    /// No change is on its way.
    pub fn new() -> (r: Self)
        ensures
            r@ == Map::<Seq<char>, nat>::empty(),
    {
        let updates = KeychainUpdates { counts: Vec::new() };
        assert(updates@ =~= Map::<Seq<char>, nat>::empty());
        updates
    }

    /// The position of a profile's count.
    fn position(&self, profile_id: &str) -> (r: Option<usize>)
        ensures
            match r {
                Some(i) => i == count_position(self.counts@, profile_id@) && i < self.counts@.len()
                    && self.counts@[i as int].0@ == profile_id@,
                None => forall|i: int|
                    0 <= i < self.counts@.len() ==> (#[trigger] self.counts@[i]).0@ != profile_id@,
            },
            r is Some <==> self@.contains_key(profile_id@),
    {
        let ghost wanted = is_count_of(profile_id@);
        let mut i: usize = 0;
        while i < self.counts.len()
            invariant
                i <= self.counts@.len(),
                wanted == is_count_of(profile_id@),
                forall|k: int| 0 <= k < i ==> (#[trigger] self.counts@[k]).0@ != profile_id@,
            decreases self.counts@.len() - i,
        {
            if text_eq(self.counts[i].0.as_str(), profile_id) {
                proof {
                    first_index_is(self.counts@, wanted, i as int);
                }
                return Some(i);
            }
            i = i + 1;
        }
        None
    }

    /// A change of the profile's secrets is on its way.
    pub fn is_updating(&self, profile_id: &str) -> (r: bool)
        ensures
            r == self@.contains_key(profile_id@),
    {
        self.position(profile_id).is_some()
    }

    /// A change has begun.
    pub fn begin(&mut self, profile_id: &str)
        requires
            old(self)@.contains_key(profile_id@) ==> old(self)@[profile_id@] < usize::MAX,
        ensures
            final(self)@ == update_begun(old(self)@, profile_id@),
    {
        proof {
            use_type_invariant(&*self);
        }
        let at = self.position(profile_id);
        let mut counts: Vec<(String, usize)> = Vec::new();
        std::mem::swap(&mut counts, &mut self.counts);
        let ghost before = counts@;
        match at {
            Some(i) => {
                let name = counts[i].0.clone();
                let count: usize = counts[i].1;
                counts.set(i, (name, count + 1));
                proof {
                    count_was_set(before, counts@, i as int);
                }
            },
            None => {
                counts.push((profile_id.to_owned(), 1));
                proof {
                    count_was_added(before, counts@);
                }
            },
        }
        self.counts = counts;
    }

    /// A change has ended; says whether it was the last one of its profile.
    pub fn finish(&mut self, profile_id: &str) -> (r: bool)
        ensures
            r == is_last_update(old(self)@, profile_id@),
            final(self)@ == update_ended(old(self)@, profile_id@),
    {
        proof {
            use_type_invariant(&*self);
        }
        let i: usize = match self.position(profile_id) {
            Some(i) => i,
            None => {
                return false;
            },
        };
        let mut counts: Vec<(String, usize)> = Vec::new();
        std::mem::swap(&mut counts, &mut self.counts);
        let ghost before = counts@;
        let count: usize = counts[i].1;
        if count == 1 {
            counts.remove(i);
            proof {
                count_was_removed(before, counts@, i as int);
            }
            self.counts = counts;
            true
        } else {
            let name = counts[i].0.clone();
            counts.set(i, (name, count - 1));
            proof {
                count_was_set(before, counts@, i as int);
            }
            self.counts = counts;
            false
        }
    }

    /// Whatever changes of the profile's secrets were on their way, none is any more.
    pub fn forget(&mut self, profile_id: &str)
        ensures
            final(self)@ == old(self)@.remove(profile_id@),
    {
        proof {
            use_type_invariant(&*self);
        }
        let i: usize = match self.position(profile_id) {
            Some(i) => i,
            None => {
                assert(self@ =~= self@.remove(profile_id@));
                return;
            },
        };
        let mut counts: Vec<(String, usize)> = Vec::new();
        std::mem::swap(&mut counts, &mut self.counts);
        let ghost before = counts@;
        counts.remove(i);
        proof {
            count_was_removed(before, counts@, i as int);
        }
        self.counts = counts;
    }
}

/// Each profile stands once.
spec fn distinct_counts(counts: Seq<(String, usize)>) -> bool {
    forall|i: int, j: int|
        0 <= i < j < counts.len() ==> (#[trigger] counts[i]).0@ != (#[trigger] counts[j]).0@
}

/// Where each profile stands once, its position is the one where it stands.
proof fn count_position_is(counts: Seq<(String, usize)>, i: int)
    requires
        distinct_counts(counts),
        0 <= i < counts.len(),
    ensures
        count_position(counts, counts[i].0@) == i,
        counts_of(counts).contains_key(counts[i].0@),
        counts_of(counts)[counts[i].0@] == counts[i].1,
{
    let id = counts[i].0@;
    assert forall|k: int| 0 <= k < i implies (#[trigger] counts[k]).0@ != id by {}
    first_index_is(counts, is_count_of(id), i);
}

proof fn count_was_set(before: Seq<(String, usize)>, after: Seq<(String, usize)>, i: int)
    requires
        distinct_counts(before),
        0 <= i < before.len(),
        after == before.update(i, after[i]),
        after[i].0 == before[i].0,
    ensures
        distinct_counts(after),
        counts_of(after) == counts_of(before).insert(before[i].0@, after[i].1 as nat),
{
    assert forall|a: int, b: int| 0 <= a < b < after.len() implies (#[trigger] after[a]).0@ != (
    #[trigger] after[b]).0@ by {
        assert(after[a].0 == before[a].0);
        assert(after[b].0 == before[b].0);
    }
    let x = counts_of(after);
    let y = counts_of(before).insert(before[i].0@, after[i].1 as nat);
    assert forall|id: Seq<char>| x.contains_key(id) <==> y.contains_key(id) by {
        if x.contains_key(id) {
            let k = choose|k: int| 0 <= k < after.len() && (#[trigger] after[k]).0@ == id;
            assert(before[k].0@ == id);
        }
        if y.contains_key(id) {
            if id == before[i].0@ {
                assert(after[i].0@ == id);
            } else {
                let k = choose|k: int| 0 <= k < before.len() && (#[trigger] before[k]).0@ == id;
                assert(after[k].0@ == id);
            }
        }
    }
    assert forall|id: Seq<char>| x.contains_key(id) implies x[id] == y[id] by {
        let k = choose|k: int| 0 <= k < after.len() && (#[trigger] after[k]).0@ == id;
        count_position_is(after, k);
        count_position_is(before, k);
        if k != i {
            assert(before[k] == after[k]);
            if id == before[i].0@ {
                assert(before[k].0@ != before[i].0@);
            }
        }
    }
    assert(x =~= y);
}

proof fn count_was_added(before: Seq<(String, usize)>, after: Seq<(String, usize)>)
    requires
        distinct_counts(before),
        after == before.push(after.last()),
        forall|k: int| 0 <= k < before.len() ==> (#[trigger] before[k]).0@ != after.last().0@,
    ensures
        distinct_counts(after),
        counts_of(after) == counts_of(before).insert(after.last().0@, after.last().1 as nat),
{
    let n = before.len() as int;
    assert(after[n] == after.last());
    assert forall|a: int, b: int| 0 <= a < b < after.len() implies (#[trigger] after[a]).0@ != (
    #[trigger] after[b]).0@ by {
        assert(after[a] == before[a]);
        if b < n {
            assert(after[b] == before[b]);
        }
    }
    let x = counts_of(after);
    let y = counts_of(before).insert(after.last().0@, after.last().1 as nat);
    assert forall|id: Seq<char>| x.contains_key(id) <==> y.contains_key(id) by {
        if x.contains_key(id) {
            let k = choose|k: int| 0 <= k < after.len() && (#[trigger] after[k]).0@ == id;
            if k < n {
                assert(before[k].0@ == id);
            }
        }
        if y.contains_key(id) {
            if id == after.last().0@ {
                assert(after[n].0@ == id);
            } else {
                let k = choose|k: int| 0 <= k < before.len() && (#[trigger] before[k]).0@ == id;
                assert(after[k].0@ == id);
            }
        }
    }
    assert forall|id: Seq<char>| x.contains_key(id) implies x[id] == y[id] by {
        let k = choose|k: int| 0 <= k < after.len() && (#[trigger] after[k]).0@ == id;
        count_position_is(after, k);
        if k < n {
            assert(before[k] == after[k]);
            count_position_is(before, k);
        }
    }
    assert(x =~= y);
}

proof fn count_was_removed(before: Seq<(String, usize)>, after: Seq<(String, usize)>, i: int)
    requires
        distinct_counts(before),
        0 <= i < before.len(),
        after == before.remove(i),
    ensures
        distinct_counts(after),
        counts_of(after) == counts_of(before).remove(before[i].0@),
{
    assert forall|a: int, b: int| 0 <= a < b < after.len() implies (#[trigger] after[a]).0@ != (
    #[trigger] after[b]).0@ by {
        let a0 = if a < i { a } else { a + 1 };
        let b0 = if b < i { b } else { b + 1 };
        assert(after[a] == before[a0]);
        assert(after[b] == before[b0]);
    }
    let x = counts_of(after);
    let y = counts_of(before).remove(before[i].0@);
    assert forall|id: Seq<char>| x.contains_key(id) <==> y.contains_key(id) by {
        if x.contains_key(id) {
            let k = choose|k: int| 0 <= k < after.len() && (#[trigger] after[k]).0@ == id;
            let k0 = if k < i { k } else { k + 1 };
            assert(before[k0].0@ == id);
            assert(before[k0].0@ != before[i].0@);
        }
        if y.contains_key(id) {
            let k = choose|k: int| 0 <= k < before.len() && (#[trigger] before[k]).0@ == id;
            let k1 = if k < i { k } else { k - 1 };
            assert(after[k1].0@ == id);
        }
    }
    assert forall|id: Seq<char>| x.contains_key(id) implies x[id] == y[id] by {
        let k = choose|k: int| 0 <= k < after.len() && (#[trigger] after[k]).0@ == id;
        let k0 = if k < i { k } else { k + 1 };
        count_position_is(after, k);
        count_position_is(before, k0);
    }
    assert(x =~= y);
}

/// An approval is noted in the first profile with the name, where that has a proxy command: the
/// digest is the one that was shown, what was approved before is told, the command and all else
/// of the profile stay, and so does every other profile.
pub proof fn approval_is_noted_for_its_profile(
    before: Seq<ConnectionProfile>,
    profile_id: Seq<char>,
    digest: String,
    after: Seq<ConnectionProfile>,
    r: Option<(usize, Option<String>)>,
    k: int,
)
    requires
        approved(before, profile_id, digest, after, r),
        0 <= k < before.len(),
    ensures
        after.len() == before.len(),
        after[k] != before[k] ==> {
            &&& r is Some && (r->0).0 == k
            &&& before[k].id@ == profile_id
            &&& forall|j: int| 0 <= j < k ==> (#[trigger] before[j]).id@ != profile_id
        },
        before[k].id@ == profile_id && (forall|j: int|
            0 <= j < k ==> (#[trigger] before[j]).id@ != profile_id) ==> {
            match before[k].route.upstream_proxy {
                Some(ProxyConfig::ProxyCommand { command_digest, approved_digest }) => {
                    &&& r is Some && (r->0).0 == k && (r->0).1 == approved_digest
                    &&& after[k].route.upstream_proxy == Some(
                        ProxyConfig::ProxyCommand { command_digest, approved_digest: Some(digest) },
                    )
                    &&& after[k].route.jump_host_ids == before[k].route.jump_host_ids
                    &&& after[k].id == before[k].id && after[k].name == before[k].name
                    &&& after[k].host == before[k].host && after[k].port == before[k].port
                    &&& after[k].username == before[k].username && after[k].auth == before[k].auth
                },
                _ => r is None && after == before,
            }
        },
        (forall|j: int| 0 <= j < before.len() ==> (#[trigger] before[j]).id@ != profile_id)
            ==> r is None,
{
    crate::profile::profile_position_is_first(before, profile_id);
    let position = profile_position(before, profile_id);
    if has_profile(before, profile_id) {
        assert(before[position].id@ == profile_id);
    }
    assert(before[k].id@ == profile_id ==> position <= k);
}

/// A host key is trusted once at most, and only where the connection's worker can be told: where
/// it cannot, an error is shown. Nothing else of the session changes.
pub proof fn host_key_is_decided_once<S>(
    before: Session<S>,
    trusted: Session<S>,
    key: Option<HostKeyInfo>,
    refused: Session<S>,
    tell: bool,
)
    requires
        host_key_taken(before, trusted, key),
        host_key_refused(before, refused, tell),
    ensures
        trusted.host_key_prompt is None,
        refused.host_key_prompt is None,
        key is Some <==> before.host_key_prompt is Some && before.has_handle,
        key is Some ==> key == before.host_key_prompt && trusted.connection_error
            == before.connection_error,
        before.host_key_prompt is Some && !before.has_handle ==> trusted.connection_error
            matches Some(SessionMessage::Localized(_)),
        tell <==> before.host_key_prompt is Some && before.has_handle,
        trusted.connection_state == before.connection_state,
        trusted.has_handle == before.has_handle,
        trusted.connection_credentials == before.connection_credentials,
        refused.connection_state == before.connection_state,
        refused.has_handle == before.has_handle,
        refused.connection_error == before.connection_error,
        refused.connection_credentials == before.connection_credentials,
{
}

/// Ending a connection leaves it on its way out where the worker was told. Where it could not be
/// told, the connection has failed, the worker is given up, and the session goes if it was to.
pub proof fn ended_connection_is_never_live<S>(
    before: Session<S>,
    told: Result<(), String>,
    after: Session<S>,
    r: DisconnectOutcome,
)
    requires
        disconnected(before, told, after, r),
    ensures
        told is Ok <==> r == DisconnectOutcome::Pending,
        told is Ok ==> after.connection_state == SessionState::Disconnecting && after.has_handle
            == before.has_handle && after.connection_error == before.connection_error
            && after.terminal_end_reason is Some,
        told matches Err(error) ==> {
            &&& after.connection_state == SessionState::Failed
            &&& !after.has_handle && !after.has_local_handle
            &&& after.connection_error == Some(SessionMessage::Plain(error))
            &&& r == DisconnectOutcome::Remove <==> before.close_when_disconnected
        },
        !after.resize_pending,
        after.transfers == before.transfers,
        after.sftp == before.sftp,
        after.profile_id == before.profile_id,
        after.close_when_disconnected == before.close_when_disconnected,
{
}

/// A connection starts with the secrets that were prepared for it, and with nothing of an earlier
/// one: no error, no host key, no listing, nothing waited for. The transfers stay.
pub proof fn connection_starts_clean<S>(
    before: Session<S>,
    profile_id: String,
    credentials: Vec<ConnectionCredential<S>>,
    after: Session<S>,
)
    requires
        connection_started(before, profile_id, credentials, after),
    ensures
        after.id == before.id,
        after.kind == before.kind,
        after.profile_id == before.profile_id,
        after.connection_state == SessionState::Connecting,
        after.has_handle && !after.has_local_handle,
        after.connection_credentials == credentials,
        after.connection_error is None && after.connection_message is None,
        after.terminal_end_reason is None && after.host_key_prompt is None,
        after.terminal matches Some(terminal) && terminal.profile_id == profile_id
            && !terminal.was_connected && terminal.remote_cwd is None,
        !after.close_when_disconnected,
        !after.has_selection && !after.selecting && !after.resize_pending,
        after.sftp_availability == SftpAvailability::Checking,
        after.sftp.entries@.len() == 0 && after.sidebar_sftp.entries@.len() == 0,
        !after.sftp.loaded && !after.sidebar_sftp.loaded,
        !after.sftp.loading && !after.sidebar_sftp.loading,
        after.sftp.active_request_id is None && after.sidebar_sftp.active_request_id is None,
        after.sftp.file is None && after.sidebar_sftp.file is None,
        after.sftp.next_request_id == 1,
        after.sidebar_sftp.next_request_id == 0x8000_0000_0000_0000u64,
        after.transfers == before.transfers,
{
}

/// A connection that is tried again is got ready from its beginning, for the same session and to
/// the profile of that session; the secret that was wrong is asked for, with the reason above. No
/// secret of the earlier try is taken over. Where it cannot be tried, nothing changes.
pub proof fn retry_starts_over<S>(
    before: Session<S>,
    profiles: Seq<ConnectionProfile>,
    profile_id: String,
    kind: CredentialKind,
    error: String,
    after: Session<S>,
    r: RetryOutcome<S>,
)
    requires
        retried(before, profiles, profile_id, kind, error, after, r),
    ensures
        r is Impossible <==> !can_ask_again(profiles, before.profile_id@, profile_id@, kind),
        r is Impossible ==> after == before,
        r is Blocked ==> after.connection_error is Some,
        r matches RetryOutcome::Preparing(pending) ==> {
            &&& pending.session_id == before.id
            &&& pending.target_profile.id@ == before.profile_id@
            &&& pending.next_step == 0
            &&& pending.credentials@.len() == 0
            &&& pending.prepared_steps@.len() == 0
            &&& pending.force_prompt == Some(
                ForcedPrompt { profile_id, kind, error: Some(error) },
            )
            &&& after.connection_error is None
        },
        after.connection_state == before.connection_state,
        after.id == before.id,
        after.profile_id == before.profile_id,
{
    crate::profile::profile_position_is_first(profiles, before.profile_id@);
}

/// A connection is started only where there is no proxy command or it was approved; where it was
/// not, the user is asked, and where the way cannot be gone, that is told.
pub proof fn unapproved_command_is_not_run(preview: Result<Option<bool>, SshError>)
    ensures
        decision_for(preview) is Start <==> preview == Ok::<Option<bool>, SshError>(None) || preview
            == Ok::<Option<bool>, SshError>(Some(true)),
        decision_for(preview) is AskApproval <==> preview == Ok::<Option<bool>, SshError>(
            Some(false),
        ),
        preview matches Err(error) ==> decision_for(preview) == PlanDecision::Fail(error),
{
}

/// A second connection is never started over one that stands, is on its way or is going, nor while
/// one is got ready.
pub proof fn one_connection_at_a_time(
    state: SessionState,
    looking_up: bool,
    preparing: bool,
    approving: bool,
    updating_keychain: bool,
)
    ensures
        may_connect(state, looking_up, preparing, approving, updating_keychain) <==> (state
            == SessionState::Disconnected || state == SessionState::Failed) && !looking_up
            && !preparing && !approving && !updating_keychain,
{
}

/// An approval that could not be saved is as if it had never been given; one that was saved stays.
pub proof fn unsaved_approval_leaves_no_trace(
    before: Seq<ConnectionProfile>,
    profile_id: Seq<char>,
    digest: String,
    after: Seq<ConnectionProfile>,
    index: usize,
    previous: Option<String>,
)
    requires
        approved(before, profile_id, digest, after, Some((index, previous))),
    ensures
        settled(after, index, previous, false) == before,
        settled(after, index, previous, true) == after,
{
    approval_can_be_taken_back(before, index as int, digest, previous);
}

/// A change that begins and ends leaves the changes on their way as they were; while others of the
/// profile are on their way, it is not the last one. No other profile's changes are touched.
pub proof fn changes_are_counted(
    updates: Map<Seq<char>, nat>,
    id: Seq<char>,
    other: Seq<char>,
)
    requires
        updates.contains_key(id) ==> updates[id] > 0,
    ensures
        update_begun(updates, id).contains_key(id),
        update_ended(update_begun(updates, id), id) == updates,
        is_last_update(update_begun(updates, id), id) <==> !updates.contains_key(id),
        other != id ==> (update_begun(updates, id).contains_key(other) <==> updates.contains_key(
            other,
        )) && (update_ended(updates, id).contains_key(other) <==> updates.contains_key(other)),
        other != id && updates.contains_key(other) ==> update_begun(updates, id)[other]
            == updates[other] && update_ended(updates, id)[other] == updates[other],
{
    assert(update_ended(update_begun(updates, id), id) =~= updates);
}

} // verus!
