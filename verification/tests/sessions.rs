use remcmd_app::browser::{
    SftpAvailability, SftpBrowserPlacement, SftpBrowserState, SftpFileState, SftpOperation,
    SIDEBAR_SFTP_REQUEST_ID_START,
};
use remcmd_app::connection::{
    retry_connection_with_prompt, ApprovalFailure, RetryOutcome, SaveCredentialError,
};
use remcmd_app::credentials::{
    credential_prompt_labels, ConnectionCredential, CredentialKind, CredentialPromptKind,
    CredentialToSave,
};
use remcmd_app::lifecycle::{exit_file_states, has_pending_transfers, sessions_to_save};
use remcmd_app::message::{ConnectionStage, SessionMessage, SshError, SshErrorKind};
use remcmd_app::preparation::{handle_missing_preparation_secret, MissingSecret, PreparationNeed};
use remcmd_app::profile::{AuthConfig, ConnectionProfile, ProxyConfig};
use remcmd_app::profile_editor::{load_editor, ProfileProxyKind};
use remcmd_app::redaction::{register_key_paths, texts_to_redact};
use remcmd_app::remote_files::{
    RemoteDirectory, RemoteDirectoryTree, RemoteFileEntry, RemoteFileKind,
};
use remcmd_app::session::{
    DirectoryRequest, HostKeyInfo, PerformanceState, RemoteFile, SaveRequest, Session, SessionId,
    SessionState, TerminalInfo, TerminalSessionKind, TreeRequest,
};
use remcmd_app::session_events::{
    ConnectionEvent, EventContext, EventTexts, FollowUp, ShellEvent,
};
use remcmd_app::settings::relabel_local_sessions;
use remcmd_app::sftp_flow::{
    start_queued_sftp_transfer, CancelRequest, CreateRequest, UploadStart,
};
use remcmd_app::sftp_view::{
    disclosure_click, entry_click, entry_lines, file_panel, files_view, transfer_panel,
    BatchStatus, Disclosure, EntryClick, FileContent,
    FileList, FilesView, TransferControls, TransferTone,
};
use remcmd_app::text_format::{RemoteLineEnding, RemoteTextFormat};
use remcmd_app::transfers::{SftpTransferDirection, SftpTransferQueue, SftpTransferState};
use std::path::PathBuf;

fn open_session(id: u64) -> Session<String> {
    Session {
        id: SessionId(id),
        kind: TerminalSessionKind::Ssh,
        profile_id: "server".into(),
        connection_state: SessionState::Connected,
        has_handle: true,
        has_local_handle: false,
        connection_credentials: vec![],
        connection_error: None,
        connection_message: None,
        host_key_prompt: None,
        terminal: None,
        terminal_end_reason: None,
        resize_pending: false,
        has_selection: false,
        selecting: false,
        close_when_disconnected: false,
        sftp: SftpBrowserState::default(),
        sidebar_sftp: SftpBrowserState::with_request_id_start(SIDEBAR_SFTP_REQUEST_ID_START),
        sftp_availability: SftpAvailability::Available,
        transfers: SftpTransferQueue::default(),
        performance: PerformanceState {
            loading: false,
            error: None,
        },
    }
}

fn event_texts() -> EventTexts {
    EventTexts {
        connection_closed: "closed".into(),
        connection_failed: "failed".into(),
        server_unavailable: "no files".into(),
        technical_details: "Details".into(),
        sftp_failed: "SFTP failed".into(),
        performance_unavailable: "no figures".into(),
    }
}

fn context(active: bool) -> EventContext {
    EventContext {
        active,
        sidebar_shows_files: true,
        tab_shows_files: true,
    }
}

fn happen(session: &mut Session<String>, event: ConnectionEvent) -> Vec<FollowUp<String>> {
    session.handle_connection_event(event, &password_profiles(), context(true), &event_texts())
}

fn password_profiles() -> Vec<ConnectionProfile> {
    let mut profile = ConnectionProfile::new("server", "Server", "host.example", 22, "user");
    profile.auth = AuthConfig::Password;
    vec![profile]
}

fn listed(name: &str, kind: RemoteFileKind, size: Option<u64>) -> RemoteFileEntry {
    RemoteFileEntry {
        name: name.into(),
        path: format!("/srv/{name}"),
        kind,
        size,
        modified: None,
    }
}

fn wrong_password() -> ConnectionEvent {
    ConnectionEvent::Failed(SshError {
        kind: SshErrorKind::Authentication,
        message: "denied".into(),
        stage: Some(ConnectionStage::Target {
            profile_id: "server".into(),
        }),
    })
}

fn text_file(text: &str) -> SftpFileState {
    SftpFileState {
        path: "/srv/notes".into(),
        original_contents: b"old".to_vec(),
        editor: Some(text.into()),
        text_format: Some(RemoteTextFormat {
            utf8_bom: false,
            line_ending: RemoteLineEnding::Lf,
        }),
        loading: false,
        saving: false,
        error: None,
        editable: true,
        read_request_id: None,
        write_request_id: None,
    }
}

#[test]
fn a_closed_connection_takes_everything_with_it() {
    let mut session = open_session(1);
    session.connection_state = SessionState::Disconnecting;
    session.connection_credentials = vec![ConnectionCredential::from_keychain(
        "server".into(),
        CredentialKind::Password,
    )];
    session.transfers.enqueue_files(
        1,
        SftpTransferDirection::Download,
        vec![(PathBuf::from("/tmp/a"), "/srv/a".into(), None)],
    );
    let actions = happen(
        &mut session,
        ConnectionEvent::StateChanged(SessionState::Disconnected),
    );
    assert_eq!(
        actions,
        vec![
            FollowUp::ClearPerformance,
            FollowUp::SyncPerformance,
            FollowUp::Notify
        ]
    );
    assert!(!session.has_handle);
    assert!(session.connection_credentials.is_empty());
    assert_eq!(session.sftp_availability, SftpAvailability::Checking);
    assert_eq!(session.transfers.tasks[0].state, SftpTransferState::Failed);
    assert_eq!(session.transfers.tasks[0].error, Some("closed".into()));
    assert_eq!(
        session.terminal_end_reason,
        Some(SessionMessage::Localized("terminal-session-disconnected"))
    );
}

#[test]
fn a_session_to_be_closed_goes_with_its_connection() {
    let mut session = open_session(1);
    session.close_when_disconnected = true;
    assert_eq!(
        happen(
            &mut session,
            ConnectionEvent::StateChanged(SessionState::Disconnected)
        ),
        vec![
            FollowUp::ClearPerformance,
            FollowUp::RemoveSession,
            FollowUp::SyncPerformance,
            FollowUp::Notify
        ]
    );
    let mut session = open_session(1);
    session.close_when_disconnected = true;
    assert_eq!(
        happen(&mut session, wrong_password()),
        vec![FollowUp::ClearPerformance, FollowUp::RemoveSession]
    );
    assert_eq!(session.connection_error, None);
}

#[test]
fn reaching_the_server_marks_the_terminal() {
    let mut session = open_session(1);
    session.connection_state = SessionState::Authenticating;
    session.connection_message = Some(SessionMessage::Localized("connection-connecting-target"));
    session.terminal = Some(TerminalInfo {
        profile_id: "server".into(),
        was_connected: false,
        remote_cwd: None,
    });
    happen(
        &mut session,
        ConnectionEvent::StateChanged(SessionState::Connected),
    );
    assert_eq!(session.connection_message, None);
    assert!(session.terminal.unwrap().was_connected);
}

#[test]
fn a_typed_secret_is_kept_once_it_is_accepted() {
    let mut session = open_session(1);
    session.connection_credentials = vec![
        ConnectionCredential::from_prompt(
            "server".into(),
            CredentialKind::Password,
            Some("pass phrase".into()),
        ),
        ConnectionCredential::from_prompt("other".into(), CredentialKind::Password, None),
    ];
    let actions = happen(
        &mut session,
        ConnectionEvent::AuthenticationSucceeded {
            stage: ConnectionStage::Target {
                profile_id: "server".into(),
            },
            method: "password".into(),
        },
    );
    assert_eq!(
        actions,
        vec![
            FollowUp::SaveCredentials(vec![CredentialToSave {
                profile_id: "server".into(),
                kind: CredentialKind::Password,
                secret: "pass phrase".to_owned(),
            }]),
            FollowUp::Notify
        ]
    );
    assert_eq!(session.connection_credentials.len(), 1);
    assert_eq!(session.connection_credentials[0].profile_id, "other");
}

#[test]
fn a_wrong_secret_is_asked_for_again() {
    let mut session = open_session(1);
    session.connection_credentials = vec![ConnectionCredential::from_prompt(
        "server".into(),
        CredentialKind::Password,
        None,
    )];
    assert_eq!(
        happen(&mut session, wrong_password())[2],
        FollowUp::AskForCredential {
            profile_id: "server".into(),
            kind: CredentialKind::Password,
        }
    );
    assert_eq!(session.connection_error, None);
    assert!(session.connection_credentials.is_empty());

    let mut session = open_session(1);
    session.connection_credentials = vec![ConnectionCredential::from_keychain(
        "server".into(),
        CredentialKind::Password,
    )];
    assert_eq!(
        happen(&mut session, wrong_password())[2],
        FollowUp::RemoveRejectedCredential {
            profile_id: "server".into(),
            kind: CredentialKind::Password,
        }
    );

    let mut session = open_session(1);
    assert_eq!(
        happen(&mut session, wrong_password()),
        vec![
            FollowUp::ClearPerformance,
            FollowUp::SyncPerformance,
            FollowUp::Notify
        ]
    );
    assert_eq!(session.connection_state, SessionState::Failed);
    assert!(matches!(
        session.connection_error,
        Some(SessionMessage::ConnectionError {
            kind: SshErrorKind::Authentication,
            ..
        })
    ));
}

#[test]
fn an_unknown_host_key_waits_for_the_user() {
    let mut session = open_session(1);
    session.connection_state = SessionState::Connecting;
    let actions = happen(
        &mut session,
        ConnectionEvent::HostKeyVerificationRequired {
            stage: ConnectionStage::Proxy,
            info: HostKeyInfo {
                address: "host.example:22".into(),
                algorithm: "ssh-ed25519".into(),
                fingerprint: "SHA256:x".into(),
            },
        },
    );
    assert_eq!(actions, vec![FollowUp::ActivateSession, FollowUp::Notify]);
    assert_eq!(session.connection_state, SessionState::Connecting);
    assert_eq!(
        session.host_key_prompt.map(|info| info.address),
        Some("host.example:22".to_owned())
    );
}

#[test]
fn availability_tells_what_can_be_done_with_files() {
    let mut session = open_session(1);
    session.sftp_availability = SftpAvailability::Checking;
    let changed = |available: bool, scp_available: bool, message: Option<&str>| {
        ConnectionEvent::SftpAvailabilityChanged {
            available,
            scp_available,
            message: message.map(str::to_owned),
        }
    };
    assert_eq!(
        happen(&mut session, changed(true, false, None)),
        vec![
            FollowUp::EnsureDirectory(SftpBrowserPlacement::Sidebar),
            FollowUp::EnsureDirectory(SftpBrowserPlacement::Center),
            FollowUp::Notify
        ]
    );
    assert_eq!(session.sftp_availability, SftpAvailability::Available);
    happen(&mut session, changed(false, true, Some("no subsystem")));
    assert_eq!(
        session.sftp_availability,
        SftpAvailability::ScpOnly("no files\nDetails: no subsystem".into())
    );
    assert_eq!(
        happen(&mut session, changed(false, false, None)),
        vec![FollowUp::Notify]
    );
    assert_eq!(
        session.sftp_availability,
        SftpAvailability::Unavailable("no files".into())
    );
}

#[test]
fn new_paths_are_shown_and_files_opened() {
    let mut session = open_session(1);
    let created = |kind: RemoteFileKind| ConnectionEvent::PathCreated {
        request_id: SIDEBAR_SFTP_REQUEST_ID_START,
        path: "/srv/new".into(),
        kind,
    };
    assert_eq!(
        happen(&mut session, created(RemoteFileKind::File)),
        vec![
            FollowUp::RefreshDirectory(SftpBrowserPlacement::Sidebar),
            FollowUp::OpenFile("/srv/new".into()),
            FollowUp::Notify
        ]
    );
    assert_eq!(
        happen(&mut session, created(RemoteFileKind::Directory)),
        vec![
            FollowUp::RefreshDirectory(SftpBrowserPlacement::Sidebar),
            FollowUp::Notify
        ]
    );
    assert_eq!(
        session.handle_connection_event(
            created(RemoteFileKind::File),
            &vec![],
            context(false),
            &event_texts()
        ),
        vec![
            FollowUp::RefreshDirectory(SftpBrowserPlacement::Sidebar),
            FollowUp::Notify
        ]
    );
}

#[test]
fn failed_operations_are_told_where_they_belong() {
    let mut session = open_session(1);
    let failed = |request_id: u64, operation: SftpOperation| ConnectionEvent::SftpFailed {
        request_id,
        operation,
        error: SshError {
            kind: SshErrorKind::Sftp,
            message: "denied".into(),
            stage: None,
        },
    };
    assert_eq!(
        happen(&mut session, failed(1, SftpOperation::DeletePaths)),
        vec![
            FollowUp::ClearErrorLater {
                placement: SftpBrowserPlacement::Center,
                generation: 1,
            },
            FollowUp::Notify
        ]
    );
    assert_eq!(
        session.sftp.error,
        Some("SFTP failed\nDetails: denied".into())
    );
    assert_eq!(
        happen(&mut session, failed(77, SftpOperation::ReadDirectory)),
        vec![FollowUp::Notify]
    );
    assert_eq!(
        happen(&mut session, failed(1, SftpOperation::UploadFile)),
        vec![FollowUp::StartTransfers, FollowUp::Notify]
    );
    happen(
        &mut session,
        ConnectionEvent::PerformanceFailed(SshError {
            kind: SshErrorKind::Protocol,
            message: "broken".into(),
            stage: None,
        }),
    );
    assert_eq!(
        session.performance.error,
        Some("no figures\nDetails: broken".into())
    );
}

#[test]
fn the_first_reason_that_a_shell_ends_stays() {
    let mut session = open_session(1);
    happen(&mut session, ConnectionEvent::Shell(ShellEvent::ExitStatus(3)));
    happen(&mut session, ConnectionEvent::Shell(ShellEvent::Closed));
    assert_eq!(
        session.terminal_end_reason,
        Some(SessionMessage::ShellStatus(3))
    );
    assert_eq!(
        session.connection_message,
        Some(SessionMessage::Localized("terminal-remote-shell-closed"))
    );
    assert_eq!(
        happen(
            &mut session,
            ConnectionEvent::Shell(ShellEvent::Output(b"hi".to_vec()))
        ),
        vec![FollowUp::ProcessOutput(b"hi".to_vec())]
    );
}

#[test]
fn downloads_queue_files_and_ask_for_directories() {
    let mut session = open_session(1);
    session.sftp.path = "/srv".into();
    let entries = vec![
        listed("logs", RemoteFileKind::Directory, None),
        listed("a.txt", RemoteFileKind::File, Some(4)),
        listed("link", RemoteFileKind::Symlink, None),
    ];
    let destination = PathBuf::from("/tmp/out");
    let requests = session
        .queue_downloads(SftpBrowserPlacement::Center, "/srv", &entries, &destination)
        .unwrap();
    assert_eq!(requests.len(), 1);
    assert_eq!(requests[0].1, "/srv/logs");
    assert_eq!(session.transfers.tasks.len(), 1);
    assert_eq!(
        session.transfers.tasks[0].local_path,
        PathBuf::from("/tmp/out/a.txt")
    );
    assert_eq!(session.transfers.tasks[0].total, Some(4));

    let actions = happen(
        &mut session,
        ConnectionEvent::DirectoryTreeRead {
            request_id: requests[0].0,
            tree: RemoteDirectoryTree {
                root: "/srv/logs".into(),
                directories: vec![],
                files: vec![],
            },
        },
    );
    match &actions[0] {
        FollowUp::PrepareDownload { pending, .. } => {
            assert_eq!(pending.destination, PathBuf::from("/tmp/out/logs"));
            assert_eq!(pending.batch_id, session.transfers.tasks[0].batch_id);
        }
        other => panic!("unexpected {other:?}"),
    }

    session.has_handle = false;
    assert_eq!(
        session.queue_downloads(SftpBrowserPlacement::Center, "/srv", &entries, &destination),
        None
    );
}

#[test]
fn transfers_take_turns_and_can_be_cancelled() {
    let mut sessions = vec![open_session(1), open_session(2)];
    for session in sessions.iter_mut() {
        session.transfers.enqueue_files(
            1,
            SftpTransferDirection::Download,
            vec![
                (PathBuf::from("/tmp/a"), "/srv/a".into(), None),
                (PathBuf::from("/tmp/b"), "/srv/b".into(), None),
            ],
        );
    }
    let mut cursor = 0;
    let first = start_queued_sftp_transfer(&mut sessions, &mut cursor, 3).unwrap();
    let second = start_queued_sftp_transfer(&mut sessions, &mut cursor, 3).unwrap();
    let third = start_queued_sftp_transfer(&mut sessions, &mut cursor, 3).unwrap();
    assert_eq!(
        [first.session_id, second.session_id, third.session_id],
        [SessionId(1), SessionId(2), SessionId(1)]
    );
    assert!(first.can_send);
    assert_eq!(start_queued_sftp_transfer(&mut sessions, &mut cursor, 3), None);

    assert_eq!(
        sessions[0].cancel_sftp_transfer(1, "missing".into()),
        CancelRequest::Signal
    );
    assert_eq!(
        sessions[1].cancel_sftp_transfer(2, "missing".into()),
        CancelRequest::StartTransfers
    );
    assert_eq!(
        sessions[1].cancel_sftp_transfer(9, "missing".into()),
        CancelRequest::Nothing
    );
    sessions[1].has_handle = false;
    assert_eq!(
        sessions[1].cancel_sftp_transfer(1, "missing".into()),
        CancelRequest::StartTransfers
    );
    assert_eq!(sessions[1].transfers.tasks[0].error, Some("missing".into()));
}

#[test]
fn an_upload_is_shown_where_it_went() {
    let mut session = open_session(1);
    session.sidebar_sftp.loaded = true;
    session.sidebar_sftp.path = "/srv".into();
    session.transfers.enqueue_files(
        1,
        SftpTransferDirection::Upload,
        vec![(PathBuf::from("/tmp/a"), "/srv/a".into(), Some(10))],
    );
    let completed = || ConnectionEvent::TransferCompleted {
        transfer_id: 1,
        direction: SftpTransferDirection::Upload,
        path: "/srv/a".into(),
        bytes: 10,
    };
    assert_eq!(happen(&mut session, completed()), vec![FollowUp::Notify]);
    let mut sessions = vec![session];
    let mut cursor = 0;
    start_queued_sftp_transfer(&mut sessions, &mut cursor, 1).unwrap();
    assert_eq!(
        happen(&mut sessions[0], completed()),
        vec![
            FollowUp::RefreshDirectory(SftpBrowserPlacement::Sidebar),
            FollowUp::StartTransfers,
            FollowUp::Notify
        ]
    );
}

#[test]
fn names_that_leave_the_directory_are_not_created() {
    let mut session = open_session(1);
    session.sftp.path = "/srv".into();
    for name in ["", "  ", ".", "..", "a/b", "a\\b"] {
        assert_eq!(
            session.submit_sftp_create(SftpBrowserPlacement::Center, name),
            CreateRequest::InvalidName
        );
    }
    match session.submit_sftp_create(SftpBrowserPlacement::Center, "  notes ") {
        CreateRequest::Send { path, .. } => assert_eq!(path, "/srv/notes"),
        other => panic!("unexpected {other:?}"),
    }
    session.has_handle = false;
    assert_eq!(
        session.submit_sftp_create(SftpBrowserPlacement::Center, "notes"),
        CreateRequest::NotConnected
    );
}

#[test]
fn a_changed_file_is_saved_once() {
    let mut session = open_session(1);
    session.sftp.file = Some(text_file("new"));
    let request_id = match session.save_remote_file(10, "too large".into()) {
        SaveRequest::Send {
            request_id,
            expected_contents,
            contents,
            ..
        } => {
            assert_eq!(expected_contents, b"old");
            assert_eq!(contents, b"new");
            request_id
        }
        other => panic!("unexpected {other:?}"),
    };
    assert_eq!(
        session.save_remote_file(10, "too large".into()),
        SaveRequest::Nothing
    );
    happen(
        &mut session,
        ConnectionEvent::FileWritten {
            request_id,
            file: RemoteFile {
                path: "/srv/notes".into(),
                contents: b"new".to_vec(),
            },
        },
    );
    let file = session.sftp.file.as_ref().unwrap();
    assert!(!file.saving);
    assert!(!file.is_dirty());

    session.sftp.file = Some(text_file("new"));
    assert_eq!(
        session.save_remote_file(2, "too large".into()),
        SaveRequest::TooLarge
    );
    assert_eq!(
        session.sftp.file.unwrap().error,
        Some("too large".to_owned())
    );
}

#[test]
fn leaving_looks_at_every_session() {
    let mut sessions = vec![open_session(1), open_session(2), open_session(3)];
    sessions[0].sftp.file = Some(text_file("new"));
    sessions[1].sftp.file = Some(text_file("old"));
    let mut saving = text_file("new");
    saving.saving = true;
    sessions[2].sftp.file = Some(saving);
    assert_eq!(
        exit_file_states(&sessions),
        vec![(true, false), (false, false), (true, true)]
    );
    assert_eq!(sessions_to_save(&sessions), vec![SessionId(1)]);
    assert!(!has_pending_transfers(&sessions));
    sessions[1].transfers.enqueue_files(
        1,
        SftpTransferDirection::Upload,
        vec![(PathBuf::from("/tmp/a"), "/srv/a".into(), None)],
    );
    assert!(has_pending_transfers(&sessions));
}

#[test]
fn only_local_sessions_are_told_in_a_new_language() {
    let mut sessions = vec![open_session(1), open_session(2)];
    sessions[1].kind = TerminalSessionKind::Local;
    relabel_local_sessions(&mut sessions, &"lokal".to_owned());
    assert_eq!(sessions[0].sftp_availability, SftpAvailability::Available);
    assert_eq!(
        sessions[1].sftp_availability,
        SftpAvailability::Unavailable("lokal".into())
    );
}

#[test]
fn the_place_for_files_shows_what_there_is() {
    let mut session = open_session(1);
    let request_id = session.sftp.begin_request("/srv".into());
    match files_view(&session, SftpBrowserPlacement::Center) {
        FilesView::Browser(panel) => {
            assert_eq!(panel.list, FileList::Loading);
            assert!(!panel.can_refresh);
        }
        other => panic!("unexpected {other:?}"),
    }
    happen(
        &mut session,
        ConnectionEvent::DirectoryRead {
            request_id,
            directory: RemoteDirectory {
                path: "/srv".into(),
                entries: vec![
                    listed("logs", RemoteFileKind::Directory, Some(4096)),
                    listed("a.txt", RemoteFileKind::File, Some(4)),
                    listed("link", RemoteFileKind::Symlink, None),
                ],
            },
        },
    );
    match files_view(&session, SftpBrowserPlacement::Center) {
        FilesView::Browser(panel) => {
            assert_eq!(panel.list, FileList::Lines(3));
            assert!(panel.can_go_up);
            assert!(panel.can_refresh);
            assert!(!panel.can_delete);
        }
        other => panic!("unexpected {other:?}"),
    }
    let lines = entry_lines(&session.sftp, false, 0, 3);
    assert_eq!(lines[0].size, "-");
    assert_eq!(lines[1].size, "4 B");
    assert!(!lines[2].active);
    assert_eq!(lines[0].disclosure, Disclosure::Nothing);
    assert_eq!(
        entry_lines(&session.sftp, true, 0, 1)[0].disclosure,
        Disclosure::Sign { expanded: false }
    );
    assert!(entry_lines(&session.sftp, false, 0, 4).is_empty());

    session.sftp.file = Some(text_file("new"));
    assert_eq!(
        files_view(&session, SftpBrowserPlacement::Center),
        FilesView::File
    );
    session.sftp_availability = SftpAvailability::ScpOnly("no SFTP".into());
    match files_view(&session, SftpBrowserPlacement::Sidebar) {
        FilesView::UploadOnly { reason, .. } => assert_eq!(reason, "no SFTP"),
        other => panic!("unexpected {other:?}"),
    }
}

#[test]
fn the_open_file_offers_what_can_be_done() {
    let panel = file_panel(&text_file("new"), true);
    assert_eq!(panel.content, FileContent::Editor { shown: true });
    assert!(panel.can_save && panel.can_revert && panel.shows_modified);
    assert!(!file_panel(&text_file("new"), false).can_save);
    let mut binary = text_file("old");
    binary.editor = None;
    binary.text_format = None;
    assert_eq!(
        file_panel(&binary, true).content,
        FileContent::Binary { size: "3 B".into() }
    );
    let mut saving = text_file("new");
    saving.saving = true;
    let panel = file_panel(&saving, true);
    assert_eq!(panel.save_label_key, "common-saving");
    assert!(!panel.can_close && !panel.can_save);
}

#[test]
fn the_list_of_transfers_tells_how_far_they_are() {
    let mut session = open_session(1);
    assert_eq!(
        transfer_panel(&session, Some(SftpTransferDirection::Download)),
        None
    );
    session.transfers.enqueue_files(
        1,
        SftpTransferDirection::Download,
        vec![
            (PathBuf::from("/tmp/a"), "/srv/a".into(), Some(10)),
            (PathBuf::from("/tmp/b"), "/srv/b".into(), Some(30)),
        ],
    );
    let mut sessions = vec![session];
    let mut cursor = 0;
    start_queued_sftp_transfer(&mut sessions, &mut cursor, 1).unwrap();
    happen(
        &mut sessions[0],
        ConnectionEvent::TransferProgress {
            transfer_id: 1,
            transferred: 4,
            total: Some(10),
        },
    );
    let panel = transfer_panel(&sessions[0], Some(SftpTransferDirection::Download)).unwrap();
    assert!(!panel.has_finished);
    assert_eq!(panel.lines[0].bar, Some((4, 10)));
    assert_eq!(panel.lines[0].controls, TransferControls::Cancel);
    assert_eq!(panel.lines[1].tone, TransferTone::Muted);
    let header = panel.header.unwrap();
    assert_eq!(header.title_key, "sftp-downloading-files");
    assert_eq!(header.count, 2);
    assert_eq!(
        header.status,
        BatchStatus::Bytes {
            transferred: "4 B".into(),
            total: "40 B".into(),
        }
    );
}

#[test]
fn key_paths_are_kept_out_of_the_log() {
    let mut with_key = ConnectionProfile::new("key", "Key", "host.example", 22, "user");
    with_key.auth = AuthConfig::PrivateKey {
        path: PathBuf::from("~/.ssh/id_ed25519"),
    };
    let mut elsewhere = ConnectionProfile::new("other", "Other", "host.example", 22, "user");
    elsewhere.auth = AuthConfig::PrivateKey {
        path: PathBuf::from("/keys/id"),
    };
    let mut profiles = password_profiles();
    profiles.push(with_key);
    profiles.push(elsewhere);
    assert_eq!(
        texts_to_redact(&profiles, &Some(PathBuf::from("/home/user"))),
        vec![
            "~/.ssh/id_ed25519".to_owned(),
            "/home/user/.ssh/id_ed25519".to_owned(),
            "/keys/id".to_owned(),
        ]
    );
    assert_eq!(
        texts_to_redact(&profiles, &None),
        vec!["~/.ssh/id_ed25519".to_owned(), "/keys/id".to_owned()]
    );
    let registered = register_key_paths(&profiles);
    assert_eq!(registered[0], "~/.ssh/id_ed25519");
    assert_eq!(registered.last().unwrap(), "/keys/id");
}

fn listed_session() -> Session<String> {
    let mut session = open_session(1);
    let request_id = session.sftp.begin_request("/srv".into());
    happen(
        &mut session,
        ConnectionEvent::DirectoryRead {
            request_id,
            directory: RemoteDirectory {
                path: "/srv".into(),
                entries: vec![
                    listed("logs", RemoteFileKind::Directory, None),
                    listed("a.txt", RemoteFileKind::File, Some(4)),
                ],
            },
        },
    );
    session
}

#[test]
fn a_selection_can_be_copied_deleted_and_opened() {
    let center = SftpBrowserPlacement::Center;
    let mut session = listed_session();
    assert_eq!(session.copy_selected_sftp_paths(center), None);
    assert_eq!(session.delete_selected_sftp_entries(center), None);
    assert_eq!(session.choose_sftp_downloads(center), None);
    session.sftp.select_for_context_menu("/srv/a.txt");
    assert_eq!(
        session.selected_sftp_file(center),
        Some("/srv/a.txt".to_owned())
    );
    let question = session.delete_selected_sftp_entries(center).unwrap();
    assert_eq!(question.name, Some("a.txt".to_owned()));
    session.sftp.selected_paths = vec!["/srv/a.txt".into(), "/srv/logs".into()];
    session.sftp.select_for_context_menu("/srv/logs");
    assert_eq!(session.sftp.selected_paths.len(), 2);
    let copied = session.copy_selected_sftp_paths(center).unwrap();
    assert_eq!(copied.lines().count(), 2);
    let question = session.delete_selected_sftp_entries(center).unwrap();
    assert_eq!(question.name, None);
    assert_eq!(question.paths.len(), 2);
    let (entries, root) = session.choose_sftp_downloads(center).unwrap();
    assert_eq!(entries.len(), 2);
    assert_eq!(root, "/srv");
}

#[test]
fn directories_are_asked_for_while_there_is_a_connection() {
    let center = SftpBrowserPlacement::Center;
    let mut session = listed_session();
    assert_eq!(session.refresh_path(center), "/srv");
    assert_eq!(session.upload_directory(center), "/srv");
    assert_eq!(
        session.open_parent_remote_directory(center),
        Some("/".to_owned())
    );
    let expected = session.sftp.next_request_id;
    assert_eq!(
        session.request_sftp_directory(center, "/etc".into(), "connect".into()),
        DirectoryRequest::Send {
            request_id: expected,
            path: "/etc".into(),
        }
    );
    session.connection_state = SessionState::Disconnected;
    session.has_handle = false;
    assert!(matches!(
        session.request_sftp_directory(center, "/etc".into(), "connect".into()),
        DirectoryRequest::NotConnected { .. }
    ));
    assert_eq!(session.sftp.error, Some("connect".into()));
    assert_eq!(session.open_remote_file("/srv/a.txt".into(), true), None);
    session.connection_state = SessionState::Connected;
    session.sftp_availability = SftpAvailability::Unavailable("none".into());
    assert_eq!(
        session.request_sftp_directory(center, "/etc".into(), "connect".into()),
        DirectoryRequest::Blocked
    );
    assert_eq!(session.ensure_sftp_directory(center), None);
}

#[test]
fn a_directory_is_expanded_once_it_is_known() {
    let mut session = listed_session();
    let request_id = match session.sftp.toggle_tree_directory("/srv/logs".into(), true) {
        TreeRequest::Send { request_id, path } => {
            assert_eq!(path, "/srv/logs");
            request_id
        }
        other => panic!("unexpected {other:?}"),
    };
    happen(
        &mut session,
        ConnectionEvent::DirectoryRead {
            request_id,
            directory: RemoteDirectory {
                path: "/srv/logs".into(),
                entries: vec![RemoteFileEntry {
                    name: "today".into(),
                    path: "/srv/logs/today".into(),
                    kind: RemoteFileKind::File,
                    size: None,
                    modified: None,
                }],
            },
        },
    );
    let lines = entry_lines(&session.sftp, true, 0, 3);
    assert_eq!(lines[0].disclosure, Disclosure::Sign { expanded: true });
    assert_eq!(lines[1].path, "/srv/logs/today");
    assert_eq!(lines[1].depth, 1);
    assert_eq!(
        session.sftp.toggle_tree_directory("/srv/logs".into(), true),
        TreeRequest::Done
    );
    assert_eq!(entry_lines(&session.sftp, true, 0, 2).len(), 2);
    assert!(disclosure_click(true, 1) && !disclosure_click(true, 2));
    assert_eq!(
        entry_click(true, 2, true, false, true),
        EntryClick::OpenDirectory
    );
    assert_eq!(
        entry_click(true, 2, true, false, false),
        EntryClick::OpenFile
    );
    assert_eq!(
        entry_click(true, 2, true, true, false),
        EntryClick::Selected
    );
    assert_eq!(
        entry_click(false, 1, true, false, false),
        EntryClick::Ignored
    );
}

#[test]
fn a_file_is_read_reverted_and_closed() {
    let mut session = listed_session();
    let (request_id, path) = session
        .open_remote_file("/srv/a.txt".into(), true)
        .unwrap();
    assert_eq!(path, "/srv/a.txt");
    happen(
        &mut session,
        ConnectionEvent::FileRead {
            request_id,
            file: RemoteFile {
                path: "/srv/a.txt".into(),
                contents: b"one\r\ntwo\r\n".to_vec(),
            },
        },
    );
    assert_eq!(session.sftp.display_path(), "/srv/a.txt");
    let file = session.sftp.file.as_mut().unwrap();
    assert_eq!(file.editor, Some("one\ntwo\n".into()));
    assert!(!file.is_dirty());
    file.editor = Some("one\n".into());
    assert_eq!(file.edited_contents(), Some(b"one\r\n".to_vec()));
    session.sftp.close_file("save first".into());
    assert_eq!(
        session.sftp.file.as_ref().unwrap().error,
        Some("save first".into())
    );
    session.sftp.revert_file();
    assert_eq!(
        session.sftp.file.as_ref().unwrap().editor,
        Some("one\ntwo\n".into())
    );
    session.sftp.close_file("save first".into());
    assert!(session.sftp.file.is_none());
    assert_eq!(session.sftp.display_path(), "/srv");
}

#[test]
fn host_keys_are_trusted_or_rejected_by_the_user() {
    let info = || HostKeyInfo {
        address: "host.example:22".into(),
        algorithm: "ssh-ed25519".into(),
        fingerprint: "SHA256:x".into(),
    };
    let mut session = open_session(1);
    assert_eq!(session.take_host_key_to_trust(), None);
    assert!(!session.reject_host_key());
    session.host_key_prompt = Some(info());
    assert_eq!(session.take_host_key_to_trust(), Some(info()));
    session.note_trusted_host_key("host.example:22".into(), Ok(()));
    assert_eq!(
        session.connection_message,
        Some(SessionMessage::TrustingHost {
            address: "host.example:22".into()
        })
    );
    session.host_key_prompt = Some(info());
    assert!(session.reject_host_key());
    assert_eq!(session.connection_message, None);
    session.has_handle = false;
    session.host_key_prompt = Some(info());
    assert_eq!(session.take_host_key_to_trust(), None);
    assert_eq!(
        session.connection_error,
        Some(SessionMessage::Localized("connection-handle-missing"))
    );
}

#[test]
fn a_new_connection_starts_afresh() {
    let mut session = listed_session();
    session.connection_error = Some(SessionMessage::Plain("old".into()));
    session.close_when_disconnected = true;
    session.start_connection("server".into(), vec![]);
    assert_eq!(session.connection_state, SessionState::Connecting);
    assert_eq!(session.connection_error, None);
    assert!(!session.close_when_disconnected);
    assert!(!session.sftp.loaded);
    assert_eq!(
        session.sidebar_sftp.next_request_id,
        SIDEBAR_SFTP_REQUEST_ID_START
    );
    session.note_saved_credential(Err(SaveCredentialError::Keychain("locked".into())));
    assert_eq!(
        session.connection_message,
        Some(SessionMessage::WithDetail {
            key: "credential-save-failed",
            detail: "locked".into(),
        })
    );
    session.note_saved_credential(Ok(()));
    session.note_deleted_credential(false, true, true, Some("credential-saved"));
    assert_eq!(
        session.connection_message,
        Some(SessionMessage::Localized("credential-saved"))
    );
    session.note_deleted_credential(true, true, false, Some("credential-saved"));
    assert_eq!(session.connection_message, None);
    session.note_preparation_error(SessionMessage::Plain("broken".into()));
    assert_eq!(
        session.connection_error,
        Some(SessionMessage::Plain("broken".into()))
    );
    session.note_prompt();
    assert_eq!(session.connection_error, None);
}

#[test]
fn a_retry_asks_for_the_secret_at_once() {
    let mut session = open_session(1);
    let outcome = retry_connection_with_prompt(
        &mut session,
        &password_profiles(),
        "server".into(),
        CredentialKind::Password,
        "denied".into(),
    );
    match outcome {
        RetryOutcome::Preparing(mut pending) => assert_eq!(
            pending.continue_preparation(),
            PreparationNeed::Prompt {
                profile_id: "server".into(),
                ask: CredentialPromptKind::Password,
                error: Some("denied".into()),
            }
        ),
        other => panic!("unexpected {other:?}"),
    }
    assert_eq!(
        retry_connection_with_prompt(
            &mut session,
            &password_profiles(),
            "server".into(),
            CredentialKind::PrivateKeyPassphrase,
            "denied".into(),
        ),
        RetryOutcome::Impossible
    );
    let mut profiles = password_profiles();
    profiles[0].route.jump_host_ids = vec!["gone".into()];
    assert_eq!(
        retry_connection_with_prompt(
            &mut session,
            &profiles,
            "server".into(),
            CredentialKind::Password,
            "denied".into(),
        ),
        RetryOutcome::Blocked
    );
    assert_eq!(
        session.connection_error,
        Some(SessionMessage::WithDetail {
            key: "connection-missing-jump",
            detail: "gone".into(),
        })
    );
}

#[test]
fn a_missing_secret_is_asked_for_where_it_is_needed() {
    let key = || CredentialPromptKind::PrivateKeyPassphrase {
        path: PathBuf::from("/keys/id"),
    };
    assert_eq!(
        handle_missing_preparation_secret(
            CredentialKind::PrivateKeyPassphrase,
            Some(key()),
            None
        ),
        MissingSecret::UseKeyWithoutPassphrase {
            path: PathBuf::from("/keys/id")
        }
    );
    assert_eq!(
        handle_missing_preparation_secret(
            CredentialKind::PrivateKeyPassphrase,
            Some(key()),
            Some("locked".into())
        ),
        MissingSecret::Ask {
            kind: key(),
            error: Some("locked".into()),
        }
    );
    assert_eq!(
        handle_missing_preparation_secret(CredentialKind::ProxyCommand, None, None),
        MissingSecret::GiveUp { error: None }
    );
    assert_eq!(
        handle_missing_preparation_secret(CredentialKind::Password, None, None),
        MissingSecret::Nothing
    );
    assert_eq!(
        credential_prompt_labels(&key()),
        (
            "credential-private-key-passphrase",
            "credential-passphrase",
            Some("/keys/id".to_owned())
        )
    );
}

#[test]
fn the_editor_keeps_jumps_and_proxy_commands_apart() {
    let mut profile = password_profiles().remove(0);
    profile.route.upstream_proxy = Some(ProxyConfig::ProxyCommand {
        command_digest: "digest".into(),
        approved_digest: None,
    });
    assert!(!profile.route.is_direct());
    let (mut editor, wanted) = load_editor(&profile);
    assert_eq!(wanted, Some(CredentialKind::ProxyCommand));
    assert!(!editor.proxy_secret_loaded);
    editor.load_secret(CredentialKind::ProxyCommand, Some("nc %h %p".into()));
    assert!(editor.proxy_secret_loaded);
    assert_eq!(editor.proxy_command, "nc %h %p");
    assert_eq!(editor.shown_rows(), (false, true, false));
    editor.toggle_jump_host("server".into());
    assert!(editor.jump_host_ids.is_empty());
    editor.toggle_jump_host("jump".into());
    assert_eq!(editor.jump_host_ids, vec!["jump".to_owned()]);
    assert_eq!(editor.proxy_kind, ProfileProxyKind::Direct);
    editor.toggle_jump_host("jump".into());
    assert!(editor.jump_host_ids.is_empty());
    editor.set_private_key_path("other", &PathBuf::from("/keys/id"));
    assert_eq!(editor.private_key_path, "");
    editor.set_private_key_path("server", &PathBuf::from("/keys/id"));
    assert_eq!(editor.private_key_path, "/keys/id");
}

#[test]
fn uploads_make_directories_before_files() {
    let center = SftpBrowserPlacement::Center;
    let mut session = open_session(1);
    let first = session.sftp.next_request_id;
    assert_eq!(
        session.begin_upload(center, &vec![]),
        UploadStart::QueueFiles
    );
    assert_eq!(session.sftp.next_request_id, first);
    assert_eq!(
        session.begin_upload(center, &vec!["/srv/new".into()]),
        UploadStart::MakeDirectories { request_id: first }
    );
    session.queue_uploads(vec![(PathBuf::from("/tmp/a"), "/srv/new/a".into(), Some(3))]);
    session.queue_uploads(vec![(PathBuf::from("/tmp/b"), "/srv/new/b".into(), None)]);
    let tasks = &session.transfers.tasks;
    assert_eq!((tasks[0].id, tasks[1].id), (1, 2));
    assert_eq!((tasks[0].batch_id, tasks[1].batch_id), (1, 2));
    assert_eq!(tasks[0].direction, SftpTransferDirection::Upload);
    assert_eq!(tasks[0].total, Some(3));
    assert!(!tasks[0].overwrite);
    session.has_handle = false;
    assert_eq!(
        session.begin_upload(center, &vec!["/srv/new".into()]),
        UploadStart::NotConnected
    );
}

#[test]
fn numbers_are_needed_only_where_they_are_drawn() {
    let center = SftpBrowserPlacement::Center;
    let mut session = open_session(1);
    session.sftp.next_request_id = u64::MAX;
    assert_eq!(
        session.begin_upload(center, &vec![]),
        UploadStart::QueueFiles
    );
    assert_eq!(
        session.submit_sftp_create(center, ".."),
        CreateRequest::InvalidName
    );
    assert_eq!(
        session.save_remote_file(10, "too large".into()),
        SaveRequest::Nothing
    );
    session.has_handle = false;
    assert_eq!(
        session.queue_downloads(center, "/srv", &vec![], &PathBuf::from("/tmp")),
        None
    );
    assert_eq!(
        session.sftp.toggle_tree_directory("/srv/logs".into(), false),
        TreeRequest::Done
    );
    assert_eq!(session.open_remote_file("/srv/a".into(), true), None);
}

#[test]
fn later_transfers_get_new_numbers() {
    let center = SftpBrowserPlacement::Center;
    let mut session = open_session(1);
    let entries = vec![
        listed("a.txt", RemoteFileKind::File, None),
        listed("b.txt", RemoteFileKind::File, None),
    ];
    session.queue_downloads(center, "/srv", &entries, &PathBuf::from("/tmp"));
    assert_eq!(session.transfers.next_id, 3);
    session.queue_uploads(vec![(PathBuf::from("/tmp/c"), "/srv/c".into(), None)]);
    assert_eq!(session.transfers.tasks[2].id, 3);
    let mut sessions = vec![session];
    let mut cursor = 5;
    assert_eq!(start_queued_sftp_transfer(&mut sessions, &mut cursor, 0), None);
    assert_eq!(cursor, 5);
    sessions.clear();
    assert_eq!(start_queued_sftp_transfer(&mut sessions, &mut cursor, 0), None);
    assert_eq!(cursor, 5);
    assert_eq!(start_queued_sftp_transfer(&mut sessions, &mut cursor, 1), None);
    assert_eq!(cursor, 0);
}

#[test]
fn a_session_says_why_its_connection_is_not_started() {
    let mut session = open_session(1);
    session.connection_message = Some(SessionMessage::Plain("busy".into()));
    session.note_rejected_host_key(Ok(()));
    assert_eq!(session.connection_error, None);
    session.note_rejected_host_key(Err("gone".into()));
    assert_eq!(
        session.connection_error,
        Some(SessionMessage::Plain("gone".into()))
    );
    session.note_expired_preparation();
    assert_eq!(
        session.connection_error,
        Some(SessionMessage::Localized("connection-preparation-expired"))
    );
    assert_eq!(
        session.connection_message,
        Some(SessionMessage::Plain("busy".into()))
    );
    session.note_failed_approval(ApprovalFailure::NoCommand);
    assert_eq!(
        session.connection_error,
        Some(SessionMessage::Localized("profile-validation-proxy-command"))
    );
    session.note_failed_approval(ApprovalFailure::NotSaved("disk full".into()));
    assert_eq!(
        session.connection_error,
        Some(SessionMessage::WithDetail {
            key: "app-save-profiles-failed",
            detail: "disk full".into(),
        })
    );
    session.note_failed_approval(ApprovalFailure::Plan(SshError {
        kind: SshErrorKind::ProxyCommandApproval,
        message: "changed".into(),
        stage: None,
    }));
    assert_eq!(
        session.connection_error,
        Some(SessionMessage::ConnectionError {
            kind: SshErrorKind::ProxyCommandApproval,
            details: "changed".into(),
            stage: None,
        })
    );
    session.note_approval_question();
    assert_eq!(
        session.connection_message,
        Some(SessionMessage::Localized("proxy-command-approval-title"))
    );
    session.note_cancelled_approval();
    assert_eq!(
        session.connection_error,
        Some(SessionMessage::Localized("proxy-command-approval-cancelled"))
    );
    assert_eq!(session.connection_message, None);
}

#[test]
fn a_tree_of_ordinary_listings_comes_to_an_end() {
    let mut session = listed_session();
    assert!(session.sftp.has_settled_tree());
    for (path, child) in [
        ("/srv/logs", "/srv/logs/old"),
        ("/srv/logs/old", "/srv/logs/old/deep"),
    ] {
        let request_id = session.sftp.begin_tree_request(path.into());
        happen(
            &mut session,
            ConnectionEvent::DirectoryRead {
                request_id,
                directory: RemoteDirectory {
                    path: path.into(),
                    entries: vec![RemoteFileEntry {
                        name: "x".into(),
                        path: child.into(),
                        kind: RemoteFileKind::Directory,
                        size: None,
                        modified: None,
                    }],
                },
            },
        );
        assert!(session.sftp.has_settled_tree());
    }
    assert_eq!(entry_lines(&session.sftp, true, 0, 4)[2].depth, 2);
    let request_id = session.sftp.begin_tree_request("/srv/logs/old/deep".into());
    happen(
        &mut session,
        ConnectionEvent::DirectoryRead {
            request_id,
            directory: RemoteDirectory {
                path: "/srv/logs/old/deep".into(),
                entries: vec![listed("logs", RemoteFileKind::Directory, None)],
            },
        },
    );
    assert!(!session.sftp.has_settled_tree());
}
