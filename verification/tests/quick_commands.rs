use remcmd_app::bottom_panel::{
    dispose_quick_terminal, quick_command_run_enabled, quick_command_target_label,
    quick_command_target_options, restart_quick_terminal, BottomPanel, PanelSwitch,
    QuickCommandError, TargetLabel, TerminalDisposal,
};
use remcmd_app::browser::{SftpAvailability, SftpBrowserState, SIDEBAR_SFTP_REQUEST_ID_START};
use remcmd_app::profile::ConnectionProfile;
use remcmd_app::profile_list::{
    has_live_session, profile_menu, ActivePanel, Deletion, ProfileList,
};
use remcmd_app::quick_commands::{connected_ssh_profile_ids, quick_command_target_sessions};
use remcmd_app::session::{
    PerformanceState, Session, SessionId, SessionState, TerminalSessionKind,
};
use remcmd_app::text_set::TextSet;
use remcmd_app::transfers::SftpTransferQueue;

fn texts(list: &[&str]) -> Vec<String> {
    list.iter().map(|text| text.to_string()).collect()
}

fn session(id: u64, profile_id: &str, state: SessionState) -> Session<String> {
    Session {
        id: SessionId(id),
        kind: TerminalSessionKind::Ssh,
        profile_id: profile_id.into(),
        connection_state: state,
        has_handle: state == SessionState::Connected,
        has_local_handle: false,
        connection_credentials: vec![],
        connection_error: None,
        connection_message: None,
        host_key_prompt: None,
        terminal: None,
        terminal_end_reason: None,
        resize_pending: false,
        has_selection: false,
        selecting: false,
        close_when_disconnected: false,
        sftp: SftpBrowserState::default(),
        sidebar_sftp: SftpBrowserState::with_request_id_start(SIDEBAR_SFTP_REQUEST_ID_START),
        sftp_availability: SftpAvailability::Checking,
        transfers: SftpTransferQueue::default(),
        performance: PerformanceState {
            loading: false,
            error: None,
        },
    }
}

fn profiles() -> Vec<ConnectionProfile> {
    vec![
        ConnectionProfile::new("server-a", "Alpha", "a.example", 22, "user"),
        ConnectionProfile::new("server-b", "Beta", "b.example", 22, "user"),
    ]
}

#[test]
fn quick_commands_target_each_selected_server_once() {
    let profile_ids = vec!["server-a".to_owned(), "server-b".to_owned()];
    let selected_profile_ids =
        TextSet::from_texts(&vec!["server-a".to_owned(), "server-b".to_owned()]);
    let sessions = [
        (SessionId(1), "server-a", true),
        (SessionId(2), "server-a", true),
        (SessionId(3), "server-b", true),
    ];

    assert_eq!(
        quick_command_target_sessions(
            &profile_ids,
            &selected_profile_ids,
            &sessions,
            Some(SessionId(1)),
        ),
        vec![
            ("server-a".to_owned(), SessionId(1)),
            ("server-b".to_owned(), SessionId(3)),
        ]
    );
}

#[test]
fn quick_commands_fall_back_to_the_latest_connected_session() {
    let profile_ids = vec!["server-a".to_owned(), "server-a".to_owned()];
    let selected_profile_ids = TextSet::from_texts(&vec!["server-a".to_owned()]);
    let sessions = [
        (SessionId(1), "server-a", false),
        (SessionId(2), "server-a", true),
    ];

    assert_eq!(
        quick_command_target_sessions(
            &profile_ids,
            &selected_profile_ids,
            &sessions,
            Some(SessionId(1)),
        ),
        vec![("server-a".to_owned(), SessionId(2))]
    );
}

#[test]
fn commands_are_trimmed_and_sent_with_a_return() {
    let profiles = profiles();
    let sessions = vec![
        session(1, "server-a", SessionState::Connected),
        session(2, "server-b", SessionState::Disconnected),
    ];
    let connected = connected_ssh_profile_ids(&profiles, &sessions);
    assert_eq!(connected, texts(&["server-a"]));
    let mut panel = BottomPanel {
        open: false,
        resizing: false,
        prompt: None,
        quick_terminal: None,
    };
    assert_eq!(panel.submit_quick_command(&profiles, &sessions, None), None);
    assert_eq!(
        panel.toggle_bottom_panel(&connected),
        PanelSwitch::Opened {
            start_terminal: true
        }
    );
    assert_eq!(panel.submit_quick_command(&profiles, &sessions, None), None);
    assert_eq!(
        panel.prompt.as_ref().unwrap().error,
        Some(QuickCommandError::EnterCommand)
    );
    panel.prompt.as_mut().unwrap().input = "  uptime \n".into();
    let command = panel
        .submit_quick_command(&profiles, &sessions, None)
        .unwrap();
    assert_eq!(command.data, "uptime\r");
    assert_eq!(command.targets, vec![("server-a".to_string(), SessionId(1))]);
    panel.finish_quick_command(&vec![("server-a".into(), "broken pipe".into())], &profiles);
    assert_eq!(
        panel.prompt.as_ref().unwrap().error,
        Some(QuickCommandError::Failed("Alpha: broken pipe".into()))
    );
    panel.finish_quick_command(
        &vec![
            ("server-a".into(), "one".into()),
            ("gone".into(), "two".into()),
        ],
        &profiles,
    );
    assert_eq!(
        panel.prompt.as_ref().unwrap().error,
        Some(QuickCommandError::Failed("Alpha: one\ngone: two".into()))
    );
    panel.finish_quick_command(&vec![], &profiles);
    assert_eq!(panel.prompt.as_ref().unwrap().error, None);
    assert_eq!(panel.prompt.as_ref().unwrap().input, "");
}

#[test]
fn commands_need_a_selected_and_connected_server() {
    let profiles = profiles();
    let sessions = vec![session(1, "server-a", SessionState::Connected)];
    let connected = connected_ssh_profile_ids(&profiles, &sessions);
    let mut panel = BottomPanel {
        open: false,
        resizing: true,
        prompt: None,
        quick_terminal: Some(SessionId(9)),
    };
    assert_eq!(
        panel.toggle_bottom_panel(&connected),
        PanelSwitch::Opened {
            start_terminal: false
        }
    );
    panel.prompt.as_mut().unwrap().input = "uptime".into();
    assert!(!panel.toggle_quick_command_target("server-b".into(), &connected));
    assert!(panel.toggle_quick_command_target("server-a".into(), &connected));
    assert!(panel.prompt.as_ref().unwrap().selection_touched);
    assert_eq!(panel.submit_quick_command(&profiles, &sessions, None), None);
    assert_eq!(
        panel.prompt.as_ref().unwrap().error.as_ref().unwrap().key(),
        Some("quick-select-server")
    );
    assert!(panel.toggle_quick_command_target("server-a".into(), &connected));
    let failed = vec![session(1, "server-a", SessionState::Failed)];
    assert_eq!(panel.submit_quick_command(&profiles, &failed, None), None);
    assert_eq!(
        panel.prompt.as_ref().unwrap().error.as_ref().unwrap().key(),
        Some("quick-servers-disconnected")
    );
    panel.sync_default_quick_command_targets(&vec![]);
    assert!(panel
        .prompt
        .as_ref()
        .unwrap()
        .selected_profile_ids
        .contains("server-a"));
    assert!(panel.close_quick_command());
    assert!(!panel.resizing);
    assert!(!panel.close_quick_command());
}

#[test]
fn target_labels_describe_the_selection() {
    let profiles = profiles();
    let connected = texts(&["server-a", "server-b"]);
    let label = |selected: &[&str]| {
        quick_command_target_label(&connected, &TextSet::from_texts(&texts(selected)), &profiles)
    };
    assert_eq!(label(&["server-a", "server-b"]), TargetLabel::All);
    assert_eq!(label(&[]), TargetLabel::NoServer);
    assert_eq!(label(&["server-b"]), TargetLabel::Named("Beta".into()));
    assert_eq!(
        quick_command_target_label(
            &texts(&["server-a", "server-b", "gone"]),
            &TextSet::from_texts(&texts(&["gone"])),
            &profiles
        ),
        TargetLabel::OneServer
    );
    assert_eq!(
        quick_command_target_label(
            &texts(&["server-a", "server-b", "gone"]),
            &TextSet::from_texts(&texts(&["gone", "server-a"])),
            &profiles
        ),
        TargetLabel::Count(2)
    );
    let selected = TextSet::from_texts(&texts(&["server-b"]));
    assert!(quick_command_run_enabled(" ls ", &connected, &selected));
    assert!(!quick_command_run_enabled("  ", &connected, &selected));
    assert!(!quick_command_run_enabled("ls", &vec![], &selected));
    let options = quick_command_target_options(&connected, &selected, &profiles);
    assert_eq!(options.len(), 2);
    assert_eq!(options[1].name, "Beta");
    assert!(options[1].selected && !options[0].selected);
}

#[test]
fn live_terminals_are_disconnected_before_they_go() {
    let mut sessions = vec![session(1, "", SessionState::Connected)];
    assert_eq!(
        dispose_quick_terminal(None, &mut sessions),
        TerminalDisposal::Nothing
    );
    assert_eq!(
        dispose_quick_terminal(Some(SessionId(1)), &mut sessions),
        TerminalDisposal::Disconnect(SessionId(1))
    );
    assert!(sessions[0].close_when_disconnected);
    assert!(!restart_quick_terminal(SessionId(1), &sessions));
    sessions[0].connection_state = SessionState::Failed;
    assert!(restart_quick_terminal(SessionId(1), &sessions));
    assert_eq!(
        dispose_quick_terminal(Some(SessionId(1)), &mut sessions),
        TerminalDisposal::Remove(SessionId(1))
    );
    assert!(!restart_quick_terminal(SessionId(5), &sessions));
}

#[test]
fn profiles_in_use_are_not_deleted() {
    let mut all = profiles();
    all[1].route.jump_host_ids = texts(&["server-a"]);
    let mut list = ProfileList {
        profiles: all,
        selected_profile_id: Some("server-a".into()),
        active_panel: ActivePanel::Server,
        active_session_id: Some(SessionId(1)),
        edited_profile_id: Some("server-a".into()),
        auth_selector_open: true,
        context_menu: Some("server-a".into()),
        next_profile_number: 1,
    };
    let live = vec![session(1, "server-a", SessionState::Connected)];
    let idle = vec![
        session(1, "server-a", SessionState::Disconnected),
        session(2, "server-b", SessionState::Connected),
        session(3, "server-a", SessionState::Failed),
    ];
    assert_eq!(
        list.delete_profile("server-a", &idle),
        Deletion::InUse {
            referrer: "Beta".into()
        }
    );
    list.profiles[1].route.jump_host_ids = vec![];
    assert_eq!(list.delete_profile("server-a", &live), Deletion::LiveSession);
    assert_eq!(list.delete_profile("gone", &idle), Deletion::Missing);
    assert_eq!(list.profiles.len(), 2);
    assert_eq!(
        list.delete_profile("server-a", &idle),
        Deletion::Deleted {
            sessions: vec![SessionId(1), SessionId(3)]
        }
    );
    assert_eq!(list.profiles.len(), 1);
    assert_eq!(list.selected_profile_id, None);
    assert_eq!(list.active_panel, ActivePanel::Home);
    assert_eq!(list.active_session_id, None);
    assert_eq!(list.edited_profile_id, None);
    assert!(!list.auth_selector_open);
    assert_eq!(list.context_menu, None);
    assert!(has_live_session(&live, "server-a"));
    let menu = profile_menu(&idle, "server-b", false, true);
    assert!(!menu.can_open_terminal && !menu.can_delete);
}

#[test]
fn text_sets_toggle() {
    let mut set = TextSet::new();
    assert!(set.is_empty());
    assert!(set.toggle("a".into()));
    assert!(set.contains("a"));
    assert!(!set.insert("a".into()));
    assert!(!set.toggle("a".into()));
    assert!(set.is_empty());
    assert!(!set.remove("a"));
}
