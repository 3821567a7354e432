use remcmd_app::keyboard::{
    dialog_bindings, focus_new_modal, menu_index, Dialog, DialogAction, DialogFocus, FocusWalk,
    OpenDialogs,
};
use remcmd_app::lifecycle::{
    request_exit, save_progress, ExitAction, ExitEvent, ExitPhase, SaveProgress,
};
use remcmd_app::profile_list::ActivePanel;
use remcmd_app::window::{
    should_focus_terminal, shown_overlays, sidebar_slide, toggle_sidebar_search, OpenOverlays,
    Overlay, TerminalSituation,
};

#[test]
fn menu_navigation_handles_boundaries_empty_and_filtered_lists() {
    assert_eq!(menu_index(0, 4, "up"), 0);
    assert_eq!(menu_index(3, 4, "down"), 3);
    assert_eq!(menu_index(2, 4, "up"), 1);
    assert_eq!(menu_index(2, 4, "home"), 0);
    assert_eq!(menu_index(0, 4, "end"), 3);
    assert_eq!(menu_index(20, 0, "down"), 0);
    assert_eq!(menu_index(20, 2, "up"), 1);
}

#[test]
fn menu_moves_undo_each_other() {
    assert_eq!(menu_index(menu_index(1, 4, "down"), 4, "up"), 1);
    assert_eq!(menu_index(menu_index(1, 4, "up"), 4, "down"), 1);
    assert_eq!(menu_index(usize::MAX, 4, "down"), 3);
    assert_eq!(menu_index(usize::MAX, 4, "left"), 3);
}

#[test]
fn exit_waits_for_every_pending_save() {
    assert_eq!(
        save_progress(&[(false, false), (false, true)]),
        SaveProgress::Waiting
    );
    assert_eq!(
        save_progress(&[(true, false), (true, true)]),
        SaveProgress::Waiting
    );
}

#[test]
fn failed_saves_and_edits_made_during_save_keep_window_open() {
    assert_eq!(save_progress(&[(true, false)]), SaveProgress::Blocked);
    assert_eq!(
        save_progress(&[(false, false), (true, false)]),
        SaveProgress::Blocked
    );
}

#[test]
fn exit_is_ready_only_when_all_files_are_saved() {
    assert_eq!(save_progress(&[]), SaveProgress::Ready);
    assert_eq!(save_progress(&[(false, false)]), SaveProgress::Ready);
}

#[test]
fn leaving_with_nothing_open_needs_no_question() {
    assert_eq!(
        request_exit(ExitPhase::Idle, ExitEvent::Requested, SaveProgress::Ready, false),
        (ExitPhase::Idle, ExitAction::Finish)
    );
}

#[test]
fn leaving_saves_then_stops_transfers_then_leaves() {
    let (phase, action) = request_exit(
        ExitPhase::Idle,
        ExitEvent::Requested,
        SaveProgress::Blocked,
        true,
    );
    assert_eq!(action, ExitAction::AskToSave);
    let (phase, action) = request_exit(
        phase,
        ExitEvent::SaveAnswered { button: Some(0) },
        SaveProgress::Blocked,
        true,
    );
    assert_eq!(action, ExitAction::SaveAll);
    let (phase, action) = request_exit(
        phase,
        ExitEvent::Polled { in_time: true },
        SaveProgress::Waiting,
        true,
    );
    assert_eq!(action, ExitAction::Wait);
    let (phase, action) = request_exit(
        phase,
        ExitEvent::Polled { in_time: true },
        SaveProgress::Ready,
        true,
    );
    assert_eq!(action, ExitAction::AskToStop);
    assert_eq!(
        request_exit(phase, ExitEvent::Requested, SaveProgress::Ready, true),
        (phase, ExitAction::Nothing)
    );
    assert_eq!(
        request_exit(
            phase,
            ExitEvent::StopAnswered { button: Some(0) },
            SaveProgress::Ready,
            true
        ),
        (ExitPhase::Idle, ExitAction::Nothing)
    );
    // An edit made while the question was open is asked for again.
    assert_eq!(
        request_exit(
            phase,
            ExitEvent::StopAnswered { button: Some(1) },
            SaveProgress::Blocked,
            true
        ),
        (ExitPhase::AskingToSave, ExitAction::AskToSave)
    );
    assert_eq!(
        request_exit(
            phase,
            ExitEvent::StopAnswered { button: Some(1) },
            SaveProgress::Ready,
            true
        ),
        (ExitPhase::Idle, ExitAction::Finish)
    );
}

#[test]
fn unsaved_changes_are_lost_only_by_choice() {
    let asking = ExitPhase::AskingToSave;
    assert_eq!(
        request_exit(
            asking,
            ExitEvent::SaveAnswered { button: Some(1) },
            SaveProgress::Blocked,
            false
        ),
        (ExitPhase::Idle, ExitAction::Finish)
    );
    assert_eq!(
        request_exit(
            asking,
            ExitEvent::SaveAnswered { button: Some(2) },
            SaveProgress::Blocked,
            false
        ),
        (ExitPhase::Idle, ExitAction::Nothing)
    );
    assert_eq!(
        request_exit(
            asking,
            ExitEvent::SaveAnswered { button: None },
            SaveProgress::Blocked,
            false
        ),
        (ExitPhase::Idle, ExitAction::Nothing)
    );
    assert_eq!(
        request_exit(
            ExitPhase::Saving,
            ExitEvent::Polled { in_time: false },
            SaveProgress::Waiting,
            false
        ),
        (ExitPhase::Idle, ExitAction::ReportFailure)
    );
    assert_eq!(
        request_exit(
            ExitPhase::Saving,
            ExitEvent::Polled { in_time: true },
            SaveProgress::Blocked,
            false
        ),
        (ExitPhase::Idle, ExitAction::ReportFailure)
    );
}

#[test]
fn the_first_wanted_dialog_is_shown_and_focused() {
    let mut dialogs = OpenDialogs {
        proxy_command_approval: false,
        host_key: false,
        credential: None,
        sftp_create: None,
        editor: None,
    };
    assert_eq!(dialogs.top(), None);
    assert!(!dialogs.is_modal());
    assert_eq!(
        focus_new_modal(&dialogs, Some(DialogFocus::ProfileName(1))),
        (None, false)
    );
    dialogs.editor = Some(1);
    dialogs.credential = Some(2);
    assert_eq!(dialogs.top(), Some(Dialog::Credential));
    assert_eq!(
        focus_new_modal(&dialogs, Some(DialogFocus::ProfileName(1))),
        (Some(DialogFocus::CredentialInput(2)), true)
    );
    assert_eq!(
        focus_new_modal(&dialogs, Some(DialogFocus::CredentialInput(2))),
        (Some(DialogFocus::CredentialInput(2)), false)
    );
    dialogs.credential = Some(3);
    assert_eq!(
        focus_new_modal(&dialogs, Some(DialogFocus::CredentialInput(2))),
        (Some(DialogFocus::CredentialInput(3)), true)
    );
    dialogs.host_key = true;
    assert_eq!(dialogs.top(), Some(Dialog::HostKey));
    assert_eq!(
        focus_new_modal(&dialogs, Some(DialogFocus::CredentialInput(3))),
        (Some(DialogFocus::Dialog), true)
    );
    assert!(dialogs.is_modal());
}

#[test]
fn a_focus_walk_ends_after_one_round() {
    let mut walk = FocusWalk::begin(None);
    assert!(!walk.step(Some(1), false));
    assert!(!walk.step(Some(2), false));
    assert!(walk.step(Some(1), false));
    let mut walk = FocusWalk::begin(Some(7));
    assert!(!walk.step(Some(1), false));
    assert!(walk.step(Some(7), false));
    let mut walk = FocusWalk::begin(Some(7));
    assert!(walk.step(Some(3), true));
    assert!(walk.step(None, false));
}

#[test]
fn escape_cancels_every_dialog() {
    let keys = dialog_bindings(false);
    assert_eq!(keys.iter().filter(|key| key.keystroke == "escape").count(), 6);
    assert!(!keys.iter().any(|key| key.keystroke == "ctrl-s"));
    let keys = dialog_bindings(true);
    assert_eq!(keys.last().unwrap().keystroke, "ctrl-s");
    assert_eq!(keys.last().unwrap().action, DialogAction::SaveProfileEditor);
}

#[test]
fn overlays_lie_over_each_other_in_order() {
    let state = OpenOverlays {
        windows_chrome: false,
        windows_menu: true,
        panel: ActivePanel::Settings,
        settings_selector: true,
        profile_context_menu: false,
        sftp_context_menu: true,
        terminal_context_menu: true,
    };
    assert_eq!(
        shown_overlays(&state),
        vec![
            Overlay::SettingsSelector,
            Overlay::SftpContextMenu,
            Overlay::TerminalContextMenu
        ]
    );
    let state = OpenOverlays {
        windows_chrome: true,
        panel: ActivePanel::Home,
        ..state
    };
    assert_eq!(shown_overlays(&state)[0], Overlay::WindowsMenu);
    assert_eq!(shown_overlays(&state).len(), 3);
}

#[test]
fn sidebars_slide_only_after_they_were_switched() {
    let slide = sidebar_slide(0, true);
    assert!(!slide.from_full && slide.to_full && !slide.animated);
    let slide = sidebar_slide(3, false);
    assert!(slide.from_full && !slide.to_full && slide.animated);
}

#[test]
fn the_terminal_gives_way_to_open_panels() {
    let situation = TerminalSituation {
        panel: ActivePanel::Connection,
        tab_shows_terminal: true,
        right_sidebar_open: false,
        bottom_panel_open: false,
        terminal_visible: true,
    };
    assert!(should_focus_terminal(situation));
    assert!(!should_focus_terminal(TerminalSituation {
        bottom_panel_open: true,
        ..situation
    }));
    assert!(!should_focus_terminal(TerminalSituation {
        panel: ActivePanel::Settings,
        ..situation
    }));
}

#[test]
fn searching_shows_the_field_or_puts_it_away() {
    let shown = toggle_sidebar_search(false, true, false);
    assert!(shown.visible && shown.focus && !shown.clear);
    let hidden = toggle_sidebar_search(false, true, true);
    assert!(!hidden.visible && !hidden.focus && hidden.clear);
    let windows = toggle_sidebar_search(true, false, true);
    assert!(windows.open_sidebar && windows.focus && windows.visible && !windows.clear);
}
