use remcmd_app::menus::{
    application_menus, command_key_bindings, control_key_bindings, dispatch_edit_command,
    estimated_windows_menu_text_width, menu_after_click, menu_after_hover,
    windows_menu_button_width, windows_menu_command_enabled, windows_menu_entries,
    windows_menu_left, windows_menu_popup_width, AppMenuItem, AppMenuName, EditCommand,
    EditTarget, WindowsMenu, WindowsMenuCommand, WindowsMenuEntry, WINDOWS_BRAND_WIDTH,
    WINDOWS_MENU_MIN_WIDTH,
};
use remcmd_app::session::SessionState;

const MENUS: [WindowsMenu; 6] = [
    WindowsMenu::File,
    WindowsMenu::Edit,
    WindowsMenu::Terminal,
    WindowsMenu::View,
    WindowsMenu::Window,
    WindowsMenu::Help,
];

fn labels(entries: &[WindowsMenuEntry]) -> Vec<String> {
    entries
        .iter()
        .map(|entry| match entry {
            WindowsMenuEntry::Item { label_key, .. } => label_key.to_string(),
            WindowsMenuEntry::Separator => String::new(),
        })
        .collect()
}

#[test]
fn application_menu_exposes_workspace_operations() {
    let menus = application_menus(false);
    let menu_names = menus.iter().map(|menu| menu.name).collect::<Vec<_>>();

    assert_eq!(
        menu_names,
        [
            AppMenuName::Program("RemCmd"),
            AppMenuName::Key("menu-file"),
            AppMenuName::Key("menu-terminal"),
            AppMenuName::Key("menu-view"),
            AppMenuName::Key("menu-window")
        ]
    );
    assert!(matches!(
        &menus[0].items[0],
        AppMenuItem::Action { label_key, .. } if *label_key == "about-title"
    ));
    assert_eq!(menus[0].items.len(), 5);
    assert!(matches!(
        application_menus(true)[0].items[3],
        AppMenuItem::Services { .. }
    ));
}

fn chinese(key: &str) -> &'static str {
    match key {
        "about-title" => "关于 RemCmd",
        "menu-file" => "文件",
        "menu-terminal" => "终端",
        "menu-view" => "视图",
        "menu-window" => "窗口",
        _ => "在新的窗口中打开所选的连接配置",
    }
}

#[test]
fn application_menus_and_widths_rebuild_for_chinese() {
    let menus = application_menus(false);
    assert_eq!(
        menus
            .iter()
            .map(|menu| match menu.name {
                AppMenuName::Program(name) => name,
                AppMenuName::Key(key) => chinese(key),
            })
            .collect::<Vec<_>>(),
        ["RemCmd", "文件", "终端", "视图", "窗口"]
    );
    assert!(matches!(
        &menus[0].items[0],
        AppMenuItem::Action { label_key, .. } if chinese(label_key) == "关于 RemCmd"
    ));

    for menu in MENUS {
        let entries = windows_menu_entries(menu);
        let texts: Vec<String> = entries
            .iter()
            .map(|entry| match entry {
                WindowsMenuEntry::Item { label_key, .. } => chinese(label_key).to_owned(),
                WindowsMenuEntry::Separator => String::new(),
            })
            .collect();
        let width = windows_menu_popup_width(&entries, &texts);
        for (entry, text) in entries.iter().zip(&texts) {
            let WindowsMenuEntry::Item { shortcut, .. } = entry else {
                continue;
            };
            let estimated = |text: &str| -> f32 {
                text.chars()
                    .map(|character| if character.is_ascii() { 7.25 } else { 12.0 })
                    .sum()
            };
            let required = 28.0
                + estimated(text)
                + if shortcut.is_empty() {
                    0.0
                } else {
                    20.0 + estimated(shortcut)
                };
            assert!(width as f32 >= required.ceil());
            assert_eq!(
                estimated_windows_menu_text_width(text) as f32,
                4.0 * estimated(text)
            );
        }
    }
}

#[test]
fn windows_titlebar_menus_expose_expected_command_groups() {
    let file_entries = windows_menu_entries(WindowsMenu::File);
    let edit_entries = windows_menu_entries(WindowsMenu::Edit);
    let help_entries = windows_menu_entries(WindowsMenu::Help);

    assert!(file_entries.iter().any(|entry| matches!(
        entry,
        WindowsMenuEntry::Item {
            command: WindowsMenuCommand::NewConnection,
            ..
        }
    )));
    assert!(edit_entries.iter().any(|entry| matches!(
        entry,
        WindowsMenuEntry::Item {
            command: WindowsMenuCommand::Edit(EditCommand::Paste),
            ..
        }
    )));
    assert_eq!(
        help_entries,
        vec![WindowsMenuEntry::Item {
            label_key: "about-title",
            shortcut: "",
            command: WindowsMenuCommand::ShowAbout,
        }]
    );
}

#[test]
fn windows_titlebar_menus_do_not_start_or_end_with_separators() {
    for menu in MENUS {
        let entries = windows_menu_entries(menu);
        assert!(!matches!(
            entries.first(),
            Some(WindowsMenuEntry::Separator)
        ));
        assert!(!matches!(entries.last(), Some(WindowsMenuEntry::Separator)));
    }
}

#[test]
fn windows_titlebar_menu_geometry_fits_labels_and_tracks_buttons() {
    let mut expected_left = WINDOWS_BRAND_WIDTH;

    for menu in MENUS {
        assert_eq!(windows_menu_left(menu), expected_left);
        expected_left += windows_menu_button_width(menu);

        let entries = windows_menu_entries(menu);
        let labels = labels(&entries);
        let width = windows_menu_popup_width(&entries, &labels);
        assert!(width >= WINDOWS_MENU_MIN_WIDTH);
        for (entry, label) in entries.iter().zip(&labels) {
            let WindowsMenuEntry::Item { shortcut, .. } = entry else {
                continue;
            };
            let text = |text: &str| -> f32 {
                text.chars()
                    .map(|character| if character.is_ascii() { 7.25 } else { 12.0 })
                    .sum()
            };
            let required = 28.0
                + text(label)
                + if shortcut.is_empty() {
                    0.0
                } else {
                    20.0 + text(shortcut)
                };
            assert!(width as f32 >= required.ceil());
        }
    }
}

#[test]
fn wide_characters_take_more_room() {
    assert_eq!(estimated_windows_menu_text_width(""), 0);
    assert_eq!(estimated_windows_menu_text_width("test"), 4 * 29);
    assert_eq!(estimated_windows_menu_text_width("标题测试"), 4 * 48);
    let entries = windows_menu_entries(WindowsMenu::Help);
    assert_eq!(
        windows_menu_popup_width(&entries, &vec!["x".repeat(40)]),
        318
    );
    assert_eq!(windows_menu_popup_width(&entries, &vec!["x".into()]), 180);
}

#[test]
fn shortcuts_are_bound_to_their_commands() {
    let keys = control_key_bindings();
    for menu in MENUS {
        for entry in windows_menu_entries(menu) {
            if let WindowsMenuEntry::Item {
                shortcut, command, ..
            } = entry
            {
                if shortcut.is_empty() || matches!(command, WindowsMenuCommand::Edit(_)) {
                    continue;
                }
                let keystroke = shortcut.replace('+', "-").to_lowercase();
                assert!(keys
                    .iter()
                    .any(|key| key.keystroke == keystroke && key.command == command));
            }
        }
    }
    assert_eq!(command_key_bindings().len(), keys.len());
}

#[test]
fn commands_need_what_they_work_on() {
    let enabled = windows_menu_command_enabled;
    assert!(enabled(WindowsMenuCommand::NewConnection, false, None));
    assert!(!enabled(WindowsMenuCommand::ConnectSelectedProfile, false, None));
    assert!(enabled(WindowsMenuCommand::ConnectSelectedProfile, true, None));
    assert!(!enabled(WindowsMenuCommand::SplitVertical, true, None));
    assert!(enabled(
        WindowsMenuCommand::SplitVertical,
        false,
        Some(SessionState::Failed)
    ));
    assert!(!enabled(
        WindowsMenuCommand::DisconnectActiveSession,
        true,
        Some(SessionState::Failed)
    ));
    assert!(enabled(
        WindowsMenuCommand::DisconnectActiveSession,
        false,
        Some(SessionState::Connected)
    ));
}

#[test]
fn menus_open_by_click_and_follow_the_pointer() {
    let file = WindowsMenu::File;
    let edit = WindowsMenu::Edit;
    assert_eq!(menu_after_click(None, file), Some(file));
    assert_eq!(menu_after_click(Some(file), file), None);
    assert_eq!(menu_after_click(Some(file), edit), Some(edit));
    assert_eq!(menu_after_hover(None, file, true), None);
    assert_eq!(menu_after_hover(Some(file), edit, true), Some(edit));
    assert_eq!(menu_after_hover(Some(file), edit, false), Some(file));
}

#[test]
fn edit_commands_go_to_what_has_the_keyboard() {
    assert_eq!(
        dispatch_edit_command(EditCommand::Copy, true),
        EditTarget::Terminal
    );
    assert_eq!(
        dispatch_edit_command(EditCommand::Cut, true),
        EditTarget::Nobody
    );
    assert_eq!(
        dispatch_edit_command(EditCommand::Undo, false),
        EditTarget::FileEditor
    );
    assert_eq!(
        dispatch_edit_command(EditCommand::Cut, false),
        EditTarget::FieldsAndEditor
    );
}
