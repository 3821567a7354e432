use remcmd_app::settings::{
    appearance_rows, create_placeholder_key, credential_placeholder_key, editor_placeholder_keys,
    language_setting_options, parallel_transfer_setting_options, select_menu_height,
    select_menu_scroll_offset, tab_layout_setting_options, terminal_font_size_setting_options,
    terminal_rows, theme_setting_options, transfer_rate_setting_options, transfer_rows,
    LanguageMode, SelectorScroll, SettingsChange, SettingsLabel, SettingsOption,
    SettingsSelector, SettingsState, SettingsValue, TabLayout, ThemeMode,
};
use remcmd_app::credentials::CredentialPromptKind;
use remcmd_app::sftp_flow::SftpCreateKind;
use remcmd_app::terminal_fonts::{
    eq_ignore_ascii_case, normalize_terminal_font_families, resolve_terminal_font_family, Platform,
};

fn state() -> SettingsState {
    SettingsState {
        language_mode: LanguageMode::EnUs,
        theme_mode: ThemeMode::Dark,
        tab_layout: TabLayout::Vertical,
        terminal_font_family: "Menlo".into(),
        terminal_font_size: 14,
        rate_limit_mib_per_second: 0,
        max_parallel_transfers: 3,
        open_selector: None,
    }
}

#[test]
fn select_menu_scroll_offset_centers_and_clamps_the_selected_option() {
    assert_eq!(select_menu_scroll_offset(0, 17) as f32, 0.0);
    assert_eq!(select_menu_scroll_offset(8, 17) as f32, 4.0 * 28.0);
    assert_eq!(select_menu_scroll_offset(16, 17) as f32, 8.0 * 28.0);
    assert_eq!(select_menu_scroll_offset(2, 3) as f32, 0.0);
}

#[test]
fn settings_selectors_cover_every_persisted_choice() {
    assert_eq!(SettingsSelector::Theme.options(), theme_setting_options());
    assert_eq!(
        SettingsSelector::TabLayout.options(),
        tab_layout_setting_options()
    );
    assert!(SettingsSelector::TerminalFont.options().is_empty());
    assert_eq!(
        SettingsSelector::TerminalFontSize.options(),
        terminal_font_size_setting_options()
    );
    assert_eq!(
        SettingsSelector::TransferRate.options(),
        transfer_rate_setting_options()
    );
    assert_eq!(
        SettingsSelector::ParallelTransfers.options(),
        parallel_transfer_setting_options()
    );
    assert!(theme_setting_options().contains(&SettingsOption {
        label: "System",
        value: SettingsValue::Theme(ThemeMode::System),
    }));
    assert!(tab_layout_setting_options().contains(&SettingsOption {
        label: "Horizontal",
        value: SettingsValue::TabLayout(TabLayout::Horizontal),
    }));
    assert!(
        terminal_font_size_setting_options().contains(&SettingsOption {
            label: "14 pt",
            value: SettingsValue::TerminalFontSize(14),
        })
    );
    assert!(transfer_rate_setting_options().contains(&SettingsOption {
        label: "Unlimited",
        value: SettingsValue::TransferRate(0),
    }));
    assert!(parallel_transfer_setting_options().contains(&SettingsOption {
        label: "4",
        value: SettingsValue::ParallelTransfers(4),
    }));
}

#[test]
fn terminal_font_selection_prefers_saved_font_then_sf_mono_then_menlo() {
    let available = normalize_terminal_font_families(vec![
        "Menlo".into(),
        "SF Mono".into(),
        "Custom Mono".into(),
        ".SystemUIFont".into(),
    ]);

    assert_eq!(
        resolve_terminal_font_family(Some("custom mono"), &available, Platform::MacOs),
        "Custom Mono"
    );
    assert_eq!(
        resolve_terminal_font_family(Some("Missing Mono"), &available, Platform::MacOs),
        "SF Mono"
    );

    let without_sf = normalize_terminal_font_families(vec!["Menlo".into(), "Arial".into()]);
    assert_eq!(
        resolve_terminal_font_family(None, &without_sf, Platform::MacOs),
        "Menlo"
    );
    assert!(without_sf.iter().all(|family| !family.starts_with('.')));
}

#[test]
fn font_families_are_sorted_without_regard_to_case() {
    let families = normalize_terminal_font_families(vec![
        "menlo".into(),
        "Zapfino".into(),
        "Menlo".into(),
        "  ".into(),
        " .hidden".into(),
        "Ärger".into(),
        "arial".into(),
    ]);
    assert_eq!(families, vec!["arial", "menlo", "Zapfino", "Ärger"]);
    assert_eq!(
        resolve_terminal_font_family(None, &families, Platform::Windows),
        "menlo"
    );
    assert_eq!(
        resolve_terminal_font_family(None, &vec!["consolas".into()], Platform::Windows),
        "consolas"
    );
    assert_eq!(
        resolve_terminal_font_family(None, &vec!["Arial".into()], Platform::Other),
        "Arial"
    );
    assert_eq!(
        resolve_terminal_font_family(Some("x"), &vec![], Platform::Other),
        "Menlo"
    );
    assert!(eq_ignore_ascii_case("SF Mono", "sf mONO"));
    assert!(!eq_ignore_ascii_case("ä", "Ä"));
}

#[test]
fn settings_are_shown_by_key_or_number() {
    let settings = state();
    assert_eq!(
        settings.settings_value_label(SettingsSelector::Language),
        SettingsLabel::Key("settings-language-english")
    );
    assert_eq!(
        settings.settings_value_label(SettingsSelector::Theme),
        SettingsLabel::Key("common-dark")
    );
    assert_eq!(
        settings.settings_value_label(SettingsSelector::TabLayout),
        SettingsLabel::Key("common-vertical")
    );
    assert_eq!(
        settings.settings_value_label(SettingsSelector::TerminalFont),
        SettingsLabel::Text("Menlo".into())
    );
    assert_eq!(
        settings.settings_value_label(SettingsSelector::TerminalFontSize),
        SettingsLabel::Text("14 pt".into())
    );
    assert_eq!(
        settings.settings_value_label(SettingsSelector::TransferRate),
        SettingsLabel::Key("common-unlimited")
    );
    assert_eq!(
        settings.settings_value_label(SettingsSelector::ParallelTransfers),
        SettingsLabel::Text("3".into())
    );
    assert_eq!(language_setting_options()[2].label, "简体中文");
}

fn apply(settings: &mut SettingsState, value: SettingsValue) -> SettingsChange {
    let numbers = settings.chosen_numbers(value);
    settings.apply_settings_value(value, numbers)
}

#[test]
fn numbers_are_taken_over_as_they_are_allowed() {
    let mut settings = state();
    let font_size = settings.terminal_font_size;
    let value = SettingsValue::ParallelTransfers(200);
    let mut numbers = settings.chosen_numbers(value);
    assert_eq!(numbers.max_parallel_transfers, 200);
    assert_eq!(numbers.terminal_font_size, font_size);
    numbers.max_parallel_transfers = 16;
    numbers.rate_limit_mib_per_second = 5;
    numbers.terminal_font_size = 99;
    assert_eq!(
        settings.apply_settings_value(value, numbers),
        SettingsChange::StartTransfers
    );
    assert_eq!(settings.max_parallel_transfers, 16);
    assert_eq!(settings.rate_limit_mib_per_second, 5);
    assert_eq!(settings.terminal_font_size, font_size);
    let value = SettingsValue::TerminalFontSize(500);
    let mut numbers = settings.chosen_numbers(value);
    numbers.terminal_font_size = 32;
    numbers.max_parallel_transfers = 1;
    assert_eq!(
        settings.apply_settings_value(value, numbers),
        SettingsChange::Plain
    );
    assert_eq!(settings.terminal_font_size, 32);
    assert_eq!(settings.max_parallel_transfers, 16);
}

#[test]
fn chosen_values_replace_their_own_setting_only() {
    let mut settings = state();
    settings.open_selector = Some(SettingsSelector::TransferRate);
    assert_eq!(
        apply(&mut settings, SettingsValue::TransferRate(20)),
        SettingsChange::RateLimit
    );
    assert_eq!(settings.rate_limit_mib_per_second, 20);
    assert_eq!(settings.open_selector, None);
    assert_eq!(
        settings.settings_value_label(SettingsSelector::TransferRate),
        SettingsLabel::Text("20 MiB/s".into())
    );
    assert_eq!(
        apply(&mut settings, SettingsValue::Language(LanguageMode::ZhCn)),
        SettingsChange::Language
    );
    assert_eq!(
        apply(&mut settings, SettingsValue::ParallelTransfers(8)),
        SettingsChange::StartTransfers
    );
    assert_eq!(settings.theme_mode, ThemeMode::Dark);
    let rows = settings.settings_menu_rows(SettingsSelector::TransferRate);
    assert_eq!(
        rows.iter().map(|row| row.1).collect::<Vec<_>>(),
        vec![false, false, true, false]
    );
    assert_eq!(rows[0].0, SettingsLabel::Key("common-unlimited"));
    settings.set_terminal_font_family("Monaco".into());
    assert_eq!(settings.terminal_font_family, "Monaco");
}

#[test]
fn opening_a_menu_brings_the_selected_row_into_view() {
    let mut settings = state();
    let fonts: Vec<String> = ["A", "B", "Menlo"].iter().map(|f| f.to_string()).collect();
    assert_eq!(
        settings.toggle_settings_selector(SettingsSelector::TerminalFontSize, &fonts),
        SelectorScroll::Center(6)
    );
    assert_eq!(
        settings.open_selector,
        Some(SettingsSelector::TerminalFontSize)
    );
    assert_eq!(
        settings.toggle_settings_selector(SettingsSelector::TerminalFontSize, &fonts),
        SelectorScroll::Nothing
    );
    assert_eq!(settings.open_selector, None);
    assert_eq!(
        settings.toggle_settings_selector(SettingsSelector::TerminalFont, &fonts),
        SelectorScroll::Offset(0)
    );
    // Three transfers at once is none of the choices.
    assert_eq!(
        settings.toggle_settings_selector(SettingsSelector::ParallelTransfers, &fonts),
        SelectorScroll::Nothing
    );
    assert!(settings.dismiss_settings_selector());
    assert!(!settings.dismiss_settings_selector());
    assert_eq!(select_menu_height(0), 36);
    assert_eq!(select_menu_height(3), 92);
    assert_eq!(select_menu_height(100), 260);
}

#[test]
fn the_settings_panel_has_a_row_for_each_setting() {
    let mut selectors = Vec::new();
    for rows in [appearance_rows(), terminal_rows(), transfer_rows()] {
        assert!(!rows.last().unwrap().divided);
        selectors.extend(rows.into_iter().map(|row| row.selector));
    }
    assert_eq!(selectors.len(), 7);
    assert_eq!(SettingsSelector::Theme.element_id(), "settings-theme-selector");
    assert_eq!(SettingsSelector::Theme.control_width(), 92);
    assert_eq!(SettingsSelector::Theme.menu_width(), 104);
    assert_eq!(editor_placeholder_keys().len(), 11);
    assert_eq!(
        credential_placeholder_key(&CredentialPromptKind::ProxyPassword),
        "field-proxy-password"
    );
    assert_eq!(create_placeholder_key(SftpCreateKind::Directory), "sftp-folder-name");
}
