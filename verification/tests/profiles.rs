use remcmd_app::connection::KeychainUpdates;
use remcmd_app::credentials::CredentialKind;
use remcmd_app::diagnostics::{DiagnosticLevel, DiagnosticValue};
use remcmd_app::profile::{AuthConfig, ConnectionProfile, ProxyConfig};
use remcmd_app::profile_editor::{
    credentials_invalidated_by_edit, jump_host_choices, load_editor, new_editor,
    profile_auth_kind_key, save_editor, ProfileAuthKind, ProfileEditorMode,
    ProfileProxyKind,
};
use remcmd_app::profile_list::{
    connection_controls, connection_status, first_selection, load_error, next_profile_number,
    ActivePanel, ConnectionAction, ConnectionIcon, ConnectionSituation, ConnectionStatus,
    ProfileList, StatusTone,
};
use remcmd_app::session::SessionState;
use std::path::PathBuf;

#[test]
fn profile_auth_kind_reflects_saved_configuration() {
    assert_eq!(
        ProfileAuthKind::from_config(&AuthConfig::NoPassword),
        ProfileAuthKind::NoPassword
    );
    assert_eq!(
        ProfileAuthKind::from_config(&AuthConfig::Password),
        ProfileAuthKind::Password
    );
    assert_eq!(
        ProfileAuthKind::from_config(&AuthConfig::PrivateKey {
            path: PathBuf::from("/tmp/id_ed25519"),
        }),
        ProfileAuthKind::PrivateKey
    );
    assert_eq!(
        ProfileAuthKind::from_config(&AuthConfig::Agent),
        ProfileAuthKind::Agent
    );
}

#[test]
fn profile_auth_selector_exposes_every_supported_method() {
    assert_eq!(
        ProfileAuthKind::options(),
        [
            (ProfileAuthKind::NoPassword, "No Password"),
            (ProfileAuthKind::Password, "Password"),
            (ProfileAuthKind::PrivateKey, "Private Key"),
            (ProfileAuthKind::Agent, "SSH Agent"),
        ]
    );
    assert!(ProfileAuthKind::options()
        .iter()
        .all(|(kind, _)| profile_auth_kind_key(*kind).starts_with("profile-auth-")));
}

#[test]
fn private_key_authentication_requires_a_path() {
    assert_eq!(
        ProfileAuthKind::PrivateKey.into_config("   "),
        Err("profile-validation-private-key")
    );
}

#[test]
fn private_key_authentication_trims_the_path() {
    assert_eq!(
        ProfileAuthKind::PrivateKey.into_config("  /Users/test/.ssh/id_ed25519  "),
        Ok(AuthConfig::PrivateKey {
            path: PathBuf::from("/Users/test/.ssh/id_ed25519"),
        })
    );
}

#[test]
fn password_and_agent_authentication_do_not_use_the_key_path() {
    assert_eq!(
        ProfileAuthKind::NoPassword.into_config("ignored"),
        Ok(AuthConfig::NoPassword)
    );
    assert_eq!(
        ProfileAuthKind::Password.into_config("ignored"),
        Ok(AuthConfig::Password)
    );
    assert_eq!(
        ProfileAuthKind::Agent.into_config("ignored"),
        Ok(AuthConfig::Agent)
    );
}

#[test]
fn profile_name_changes_keep_saved_credentials() {
    let profile = ConnectionProfile::new("server-1", "Old name", "host", 22, "user");

    assert!(!credentials_invalidated_by_edit(
        &profile,
        "host",
        22,
        "user",
        &AuthConfig::Password,
    ));
}

#[test]
fn connection_identity_or_auth_changes_invalidate_saved_credentials() {
    let profile = ConnectionProfile::new("server-1", "Server", "old-host", 22, "user");

    assert!(credentials_invalidated_by_edit(
        &profile,
        "new-host",
        22,
        "user",
        &AuthConfig::Password,
    ));
    assert!(credentials_invalidated_by_edit(
        &profile,
        "old-host",
        22,
        "user",
        &AuthConfig::Agent,
    ));
}

#[test]
fn moved_key_files_invalidate_saved_credentials() {
    let mut profile = ConnectionProfile::new("server-1", "Server", "host", 22, "user");
    profile.auth = AuthConfig::PrivateKey {
        path: PathBuf::from("/keys/a"),
    };
    assert!(!credentials_invalidated_by_edit(
        &profile,
        "host",
        22,
        "user",
        &AuthConfig::PrivateKey {
            path: PathBuf::from("/keys/a")
        },
    ));
    assert!(credentials_invalidated_by_edit(
        &profile,
        "host",
        22,
        "user",
        &AuthConfig::PrivateKey {
            path: PathBuf::from("/keys/b")
        },
    ));
}

#[test]
fn saving_an_unchanged_profile_keeps_it() {
    let mut profile = ConnectionProfile::new("server-1", "Server", "host.example", 2222, "user");
    profile.auth = AuthConfig::PrivateKey {
        path: PathBuf::from("/keys/id"),
    };
    profile.route.jump_host_ids = vec!["jump".into()];
    let jump = ConnectionProfile::new("jump", "Jump", "jump.example", 22, "user");
    let profiles = vec![profile.clone(), jump];
    let (editor, pending) = load_editor(&profile);
    assert_eq!(pending, None);
    assert_eq!(editor.port, "2222");
    let saved = save_editor(&editor, &profiles, "").unwrap();
    assert_eq!(saved.profile, profile);
}

#[test]
fn incomplete_profiles_are_refused() {
    let mut editor = new_editor(3);
    assert_eq!(editor.profile_id, "demo-3");
    let refused = |editor: &remcmd_app::profile_editor::ProfileEditor| {
        save_editor(editor, &vec![], "").err().map(|error| error.key())
    };
    assert!(refused(&editor).is_some());
    editor.name = "Server".into();
    editor.host = " host ".into();
    editor.username = "user".into();
    editor.port = "70000".into();
    assert_eq!(refused(&editor), Some("profile-validation-port"));
    editor.port = " 22 ".into();
    let saved = save_editor(&editor, &vec![], "").unwrap();
    assert_eq!(saved.profile.host, "host");
    assert_eq!(saved.profile.port, 22);
}

#[test]
fn proxies_need_a_host_and_a_port() {
    let mut editor = new_editor(1);
    editor.name = "Server".into();
    editor.host = "host".into();
    editor.username = "user".into();
    editor.select_proxy_method(ProfileProxyKind::Socks5);
    assert!(save_editor(&editor, &vec![], "").is_err());
    editor.proxy_host = "proxy".into();
    editor.proxy_port = "1080".into();
    let saved = save_editor(&editor, &vec![], "").unwrap();
    assert!(matches!(
        saved.profile.route.upstream_proxy,
        Some(ProxyConfig::Socks5 { port: 1080, .. })
    ));
}

#[test]
fn new_profiles_are_numbered_past_the_largest() {
    let mut profiles = vec![];
    assert_eq!(next_profile_number(&profiles), 1);
    for id in ["demo-4", "demo-+12", "demo-x", "demo-", "server-99", "demo-007"] {
        profiles.push(ConnectionProfile::new(id, "n", "h", 22, "u"));
    }
    assert_eq!(next_profile_number(&profiles), 13);
    assert_eq!(first_selection(&profiles), Some("demo-4".to_string()));
    assert_eq!(first_selection(&vec![]), None);
}

#[test]
fn load_errors_are_labelled() {
    assert_eq!(
        load_error("Could not load", &Some("no such file".into())),
        Some("Could not load: no such file".into())
    );
    assert_eq!(load_error("Could not load", &None), None);
}

#[test]
fn jump_hosts_are_found_by_name_and_never_the_server_itself() {
    let profiles = vec![
        ConnectionProfile::new("a", "Alpha", "alpha.example", 22, "u"),
        ConnectionProfile::new("b", "Beta", "beta.example", 22, "u"),
    ];
    let choices = jump_host_choices(&profiles, "a", "BETA", &vec![]);
    assert_eq!(choices, vec![1]);
    let choices = jump_host_choices(&profiles, "b", "beta", &vec![]);
    assert!(choices.is_empty());
}

#[test]
fn connection_controls_follow_the_state() {
    let rest = ConnectionSituation {
        state: SessionState::Disconnected,
        checking_keychain: false,
        updating_keychain: false,
        terminal_ended: false,
    };
    let controls = connection_controls(rest);
    assert_eq!(controls.label_key, "common-connect");
    assert_eq!(controls.action, ConnectionAction::Connect);
    assert_eq!(controls.tone, StatusTone::Muted);
    let live = ConnectionSituation {
        state: SessionState::Connecting,
        ..rest
    };
    let controls = connection_controls(live);
    assert_eq!(controls.label_key, "common-disconnect");
    assert_eq!(controls.icon, ConnectionIcon::Disconnect);
    assert_eq!(controls.action, ConnectionAction::Disconnect);
    let busy = ConnectionSituation {
        checking_keychain: true,
        ..rest
    };
    let controls = connection_controls(busy);
    assert_eq!(controls.label_key, "credential-checking");
    assert_eq!(controls.action, ConnectionAction::Nothing);
    assert_eq!(connection_status(busy), ConnectionStatus::CheckingKeychain);
    let failed = ConnectionSituation {
        state: SessionState::Failed,
        ..rest
    };
    let controls = connection_controls(failed);
    assert_eq!(controls.label_key, "common-retry");
    assert_eq!(controls.icon, ConnectionIcon::Reconnect);
    assert_eq!(controls.tone, StatusTone::Error);
    let ended = ConnectionSituation {
        terminal_ended: true,
        ..rest
    };
    assert_eq!(connection_controls(ended).label_key, "common-reconnect");
    let going = ConnectionSituation {
        state: SessionState::Disconnecting,
        ..rest
    };
    assert_eq!(
        connection_controls(going).label_key,
        "connection-status-disconnecting"
    );
    assert_eq!(connection_controls(going).action, ConnectionAction::Nothing);
}

#[test]
fn selecting_a_profile_shows_it() {
    let mut list = ProfileList {
        profiles: vec![ConnectionProfile::new("a", "Alpha", "h", 22, "u")],
        selected_profile_id: None,
        active_panel: ActivePanel::Home,
        active_session_id: None,
        edited_profile_id: None,
        auth_selector_open: false,
        context_menu: Some("a".into()),
        next_profile_number: 1,
    };
    assert!(list.selected_profile().is_none());
    list.select_profile("a".into());
    assert_eq!(list.selected_profile().unwrap().name, "Alpha");
    assert_eq!(list.active_panel, ActivePanel::Server);
    assert_eq!(list.context_menu, None);
}

#[test]
fn editors_offer_to_forget_only_stored_secrets() {
    let mut editor = new_editor(1);
    assert_eq!(editor.forgettable_credential(), Some(CredentialKind::Password));
    editor.auth_kind = ProfileAuthKind::Agent;
    assert_eq!(editor.forgettable_credential(), None);
    editor.auth_kind = ProfileAuthKind::PrivateKey;
    assert_eq!(
        editor.forgettable_credential(),
        Some(CredentialKind::PrivateKeyPassphrase)
    );
}

#[test]
fn every_mistake_in_a_profile_has_its_own_message() {
    let others = vec![
        ConnectionProfile::new("jump", "Jump", "jump.example", 22, "user"),
        ConnectionProfile::new("last", "Last", "last.example", 22, "user"),
    ];
    let complete = || {
        let mut editor = new_editor(1);
        editor.name = "Server".into();
        editor.host = "host".into();
        editor.username = "user".into();
        editor
    };
    let key = |editor: &remcmd_app::profile_editor::ProfileEditor| {
        save_editor(editor, &others, "digest")
            .err()
            .map(|error| error.key())
    };

    let mut editor = complete();
    assert_eq!(key(&editor), None);
    editor.proxy_secret_loaded = false;
    assert_eq!(key(&editor), Some("credential-checking"));

    let mut editor = complete();
    editor.name = "   ".into();
    assert_eq!(key(&editor), Some("profile-validation-required"));

    let mut editor = complete();
    editor.port = "".into();
    assert_eq!(key(&editor), Some("profile-validation-port"));

    let mut editor = complete();
    editor.auth_kind = ProfileAuthKind::PrivateKey;
    assert_eq!(key(&editor), Some("profile-validation-private-key"));

    let mut editor = complete();
    editor.proxy_kind = ProfileProxyKind::HttpConnect;
    assert_eq!(key(&editor), Some("profile-validation-port"));
    editor.proxy_port = "8080".into();
    assert_eq!(key(&editor), Some("profile-validation-proxy"));

    editor.proxy_host = "proxy".into();
    assert_eq!(key(&editor), None);
    editor.proxy_password = "secret".into();
    assert_eq!(key(&editor), Some("profile-validation-proxy-auth"));

    let mut editor = complete();
    editor.proxy_kind = ProfileProxyKind::ProxyCommand;
    assert_eq!(key(&editor), Some("profile-validation-proxy-command"));

    let mut editor = complete();
    editor.jump_host_ids = vec!["missing".into()];
    assert_eq!(key(&editor), Some("profile-validation-jumps"));

    let mut editor = complete();
    editor.proxy_kind = ProfileProxyKind::ProxyCommand;
    editor.proxy_command = "ssh -W %h:%p gate".into();
    editor.jump_host_ids = vec!["jump".into()];
    assert_eq!(key(&editor), Some("profile-validation-proxy-jump"));
}

#[test]
fn moving_a_jump_host_keeps_all_of_them() {
    let mut editor = new_editor(1);
    editor.jump_host_ids = vec!["a".into(), "b".into(), "c".into()];
    editor.move_jump_host("c", -1);
    assert_eq!(editor.jump_host_ids, vec!["a", "c", "b"]);
    editor.move_jump_host("a", -1);
    assert_eq!(editor.jump_host_ids, vec!["a", "c", "b"]);
    editor.move_jump_host("c", 1);
    assert_eq!(editor.jump_host_ids, vec!["a", "b", "c"]);
}

#[test]
fn a_saved_profile_is_selected_and_its_editor_closed() {
    let saved = ConnectionProfile::new("demo-7", "Seven", "h", 22, "u");
    let mut list = ProfileList {
        profiles: vec![],
        selected_profile_id: None,
        active_panel: ActivePanel::Home,
        active_session_id: None,
        edited_profile_id: Some("demo-7".into()),
        auth_selector_open: true,
        context_menu: None,
        next_profile_number: 7,
    };
    let report = list.finish_save(&saved, ProfileEditorMode::Create, Err("disk full".into()));
    assert_eq!(report.form_error, Some("disk full".into()));
    assert_eq!(report.record, None);
    assert_eq!(list.edited_profile_id, Some("demo-7".into()));
    assert_eq!(list.next_profile_number, 7);

    let profiles = vec![ConnectionProfile::new("demo-7", "Seven", "h", 22, "u")];
    let report = list.finish_save(
        &saved,
        ProfileEditorMode::Create,
        Ok((profiles, Some("keychain locked".into()))),
    );
    assert_eq!(report.form_error, Some("keychain locked".into()));
    let record = report.record.unwrap();
    assert_eq!(record.level, DiagnosticLevel::Info);
    assert_eq!(record.module, "profiles.save");
    assert_eq!(record.message, "Connection profile saved");
    assert_eq!(
        record.fields,
        vec![("has_route", DiagnosticValue::Flag(false))]
    );
    assert_eq!(list.selected_profile_id, Some("demo-7".into()));
    assert_eq!(list.active_panel, ActivePanel::Server);
    assert_eq!(list.edited_profile_id, None);
    assert!(!list.auth_selector_open);
    assert_eq!(list.next_profile_number, 8);
    assert_eq!(next_profile_number(&list.profiles), 8);

    let mut routed = ConnectionProfile::new("demo-7", "Seven", "h", 22, "u");
    routed.route.jump_host_ids = vec!["jump".into()];
    let report = list.finish_save(&routed, ProfileEditorMode::Edit, Ok((vec![], None)));
    assert_eq!(report.form_error, None);
    assert_eq!(
        report.record.unwrap().fields,
        vec![("has_route", DiagnosticValue::Flag(true))]
    );
    assert_eq!(list.next_profile_number, 8);
}

#[test]
fn the_end_of_a_save_forgets_every_change_of_its_profile() {
    let mut updates = KeychainUpdates::new();
    updates.begin("a");
    updates.begin("a");
    updates.begin("b");
    updates.forget("a");
    updates.forget("gone");
    assert!(!updates.is_updating("a"));
    assert!(updates.is_updating("b"));
    updates.begin("a");
    updates.begin("a");
    assert!(!updates.finish("a"));
    assert!(updates.finish("a"));
    assert!(!updates.is_updating("a"));
}
