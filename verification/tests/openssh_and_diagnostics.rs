use remcmd_app::diagnostics::{
    diagnostic_level_filters, diagnostic_rows, record_connection_diagnostic,
    record_connection_start, record_detail_switch, record_import_step, record_program_start,
    DiagnosticEvent, DiagnosticLevel, DiagnosticTone, DiagnosticValue, ImportStep,
};
use remcmd_app::message::{SshError, SshErrorKind};
use remcmd_app::openssh_import::{
    openssh_panel, openssh_status_key, openssh_warning_text, OpenSshImport,
    OpenSshImportCandidate, OpenSshImportPreview, OpenSshImportStatus, OpenSshWarning,
};
use remcmd_app::profile::{AuthConfig, ConnectionProfile, ProxyConfig};
use remcmd_app::session::SessionState;
use remcmd_app::session_events::{ConnectionEvent, ShellEvent};
use std::path::PathBuf;

fn candidate(
    alias: &str,
    status: OpenSshImportStatus,
    jumps: &[&str],
) -> OpenSshImportCandidate {
    let mut profile = ConnectionProfile::new(&format!("id-{alias}"), alias, "host", 22, "user");
    profile.route.jump_host_ids = jumps.iter().map(|jump| format!("id-{jump}")).collect();
    OpenSshImportCandidate {
        alias: alias.into(),
        status,
        profile: Some(profile),
        identity_file: None,
        warnings: vec![],
    }
}

fn preview(candidates: Vec<OpenSshImportCandidate>) -> OpenSshImportPreview {
    OpenSshImportPreview {
        root_path: PathBuf::from("/home/test/.ssh/config"),
        candidates,
        warnings: vec![],
    }
}

#[test]
fn selections_take_jump_hosts_along() {
    let mut import = OpenSshImport::new();
    assert!(import.reads_default_on_show());
    assert!(import.begin_preview());
    assert!(!import.begin_preview());
    import.finish_preview(preview(vec![
        candidate("inner", OpenSshImportStatus::Unchanged, &["outer"]),
        candidate("web", OpenSshImportStatus::New, &["inner", "elsewhere"]),
        candidate("outer", OpenSshImportStatus::Conflict, &[]),
        candidate("spare", OpenSshImportStatus::Unchanged, &[]),
        candidate("broken", OpenSshImportStatus::Invalid, &[]),
    ]));
    for alias in ["web", "inner", "outer"] {
        assert!(import.selected_aliases.contains(alias));
    }
    assert!(!import.selected_aliases.contains("spare"));
    assert!(!import.selected_aliases.contains("broken"));
    import.toggle_openssh_candidate("inner".into());
    assert!(!import.selected_aliases.contains("inner"));
    assert!(import.selected_aliases.contains("outer"));
    import.toggle_openssh_candidate("spare".into());
    assert!(import.selected_aliases.contains("inner"));
}

#[test]
fn the_last_candidate_with_an_identifier_is_taken_along() {
    let mut import = OpenSshImport::new();
    let mut twin = candidate("twin", OpenSshImportStatus::Unchanged, &[]);
    twin.profile.as_mut().unwrap().id = "id-inner".into();
    import.finish_preview(preview(vec![
        candidate("inner", OpenSshImportStatus::Unchanged, &[]),
        twin,
        candidate("web", OpenSshImportStatus::Update, &["inner"]),
    ]));
    assert!(import.selected_aliases.contains("twin"));
    assert!(!import.selected_aliases.contains("inner"));
}

#[test]
fn ways_to_log_in_come_round() {
    let mut plain = preview(vec![candidate("a", OpenSshImportStatus::New, &[])]);
    let auth = |preview: &OpenSshImportPreview| {
        preview.candidates[0].profile.as_ref().unwrap().auth.clone()
    };
    plain.candidates[0].profile.as_mut().unwrap().auth = AuthConfig::NoPassword;
    let mut seen = Vec::new();
    for _ in 0..3 {
        assert!(plain.cycle_openssh_authentication("a"));
        seen.push(auth(&plain));
    }
    assert_eq!(
        seen,
        vec![AuthConfig::Password, AuthConfig::Agent, AuthConfig::NoPassword]
    );
    plain.candidates[0].identity_file = Some(PathBuf::from("/keys/id"));
    assert!(plain.cycle_openssh_authentication("a"));
    assert!(plain.cycle_openssh_authentication("a"));
    assert_eq!(
        auth(&plain),
        AuthConfig::PrivateKey {
            path: PathBuf::from("/keys/id")
        }
    );
    assert!(!plain.cycle_openssh_authentication("missing"));
    plain.candidates[0].profile = None;
    assert!(!plain.cycle_openssh_authentication("a"));
}

#[test]
fn applying_an_import_keeps_the_selected_profile_where_it_can() {
    let mut import = OpenSshImport::new();
    assert!(!import.apply_enabled());
    assert_eq!(import.begin_apply(), None);
    import.finish_preview(preview(vec![candidate("a", OpenSshImportStatus::New, &[])]));
    assert!(import.apply_enabled());
    assert_eq!(import.apply_label_key(), "import-apply");
    assert_eq!(
        import.begin_apply(),
        Some(PathBuf::from("/home/test/.ssh/config"))
    );
    assert_eq!(import.apply_label_key(), "common-loading");
    assert_eq!(import.begin_apply(), None);
    let profiles = vec![
        ConnectionProfile::new("x", "X", "h", 22, "u"),
        ConnectionProfile::new("y", "Y", "h", 22, "u"),
    ];
    assert_eq!(
        import.finish_apply(1, &profiles, &Some("y".into())),
        (1, Some("y".into()))
    );
    assert_eq!(
        import.finish_apply(5, &profiles, &Some("gone".into())),
        (0, Some("x".into()))
    );
    assert!(import.selected_aliases.is_empty());
    import.fail("Import failed", "denied");
    assert_eq!(import.error.as_deref(), Some("Import failed: denied"));
}

#[test]
fn import_rows_show_conflicts_and_warnings() {
    let mut import = OpenSshImport::new();
    assert!(openssh_panel(&import).rows.is_empty());
    let mut conflicting = candidate("a", OpenSshImportStatus::Conflict, &[]);
    conflicting.warnings.push(OpenSshWarning {
        path: PathBuf::from("/etc/ssh/config"),
        line: 12,
        message: "unknown keyword".into(),
    });
    import.finish_preview(preview(vec![
        conflicting,
        candidate("b", OpenSshImportStatus::Invalid, &[]),
    ]));
    import.toggle_openssh_conflict_policy("a".into());
    let panel = openssh_panel(&import);
    assert_eq!(panel.warnings, None);
    assert!(!panel.empty);
    assert_eq!(panel.rows[0].policy_key, Some("import-overwrite-local"));
    assert_eq!(
        panel.rows[0].warnings.as_deref(),
        Some("/etc/ssh/config:12: unknown keyword")
    );
    assert!(panel.rows[0].selectable);
    assert!(!panel.rows[1].selectable);
    assert_eq!(panel.rows[1].policy_key, None);
    import.toggle_openssh_conflict_policy("a".into());
    assert_eq!(
        openssh_panel(&import).rows[0].policy_key,
        Some("import-keep-local")
    );
    assert_eq!(openssh_warning_text(&vec![]), "");
    assert_eq!(
        openssh_status_key(OpenSshImportStatus::Update),
        "import-status-update"
    );
}

#[test]
fn events_are_recorded_with_their_fields() {
    let record =
        record_connection_diagnostic(&ConnectionEvent::StateChanged(SessionState::Connected))
            .unwrap();
    assert_eq!(record.level, DiagnosticLevel::Info);
    assert_eq!(record.module, "ssh.lifecycle");
    assert_eq!(
        record.fields,
        vec![("state", DiagnosticValue::State(SessionState::Connected))]
    );
    let record = record_connection_diagnostic(&ConnectionEvent::PathsDeleted {
        request_id: 1,
        paths: vec!["/a".into(), "/b".into()],
    })
    .unwrap();
    assert_eq!(record.message, "Remote paths deleted");
    assert_eq!(record.fields, vec![("count", DiagnosticValue::Number(2))]);
    let record = record_connection_diagnostic(&ConnectionEvent::Failed(SshError {
        kind: SshErrorKind::Timeout,
        message: "timed out".into(),
        stage: None,
    }))
    .unwrap();
    assert_eq!(record.level, DiagnosticLevel::Error);
    assert_eq!(
        record.fields,
        vec![
            ("stage", DiagnosticValue::Text("".into())),
            (
                "error",
                DiagnosticValue::Error(SshError {
                    kind: SshErrorKind::Timeout,
                    message: "timed out".into(),
                    stage: None,
                })
            )
        ]
    );
    assert_eq!(
        record_connection_diagnostic(&ConnectionEvent::Shell(ShellEvent::Eof)),
        None
    );
    assert_eq!(
        record_detail_switch(false).message,
        "Detailed diagnostics disabled"
    );
}

#[test]
fn the_log_shows_its_newest_entries_first() {
    let events: Vec<DiagnosticEvent> = (0..600)
        .map(|number| DiagnosticEvent {
            timestamp: format!("{number}"),
            level: DiagnosticLevel::Warn,
            module: "m".into(),
            message: "text".into(),
            fields: vec![],
        })
        .collect();
    let rows = diagnostic_rows(&events);
    assert_eq!(rows.len(), 500);
    assert_eq!(rows[0].timestamp, "599");
    assert_eq!(rows[499].timestamp, "100");
    assert_eq!(rows[0].label, "WARN");
    assert_eq!(rows[0].tone, DiagnosticTone::Warning);
    assert_eq!(rows[0].fields, None);
    let rows = diagnostic_rows(&vec![DiagnosticEvent {
        timestamp: "now".into(),
        level: DiagnosticLevel::Trace,
        module: "m".into(),
        message: "text".into(),
        fields: vec![("a".into(), "1".into()), ("b".into(), "2".into())],
    }]);
    assert_eq!(rows[0].fields.as_deref(), Some("a=1  b=2"));
    assert_eq!(diagnostic_level_filters().len(), 5);
    assert_eq!(diagnostic_level_filters()[0], None);
}

#[test]
fn the_log_tells_how_a_server_is_reached() {
    let mut profile = ConnectionProfile::new("a", "A", "host", 22, "user");
    profile.route.jump_host_ids = vec!["b".into(), "c".into()];
    profile.route.upstream_proxy = Some(ProxyConfig::Socks5 {
        host: "proxy".into(),
        port: 1080,
        username: None,
    });
    let record = record_connection_start(&profile);
    assert_eq!(record.module, "ssh.connection");
    assert_eq!(record.message, "SSH connection started");
    assert_eq!(
        record.fields,
        vec![
            ("jump_count", DiagnosticValue::Number(2)),
            ("proxy", DiagnosticValue::Flag(true))
        ]
    );
    assert_eq!(
        record_program_start("1.2.3".into()).fields,
        vec![("version", DiagnosticValue::Text("1.2.3".into()))]
    );
}

#[test]
fn the_log_tells_how_an_import_went() {
    let record = record_import_step(ImportStep::Previewed { candidates: 3 });
    assert_eq!(record.message, "OpenSSH import preview completed");
    assert_eq!(
        record.fields,
        vec![("candidate_count", DiagnosticValue::Number(3))]
    );
    let record = record_import_step(ImportStep::PreviewFailed {
        error_kind: "NotFound".into(),
    });
    assert_eq!(record.level, DiagnosticLevel::Warn);
    assert_eq!(
        record.fields,
        vec![("error_kind", DiagnosticValue::Text("NotFound".into()))]
    );
    let record = record_import_step(ImportStep::Applied { new_profiles: 1 });
    assert_eq!(
        record.fields,
        vec![("new_profile_count", DiagnosticValue::Number(1))]
    );
    let record = record_import_step(ImportStep::ApplyFailed);
    assert_eq!(record.level, DiagnosticLevel::Error);
    assert_eq!(
        record.fields,
        vec![("error_kind", DiagnosticValue::Text("apply".into()))]
    );
}
