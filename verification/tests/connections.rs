use remcmd_app::connection::{
    approve_proxy_command, connect_is_possible, deletion_error, finish_connection_preparation,
    rejected_credential_text, settle_approval, KeychainUpdates, PlanDecision, SaveCredentialError,
};
use remcmd_app::credentials::{
    rejected_credential_kind, take_successful_credentials, ConnectionCredential, CredentialKind,
    CredentialPrompt, CredentialPromptKind,
};
use remcmd_app::message::{
    connection_error_keys, connection_stage_label, localized_connection_error_parts,
    ConnectionStage, ErrorTexts, SessionMessage, SshError, SshErrorKind,
};
use remcmd_app::preparation::{
    submit_credential_prompt, submit_typed_secret, take_looked_up_secret, LookupOutcome,
    PendingConnectionPreparation, PreparationNeed, PromptSubmission,
};
use remcmd_app::profile::{AuthConfig, ConnectionProfile, ProxyConfig};
use remcmd_app::session::{SessionId, SessionState};
use std::path::PathBuf;

#[test]
fn authentication_failures_select_only_the_matching_credential_kind() {
    assert_eq!(
        rejected_credential_kind(SshErrorKind::Authentication, Some(&AuthConfig::Password)),
        Some(CredentialKind::Password)
    );
    assert_eq!(
        rejected_credential_kind(
            SshErrorKind::Authentication,
            Some(&AuthConfig::PrivateKey {
                path: PathBuf::from("id_ed25519")
            })
        ),
        None
    );
    assert_eq!(
        rejected_credential_kind(SshErrorKind::ProxyAuthentication, None),
        Some(CredentialKind::ProxyPassword)
    );
    assert_eq!(
        rejected_credential_kind(
            SshErrorKind::PrivateKeyPassphrase,
            Some(&AuthConfig::PrivateKey {
                path: PathBuf::from("id_ed25519")
            })
        ),
        Some(CredentialKind::PrivateKeyPassphrase)
    );
}

#[test]
fn connection_errors_localize_summary_and_preserve_technical_details() {
    let error = SshError {
        kind: SshErrorKind::Network,
        message: "connection refused by 10.0.0.1".into(),
        stage: Some(ConnectionStage::Jump {
            index: 1,
            total: 2,
            profile_id: "jump".into(),
        }),
    };
    assert_eq!(
        connection_stage_label(error.stage.as_ref().unwrap()),
        ("connection-stage-jump", Some((1, 2)))
    );
    let english = localized_connection_error_parts(
        &ErrorTexts {
            summary: "Network connection failed".into(),
            suggestion: "Check the network.".into(),
            technical_details: "Technical details".into(),
            stage: Some("Jump 1/2".into()),
        },
        &error.message,
    );
    let chinese = localized_connection_error_parts(
        &ErrorTexts {
            summary: "网络连接失败".into(),
            suggestion: "检查网络。".into(),
            technical_details: "技术细节".into(),
            stage: Some("跳板 1/2".into()),
        },
        &error.message,
    );

    assert!(english.contains("Jump 1/2: Network connection failed"));
    assert!(chinese.contains("跳板 1/2: 网络连接失败"));
    assert!(english.contains(&error.message));
    assert!(chinese.contains(&error.message));
}

#[test]
fn every_kind_of_error_has_a_summary_and_a_suggestion() {
    let kinds = [
        SshErrorKind::InvalidState,
        SshErrorKind::Configuration,
        SshErrorKind::Network,
        SshErrorKind::Proxy,
        SshErrorKind::ProxyAuthentication,
        SshErrorKind::ProxyCommandApproval,
        SshErrorKind::HostKeyUntrusted,
        SshErrorKind::HostKeyChanged,
        SshErrorKind::HostKeyPersistence,
        SshErrorKind::HostKeyVerification,
        SshErrorKind::Authentication,
        SshErrorKind::PrivateKeyPassphrase,
        SshErrorKind::Timeout,
        SshErrorKind::Protocol,
        SshErrorKind::Sftp,
    ];
    for kind in kinds {
        let (summary, suggestion) = connection_error_keys(kind);
        assert!(!summary.is_empty());
        assert!(!suggestion.is_empty());
    }
}

#[test]
fn only_prompted_secrets_of_the_server_are_kept() {
    let credentials = vec![
        ConnectionCredential::from_prompt(
            "server".into(),
            CredentialKind::Password,
            Some("hunter2"),
        ),
        ConnectionCredential::from_prompt("server".into(), CredentialKind::ProxyPassword, None),
        ConnectionCredential::from_keychain("server".into(), CredentialKind::Password),
        ConnectionCredential::from_prompt("jump".into(), CredentialKind::Password, Some("other")),
    ];
    let (saved, left) = take_successful_credentials(credentials, "server");
    assert_eq!(saved.len(), 1);
    assert_eq!(saved[0].secret, "hunter2");
    assert_eq!(saved[0].profile_id, "server");
    assert!(left
        .iter()
        .any(|credential| credential.save_on_success == Some("other")));
    assert!(!left
        .iter()
        .any(|credential| credential.save_on_success == Some("hunter2")));
}

#[test]
fn a_connection_starts_only_from_rest() {
    assert!(connect_is_possible(SessionState::Disconnected, false, false, false, false));
    assert!(connect_is_possible(SessionState::Failed, false, false, false, false));
    assert!(!connect_is_possible(SessionState::Connected, false, false, false, false));
    assert!(!connect_is_possible(SessionState::Disconnected, true, false, false, false));
    assert!(!connect_is_possible(SessionState::Disconnected, false, true, false, false));
    assert!(!connect_is_possible(SessionState::Disconnected, false, false, true, false));
    assert!(!connect_is_possible(SessionState::Disconnected, false, false, false, true));
}

#[test]
fn proxy_commands_are_approved_before_they_run() {
    assert_eq!(finish_connection_preparation(Ok(None)), PlanDecision::Start);
    assert_eq!(
        finish_connection_preparation(Ok(Some(true))),
        PlanDecision::Start
    );
    assert_eq!(
        finish_connection_preparation(Ok(Some(false))),
        PlanDecision::AskApproval
    );
    let error = SshError {
        kind: SshErrorKind::Configuration,
        message: "bad".into(),
        stage: None,
    };
    assert!(matches!(
        finish_connection_preparation(Err(error)),
        PlanDecision::Fail(_)
    ));
}

#[test]
fn approval_is_kept_with_the_profile() {
    let mut profile = ConnectionProfile::new("a", "A", "h", 22, "u");
    profile.route.upstream_proxy = Some(ProxyConfig::ProxyCommand {
        command_digest: "digest".into(),
        approved_digest: None,
    });
    let mut profiles = vec![profile];
    let undo = approve_proxy_command(&mut profiles, "a", "digest".into());
    assert_eq!(undo, Some((0, None)));
    assert_eq!(
        profiles[0].route.upstream_proxy,
        Some(ProxyConfig::ProxyCommand {
            command_digest: "digest".into(),
            approved_digest: Some("digest".into()),
        })
    );
    assert_eq!(approve_proxy_command(&mut profiles, "missing", "digest".into()), None);
}

#[test]
fn keychain_updates_are_counted_per_profile() {
    let mut updates = KeychainUpdates::new();
    assert!(!updates.is_updating("a"));
    updates.begin("a");
    updates.begin("a");
    assert!(updates.is_updating("a"));
    assert!(!updates.is_updating("b"));
    assert!(!updates.finish("a"));
    assert!(updates.is_updating("a"));
    assert!(updates.finish("a"));
    assert!(!updates.is_updating("a"));
    assert!(!updates.finish("a"));
}

#[test]
fn keychain_errors_are_told() {
    assert_eq!(deletion_error(Ok(()), "Task failed"), None);
    assert_eq!(
        deletion_error(Err(SaveCredentialError::Keychain("locked".into())), "Task failed"),
        Some("locked".into())
    );
    assert_eq!(
        deletion_error(Err(SaveCredentialError::Task("gone".into())), "Task failed"),
        Some("Task failed: gone".into())
    );
    assert_eq!(rejected_credential_text("denied".into(), None), "denied");
    assert!(rejected_credential_text("denied".into(), Some("locked".into())).contains("locked"));
}

#[test]
fn preparing_a_password_login_looks_the_secret_up_first() {
    let mut profile = ConnectionProfile::new("server", "Server", "host", 22, "user");
    profile.auth = AuthConfig::Password;
    let profiles = vec![profile.clone()];
    let mut pending: PendingConnectionPreparation<String> =
        PendingConnectionPreparation::begin(&profiles, SessionId(1), profile, None).unwrap();
    match pending.continue_preparation() {
        PreparationNeed::Lookup { profile_id, kind, .. } => {
            assert_eq!(profile_id, "server");
            assert_eq!(kind, CredentialKind::Password);
        }
        other => panic!("unexpected need: {other:?}"),
    }
    let credential = ConnectionCredential::from_keychain("server".into(), CredentialKind::Password);
    assert!(pending.accept_secret(
        "server",
        CredentialKind::Password,
        Some(CredentialPromptKind::Password),
        "hunter2".to_string(),
        credential,
    ));
    assert_eq!(pending.continue_preparation(), PreparationNeed::Ready);
    let (plan, credentials) = pending.into_plan();
    assert_eq!(plan.target.profile.id, "server");
    assert!(plan.jumps.is_empty());
    assert_eq!(credentials.len(), 1);
}

#[test]
fn missing_jump_hosts_stop_the_preparation() {
    let mut profile = ConnectionProfile::new("server", "Server", "host", 22, "user");
    profile.route.jump_host_ids = vec!["gone".into()];
    let profiles = vec![profile.clone()];
    let missing =
        PendingConnectionPreparation::<String>::begin(&profiles, SessionId(1), profile, None)
            .err()
            .unwrap();
    assert_eq!(missing.jump_id, "gone");
}

#[test]
fn prompts_are_answered_only_for_their_own_session() {
    let prompt = CredentialPrompt {
        session_id: SessionId(4),
        profile_id: "server".into(),
        kind: CredentialPromptKind::Password,
        remember: true,
        error: None,
    };
    assert_eq!(
        submit_credential_prompt(&prompt, true, Some(SessionId(4))),
        PromptSubmission::Required
    );
    assert_eq!(
        submit_credential_prompt(&prompt, false, Some(SessionId(5))),
        PromptSubmission::Expired
    );
    assert_eq!(
        submit_credential_prompt(&prompt, false, None),
        PromptSubmission::Expired
    );
    assert_eq!(
        submit_credential_prompt(&prompt, false, Some(SessionId(4))),
        PromptSubmission::Accepted
    );
}

fn preparing(auth: AuthConfig) -> Option<PendingConnectionPreparation<String>> {
    let mut profile = ConnectionProfile::new("server", "Server", "host", 22, "user");
    profile.auth = auth;
    PendingConnectionPreparation::begin(&vec![], SessionId(4), profile, None)
        .ok()
        .map(|mut pending| {
            pending.continue_preparation();
            pending
        })
}

#[test]
fn a_typed_secret_is_kept_only_where_the_user_wants_it() {
    let mut prompt = CredentialPrompt::new(
        SessionId(4),
        "server".into(),
        CredentialPromptKind::Password,
        None,
    );
    assert!(!prompt.remember);
    let submit = |pending: &mut Option<PendingConnectionPreparation<String>>,
                  prompt: &CredentialPrompt,
                  is_empty: bool| {
        submit_typed_secret(pending, prompt, is_empty, "word".into(), "word".into())
    };
    let mut pending = preparing(AuthConfig::Password);
    assert_eq!(submit(&mut pending, &prompt, true), PromptSubmission::Required);
    assert_eq!(pending, preparing(AuthConfig::Password));
    assert_eq!(submit(&mut None, &prompt, false), PromptSubmission::Expired);
    assert_eq!(submit(&mut pending, &prompt, false), PromptSubmission::Accepted);
    let mut ready = pending.unwrap();
    assert_eq!(ready.credentials[0].save_on_success, None);
    assert_eq!(ready.continue_preparation(), PreparationNeed::Ready);

    prompt.toggle_remember();
    let mut pending = preparing(AuthConfig::Password);
    assert_eq!(submit(&mut pending, &prompt, false), PromptSubmission::Accepted);
    let ready = pending.unwrap();
    assert_eq!(ready.credentials.len(), 1);
    assert_eq!(ready.credentials[0].kind, CredentialKind::Password);
    assert_eq!(ready.credentials[0].save_on_success, Some("word".into()));
}

#[test]
fn a_look_into_the_keychain_counts_only_while_it_is_waited_for() {
    let look = |pending: &mut Option<PendingConnectionPreparation<String>>,
                session: u64,
                loaded: Result<Option<String>, String>| {
        take_looked_up_secret(
            pending,
            SessionId(session),
            "server".into(),
            CredentialKind::Password,
            Some(CredentialPromptKind::Password),
            loaded,
        )
    };
    let mut pending = preparing(AuthConfig::Password);
    assert_eq!(
        look(&mut pending, 5, Ok(Some("word".into()))),
        LookupOutcome::Ignored
    );
    assert_eq!(look(&mut None, 4, Ok(None)), LookupOutcome::Ignored);
    assert_eq!(pending, preparing(AuthConfig::Password));
    assert_eq!(
        look(&mut pending, 4, Err("locked".into())),
        LookupOutcome::Ask {
            kind: CredentialPromptKind::Password,
            error: Some("locked".into()),
        }
    );
    assert_eq!(
        look(&mut pending, 4, Ok(Some("word".into()))),
        LookupOutcome::Taken { used: true }
    );
    assert_eq!(pending.unwrap().credentials[0].save_on_success, None);

    let path = PathBuf::from("/keys/id");
    let mut pending = preparing(AuthConfig::PrivateKey { path: path.clone() });
    assert_eq!(
        take_looked_up_secret(
            &mut pending,
            SessionId(4),
            "server".into(),
            CredentialKind::PrivateKeyPassphrase,
            Some(CredentialPromptKind::PrivateKeyPassphrase { path }),
            Ok(None),
        ),
        LookupOutcome::Taken { used: true }
    );
    assert!(pending.unwrap().credentials.is_empty());
}

#[test]
fn a_missing_proxy_command_ends_the_preparation() {
    for (loaded, message) in [
        (
            Ok(None),
            SessionMessage::Localized("proxy-command-keychain-missing"),
        ),
        (
            Err("locked".to_owned()),
            SessionMessage::Plain("locked".into()),
        ),
    ] {
        let mut pending = preparing(AuthConfig::Password);
        assert_eq!(
            take_looked_up_secret(
                &mut pending,
                SessionId(4),
                "server".into(),
                CredentialKind::ProxyCommand,
                None,
                loaded,
            ),
            LookupOutcome::GivenUp { message }
        );
        assert_eq!(pending, None);
    }
}

#[test]
fn an_approval_that_was_not_saved_is_taken_back() {
    let mut profile = ConnectionProfile::new("server", "Server", "host", 22, "user");
    profile.route.upstream_proxy = Some(ProxyConfig::ProxyCommand {
        command_digest: "digest".into(),
        approved_digest: Some("old".into()),
    });
    let mut profiles = vec![profile];
    let approved = |profiles: &Vec<ConnectionProfile>| match &profiles[0].route.upstream_proxy {
        Some(ProxyConfig::ProxyCommand {
            approved_digest, ..
        }) => approved_digest.clone(),
        _ => None,
    };
    let (index, previous) =
        approve_proxy_command(&mut profiles, "server", "new".into()).unwrap();
    settle_approval(&mut profiles, index, previous, true);
    assert_eq!(approved(&profiles), Some("new".into()));
    let (index, previous) =
        approve_proxy_command(&mut profiles, "server", "newer".into()).unwrap();
    settle_approval(&mut profiles, index, previous, false);
    assert_eq!(approved(&profiles), Some("new".into()));
}
