//! What a session tells its user: keys of localized texts with their arguments, or plain text.
use crate::number::{decimal, u64_text};
use vstd::prelude::*;
use vstd::string::*;

verus! {

/// What kind of error ended a connection or a request.
#[derive(Clone, Copy, Debug, PartialEq, Eq, Structural)]
pub enum SshErrorKind {
    InvalidState,
    Configuration,
    Network,
    Proxy,
    ProxyAuthentication,
    ProxyCommandApproval,
    HostKeyUntrusted,
    HostKeyChanged,
    HostKeyPersistence,
    HostKeyVerification,
    Authentication,
    PrivateKeyPassphrase,
    Timeout,
    Protocol,
    Sftp,
}

/// Which part of the way to the server is being gone. Jumps are counted from 1.
#[derive(Debug, PartialEq, Eq)]
pub enum ConnectionStage {
    Proxy,
    Jump { index: usize, total: usize, profile_id: String },
    Target { profile_id: String },
}

impl Clone for ConnectionStage {
    fn clone(&self) -> (r: Self)
        ensures
            r == *self,
    {
        match self {
            ConnectionStage::Proxy => ConnectionStage::Proxy,
            ConnectionStage::Jump { index, total, profile_id } => ConnectionStage::Jump {
                index: *index,
                total: *total,
                profile_id: profile_id.clone(),
            },
            ConnectionStage::Target { profile_id } => ConnectionStage::Target {
                profile_id: profile_id.clone(),
            },
        }
    }
}

impl ConnectionStage {
    /// The profile of the server that is being reached; a proxy has none.
    pub open spec fn stage_profile(self) -> Option<String> {
        match self {
            ConnectionStage::Proxy => None,
            ConnectionStage::Jump { profile_id, .. } => Some(profile_id),
            ConnectionStage::Target { profile_id } => Some(profile_id),
        }
    }

    /// The profile of the server that is being reached.
    pub fn profile_id(&self) -> (r: Option<String>)
        ensures
            r == self.stage_profile(),
    {
        match self {
            ConnectionStage::Proxy => None,
            ConnectionStage::Jump { profile_id, .. } => Some(profile_id.clone()),
            ConnectionStage::Target { profile_id } => Some(profile_id.clone()),
        }
    }
}

/// An error of the connection, with the part of the way on which it came.
#[derive(Debug, PartialEq, Eq)]
pub struct SshError {
    pub kind: SshErrorKind,
    pub message: String,
    pub stage: Option<ConnectionStage>,
}

/// A copy of an optional stage.
pub fn clone_stage(stage: &Option<ConnectionStage>) -> (r: Option<ConnectionStage>)
    ensures
        r == *stage,
{
    match stage {
        Some(stage) => Some(stage.clone()),
        None => None,
    }
}

/// A copy of an error.
pub fn clone_error(error: &SshError) -> (r: SshError)
    ensures
        r == *error,
{
    SshError {
        kind: error.kind,
        message: error.message.clone(),
        stage: clone_stage(&error.stage),
    }
}

/// One argument of a localized text.
#[derive(Debug, PartialEq, Eq)]
pub enum MessageArg {
    Text(String),
    Localized(&'static str),
}

/// An argument called `name` that is a text.
pub open spec fn is_text_arg(
    arg: (&'static str, MessageArg),
    name: &'static str,
    text: Seq<char>,
) -> bool {
    arg.0 == name && match arg.1 {
        MessageArg::Text(given) => given@ == text,
        MessageArg::Localized(_) => false,
    }
}

/// A message to the user.
#[derive(Debug, PartialEq, Eq)]
pub enum SessionMessage {
    /// A localized text.
    Localized(&'static str),
    /// A localized text, and what it is about behind a colon.
    WithDetail { key: &'static str, detail: String },
    /// The way leads over the jump `index` of `total`.
    ConnectingJump { index: usize, total: usize },
    /// The host key of `address` is being trusted.
    TrustingHost { address: String },
    /// The host key of `address` waits for a decision.
    HostKeyVerification { at: ConnectionStage, address: String },
    /// An error of the connection, told by its kind.
    ConnectionError { kind: SshErrorKind, details: String, stage: Option<ConnectionStage> },
    /// The remote shell has ended with a status.
    ShellStatus(u32),
    /// The remote shell was ended by a signal.
    ShellSignal { signal: String, core_dumped: bool, message: String },
    /// A text as it stands.
    Plain(String),
}

impl Clone for SessionMessage {
    fn clone(&self) -> (r: Self)
        ensures
            r == *self,
    {
        match self {
            SessionMessage::Localized(key) => SessionMessage::Localized(key),
            SessionMessage::WithDetail { key, detail } => SessionMessage::WithDetail {
                key,
                detail: detail.clone(),
            },
            SessionMessage::ConnectingJump { index, total } => SessionMessage::ConnectingJump {
                index: *index,
                total: *total,
            },
            SessionMessage::TrustingHost { address } => SessionMessage::TrustingHost {
                address: address.clone(),
            },
            SessionMessage::HostKeyVerification { at, address } => {
                SessionMessage::HostKeyVerification {
                    at: at.clone(),
                    address: address.clone(),
                }
            },
            SessionMessage::ConnectionError { kind, details, stage } => {
                SessionMessage::ConnectionError {
                    kind: *kind,
                    details: details.clone(),
                    stage: clone_stage(stage),
                }
            },
            SessionMessage::ShellStatus(status) => SessionMessage::ShellStatus(*status),
            SessionMessage::ShellSignal { signal, core_dumped, message } => {
                SessionMessage::ShellSignal {
                    signal: signal.clone(),
                    core_dumped: *core_dumped,
                    message: message.clone(),
                }
            },
            SessionMessage::Plain(text) => SessionMessage::Plain(text.clone()),
        }
    }
}

/// The message that tells of an error.
pub fn connection_error(error: &SshError) -> (r: SessionMessage)
    ensures
        r == (SessionMessage::ConnectionError {
            kind: error.kind,
            details: error.message,
            stage: error.stage,
        }),
{
    SessionMessage::ConnectionError {
        kind: error.kind,
        details: error.message.clone(),
        stage: clone_stage(&error.stage),
    }
}

/// The message that tells which part of the way is being gone.
pub open spec fn connecting(stage: ConnectionStage) -> SessionMessage {
    match stage {
        ConnectionStage::Proxy => SessionMessage::Localized("connection-connecting-proxy"),
        ConnectionStage::Jump { index, total, .. } => SessionMessage::ConnectingJump {
            index,
            total,
        },
        ConnectionStage::Target { .. } => SessionMessage::Localized("connection-connecting-target"),
    }
}

/// The message that tells which part of the way is being gone.
pub fn connecting_message(stage: &ConnectionStage) -> (r: SessionMessage)
    ensures
        r == connecting(*stage),
{
    match stage {
        ConnectionStage::Proxy => SessionMessage::Localized("connection-connecting-proxy"),
        ConnectionStage::Jump { index, total, .. } => SessionMessage::ConnectingJump {
            index: *index,
            total: *total,
        },
        ConnectionStage::Target { .. } => SessionMessage::Localized("connection-connecting-target"),
    }
}

/// The key of the localized text that a message is made from; none for a plain text, for an error
/// and for a host key, which are put together from several.
pub open spec fn message_key(message: SessionMessage) -> Option<&'static str> {
    match message {
        SessionMessage::Localized(key) => Some(key),
        SessionMessage::WithDetail { key, .. } => Some(key),
        SessionMessage::ConnectingJump { .. } => Some("connection-connecting-jump"),
        SessionMessage::TrustingHost { .. } => Some("connection-trusting-host"),
        SessionMessage::ShellStatus(_) => Some("terminal-remote-shell-status"),
        SessionMessage::ShellSignal { .. } => Some("terminal-remote-shell-signal"),
        SessionMessage::HostKeyVerification { .. } => None,
        SessionMessage::ConnectionError { .. } => None,
        SessionMessage::Plain(_) => None,
    }
}

impl SessionMessage {
    /// The key of the localized text that the message is made from.
    pub fn key(&self) -> (r: Option<&'static str>)
        ensures
            r == message_key(*self),
    {
        match self {
            SessionMessage::Localized(key) => Some(key),
            SessionMessage::WithDetail { key, .. } => Some(key),
            SessionMessage::ConnectingJump { .. } => Some("connection-connecting-jump"),
            SessionMessage::TrustingHost { .. } => Some("connection-trusting-host"),
            SessionMessage::ShellStatus(_) => Some("terminal-remote-shell-status"),
            SessionMessage::ShellSignal { .. } => Some("terminal-remote-shell-signal"),
            SessionMessage::HostKeyVerification { .. } => None,
            SessionMessage::ConnectionError { .. } => None,
            SessionMessage::Plain(_) => None,
        }
    }

    /// The arguments of the localized text: the jump's numbers, the address, the status, or the
    /// signal with what goes with it. Other messages have none.
    pub fn arguments(&self) -> (r: Vec<(&'static str, MessageArg)>)
        ensures
            match *self {
                SessionMessage::ConnectingJump { index, total } => {
                    &&& r@.len() == 2
                    &&& is_text_arg(r@[0], "index", decimal(index as nat))
                    &&& is_text_arg(r@[1], "total", decimal(total as nat))
                },
                SessionMessage::TrustingHost { address } => r@ == seq![
                    ("address", MessageArg::Text(address)),
                ],
                SessionMessage::ShellStatus(status) => {
                    &&& r@.len() == 1
                    &&& is_text_arg(r@[0], "status", decimal(status as nat))
                },
                SessionMessage::ShellSignal { signal, core_dumped, message } => {
                    &&& r@.len() == 3
                    &&& r@[0] == ("signal", MessageArg::Text(signal))
                    &&& if core_dumped {
                        r@[1] == ("core", MessageArg::Localized("terminal-core-dumped"))
                    } else {
                        is_text_arg(r@[1], "core", Seq::empty())
                    }
                    &&& r@[2] == ("message", MessageArg::Text(message))
                },
                _ => r@.len() == 0,
            },
    {
        let mut args: Vec<(&'static str, MessageArg)> = Vec::new();
        match self {
            SessionMessage::ConnectingJump { index, total } => {
                args.push(("index", MessageArg::Text(u64_text(*index as u64))));
                args.push(("total", MessageArg::Text(u64_text(*total as u64))));
            },
            SessionMessage::TrustingHost { address } => {
                args.push(("address", MessageArg::Text(address.clone())));
            },
            SessionMessage::ShellStatus(status) => {
                args.push(("status", MessageArg::Text(u64_text(*status as u64))));
            },
            SessionMessage::ShellSignal { signal, core_dumped, message } => {
                args.push(("signal", MessageArg::Text(signal.clone())));
                args.push(
                    (
                        "core",
                        if *core_dumped {
                            MessageArg::Localized("terminal-core-dumped")
                        } else {
                            MessageArg::Text(String::new())
                        },
                    ),
                );
                args.push(("message", MessageArg::Text(message.clone())));
            },
            SessionMessage::Localized(_)
            | SessionMessage::WithDetail { .. }
            | SessionMessage::HostKeyVerification { .. }
            | SessionMessage::ConnectionError { .. }
            | SessionMessage::Plain(_) => {},
        }
        args
    }
}

/// The keys of what an error of a kind is summed up as, and of what is suggested.
pub open spec fn error_keys(kind: SshErrorKind) -> (&'static str, &'static str) {
    match kind {
        SshErrorKind::InvalidState | SshErrorKind::Configuration => (
            "connection-error-summary-configuration",
            "connection-error-suggestion-configuration",
        ),
        SshErrorKind::Network => (
            "connection-error-summary-network",
            "connection-error-suggestion-network",
        ),
        SshErrorKind::Proxy => (
            "connection-error-summary-proxy",
            "connection-error-suggestion-proxy",
        ),
        SshErrorKind::ProxyAuthentication => (
            "connection-error-summary-proxy-auth",
            "connection-error-suggestion-proxy-auth",
        ),
        SshErrorKind::ProxyCommandApproval => (
            "connection-error-summary-proxy-command",
            "connection-error-suggestion-proxy-command",
        ),
        SshErrorKind::HostKeyUntrusted
        | SshErrorKind::HostKeyChanged
        | SshErrorKind::HostKeyPersistence
        | SshErrorKind::HostKeyVerification => (
            "connection-error-summary-host-key",
            "connection-error-suggestion-host-key",
        ),
        SshErrorKind::Authentication | SshErrorKind::PrivateKeyPassphrase => (
            "connection-error-summary-auth",
            "connection-error-suggestion-auth",
        ),
        SshErrorKind::Timeout => (
            "connection-error-summary-timeout",
            "connection-error-suggestion-timeout",
        ),
        SshErrorKind::Protocol => (
            "connection-error-summary-protocol",
            "connection-error-suggestion-protocol",
        ),
        SshErrorKind::Sftp => (
            "connection-error-summary-sftp",
            "connection-error-suggestion-sftp",
        ),
    }
}

/// The keys of what an error of a kind is summed up as, and of what is suggested.
pub fn connection_error_keys(kind: SshErrorKind) -> (r: (&'static str, &'static str))
    ensures
        r == error_keys(kind),
{
    match kind {
        SshErrorKind::InvalidState | SshErrorKind::Configuration => (
            "connection-error-summary-configuration",
            "connection-error-suggestion-configuration",
        ),
        SshErrorKind::Network => (
            "connection-error-summary-network",
            "connection-error-suggestion-network",
        ),
        SshErrorKind::Proxy => (
            "connection-error-summary-proxy",
            "connection-error-suggestion-proxy",
        ),
        SshErrorKind::ProxyAuthentication => (
            "connection-error-summary-proxy-auth",
            "connection-error-suggestion-proxy-auth",
        ),
        SshErrorKind::ProxyCommandApproval => (
            "connection-error-summary-proxy-command",
            "connection-error-suggestion-proxy-command",
        ),
        SshErrorKind::HostKeyUntrusted
        | SshErrorKind::HostKeyChanged
        | SshErrorKind::HostKeyPersistence
        | SshErrorKind::HostKeyVerification => (
            "connection-error-summary-host-key",
            "connection-error-suggestion-host-key",
        ),
        SshErrorKind::Authentication | SshErrorKind::PrivateKeyPassphrase => (
            "connection-error-summary-auth",
            "connection-error-suggestion-auth",
        ),
        SshErrorKind::Timeout => (
            "connection-error-summary-timeout",
            "connection-error-suggestion-timeout",
        ),
        SshErrorKind::Protocol => (
            "connection-error-summary-protocol",
            "connection-error-suggestion-protocol",
        ),
        SshErrorKind::Sftp => (
            "connection-error-summary-sftp",
            "connection-error-suggestion-sftp",
        ),
    }
}

/// The key of a stage's name, with the jump's numbers where it has some.
pub fn connection_stage_label(stage: &ConnectionStage) -> (r: (
    &'static str,
    Option<(usize, usize)>,
))
    ensures
        r == match *stage {
            ConnectionStage::Proxy => ("connection-stage-proxy", None::<(usize, usize)>),
            ConnectionStage::Jump { index, total, .. } => (
                "connection-stage-jump",
                Some((index, total)),
            ),
            ConnectionStage::Target { .. } => (
                "connection-stage-target",
                None::<(usize, usize)>,
            ),
        },
{
    match stage {
        ConnectionStage::Proxy => ("connection-stage-proxy", None),
        ConnectionStage::Jump { index, total, .. } => (
            "connection-stage-jump",
            Some((*index, *total)),
        ),
        ConnectionStage::Target { .. } => ("connection-stage-target", None),
    }
}

/// The localized texts that an error is told with.
#[derive(Debug, PartialEq, Eq)]
pub struct ErrorTexts {
    pub summary: String,
    pub suggestion: String,
    pub technical_details: String,
    /// The name of the stage, where the error has one.
    pub stage: Option<String>,
}

/// What an error is told as: the stage and the summary, the suggestion, and the details.
pub open spec fn error_text(texts: ErrorTexts, details: Seq<char>) -> Seq<char> {
    let headline = match texts.stage {
        Some(stage) => stage@ + ": "@ + texts.summary@,
        None => texts.summary@,
    };
    headline + "\n"@ + texts.suggestion@ + "\n"@ + texts.technical_details@ + ": "@ + details
}

/// What an error is told as.
pub fn localized_connection_error_parts(texts: &ErrorTexts, details: &str) -> (r: String)
    ensures
        r@ == error_text(*texts, details@),
{
    let mut out: String = match &texts.stage {
        Some(stage) => {
            let mut headline: String = stage.clone();
            headline.append(": ");
            headline.append(texts.summary.as_str());
            headline
        },
        None => texts.summary.clone(),
    };
    out.append("\n");
    out.append(texts.suggestion.as_str());
    out.append("\n");
    out.append(texts.technical_details.as_str());
    out.append(": ");
    out.append(details);
    out
}

/// A headline, and the technical details below it.
pub open spec fn detailed_text(
    headline: Seq<char>,
    label: Seq<char>,
    details: Seq<char>,
) -> Seq<char> {
    headline + "\n"@ + label + ": "@ + details
}

/// A headline, and the technical details below it.
pub fn with_technical_details(headline: &str, label: &str, details: &str) -> (r: String)
    ensures
        r@ == detailed_text(headline@, label@, details@),
{
    let mut out: String = headline.to_owned();
    out.append("\n");
    out.append(label);
    out.append(": ");
    out.append(details);
    out
}

/// A text, a colon and what it is about.
pub open spec fn labelled_text(label: Seq<char>, text: Seq<char>) -> Seq<char> {
    label + ": "@ + text
}

/// A text, a colon and what it is about.
pub fn labelled(label: &str, text: &str) -> (r: String)
    ensures
        r@ == labelled_text(label@, text@),
{
    let mut out: String = label.to_owned();
    out.append(": ");
    out.append(text);
    out
}

/// What is told of a failure begins with its headline and ends with the details, with the label
/// between them on a line of its own.
pub proof fn details_stand_at_the_end(
    headline: Seq<char>,
    label: Seq<char>,
    details: Seq<char>,
)
    ensures
        ({
            let text = detailed_text(headline, label, details);
            &&& text.len() == headline.len() + label.len() + details.len() + 3
            &&& text.take(headline.len() as int) == headline
            &&& text[headline.len() as int] == '\n'
            &&& text.skip(text.len() - details.len()) == details
        }),
        labelled_text(label, details).take(label.len() as int) == label,
        labelled_text(label, details).skip((label.len() + 2) as int) == details,
{
    reveal_strlit("\n");
    reveal_strlit(": ");
    let text = detailed_text(headline, label, details);
    assert("\n"@.len() == 1 && ": "@.len() == 2);
    assert(text.take(headline.len() as int) =~= headline);
    assert(text.skip(text.len() - details.len()) =~= details);
    assert(labelled_text(label, details).take(label.len() as int) =~= label);
    assert(labelled_text(label, details).skip((label.len() + 2) as int) =~= details);
}

/// A stage tells which server is being reached, and a proxy none; a jump is told with its place in
/// the way.
pub proof fn stage_names_its_server(stage: ConnectionStage)
    ensures
        stage is Proxy ==> stage.stage_profile() is None,
        stage matches ConnectionStage::Jump { profile_id, index, total } ==> stage.stage_profile()
            == Some(profile_id) && connecting(stage) == (SessionMessage::ConnectingJump {
            index,
            total,
        }),
        stage matches ConnectionStage::Target { profile_id } ==> stage.stage_profile() == Some(
            profile_id,
        ),
        connecting(stage) is ConnectingJump <==> stage is Jump,
{
}

} // verus!
