//! The log of what happened to the connections, and the panel that shows it.
use crate::browser::SftpOperation;
use crate::message::{clone_error, ConnectionStage, SshError, SshErrorKind};
use crate::profile::{is_direct_route, ConnectionProfile};
use crate::remote_files::RemoteFileKind;
use crate::session::SessionState;
use crate::session_events::ConnectionEvent;
use crate::text::{join_texts, join_with, text_is_empty, views};
use crate::transfers::SftpTransferDirection;
use vstd::prelude::*;
use vstd::string::*;

verus! {

/// How much an entry matters.
#[derive(Clone, Copy, Debug, PartialEq, Eq, Structural)]
pub enum DiagnosticLevel {
    Error,
    Warn,
    Info,
    Debug,
    Trace,
}

/// What a level is called.
pub open spec fn level_label(level: DiagnosticLevel) -> &'static str {
    match level {
        DiagnosticLevel::Error => "ERROR",
        DiagnosticLevel::Warn => "WARN",
        DiagnosticLevel::Info => "INFO",
        DiagnosticLevel::Debug => "DEBUG",
        DiagnosticLevel::Trace => "TRACE",
    }
}

/// What a level is called.
pub fn diagnostic_level_label(level: DiagnosticLevel) -> (r: &'static str)
    ensures
        r == level_label(level),
{
    match level {
        DiagnosticLevel::Error => "ERROR",
        DiagnosticLevel::Warn => "WARN",
        DiagnosticLevel::Info => "INFO",
        DiagnosticLevel::Debug => "DEBUG",
        DiagnosticLevel::Trace => "TRACE",
    }
}

/// The value of a field of an entry.
#[derive(Debug, PartialEq, Eq)]
pub enum DiagnosticValue {
    State(SessionState),
    /// The name of a stage, in the user's language.
    Stage(ConnectionStage),
    Kind(RemoteFileKind),
    Direction(SftpTransferDirection),
    Operation(SftpOperation),
    ErrorKind(SshErrorKind),
    Number(u64),
    Flag(bool),
    /// An error, as it tells itself.
    Error(SshError),
    Text(String),
}

/// An entry to write.
#[derive(Debug, PartialEq, Eq)]
pub struct DiagnosticRecord {
    pub level: DiagnosticLevel,
    pub module: &'static str,
    pub message: &'static str,
    pub fields: Vec<(&'static str, DiagnosticValue)>,
}

/// What an entry to write holds.
pub struct RecordModel {
    pub level: DiagnosticLevel,
    pub module: &'static str,
    pub message: &'static str,
    pub fields: Seq<(&'static str, DiagnosticValue)>,
}

impl DiagnosticRecord {
    /// What the entry holds.
    pub open spec fn view(&self) -> RecordModel {
        RecordModel {
            level: self.level,
            module: self.module,
            message: self.message,
            fields: self.fields@,
        }
    }
}

/// An entry with these parts.
pub open spec fn entry(
    level: DiagnosticLevel,
    module: &'static str,
    message: &'static str,
    fields: Seq<(&'static str, DiagnosticValue)>,
) -> Option<RecordModel> {
    Some(RecordModel { level, module, message, fields })
}

/// The stage field of an entry on an error.
pub open spec fn is_stage_of(value: DiagnosticValue, error: SshError) -> bool {
    match (error.stage, value) {
        (Some(stage), DiagnosticValue::Stage(shown)) => shown == stage,
        (None, DiagnosticValue::Text(text)) => text@ == ""@,
        _ => false,
    }
}

/// What the log says of an event. The entry on a failed connection has its stage in the first
/// field and is told apart.
pub open spec fn record_of(event: ConnectionEvent) -> Option<RecordModel> {
    match event {
        ConnectionEvent::StateChanged(state) => entry(
            DiagnosticLevel::Info,
            "ssh.lifecycle",
            "SSH state changed",
            seq![("state", DiagnosticValue::State(state))],
        ),
        ConnectionEvent::ConnectionStageChanged(stage) => entry(
            DiagnosticLevel::Info,
            "ssh.route",
            "SSH connection stage started",
            seq![("stage", DiagnosticValue::Stage(stage))],
        ),
        ConnectionEvent::AuthenticationSucceeded { stage, method } => entry(
            DiagnosticLevel::Info,
            "ssh.authentication",
            "SSH authentication succeeded",
            seq![
                ("stage", DiagnosticValue::Stage(stage)),
                ("method", DiagnosticValue::Text(method)),
            ],
        ),
        ConnectionEvent::HostKeyVerificationRequired { stage, .. } => entry(
            DiagnosticLevel::Info,
            "ssh.host_key",
            "Host-key verification requires user confirmation",
            seq![("stage", DiagnosticValue::Stage(stage))],
        ),
        ConnectionEvent::DirectoryRead { .. } => entry(
            DiagnosticLevel::Debug,
            "sftp.operation",
            "Remote directory read completed",
            seq![],
        ),
        ConnectionEvent::DirectoryTreeRead { .. } => entry(
            DiagnosticLevel::Debug,
            "sftp.operation",
            "Remote directory tree read completed",
            seq![],
        ),
        ConnectionEvent::FileRead { .. } => entry(
            DiagnosticLevel::Debug,
            "sftp.operation",
            "Remote file read completed",
            seq![],
        ),
        ConnectionEvent::FileWritten { .. } => entry(
            DiagnosticLevel::Info,
            "sftp.operation",
            "Remote file write completed",
            seq![],
        ),
        ConnectionEvent::PathCreated { kind, .. } => entry(
            DiagnosticLevel::Info,
            "sftp.operation",
            "Remote path created",
            seq![("kind", DiagnosticValue::Kind(kind))],
        ),
        ConnectionEvent::DirectoriesCreated { paths, .. } => entry(
            DiagnosticLevel::Info,
            "sftp.operation",
            "Remote directories created",
            seq![("count", DiagnosticValue::Number(paths@.len() as u64))],
        ),
        ConnectionEvent::PathsDeleted { paths, .. } => entry(
            DiagnosticLevel::Info,
            "sftp.operation",
            "Remote paths deleted",
            seq![("count", DiagnosticValue::Number(paths@.len() as u64))],
        ),
        ConnectionEvent::TransferCompleted { direction, bytes, .. } => entry(
            DiagnosticLevel::Info,
            "sftp.transfer",
            "SFTP transfer completed",
            seq![
                ("direction", DiagnosticValue::Direction(direction)),
                ("bytes", DiagnosticValue::Number(bytes)),
            ],
        ),
        ConnectionEvent::TransferCancelled { .. } => entry(
            DiagnosticLevel::Info,
            "sftp.transfer",
            "SFTP transfer cancelled",
            seq![],
        ),
        ConnectionEvent::SftpFailed { operation, error, .. } => entry(
            DiagnosticLevel::Warn,
            "sftp.operation",
            "SFTP operation failed",
            seq![
                ("operation", DiagnosticValue::Operation(operation)),
                ("error_kind", DiagnosticValue::ErrorKind(error.kind)),
            ],
        ),
        ConnectionEvent::PerformanceFailed(error) => entry(
            DiagnosticLevel::Warn,
            "ssh.performance",
            "Performance sampling failed",
            seq![("error_kind", DiagnosticValue::ErrorKind(error.kind))],
        ),
        _ => None,
    }
}

/// An entry without fields.
fn plain_record(
    level: DiagnosticLevel,
    module: &'static str,
    message: &'static str,
) -> (r: DiagnosticRecord)
    ensures
        r@ == (RecordModel { level, module, message, fields: seq![] }),
{
    DiagnosticRecord { level, module, message, fields: Vec::new() }
}

/// An entry with one field.
fn record_with(
    level: DiagnosticLevel,
    module: &'static str,
    message: &'static str,
    name: &'static str,
    value: DiagnosticValue,
) -> (r: DiagnosticRecord)
    ensures
        r@ == (RecordModel { level, module, message, fields: seq![(name, value)] }),
{
    let mut fields: Vec<(&'static str, DiagnosticValue)> = Vec::new();
    fields.push((name, value));
    assert(fields@ =~= seq![(name, value)]);
    DiagnosticRecord { level, module, message, fields }
}

/// An entry with two fields.
fn record_with_two(
    level: DiagnosticLevel,
    module: &'static str,
    message: &'static str,
    first: (&'static str, DiagnosticValue),
    second: (&'static str, DiagnosticValue),
) -> (r: DiagnosticRecord)
    ensures
        r@ == (RecordModel { level, module, message, fields: seq![first, second] }),
{
    let mut fields: Vec<(&'static str, DiagnosticValue)> = Vec::new();
    fields.push(first);
    fields.push(second);
    assert(fields@ =~= seq![first, second]);
    DiagnosticRecord { level, module, message, fields }
}

/// What the log says of an event.
pub fn record_connection_diagnostic(event: &ConnectionEvent) -> (r: Option<DiagnosticRecord>)
    ensures
        match *event {
            ConnectionEvent::Failed(error) => {
                &&& r is Some
                &&& r->0.level == DiagnosticLevel::Error
                &&& r->0.module == "ssh.connection"
                &&& r->0.message == "SSH connection failed"
                &&& r->0.fields@.len() == 2
                &&& r->0.fields@[0].0 == "stage"
                &&& is_stage_of(r->0.fields@[0].1, error)
                &&& r->0.fields@[1] == ("error", DiagnosticValue::Error(error))
            },
            _ => match record_of(*event) {
                Some(record) => r is Some && r->0@ == record,
                None => r is None,
            },
        },
{
    match event {
        ConnectionEvent::StateChanged(state) => Some(
            record_with(
                DiagnosticLevel::Info,
                "ssh.lifecycle",
                "SSH state changed",
                "state",
                DiagnosticValue::State(*state),
            ),
        ),
        ConnectionEvent::ConnectionStageChanged(stage) => Some(
            record_with(
                DiagnosticLevel::Info,
                "ssh.route",
                "SSH connection stage started",
                "stage",
                DiagnosticValue::Stage(stage.clone()),
            ),
        ),
        ConnectionEvent::AuthenticationSucceeded { stage, method } => Some(
            record_with_two(
                DiagnosticLevel::Info,
                "ssh.authentication",
                "SSH authentication succeeded",
                ("stage", DiagnosticValue::Stage(stage.clone())),
                ("method", DiagnosticValue::Text(method.clone())),
            ),
        ),
        ConnectionEvent::HostKeyVerificationRequired { stage, .. } => Some(
            record_with(
                DiagnosticLevel::Info,
                "ssh.host_key",
                "Host-key verification requires user confirmation",
                "stage",
                DiagnosticValue::Stage(stage.clone()),
            ),
        ),
        ConnectionEvent::DirectoryRead { .. } => Some(
            plain_record(
                DiagnosticLevel::Debug,
                "sftp.operation",
                "Remote directory read completed",
            ),
        ),
        ConnectionEvent::DirectoryTreeRead { .. } => Some(
            plain_record(
                DiagnosticLevel::Debug,
                "sftp.operation",
                "Remote directory tree read completed",
            ),
        ),
        ConnectionEvent::FileRead { .. } => Some(
            plain_record(DiagnosticLevel::Debug, "sftp.operation", "Remote file read completed"),
        ),
        ConnectionEvent::FileWritten { .. } => Some(
            plain_record(DiagnosticLevel::Info, "sftp.operation", "Remote file write completed"),
        ),
        ConnectionEvent::PathCreated { kind, .. } => Some(
            record_with(
                DiagnosticLevel::Info,
                "sftp.operation",
                "Remote path created",
                "kind",
                DiagnosticValue::Kind(*kind),
            ),
        ),
        ConnectionEvent::DirectoriesCreated { paths, .. } => Some(
            record_with(
                DiagnosticLevel::Info,
                "sftp.operation",
                "Remote directories created",
                "count",
                DiagnosticValue::Number(paths.len() as u64),
            ),
        ),
        ConnectionEvent::PathsDeleted { paths, .. } => Some(
            record_with(
                DiagnosticLevel::Info,
                "sftp.operation",
                "Remote paths deleted",
                "count",
                DiagnosticValue::Number(paths.len() as u64),
            ),
        ),
        ConnectionEvent::TransferCompleted { direction, bytes, .. } => Some(
            record_with_two(
                DiagnosticLevel::Info,
                "sftp.transfer",
                "SFTP transfer completed",
                ("direction", DiagnosticValue::Direction(*direction)),
                ("bytes", DiagnosticValue::Number(*bytes)),
            ),
        ),
        ConnectionEvent::TransferCancelled { .. } => Some(
            plain_record(DiagnosticLevel::Info, "sftp.transfer", "SFTP transfer cancelled"),
        ),
        ConnectionEvent::SftpFailed { operation, error, .. } => Some(
            record_with_two(
                DiagnosticLevel::Warn,
                "sftp.operation",
                "SFTP operation failed",
                ("operation", DiagnosticValue::Operation(*operation)),
                ("error_kind", DiagnosticValue::ErrorKind(error.kind)),
            ),
        ),
        ConnectionEvent::PerformanceFailed(error) => Some(
            record_with(
                DiagnosticLevel::Warn,
                "ssh.performance",
                "Performance sampling failed",
                "error_kind",
                DiagnosticValue::ErrorKind(error.kind),
            ),
        ),
        ConnectionEvent::Failed(error) => {
            let stage = match &error.stage {
                Some(stage) => DiagnosticValue::Stage(stage.clone()),
                None => DiagnosticValue::Text("".to_string()),
            };
            Some(
                record_with_two(
                    DiagnosticLevel::Error,
                    "ssh.connection",
                    "SSH connection failed",
                    ("stage", stage),
                    ("error", DiagnosticValue::Error(clone_error(error))),
                ),
            )
        },
        ConnectionEvent::Resized { .. }
        | ConnectionEvent::Shell(_)
        | ConnectionEvent::TransferProgress { .. }
        | ConnectionEvent::TransferConflict { .. }
        | ConnectionEvent::SftpAvailabilityChanged { .. }
        | ConnectionEvent::PerformanceSnapshot => None,
    }
}

/// What the log says when the user turns details on or off.
pub fn record_detail_switch(enabled: bool) -> (r: DiagnosticRecord)
    ensures
        r@ == (RecordModel {
            level: DiagnosticLevel::Info,
            module: "diagnostics.settings",
            message: if enabled {
                "Detailed diagnostics enabled for this run"
            } else {
                "Detailed diagnostics disabled"
            },
            fields: seq![],
        }),
{
    plain_record(
        DiagnosticLevel::Info,
        "diagnostics.settings",
        if enabled {
            "Detailed diagnostics enabled for this run"
        } else {
            "Detailed diagnostics disabled"
        },
    )
}

/// What the log says when the program starts.
pub fn record_program_start(version: String) -> (r: DiagnosticRecord)
    ensures
        r@ == (RecordModel {
            level: DiagnosticLevel::Info,
            module: "app.lifecycle",
            message: "RemCmd started",
            fields: seq![("version", DiagnosticValue::Text(version))],
        }),
{
    record_with(
        DiagnosticLevel::Info,
        "app.lifecycle",
        "RemCmd started",
        "version",
        DiagnosticValue::Text(version),
    )
}

/// What the log says when a connection to the server of a profile is started.
pub fn record_connection_start(profile: &ConnectionProfile) -> (r: DiagnosticRecord)
    ensures
        r@ == (RecordModel {
            level: DiagnosticLevel::Info,
            module: "ssh.connection",
            message: "SSH connection started",
            fields: seq![
                (
                    "jump_count",
                    DiagnosticValue::Number(profile.route.jump_host_ids@.len() as u64),
                ),
                ("proxy", DiagnosticValue::Flag(profile.route.upstream_proxy is Some)),
            ],
        }),
{
    record_with_two(
        DiagnosticLevel::Info,
        "ssh.connection",
        "SSH connection started",
        ("jump_count", DiagnosticValue::Number(profile.route.jump_host_ids.len() as u64)),
        ("proxy", DiagnosticValue::Flag(profile.route.upstream_proxy.is_some())),
    )
}

/// What the log says of a profile that was saved.
pub open spec fn saved_profile_record(profile: ConnectionProfile) -> RecordModel {
    RecordModel {
        level: DiagnosticLevel::Info,
        module: "profiles.save",
        message: "Connection profile saved",
        fields: seq![("has_route", DiagnosticValue::Flag(!is_direct_route(profile.route)))],
    }
}

/// What the log says of a profile that was saved.
pub fn record_profile_saved(profile: &ConnectionProfile) -> (r: DiagnosticRecord)
    ensures
        r@ == saved_profile_record(*profile),
{
    record_with(
        DiagnosticLevel::Info,
        "profiles.save",
        "Connection profile saved",
        "has_route",
        DiagnosticValue::Flag(!profile.route.is_direct()),
    )
}

/// What became of a step of taking an OpenSSH configuration over.
#[derive(Debug, PartialEq, Eq)]
pub enum ImportStep {
    /// The configuration was read; it offers this many hosts.
    Previewed { candidates: usize },
    /// The configuration could not be read, for a reason of this kind.
    PreviewFailed { error_kind: String },
    /// What was selected was taken over; this many profiles are new.
    Applied { new_profiles: usize },
    /// What was selected could not be taken over.
    ApplyFailed,
}

/// The field of the entry on the step is this one.
pub open spec fn is_import_field(step: ImportStep, field: (&'static str, DiagnosticValue)) -> bool {
    match step {
        ImportStep::Previewed { candidates } => field == (
            "candidate_count",
            DiagnosticValue::Number(candidates as u64),
        ),
        ImportStep::PreviewFailed { error_kind } => field == (
            "error_kind",
            DiagnosticValue::Text(error_kind),
        ),
        ImportStep::Applied { new_profiles } => field == (
            "new_profile_count",
            DiagnosticValue::Number(new_profiles as u64),
        ),
        ImportStep::ApplyFailed => field.0 == "error_kind" && match field.1 {
            DiagnosticValue::Text(text) => text@ == "apply"@,
            _ => false,
        },
    }
}

/// What the log says of a step of taking an OpenSSH configuration over.
pub fn record_import_step(step: ImportStep) -> (r: DiagnosticRecord)
    ensures
        r.level == match step {
            ImportStep::Previewed { .. } => DiagnosticLevel::Info,
            ImportStep::PreviewFailed { .. } => DiagnosticLevel::Warn,
            ImportStep::Applied { .. } => DiagnosticLevel::Info,
            ImportStep::ApplyFailed => DiagnosticLevel::Error,
        },
        r.module == "openssh.import",
        r.message == match step {
            ImportStep::Previewed { .. } => "OpenSSH import preview completed",
            ImportStep::PreviewFailed { .. } => "OpenSSH import preview failed",
            ImportStep::Applied { .. } => "OpenSSH import applied",
            ImportStep::ApplyFailed => "OpenSSH import apply failed",
        },
        r.fields@.len() == 1,
        is_import_field(step, r.fields@[0]),
{
    match step {
        ImportStep::Previewed { candidates } => record_with(
            DiagnosticLevel::Info,
            "openssh.import",
            "OpenSSH import preview completed",
            "candidate_count",
            DiagnosticValue::Number(candidates as u64),
        ),
        ImportStep::PreviewFailed { error_kind } => record_with(
            DiagnosticLevel::Warn,
            "openssh.import",
            "OpenSSH import preview failed",
            "error_kind",
            DiagnosticValue::Text(error_kind),
        ),
        ImportStep::Applied { new_profiles } => record_with(
            DiagnosticLevel::Info,
            "openssh.import",
            "OpenSSH import applied",
            "new_profile_count",
            DiagnosticValue::Number(new_profiles as u64),
        ),
        ImportStep::ApplyFailed => record_with(
            DiagnosticLevel::Error,
            "openssh.import",
            "OpenSSH import apply failed",
            "error_kind",
            DiagnosticValue::Text("apply".to_string()),
        ),
    }
}

/// An entry of the log.
#[derive(Debug, PartialEq, Eq)]
pub struct DiagnosticEvent {
    pub timestamp: String,
    pub level: DiagnosticLevel,
    pub module: String,
    pub message: String,
    pub fields: Vec<(String, String)>,
}

/// How a level stands out.
#[derive(Clone, Copy, Debug, PartialEq, Eq, Structural)]
pub enum DiagnosticTone {
    Error,
    Warning,
    Primary,
    Muted,
}

/// How a level stands out.
pub open spec fn level_tone(level: DiagnosticLevel) -> DiagnosticTone {
    match level {
        DiagnosticLevel::Error => DiagnosticTone::Error,
        DiagnosticLevel::Warn => DiagnosticTone::Warning,
        DiagnosticLevel::Info => DiagnosticTone::Primary,
        DiagnosticLevel::Debug | DiagnosticLevel::Trace => DiagnosticTone::Muted,
    }
}

/// How a level stands out.
pub fn diagnostic_tone(level: DiagnosticLevel) -> (r: DiagnosticTone)
    ensures
        r == level_tone(level),
{
    match level {
        DiagnosticLevel::Error => DiagnosticTone::Error,
        DiagnosticLevel::Warn => DiagnosticTone::Warning,
        DiagnosticLevel::Info => DiagnosticTone::Primary,
        DiagnosticLevel::Debug | DiagnosticLevel::Trace => DiagnosticTone::Muted,
    }
}

/// What the panel shows of an entry.
#[derive(Debug, PartialEq, Eq)]
pub struct DiagnosticRow {
    pub timestamp: String,
    pub label: &'static str,
    pub tone: DiagnosticTone,
    pub module: String,
    pub message: String,
    /// The fields on one line; none where there is nothing to show.
    pub fields: Option<String>,
}

/// The fields of an entry on one line.
pub open spec fn fields_text(fields: Seq<(String, String)>) -> Seq<char> {
    join_with(
        fields.map_values(|field: (String, String)| field.0@ + seq!['='] + field.1@),
        "  "@,
    )
}

/// The fields of an entry on one line.
pub fn diagnostic_fields_text(fields: &Vec<(String, String)>) -> (r: String)
    ensures
        r@ == fields_text(fields@),
{
    let mut pieces: Vec<String> = Vec::new();
    let mut i: usize = 0;
    while i < fields.len()
        invariant
            i <= fields@.len(),
            pieces@.len() == i,
            forall|k: int|
                0 <= k < i ==> (#[trigger] pieces@[k])@ == fields@[k].0@ + seq!['=']
                    + fields@[k].1@,
        decreases fields@.len() - i,
    {
        let mut piece = fields[i].0.clone();
        piece.push('=');
        piece.append(fields[i].1.as_str());
        assert(piece@ =~= fields@[i as int].0@ + seq!['='] + fields@[i as int].1@);
        pieces.push(piece);
        i = i + 1;
    }
    assert(views(pieces@) =~= fields@.map_values(
        |field: (String, String)| field.0@ + seq!['='] + field.1@,
    ));
    join_texts(&pieces, "  ")
}

/// The row shows the entry.
pub open spec fn is_row_of(row: DiagnosticRow, event: DiagnosticEvent) -> bool {
    &&& row.timestamp == event.timestamp
    &&& row.label == level_label(event.level)
    &&& row.tone == level_tone(event.level)
    &&& row.module == event.module
    &&& row.message == event.message
    &&& match row.fields {
        Some(text) => text@ == fields_text(event.fields@) && text@.len() > 0,
        None => fields_text(event.fields@).len() == 0,
    }
}

/// At most this many entries are shown.
pub const SHOWN_EVENTS: usize = 500;

/// What the panel shows of the log: the newest entries, the newest first.
pub fn diagnostic_rows(events: &Vec<DiagnosticEvent>) -> (r: Vec<DiagnosticRow>)
    ensures
        r@.len() == if events@.len() < SHOWN_EVENTS {
            events@.len() as int
        } else {
            SHOWN_EVENTS as int
        },
        forall|i: int|
            0 <= i < r@.len() ==> is_row_of(#[trigger] r@[i], events@[events@.len() - 1 - i]),
{
    let mut rows: Vec<DiagnosticRow> = Vec::new();
    let mut i: usize = events.len();
    while i > 0 && rows.len() < SHOWN_EVENTS
        invariant
            i <= events@.len(),
            rows@.len() == events@.len() - i,
            rows@.len() <= SHOWN_EVENTS,
            forall|k: int|
                0 <= k < rows@.len() ==> is_row_of(
                    #[trigger] rows@[k],
                    events@[events@.len() - 1 - k],
                ),
        decreases i,
    {
        i = i - 1;
        let event = &events[i];
        let text = diagnostic_fields_text(&event.fields);
        let row = DiagnosticRow {
            timestamp: event.timestamp.clone(),
            label: diagnostic_level_label(event.level),
            tone: diagnostic_tone(event.level),
            module: event.module.clone(),
            message: event.message.clone(),
            fields: if text_is_empty(text.as_str()) {
                None
            } else {
                Some(text)
            },
        };
        assert(is_row_of(row, *event));
        rows.push(row);
    }
    rows
}

/// The levels that the panel can be narrowed to; none for all of them.
pub fn diagnostic_level_filters() -> (r: Vec<Option<DiagnosticLevel>>)
    ensures
        r@ == seq![
            None,
            Some(DiagnosticLevel::Error),
            Some(DiagnosticLevel::Warn),
            Some(DiagnosticLevel::Info),
            Some(DiagnosticLevel::Debug),
        ],
{
    let mut levels: Vec<Option<DiagnosticLevel>> = Vec::new();
    levels.push(None);
    levels.push(Some(DiagnosticLevel::Error));
    levels.push(Some(DiagnosticLevel::Warn));
    levels.push(Some(DiagnosticLevel::Info));
    levels.push(Some(DiagnosticLevel::Debug));
    levels
}

/// The log holds no path, no name and no text of a server: the only text that an entry on an event
/// has is the way of a login that succeeded.
pub proof fn log_holds_no_names(event: ConnectionEvent, i: int)
    requires
        record_of(event) is Some,
        0 <= i < record_of(event)->0.fields.len(),
    ensures
        record_of(event)->0.fields[i].1 is Text ==> event is AuthenticationSucceeded,
        event matches ConnectionEvent::AuthenticationSucceeded { method, .. } ==> (record_of(
            event,
        )->0.fields[i].1 is Text ==> record_of(event)->0.fields[i].1 == DiagnosticValue::Text(
            method,
        )),
{
}

/// Entries on the work with files tell the same whatever the paths and numbers are.
pub proof fn log_forgets_paths(
    a: u64,
    b: u64,
    path: String,
    other: String,
    kind: crate::remote_files::RemoteFileKind,
    direction: SftpTransferDirection,
    bytes: u64,
    file: crate::session::RemoteFile,
    another: crate::session::RemoteFile,
)
    ensures
        record_of(ConnectionEvent::PathCreated { request_id: a, path, kind }) == record_of(
            ConnectionEvent::PathCreated { request_id: b, path: other, kind },
        ),
        record_of(
            ConnectionEvent::TransferCompleted { transfer_id: a, direction, path, bytes },
        ) == record_of(
            ConnectionEvent::TransferCompleted { transfer_id: b, direction, path: other, bytes },
        ),
        record_of(ConnectionEvent::FileRead { request_id: a, file }) == record_of(
            ConnectionEvent::FileRead { request_id: b, file: another },
        ),
        record_of(ConnectionEvent::FileWritten { request_id: a, file }) == record_of(
            ConnectionEvent::FileWritten { request_id: b, file: another },
        ),
{
}

/// A failure of work with files, or of sampling, is a warning in the log; what only reads is told
/// in detail alone, and nothing else of these is a warning. What comes too often, and what the
/// shell tells, is not in the log.
pub proof fn failures_are_warnings(event: ConnectionEvent)
    ensures
        record_of(event) matches Some(record) ==> {
            &&& record.level == DiagnosticLevel::Warn <==> event is SftpFailed
                || event is PerformanceFailed
            &&& record.level == DiagnosticLevel::Debug <==> event is DirectoryRead
                || event is DirectoryTreeRead || event is FileRead
            &&& record.level != DiagnosticLevel::Trace && record.level != DiagnosticLevel::Error
        },
        event is TransferProgress || event is TransferConflict || event is PerformanceSnapshot
            || event is Resized || event is Shell ==> record_of(event) is None,
        event is StateChanged || event is ConnectionStageChanged || event is TransferCompleted
            || event is TransferCancelled || event is FileWritten || event is PathCreated
            || event is PathsDeleted || event is SftpFailed ==> record_of(event) is Some,
{
}

/// Of a profile that was saved the log tells nothing but whether it has a route: profiles with the
/// same route are told alike.
pub proof fn saved_profile_is_not_named(a: ConnectionProfile, b: ConnectionProfile)
    requires
        a.route == b.route,
    ensures
        saved_profile_record(a) == saved_profile_record(b),
        saved_profile_record(a).fields.len() == 1,
        saved_profile_record(a).fields[0].1 is Flag,
{
}

} // verus!
