//! The panel at the bottom of the window: a local terminal, and the line that commands for several
//! servers are typed in.
use crate::message::SessionMessage;
use crate::profile::{find_profile, has_profile, profile_position, ConnectionProfile};
use crate::quick_commands::{
    candidate_views, is_available, profile_ids, quick_command_target_sessions, takes_input,
    target_sessions, target_views,
};
use crate::sequences::{count_where, count_where_push, first_index, first_index_is};
use crate::session::{find_session, has_session, session_position, Session, SessionId};
use crate::text::{
    contains_text, filter_push, join_texts, join_with, text_is_empty, trim, trimmed, views,
};
use crate::text_set::{toggled, TextSet};
use vstd::prelude::*;
use vstd::string::*;

verus! {

/// Why a command was not sent, or not to every server.
#[derive(Debug, PartialEq, Eq)]
pub enum QuickCommandError {
    /// There is no command.
    EnterCommand,
    /// No server is selected.
    SelectServer,
    /// None of the selected servers has a connection.
    ServersDisconnected,
    /// Sending failed; one line for each server.
    Failed(String),
}

impl QuickCommandError {
    /// The key of the text to show; none where the text is the error's own.
    pub fn key(&self) -> (r: Option<&'static str>)
        ensures
            r == match *self {
                QuickCommandError::EnterCommand => Some("quick-enter-command"),
                QuickCommandError::SelectServer => Some("quick-select-server"),
                QuickCommandError::ServersDisconnected => Some("quick-servers-disconnected"),
                QuickCommandError::Failed(_) => None,
            },
    {
        match self {
            QuickCommandError::EnterCommand => Some("quick-enter-command"),
            QuickCommandError::SelectServer => Some("quick-select-server"),
            QuickCommandError::ServersDisconnected => Some("quick-servers-disconnected"),
            QuickCommandError::Failed(_) => None,
        }
    }
}

/// The line that commands are typed in.
#[derive(Debug)]
pub struct QuickCommandPrompt {
    pub input: String,
    pub selected_profile_ids: TextSet,
    /// The user has chosen servers; until then all connected ones are selected.
    pub selection_touched: bool,
    pub target_menu_open: bool,
    pub error: Option<QuickCommandError>,
}

/// What a prompt holds.
pub struct PromptModel {
    pub input: Seq<char>,
    pub selected: Set<Seq<char>>,
    pub touched: bool,
    pub menu_open: bool,
    pub error: Option<QuickCommandError>,
}

impl QuickCommandPrompt {
    /// What the prompt holds.
    pub open spec fn view(&self) -> PromptModel {
        PromptModel {
            input: self.input@,
            selected: self.selected_profile_ids@,
            touched: self.selection_touched,
            menu_open: self.target_menu_open,
            error: self.error,
        }
    }
}

/// The panel.
#[derive(Debug)]
pub struct BottomPanel {
    pub open: bool,
    /// The user is dragging the panel's edge.
    pub resizing: bool,
    pub prompt: Option<QuickCommandPrompt>,
    pub quick_terminal: Option<SessionId>,
}

/// What a panel holds.
pub struct PanelModel {
    pub open: bool,
    pub resizing: bool,
    pub prompt: Option<PromptModel>,
    pub quick_terminal: Option<SessionId>,
}

/// What an optional prompt holds.
pub open spec fn prompt_view(prompt: Option<QuickCommandPrompt>) -> Option<PromptModel> {
    match prompt {
        Some(prompt) => Some(prompt@),
        None => None,
    }
}

/// A prompt that nothing was typed into, with the connected servers selected.
pub open spec fn fresh_prompt(connected: Seq<Seq<char>>) -> PromptModel {
    PromptModel {
        input: Seq::empty(),
        selected: connected.to_set(),
        touched: false,
        menu_open: false,
        error: None,
    }
}

/// The prompt with the connected servers selected, unless the user has chosen.
pub open spec fn synced(prompt: Option<PromptModel>, connected: Seq<Seq<char>>) -> Option<
    PromptModel,
> {
    match prompt {
        Some(prompt) if !prompt.touched => Some(
            PromptModel { selected: connected.to_set(), ..prompt },
        ),
        _ => prompt,
    }
}

/// What switching the panel came to.
#[derive(Clone, Copy, Debug, PartialEq, Eq, Structural)]
pub enum PanelSwitch {
    Closed,
    /// The panel is open; `start_terminal` where it has no terminal yet.
    Opened { start_terminal: bool },
}

/// A command to send.
#[derive(Debug, PartialEq, Eq)]
pub struct QuickCommand {
    /// The profiles that it goes to, each with its session.
    pub targets: Vec<(String, SessionId)>,
    /// What is sent.
    pub data: String,
}

/// Sessions as the choice of targets sees them.
pub open spec fn candidates<S>(sessions: Seq<Session<S>>) -> Seq<(SessionId, Seq<char>, bool)> {
    sessions.map_values(
        |session: Session<S>| (session.id, session.profile_id@, is_available(session)),
    )
}

/// Being a target whose session can be sent to.
pub open spec fn is_reachable<S>(sessions: Seq<Session<S>>) -> spec_fn(
    (Seq<char>, SessionId),
) -> bool {
    |target: (Seq<char>, SessionId)|
        has_session(sessions, target.1) && sessions[session_position(
            sessions,
            target.1,
        )].has_handle
}

/// Where a command with these servers selected goes.
pub open spec fn command_targets<S>(
    profiles: Seq<ConnectionProfile>,
    sessions: Seq<Session<S>>,
    selected: Set<Seq<char>>,
    active: Option<SessionId>,
) -> Seq<(Seq<char>, SessionId)> {
    target_sessions(profile_ids(profiles), selected, candidates(sessions), active).filter(
        is_reachable(sessions),
    )
}

/// What a click on a server in the list of targets comes to.
pub open spec fn target_toggled(
    before: PanelModel,
    id: Seq<char>,
    connected: Seq<Seq<char>>,
    after: PanelModel,
    r: bool,
) -> bool {
    &&& r <==> connected.contains(id) && before.prompt is Some
    &&& !r ==> after == before
    &&& r ==> after == (PanelModel {
        prompt: Some(
            PromptModel {
                selected: toggled(before.prompt->0.selected, id),
                touched: true,
                error: None,
                ..before.prompt->0
            },
        ),
        ..before
    })
}

/// Why the command in a prompt cannot be sent.
pub open spec fn command_error<S>(
    prompt: PromptModel,
    profiles: Seq<ConnectionProfile>,
    sessions: Seq<Session<S>>,
    active: Option<SessionId>,
) -> Option<QuickCommandError> {
    if trim(prompt.input).len() == 0 {
        Some(QuickCommandError::EnterCommand)
    } else if prompt.selected =~= Set::<Seq<char>>::empty() {
        Some(QuickCommandError::SelectServer)
    } else if command_targets(profiles, sessions, prompt.selected, active).len() == 0 {
        Some(QuickCommandError::ServersDisconnected)
    } else {
        None
    }
}

/// What submitting the command in the panel's prompt comes to.
pub open spec fn submitted<S>(
    before: PanelModel,
    profiles: Seq<ConnectionProfile>,
    sessions: Seq<Session<S>>,
    active: Option<SessionId>,
    after: PanelModel,
    r: Option<QuickCommand>,
) -> bool {
    match before.prompt {
        None => r is None && after == before,
        Some(prompt) => match command_error(prompt, profiles, sessions, active) {
            Some(error) => r is None && after == (PanelModel {
                prompt: Some(PromptModel { error: Some(error), ..prompt }),
                ..before
            }),
            None => r is Some && after == before && target_views(r->0.targets@)
                == command_targets(profiles, sessions, prompt.selected, active) && r->0.data@
                == trim(prompt.input).push('\r'),
        },
    }
}

/// The name that a failure is reported under: the profile's, else its identifier.
pub open spec fn failure_label(profiles: Seq<ConnectionProfile>, id: Seq<char>) -> Seq<char> {
    if has_profile(profiles, id) {
        profiles[profile_position(profiles, id)].name@
    } else {
        id
    }
}

/// The lines that report failures.
pub open spec fn failure_lines(
    profiles: Seq<ConnectionProfile>,
    failures: Seq<(String, String)>,
) -> Seq<Seq<char>> {
    failures.map_values(
        |failure: (String, String)|
            failure_label(profiles, failure.0@) + seq![':', ' '] + failure.1@,
    )
}

/// The targets whose sessions can be sent to.
fn reachable_targets<S>(
    targets: Vec<(String, SessionId)>,
    sessions: &Vec<Session<S>>,
) -> (r: Vec<(String, SessionId)>)
    ensures
        target_views(r@) == target_views(targets@).filter(is_reachable(sessions@)),
{
    let mut out: Vec<(String, SessionId)> = Vec::new();
    let mut i: usize = 0;
    let ghost all = target_views(targets@);
    proof {
        reveal(Seq::filter);
    }
    assert(target_views(out@) =~= all.take(0).filter(is_reachable(sessions@)));
    while i < targets.len()
        invariant
            i <= targets@.len(),
            all == target_views(targets@),
            target_views(out@) == all.take(i as int).filter(is_reachable(sessions@)),
        decreases targets@.len() - i,
    {
        let ghost before = all.take(i as int);
        let ghost kept = target_views(out@);
        let ghost reachable = is_reachable(sessions@);
        proof {
            assert(all.take(i + 1) =~= before.push(all[i as int]));
            filter_push(before, all[i as int], reachable);
        }
        match find_session(sessions, targets[i].1) {
            Some(k) => {
                if sessions[k].has_handle {
                    out.push((targets[i].0.clone(), targets[i].1));
                    proof {
                        assert(reachable(all[i as int]));
                        assert(target_views(out@) =~= kept.push(all[i as int]));
                    }
                } else {
                    assert(!reachable(all[i as int]));
                }
            },
            None => {
                assert(!reachable(all[i as int]));
            },
        }
        i = i + 1;
    }
    assert(all.take(i as int) =~= all);
    out
}

/// Where a command with these servers selected goes.
fn choose_targets<S>(
    profiles: &Vec<ConnectionProfile>,
    sessions: &Vec<Session<S>>,
    selected: &TextSet,
    active: Option<SessionId>,
) -> (r: Vec<(String, SessionId)>)
    ensures
        target_views(r@) == command_targets(profiles@, sessions@, selected@, active),
{
    let mut ids: Vec<String> = Vec::new();
    let mut i: usize = 0;
    while i < profiles.len()
        invariant
            i <= profiles@.len(),
            ids@.len() == i,
            forall|k: int| 0 <= k < i ==> (#[trigger] ids@[k])@ == profiles@[k].id@,
        decreases profiles@.len() - i,
    {
        ids.push(profiles[i].id.clone());
        i = i + 1;
    }
    assert(views(ids@) =~= profile_ids(profiles@));
    let mut list: Vec<(SessionId, &str, bool)> = Vec::new();
    let mut j: usize = 0;
    while j < sessions.len()
        invariant
            j <= sessions@.len(),
            list@.len() == j,
            forall|k: int|
                0 <= k < j ==> (#[trigger] list@[k]).0 == sessions@[k].id && list@[k].1@
                    == sessions@[k].profile_id@ && list@[k].2 == is_available(sessions@[k]),
        decreases sessions@.len() - j,
    {
        list.push((sessions[j].id, sessions[j].profile_id.as_str(), takes_input(&sessions[j])));
        j = j + 1;
    }
    assert(candidate_views(list@) =~= candidates(sessions@));
    let targets = quick_command_target_sessions(&ids, selected, list.as_slice(), active);
    reachable_targets(targets, sessions)
}

impl BottomPanel {
    /// What the panel holds.
    pub open spec fn view(&self) -> PanelModel {
        PanelModel {
            open: self.open,
            resizing: self.resizing,
            prompt: prompt_view(self.prompt),
            quick_terminal: self.quick_terminal,
        }
    }

    /// Makes sure that there is a line to type commands in.
    pub fn ensure_quick_command_prompt(&mut self, connected: &Vec<String>)
        ensures
            final(self)@ == (PanelModel {
                prompt: match old(self)@.prompt {
                    Some(prompt) => Some(prompt),
                    None => Some(fresh_prompt(views(connected@))),
                },
                ..old(self)@
            }),
    {
        if self.prompt.is_some() {
            return;
        }
        let input = String::from_str("");
        proof {
            reveal_strlit("");
            assert(input@ =~= Seq::<char>::empty());
        }
        self.prompt = Some(
            QuickCommandPrompt {
                input,
                selected_profile_ids: TextSet::from_texts(connected),
                selection_touched: false,
                target_menu_open: false,
                error: None,
            },
        );
    }

    /// Selects the connected servers, unless the user has chosen.
    pub fn sync_default_quick_command_targets(&mut self, connected: &Vec<String>)
        ensures
            final(self)@ == (PanelModel {
                prompt: synced(old(self)@.prompt, views(connected@)),
                ..old(self)@
            }),
    {
        match self.prompt.as_mut() {
            Some(prompt) => {
                if !prompt.selection_touched {
                    prompt.selected_profile_ids = TextSet::from_texts(connected);
                }
            },
            None => (),
        }
    }

    /// Closes the panel; says whether it was open.
    pub fn close_quick_command(&mut self) -> (r: bool)
        ensures
            r == old(self).open,
            final(self)@ == (PanelModel {
                open: false,
                resizing: old(self).resizing && !old(self).open,
                ..old(self)@
            }),
    {
        let was_open = self.open;
        if was_open {
            self.open = false;
            self.resizing = false;
        }
        was_open
    }

    /// Opens the panel, or closes it.
    pub fn toggle_bottom_panel(&mut self, connected: &Vec<String>) -> (r: PanelSwitch)
        ensures
            old(self).open ==> r == PanelSwitch::Closed && final(self)@ == (PanelModel {
                open: false,
                resizing: false,
                ..old(self)@
            }),
            !old(self).open ==> r == (PanelSwitch::Opened {
                start_terminal: old(self).quick_terminal is None,
            }) && final(self)@ == (PanelModel {
                open: true,
                prompt: match old(self)@.prompt {
                    Some(prompt) => synced(Some(prompt), views(connected@)),
                    None => Some(fresh_prompt(views(connected@))),
                },
                ..old(self)@
            }),
    {
        if self.open {
            self.open = false;
            self.resizing = false;
            return PanelSwitch::Closed;
        }
        self.ensure_quick_command_prompt(connected);
        self.sync_default_quick_command_targets(connected);
        self.open = true;
        PanelSwitch::Opened { start_terminal: self.quick_terminal.is_none() }
    }

    /// Opens or closes the menu of servers; says whether there is one.
    pub fn toggle_quick_command_targets(&mut self) -> (r: bool)
        ensures
            r == (old(self).prompt is Some),
            final(self)@ == (PanelModel {
                prompt: match old(self)@.prompt {
                    Some(prompt) => Some(PromptModel { menu_open: !prompt.menu_open, ..prompt }),
                    None => None,
                },
                ..old(self)@
            }),
    {
        match self.prompt.as_mut() {
            Some(prompt) => {
                prompt.target_menu_open = !prompt.target_menu_open;
                true
            },
            None => false,
        }
    }

    /// Selects a connected server, or takes it out of the selection; says whether that was done.
    pub fn toggle_quick_command_target(
        &mut self,
        profile_id: String,
        connected: &Vec<String>,
    ) -> (r: bool)
        ensures
            target_toggled(old(self)@, profile_id@, views(connected@), final(self)@, r),
    {
        if !contains_text(connected, profile_id.as_str()) {
            return false;
        }
        match self.prompt.as_mut() {
            Some(prompt) => {
                prompt.selected_profile_ids.toggle(profile_id);
                prompt.selection_touched = true;
                prompt.error = None;
                true
            },
            None => false,
        }
    }

    /// The command to send, where there is one; else the prompt says why there is none.
    pub fn submit_quick_command<S>(
        &mut self,
        profiles: &Vec<ConnectionProfile>,
        sessions: &Vec<Session<S>>,
        active: Option<SessionId>,
    ) -> (r: Option<QuickCommand>)
        ensures
            submitted(old(self)@, profiles@, sessions@, active, final(self)@, r),
    {
        match self.prompt.as_mut() {
            Some(prompt) => {
                let command = trimmed(prompt.input.as_str());
                if text_is_empty(command) {
                    prompt.error = Some(QuickCommandError::EnterCommand);
                    return None;
                }
                if prompt.selected_profile_ids.is_empty() {
                    prompt.error = Some(QuickCommandError::SelectServer);
                    return None;
                }
                let targets = choose_targets(
                    profiles,
                    sessions,
                    &prompt.selected_profile_ids,
                    active,
                );
                assert(target_views(targets@).len() == targets@.len());
                if targets.len() == 0 {
                    prompt.error = Some(QuickCommandError::ServersDisconnected);
                    return None;
                }
                let mut data = command.to_string();
                data.push('\r');
                Some(QuickCommand { targets, data })
            },
            None => None,
        }
    }

    /// Takes note of how sending went: which profiles it failed for, and why.
    pub fn finish_quick_command(
        &mut self,
        failures: &Vec<(String, String)>,
        profiles: &Vec<ConnectionProfile>,
    )
        ensures
            match old(self)@.prompt {
                None => final(self)@ == old(self)@,
                Some(prompt) => if failures@.len() == 0 {
                    final(self)@ == (PanelModel {
                        prompt: Some(PromptModel { error: None, input: Seq::empty(), ..prompt }),
                        ..old(self)@
                    })
                } else {
                    final(self)@ == (PanelModel {
                        prompt: Some(PromptModel { error: final(self)@.prompt->0.error, ..prompt }),
                        ..old(self)@
                    }) && match final(self)@.prompt->0.error {
                        Some(QuickCommandError::Failed(text)) => text@ == join_with(
                            failure_lines(profiles@, failures@),
                            "\n"@,
                        ),
                        _ => false,
                    }
                },
            },
    {
        let mut lines: Vec<String> = Vec::new();
        let mut i: usize = 0;
        while i < failures.len()
            invariant
                i <= failures@.len(),
                lines@.len() == i,
                forall|k: int|
                    0 <= k < i ==> (#[trigger] lines@[k])@ == failure_lines(
                        profiles@,
                        failures@,
                    )[k],
            decreases failures@.len() - i,
        {
            let id = failures[i].0.as_str();
            let mut line = match find_profile(profiles, id) {
                Some(k) => profiles[k].name.clone(),
                None => id.to_string(),
            };
            let ghost label = line@;
            line.push(':');
            line.push(' ');
            line.append(failures[i].1.as_str());
            assert(line@ =~= label + seq![':', ' '] + failures@[i as int].1@);
            lines.push(line);
            i = i + 1;
        }
        assert(views(lines@) =~= failure_lines(profiles@, failures@));
        match self.prompt.as_mut() {
            Some(prompt) => {
                if failures.len() == 0 {
                    prompt.error = None;
                    prompt.input = String::from_str("");
                    proof {
                        reveal_strlit("");
                        assert(prompt.input@ =~= Seq::<char>::empty());
                    }
                } else {
                    prompt.error = Some(QuickCommandError::Failed(join_texts(&lines, "\n")));
                }
            },
            None => (),
        }
    }
}

/// What disposing of the panel's terminal takes.
#[derive(Clone, Copy, Debug, PartialEq, Eq, Structural)]
pub enum TerminalDisposal {
    /// There is no terminal.
    Nothing,
    /// The session is to be disconnected, and goes once it is.
    Disconnect(SessionId),
    /// The session is to be removed.
    Remove(SessionId),
}

/// What disposing of the terminal takes.
pub open spec fn disposal_of<S>(
    sessions: Seq<Session<S>>,
    terminal: Option<SessionId>,
) -> TerminalDisposal {
    match terminal {
        None => TerminalDisposal::Nothing,
        Some(id) => if has_session(sessions, id) && sessions[session_position(
            sessions,
            id,
        )].connection_state.is_live() {
            TerminalDisposal::Disconnect(id)
        } else {
            TerminalDisposal::Remove(id)
        },
    }
}

/// Disposes of the panel's terminal: says what that takes, and marks a session that is live to go
/// once it is disconnected.
pub fn dispose_quick_terminal<S>(
    terminal: Option<SessionId>,
    sessions: &mut Vec<Session<S>>,
) -> (r: TerminalDisposal)
    ensures
        r == disposal_of(old(sessions)@, terminal),
        match r {
            TerminalDisposal::Disconnect(id) => final(sessions)@ == old(sessions)@.update(
                session_position(old(sessions)@, id),
                Session {
                    close_when_disconnected: true,
                    ..old(sessions)@[session_position(old(sessions)@, id)]
                },
            ),
            _ => final(sessions)@ == old(sessions)@,
        },
{
    let id = match terminal {
        Some(id) => id,
        None => return TerminalDisposal::Nothing,
    };
    match find_session(sessions, id) {
        Some(i) => {
            if sessions[i].connection_state.can_disconnect() {
                sessions[i].close_when_disconnected = true;
                TerminalDisposal::Disconnect(id)
            } else {
                TerminalDisposal::Remove(id)
            }
        },
        None => TerminalDisposal::Remove(id),
    }
}

/// The terminal's shell is to be started: the session is there and rests.
pub fn restart_quick_terminal<S>(terminal: SessionId, sessions: &Vec<Session<S>>) -> (r: bool)
    ensures
        r <==> has_session(sessions@, terminal) && sessions@[session_position(
            sessions@,
            terminal,
        )].connection_state.is_idle(),
{
    match find_session(sessions, terminal) {
        Some(i) => sessions[i].connection_state.can_connect(),
        None => false,
    }
}

/// What to say below a terminal that has ended; none for the usual text.
pub fn quick_terminal_message<S>(session: &Session<S>) -> (r: Option<&SessionMessage>)
    ensures
        r == match session.connection_error {
            Some(error) => Some(&error),
            None => match session.terminal_end_reason {
                Some(reason) => Some(&reason),
                None => None,
            },
        },
{
    match &session.connection_error {
        Some(error) => Some(error),
        None => match &session.terminal_end_reason {
            Some(reason) => Some(reason),
            None => None,
        },
    }
}

/// How the selection of servers is described.
#[derive(Debug, PartialEq, Eq)]
pub enum TargetLabel {
    /// Every connected server.
    All,
    /// No connected server.
    NoServer,
    /// One server, by its name.
    Named(String),
    /// One server whose profile is gone.
    OneServer,
    /// This many servers.
    Count(usize),
}

impl TargetLabel {
    /// The key of the text to show; none where the text is a server's name.
    pub fn key(&self) -> (r: Option<&'static str>)
        ensures
            r == match *self {
                TargetLabel::All => Some("quick-all-servers"),
                TargetLabel::NoServer => Some("quick-no-servers"),
                TargetLabel::Named(_) => None,
                TargetLabel::OneServer => Some("quick-one-server"),
                TargetLabel::Count(_) => Some("quick-server-count"),
            },
    {
        match self {
            TargetLabel::All => Some("quick-all-servers"),
            TargetLabel::NoServer => Some("quick-no-servers"),
            TargetLabel::Named(_) => None,
            TargetLabel::OneServer => Some("quick-one-server"),
            TargetLabel::Count(_) => Some("quick-server-count"),
        }
    }
}

/// Being selected.
pub open spec fn is_selected(selected: Set<Seq<char>>) -> spec_fn(Seq<char>) -> bool {
    |id: Seq<char>| selected.contains(id)
}

/// How many of the connected servers are selected.
pub open spec fn selected_count(connected: Seq<Seq<char>>, selected: Set<Seq<char>>) -> nat {
    count_where(connected, is_selected(selected))
}

/// How many of the connected servers are selected, and the first that is.
fn count_selected(connected: &Vec<String>, selected: &TextSet) -> (r: (usize, Option<usize>))
    ensures
        r.0 == selected_count(views(connected@), selected@),
        match r.1 {
            Some(i) => i < connected@.len() && selected@.contains(connected@[i as int]@)
                && first_index(views(connected@), is_selected(selected@)) == i,
            None => r.0 == 0,
        },
{
    let mut count: usize = 0;
    let mut first: Option<usize> = None;
    let mut i: usize = 0;
    let ghost ids = views(connected@);
    let ghost chosen = is_selected(selected@);
    proof {
        reveal(Seq::filter);
        assert(ids.take(0) =~= Seq::<Seq<char>>::empty());
    }
    while i < connected.len()
        invariant
            i <= connected@.len(),
            ids == views(connected@),
            chosen == is_selected(selected@),
            count <= i,
            count == count_where(ids.take(i as int), chosen),
            match first {
                Some(k) => k < i && chosen(ids[k as int]) && forall|j: int|
                    0 <= j < k ==> !chosen(#[trigger] ids[j]),
                None => count == 0 && forall|j: int| 0 <= j < i ==> !chosen(#[trigger] ids[j]),
            },
        decreases connected@.len() - i,
    {
        proof {
            assert(ids.take(i + 1) =~= ids.take(i as int).push(ids[i as int]));
            count_where_push(ids.take(i as int), ids[i as int], chosen);
        }
        if selected.contains(connected[i].as_str()) {
            assert(chosen(ids[i as int]));
            count = count + 1;
            if first.is_none() {
                first = Some(i);
            }
        } else {
            assert(!chosen(ids[i as int]));
        }
        i = i + 1;
    }
    proof {
        assert(ids.take(i as int) =~= ids);
        match first {
            Some(k) => first_index_is(ids, chosen, k as int),
            None => (),
        }
    }
    (count, first)
}

/// How the selection of servers is described.
pub fn quick_command_target_label(
    connected: &Vec<String>,
    selected: &TextSet,
    profiles: &Vec<ConnectionProfile>,
) -> (r: TargetLabel)
    ensures
        ({
            let ids = views(connected@);
            let count = selected_count(ids, selected@);
            let id = ids[first_index(ids, is_selected(selected@))];
            if count == ids.len() && ids.len() > 0 {
                r == TargetLabel::All
            } else if count == 0 {
                r == TargetLabel::NoServer
            } else if count > 1 {
                r == TargetLabel::Count(count as usize)
            } else if has_profile(profiles@, id) {
                r == TargetLabel::Named(profiles@[profile_position(profiles@, id)].name)
            } else {
                r == TargetLabel::OneServer
            }
        }),
{
    let (count, first) = count_selected(connected, selected);
    assert(views(connected@).len() == connected.len());
    if count == connected.len() && connected.len() > 0 {
        return TargetLabel::All;
    }
    match first {
        None => TargetLabel::NoServer,
        Some(i) => {
            proof {
                assert(views(connected@)[i as int] == connected@[i as int]@);
            }
            if count == 0 {
                TargetLabel::NoServer
            } else if count == 1 {
                match find_profile(profiles, connected[i].as_str()) {
                    Some(k) => TargetLabel::Named(profiles[k].name.clone()),
                    None => TargetLabel::OneServer,
                }
            } else {
                TargetLabel::Count(count)
            }
        },
    }
}

/// The button that sends the command is enabled.
pub fn quick_command_run_enabled(input: &str, connected: &Vec<String>, selected: &TextSet) -> (r:
    bool)
    ensures
        r <==> trim(input@).len() > 0 && selected_count(views(connected@), selected@) > 0,
{
    let (count, _) = count_selected(connected, selected);
    !text_is_empty(trimmed(input)) && count > 0
}

/// One server in the menu of servers.
#[derive(Debug, PartialEq, Eq)]
pub struct TargetOption {
    /// The position among the connected servers.
    pub index: usize,
    pub profile_id: String,
    pub name: String,
    pub selected: bool,
}

/// The option stands for the connected server at its position.
pub open spec fn is_option_of(
    option: TargetOption,
    connected: Seq<Seq<char>>,
    selected: Set<Seq<char>>,
    profiles: Seq<ConnectionProfile>,
) -> bool {
    &&& option.index < connected.len()
    &&& option.profile_id@ == connected[option.index as int]
    &&& option.selected == selected.contains(option.profile_id@)
    &&& option.name == profiles[profile_position(profiles, option.profile_id@)].name
}

/// The positions of the connected servers whose profiles are known.
pub open spec fn known_positions(
    connected: Seq<Seq<char>>,
    profiles: Seq<ConnectionProfile>,
) -> Seq<int>
    decreases connected.len(),
{
    if connected.len() == 0 {
        Seq::empty()
    } else if has_profile(profiles, connected.last()) {
        known_positions(connected.drop_last(), profiles).push(connected.len() - 1)
    } else {
        known_positions(connected.drop_last(), profiles)
    }
}

/// The menu of servers: the connected ones whose profiles are known, in their order.
pub fn quick_command_target_options(
    connected: &Vec<String>,
    selected: &TextSet,
    profiles: &Vec<ConnectionProfile>,
) -> (r: Vec<TargetOption>)
    ensures
        r@.len() == known_positions(views(connected@), profiles@).len(),
        forall|i: int|
            0 <= i < r@.len() ==> (#[trigger] r@[i]).index == known_positions(
                views(connected@),
                profiles@,
            )[i] && is_option_of(r@[i], views(connected@), selected@, profiles@),
{
    let mut options: Vec<TargetOption> = Vec::new();
    let mut i: usize = 0;
    let ghost ids = views(connected@);
    assert(ids.take(0) =~= Seq::<Seq<char>>::empty());
    while i < connected.len()
        invariant
            i <= connected@.len(),
            ids == views(connected@),
            options@.len() == known_positions(ids.take(i as int), profiles@).len(),
            forall|k: int|
                0 <= k < options@.len() ==> (#[trigger] options@[k]).index == known_positions(
                    ids.take(i as int),
                    profiles@,
                )[k] && is_option_of(options@[k], ids, selected@, profiles@),
        decreases connected@.len() - i,
    {
        proof {
            assert(ids.take(i + 1).drop_last() =~= ids.take(i as int));
            assert(ids.take(i + 1).last() == connected@[i as int]@);
        }
        let id = connected[i].as_str();
        match find_profile(profiles, id) {
            Some(k) => {
                let option = TargetOption {
                    index: i,
                    profile_id: id.to_string(),
                    name: profiles[k].name.clone(),
                    selected: selected.contains(id),
                };
                assert(is_option_of(option, ids, selected@, profiles@));
                options.push(option);
            },
            None => (),
        }
        i = i + 1;
    }
    assert(ids.take(i as int) =~= ids);
    options
}

/// What is sent is what was typed, from its first to its last character that is no white space,
/// and a carriage return behind it. Nothing is sent where only white space was typed or no server
/// is selected; the prompt then says why. What was typed stays in the prompt.
pub proof fn command_is_sent_as_typed<S>(
    before: PanelModel,
    profiles: Seq<ConnectionProfile>,
    sessions: Seq<Session<S>>,
    active: Option<SessionId>,
    after: PanelModel,
    r: Option<QuickCommand>,
) -> (ends: (int, int))
    requires
        submitted(before, profiles, sessions, active, after, r),
        before.prompt is Some,
    ensures
        after.prompt is Some,
        after.prompt->0.input == before.prompt->0.input,
        after.prompt->0.selected == before.prompt->0.selected,
        after.prompt->0.touched == before.prompt->0.touched,
        after.open == before.open && after.quick_terminal == before.quick_terminal,
        r is None ==> after.prompt->0.error is Some,
        r matches Some(command) ==> {
            let input = before.prompt->0.input;
            &&& after == before
            &&& 0 <= ends.0 < ends.1 <= input.len()
            &&& command.data@ == input.subrange(ends.0, ends.1).push('\r')
            &&& !crate::text::is_white_space(input[ends.0]) && !crate::text::is_white_space(
                input[ends.1 - 1],
            )
            &&& forall|i: int|
                0 <= i < ends.0 || ends.1 <= i < input.len() ==> crate::text::is_white_space(
                    #[trigger] input[i],
                )
            &&& command.targets@.len() > 0
        },
        (forall|i: int|
            0 <= i < before.prompt->0.input.len() ==> crate::text::is_white_space(
                #[trigger] before.prompt->0.input[i],
            )) ==> r is None && after.prompt->0.error == Some(QuickCommandError::EnterCommand),
        (forall|id: Seq<char>| !(#[trigger] before.prompt->0.selected.contains(id))) ==> r is None,
{
    let input = before.prompt->0.input;
    let ends = crate::text::trim_cuts_only_the_ends(input);
    let text = trim(input);
    if r is Some {
        assert(text.len() > 0);
        assert(text[0] == input[ends.0]);
        assert(text.last() == input[ends.1 - 1]);
        assert(target_views(r->0.targets@).len() == r->0.targets@.len());
    }
    if text.len() > 0 {
        assert(!crate::text::is_white_space(input[ends.0]));
    }
    if forall|id: Seq<char>| !(#[trigger] before.prompt->0.selected.contains(id)) {
        assert(before.prompt->0.selected =~= Set::<Seq<char>>::empty());
    }
    ends
}

/// A command goes only to servers that are selected and have a profile, to each once, and there to
/// a session of that profile whose connection to the server stands and can be sent to.
pub proof fn command_reaches_selected_servers<S>(
    before: PanelModel,
    profiles: Seq<ConnectionProfile>,
    sessions: Seq<Session<S>>,
    active: Option<SessionId>,
    after: PanelModel,
    command: QuickCommand,
    i: int,
    j: int,
)
    requires
        submitted(before, profiles, sessions, active, after, Some(command)),
        0 <= i < command.targets@.len(),
    ensures
        before.prompt is Some,
        before.prompt->0.selected.contains(command.targets@[i].0@),
        exists|k: int|
            0 <= k < profiles.len() && (#[trigger] profiles[k]).id@ == command.targets@[i].0@,
        exists|k: int|
            0 <= k < sessions.len() && (#[trigger] sessions[k]).id == command.targets@[i].1
                && sessions[k].profile_id@ == command.targets@[i].0@ && sessions[k].kind
                == crate::session::TerminalSessionKind::Ssh && sessions[k].connection_state
                == crate::session::SessionState::Connected && sessions[k].has_handle,
        i < j < command.targets@.len() ==> command.targets@[i].0@ != command.targets@[j].0@,
{
    let selected = before.prompt->0.selected;
    let ids = profile_ids(profiles);
    let seen = candidates(sessions);
    let all = target_sessions(ids, selected, seen, active);
    let reachable = is_reachable(sessions);
    let chosen = all.filter(reachable);
    crate::quick_commands::each_server_is_targeted_once(ids, selected, seen, active);
    assert(chosen == target_views(command.targets@));
    assert(chosen[i] == (command.targets@[i].0@, command.targets@[i].1));
    let at = kept_stands_before(all, reachable, i, j);
    assert(all[at.0] == chosen[i]);
    let k = ids.index_of(all[at.0].0);
    assert(profiles[k].id@ == command.targets@[i].0@);
    crate::quick_commands::target_takes_input(seen, active, all[at.0].0);
    let s = choose|s: int|
        0 <= s < seen.len() && (#[trigger] seen[s]).0 == all[at.0].1
            && crate::quick_commands::candidate_serves(seen[s], all[at.0].0);
    assert(sessions[s].id == command.targets@[i].1);
    if i < j < chosen.len() {
        assert(chosen[j] == (command.targets@[j].0@, command.targets@[j].1));
    }
}

/// Where the elements that pass a test stand in the list they come from: in the same order.
proof fn kept_stands_before<A>(list: Seq<A>, test: spec_fn(A) -> bool, i: int, j: int) -> (r: (
    int,
    int,
))
    requires
        0 <= i < list.filter(test).len(),
    ensures
        0 <= r.0 < list.len(),
        list[r.0] == list.filter(test)[i],
        test(list[r.0]),
        i < j < list.filter(test).len() ==> r.0 < r.1 < list.len() && list[r.1] == list.filter(
            test,
        )[j],
    decreases list.len(),
{
    reveal(Seq::filter);
    let rest = list.drop_last();
    assert(list =~= rest.push(list.last()));
    filter_push(rest, list.last(), test);
    let kept = rest.filter(test);
    if i < kept.len() {
        let r = kept_stands_before(rest, test, i, j);
        assert(rest[r.0] == list[r.0]);
        if j < kept.len() {
            r
        } else {
            (r.0, list.len() - 1)
        }
    } else {
        (list.len() - 1, list.len() - 1)
    }
}

/// Every selected server that has a profile and a session that takes input gets the command, where
/// no two sessions have the same number.
pub proof fn command_leaves_no_server_out<S>(
    before: PanelModel,
    profiles: Seq<ConnectionProfile>,
    sessions: Seq<Session<S>>,
    active: Option<SessionId>,
    after: PanelModel,
    command: QuickCommand,
    p: int,
    s: int,
)
    requires
        submitted(before, profiles, sessions, active, after, Some(command)),
        forall|a: int, b: int|
            0 <= a < b < sessions.len() ==> (#[trigger] sessions[a]).id != (
            #[trigger] sessions[b]).id,
        0 <= p < profiles.len(),
        before.prompt->0.selected.contains(profiles[p].id@),
        0 <= s < sessions.len(),
        sessions[s].profile_id@ == profiles[p].id@,
        sessions[s].kind == crate::session::TerminalSessionKind::Ssh,
        sessions[s].connection_state == crate::session::SessionState::Connected,
        sessions[s].has_handle,
    ensures
        exists|i: int|
            0 <= i < command.targets@.len() && (#[trigger] command.targets@[i]).0@
                == profiles[p].id@,
{
    let id = profiles[p].id@;
    let selected = before.prompt->0.selected;
    let ids = profile_ids(profiles);
    let seen = candidates(sessions);
    let all = target_sessions(ids, selected, seen, active);
    let reachable = is_reachable(sessions);
    let chosen = all.filter(reachable);
    crate::quick_commands::each_server_is_targeted_once(ids, selected, seen, active);
    crate::quick_commands::target_takes_input(seen, active, id);
    assert(ids[p] == id);
    assert(crate::quick_commands::candidate_serves(seen[s], id));
    let session = crate::quick_commands::target_session(seen, active, id);
    assert(session is Some);
    let k = choose|k: int| 0 <= k < all.len() && (#[trigger] all[k]).0 == id;
    let t = choose|t: int|
        0 <= t < seen.len() && (#[trigger] seen[t]).0 == session->0
            && crate::quick_commands::candidate_serves(seen[t], id);
    assert(sessions[t].id == all[k].1);
    first_index_is(sessions, crate::session::has_session_id::<S>(all[k].1), t);
    assert(reachable(all[k]));
    crate::sequences::filter_is_exact(all, reachable, all[k]);
    let i = chosen.index_of(all[k]);
    assert(target_views(command.targets@)[i] == (
        command.targets@[i].0@,
        command.targets@[i].1,
    ));
    assert(command.targets@[i].0@ == id);
}

/// A failure is told under the name of the first profile with its identifier, or under the
/// identifier where there is none; each failure has a line of its own.
pub proof fn failures_are_told_one_by_one(
    profiles: Seq<ConnectionProfile>,
    failures: Seq<(String, String)>,
    i: int,
    p: int,
)
    requires
        0 <= i < failures.len(),
        0 <= p <= profiles.len(),
        p < profiles.len() ==> profiles[p].id@ == failures[i].0@,
        forall|k: int| 0 <= k < p ==> (#[trigger] profiles[k]).id@ != failures[i].0@,
    ensures
        failure_lines(profiles, failures).len() == failures.len(),
        failure_lines(profiles, failures)[i] == (if p < profiles.len() {
            profiles[p].name@
        } else {
            failures[i].0@
        }) + seq![':', ' '] + failures[i].1@,
{
    first_index_is(profiles, crate::profile::has_profile_id(failures[i].0@), p);
}

/// While the user has not chosen, the servers that are connected are the ones selected; once the
/// user has chosen, the choice stays.
pub proof fn choice_of_servers_stays(prompt: PromptModel, connected: Seq<Seq<char>>, id: Seq<char>)
    ensures
        synced(None, connected) is None,
        synced(Some(prompt), connected) is Some,
        prompt.touched ==> synced(Some(prompt), connected)->0 == prompt,
        !prompt.touched ==> (synced(Some(prompt), connected)->0.selected.contains(id)
            <==> connected.contains(id)),
        synced(Some(prompt), connected)->0.input == prompt.input,
        fresh_prompt(connected).selected.contains(id) <==> connected.contains(id),
        fresh_prompt(connected).input.len() == 0 && !fresh_prompt(connected).touched,
{
}

/// A terminal of the panel that is connected or on its way is disconnected first, and goes then;
/// one that is not goes at once.
pub proof fn terminal_goes_by_its_state<S>(sessions: Seq<Session<S>>, id: SessionId, i: int)
    requires
        0 <= i <= sessions.len(),
        i < sessions.len() ==> sessions[i].id == id,
        forall|k: int| 0 <= k < i ==> (#[trigger] sessions[k]).id != id,
    ensures
        disposal_of(sessions, None) == TerminalDisposal::Nothing,
        i < sessions.len() && (sessions[i].connection_state
            == crate::session::SessionState::Connecting || sessions[i].connection_state
            == crate::session::SessionState::Authenticating || sessions[i].connection_state
            == crate::session::SessionState::Connected) ==> disposal_of(sessions, Some(id))
            == TerminalDisposal::Disconnect(id),
        i == sessions.len() || sessions[i].connection_state
            == crate::session::SessionState::Disconnected || sessions[i].connection_state
            == crate::session::SessionState::Disconnecting || sessions[i].connection_state
            == crate::session::SessionState::Failed ==> disposal_of(sessions, Some(id))
            == TerminalDisposal::Remove(id),
{
    first_index_is(sessions, crate::session::has_session_id::<S>(id), i);
}

/// A click on a connected server turns its selection over and leaves every other server's; from
/// then on the choice is the user's. A server that is not connected cannot be chosen.
pub proof fn click_chooses_one_server(
    before: PanelModel,
    id: Seq<char>,
    connected: Seq<Seq<char>>,
    after: PanelModel,
    r: bool,
    other: Seq<char>,
)
    requires
        target_toggled(before, id, connected, after, r),
        before.prompt is Some,
    ensures
        after.prompt is Some,
        !connected.contains(id) ==> after == before,
        connected.contains(id) ==> after.prompt->0.touched && (after.prompt->0.selected.contains(id)
            <==> !before.prompt->0.selected.contains(id)),
        other != id ==> (after.prompt->0.selected.contains(other)
            <==> before.prompt->0.selected.contains(other)),
        after.prompt->0.input == before.prompt->0.input,
        after.open == before.open,
{
}

} // verus!
