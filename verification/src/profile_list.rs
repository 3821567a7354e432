//! The list of profiles: choosing, numbering and deleting them, and the controls of the chosen
//! one's connection.
use crate::diagnostics::{record_profile_saved, saved_profile_record, DiagnosticRecord};
use crate::message::{labelled, labelled_text};
use crate::number::{decimal, parse_number, parse_of_decimal, parsed_number};
use crate::profile::{
    find_profile, has_profile, has_profile_id, profile_position, same_profile, ConnectionProfile,
};
use crate::profile_editor::{with_profile, ProfileEditorMode};
use crate::sequences::{
    any_where, any_where_iff, first_index, first_index_is, first_index_properties,
};
use crate::session::{Session, SessionId, SessionState};
use crate::text::{
    contains_text, filter_push, opt_text_is, opt_view, starts_with, strip_prefix, text_eq, views,
};
use vstd::prelude::*;
use vstd::string::*;

verus! {

/// What the window's main area shows.
#[derive(Clone, Copy, Debug, PartialEq, Eq, Structural)]
pub enum ActivePanel {
    Home,
    Server,
    Connection,
    Settings,
    Diagnostics,
    OpenSshImport,
}

/// The number of a profile that was numbered when it was made.
pub open spec fn profile_number(id: Seq<char>) -> Option<nat> {
    if starts_with(id, "demo-"@) {
        parsed_number(id.skip("demo-"@.len() as int), usize::MAX as nat)
    } else {
        None
    }
}

/// The largest number that a profile has; 0 where none has one.
pub open spec fn largest_number(profiles: Seq<ConnectionProfile>) -> nat
    decreases profiles.len(),
{
    if profiles.len() == 0 {
        0
    } else {
        let before = largest_number(profiles.drop_last());
        match profile_number(profiles.last().id@) {
            Some(n) if n > before => n,
            _ => before,
        }
    }
}

/// The largest number is no smaller than that of the first profiles.
proof fn largest_grows(profiles: Seq<ConnectionProfile>, n: int)
    requires
        0 <= n <= profiles.len(),
    ensures
        largest_number(profiles.take(n)) <= largest_number(profiles),
    decreases profiles.len() - n,
{
    if n == profiles.len() {
        assert(profiles.take(n) =~= profiles);
    } else {
        largest_grows(profiles, n + 1);
        assert(profiles.take(n + 1).drop_last() =~= profiles.take(n));
    }
}

/// The number for the next new profile.
pub fn next_profile_number(profiles: &Vec<ConnectionProfile>) -> (r: usize)
    requires
        largest_number(profiles@) < usize::MAX,
    ensures
        r == largest_number(profiles@) + 1,
{
    let mut largest: usize = 0;
    let mut i: usize = 0;
    assert(profiles@.take(0) =~= Seq::<ConnectionProfile>::empty());
    while i < profiles.len()
        invariant
            i <= profiles@.len(),
            largest == largest_number(profiles@.take(i as int)),
        decreases profiles@.len() - i,
    {
        proof {
            assert(profiles@.take(i + 1).drop_last() =~= profiles@.take(i as int));
            assert(profiles@.take(i + 1).last() == profiles@[i as int]);
        }
        match strip_prefix(profiles[i].id.as_str(), "demo-") {
            Some(rest) => match parse_number(rest, usize::MAX as u64) {
                Some(n) => {
                    if n as usize > largest {
                        largest = n as usize;
                    }
                },
                None => (),
            },
            None => (),
        }
        i = i + 1;
    }
    assert(profiles@.take(i as int) =~= profiles@);
    largest + 1
}

/// The identifier made of the next number is not that of a profile.
pub proof fn next_number_is_free(profiles: Seq<ConnectionProfile>)
    requires
        largest_number(profiles) < usize::MAX,
    ensures
        !has_profile(profiles, "demo-"@ + decimal(largest_number(profiles) + 1)),
{
    let number = largest_number(profiles) + 1;
    let id = "demo-"@ + decimal(number);
    first_index_properties(profiles, has_profile_id(id));
    if has_profile(profiles, id) {
        let i = profile_position(profiles, id);
        parse_of_decimal(number, usize::MAX as nat);
        assert(starts_with(id, "demo-"@)) by {
            assert(id.take("demo-"@.len() as int) =~= "demo-"@);
        }
        assert(id.skip("demo-"@.len() as int) =~= decimal(number));
        assert(profile_number(id) == Some(number));
        let head = profiles.take(i + 1);
        assert(head.last() == profiles[i]);
        largest_grows(profiles, i + 1);
    }
}

/// The profile that is selected when the program starts: the first.
pub fn first_selection(profiles: &Vec<ConnectionProfile>) -> (r: Option<String>)
    ensures
        r == if profiles@.len() > 0 {
            Some(profiles@[0].id)
        } else {
            None
        },
{
    if profiles.len() > 0 {
        Some(profiles[0].id.clone())
    } else {
        None
    }
}

/// What is said where something could not be read when the program started.
pub fn load_error(label: &str, error: &Option<String>) -> (r: Option<String>)
    ensures
        opt_view(r) == match *error {
            Some(error) => Some(labelled_text(label@, error@)),
            None => None,
        },
{
    match error {
        Some(error) => Some(labelled(label, error.as_str())),
        None => None,
    }
}

/// The list of profiles and what is chosen of it.
#[derive(Debug)]
pub struct ProfileList {
    pub profiles: Vec<ConnectionProfile>,
    pub selected_profile_id: Option<String>,
    pub active_panel: ActivePanel,
    pub active_session_id: Option<SessionId>,
    /// The profile that is being edited.
    pub edited_profile_id: Option<String>,
    pub auth_selector_open: bool,
    /// The profile whose menu is open.
    pub context_menu: Option<String>,
    /// The number for the next new profile.
    pub next_profile_number: usize,
}

/// What a list of profiles holds.
pub struct ProfileListModel {
    pub profiles: Seq<ConnectionProfile>,
    pub selected: Option<Seq<char>>,
    pub panel: ActivePanel,
    pub session: Option<SessionId>,
    pub edited: Option<Seq<char>>,
    pub auth_selector_open: bool,
    pub context_menu: Option<Seq<char>>,
    pub next_number: usize,
}

/// What is to be said after a profile was to be saved.
#[derive(Debug, PartialEq, Eq)]
pub struct SaveReport {
    /// What the form says: why the profile could not be saved, or what went wrong beside it.
    pub form_error: Option<String>,
    /// What the log says.
    pub record: Option<DiagnosticRecord>,
}

/// The list after a profile was saved into it: the profile is selected and shown, and its editor
/// closed. A new profile has used up its number.
pub open spec fn with_saved(
    list: ProfileListModel,
    profiles: Seq<ConnectionProfile>,
    id: Seq<char>,
    mode: ProfileEditorMode,
) -> ProfileListModel {
    ProfileListModel {
        profiles,
        selected: Some(id),
        panel: ActivePanel::Server,
        edited: None,
        auth_selector_open: false,
        next_number: if mode == ProfileEditorMode::Create {
            (list.next_number + 1) as usize
        } else {
            list.next_number
        },
        ..list
    }
}

/// What comes of a profile that was to be saved.
pub open spec fn save_finished(
    before: ProfileListModel,
    profile: ConnectionProfile,
    mode: ProfileEditorMode,
    result: Result<(Vec<ConnectionProfile>, Option<String>), String>,
    after: ProfileListModel,
    r: SaveReport,
) -> bool {
    match result {
        Ok((profiles, warning)) => {
            &&& after == with_saved(before, profiles@, profile.id@, mode)
            &&& r.form_error == warning
            &&& r.record is Some && r.record->0@ == saved_profile_record(profile)
        },
        Err(error) => {
            &&& after == before
            &&& r.form_error == Some(error)
            &&& r.record is None
        },
    }
}

/// What came of deleting a profile.
#[derive(Debug, PartialEq, Eq)]
pub enum Deletion {
    /// This profile is reached over it.
    InUse { referrer: String },
    /// A session with it is live.
    LiveSession,
    /// There is no such profile.
    Missing,
    /// It is gone; these sessions are to go too, and what the keychain holds of it.
    Deleted { sessions: Vec<SessionId> },
}

/// Being another profile that is reached over `id`.
pub open spec fn refers_to(id: Seq<char>) -> spec_fn(ConnectionProfile) -> bool {
    |profile: ConnectionProfile|
        profile.id@ != id && views(profile.route.jump_host_ids@).contains(id)
}

/// Being a session of the profile `id`.
pub open spec fn belongs_to<S>(id: Seq<char>) -> spec_fn(Session<S>) -> bool {
    |session: Session<S>| session.profile_id@ == id
}

/// Being a live session of the profile `id`.
pub open spec fn is_live_with<S>(id: Seq<char>) -> spec_fn(Session<S>) -> bool {
    |session: Session<S>| session.profile_id@ == id && session.connection_state.is_live()
}

/// The numbers of the sessions of the profile `id`.
pub open spec fn sessions_of<S>(sessions: Seq<Session<S>>, id: Seq<char>) -> Seq<SessionId> {
    sessions.filter(belongs_to::<S>(id)).map_values(|session: Session<S>| session.id)
}

/// The list without the profile `id`, which is no longer selected, edited or shown.
pub open spec fn without_profile(list: ProfileListModel, id: Seq<char>) -> ProfileListModel {
    let selected = list.selected == Some(id);
    let edited = list.edited == Some(id);
    ProfileListModel {
        profiles: list.profiles.remove(profile_position(list.profiles, id)),
        selected: if selected {
            None
        } else {
            list.selected
        },
        panel: if selected {
            ActivePanel::Home
        } else {
            list.panel
        },
        session: if selected {
            None
        } else {
            list.session
        },
        edited: if edited {
            None
        } else {
            list.edited
        },
        auth_selector_open: list.auth_selector_open && !edited,
        context_menu: None,
        next_number: list.next_number,
    }
}

/// What deleting the profile `id` comes to.
pub open spec fn deleted<S>(
    before: ProfileListModel,
    id: Seq<char>,
    sessions: Seq<Session<S>>,
    after: ProfileListModel,
    r: Deletion,
) -> bool {
    let profiles = before.profiles;
    if any_where(profiles, refers_to(id)) {
        r == (Deletion::InUse {
            referrer: profiles[first_index(profiles, refers_to(id))].name,
        }) && after == before
    } else if any_where(sessions, is_live_with::<S>(id)) {
        r == Deletion::LiveSession && after == before
    } else if !has_profile(profiles, id) {
        r == Deletion::Missing && after == before
    } else {
        r is Deleted && r->sessions@ == sessions_of(sessions, id) && after == without_profile(
            before,
            id,
        )
    }
}

/// The position of the first other profile that is reached over `id`.
fn find_referrer(profiles: &Vec<ConnectionProfile>, id: &str) -> (r: Option<usize>)
    ensures
        match r {
            Some(i) => i == first_index(profiles@, refers_to(id@)) && i < profiles@.len(),
            None => !any_where(profiles@, refers_to(id@)),
        },
{
    let ghost wanted = refers_to(id@);
    let mut i: usize = 0;
    while i < profiles.len()
        invariant
            i <= profiles@.len(),
            wanted == refers_to(id@),
            forall|k: int| 0 <= k < i ==> !wanted(#[trigger] profiles@[k]),
        decreases profiles@.len() - i,
    {
        if !text_eq(profiles[i].id.as_str(), id) && contains_text(
            &profiles[i].route.jump_host_ids,
            id,
        ) {
            proof {
                assert(wanted(profiles@[i as int]));
                first_index_is(profiles@, wanted, i as int);
            }
            return Some(i);
        }
        i = i + 1;
    }
    proof {
        first_index_is(profiles@, wanted, i as int);
    }
    None
}

/// A session of the profile is live.
pub fn has_live_session<S>(sessions: &Vec<Session<S>>, profile_id: &str) -> (r: bool)
    ensures
        r == any_where(sessions@, is_live_with::<S>(profile_id@)),
{
    let ghost wanted = is_live_with::<S>(profile_id@);
    proof {
        any_where_iff(sessions@, wanted);
    }
    let mut i: usize = 0;
    while i < sessions.len()
        invariant
            i <= sessions@.len(),
            wanted == is_live_with::<S>(profile_id@),
            any_where(sessions@, wanted) <==> exists|k: int|
                0 <= k < sessions@.len() && wanted(#[trigger] sessions@[k]),
            forall|k: int| 0 <= k < i ==> !wanted(#[trigger] sessions@[k]),
        decreases sessions@.len() - i,
    {
        if text_eq(sessions[i].profile_id.as_str(), profile_id)
            && sessions[i].connection_state.can_disconnect() {
            assert(wanted(sessions@[i as int]));
            return true;
        }
        i = i + 1;
    }
    false
}

/// The numbers of the sessions of the profile.
pub fn profile_sessions<S>(sessions: &Vec<Session<S>>, profile_id: &str) -> (r: Vec<SessionId>)
    ensures
        r@ == sessions_of(sessions@, profile_id@),
{
    let mut ids: Vec<SessionId> = Vec::new();
    let mut i: usize = 0;
    let ghost wanted = belongs_to::<S>(profile_id@);
    proof {
        reveal(Seq::filter);
    }
    assert(ids@ =~= sessions_of(sessions@.take(0), profile_id@));
    while i < sessions.len()
        invariant
            i <= sessions@.len(),
            wanted == belongs_to::<S>(profile_id@),
            ids@ == sessions_of(sessions@.take(i as int), profile_id@),
        decreases sessions@.len() - i,
    {
        let ghost before = sessions@.take(i as int);
        proof {
            assert(sessions@.take(i + 1) =~= before.push(sessions@[i as int]));
            filter_push(before, sessions@[i as int], wanted);
        }
        if text_eq(sessions[i].profile_id.as_str(), profile_id) {
            assert(wanted(sessions@[i as int]));
            ids.push(sessions[i].id);
        } else {
            assert(!wanted(sessions@[i as int]));
        }
        assert(ids@ =~= sessions_of(sessions@.take(i + 1), profile_id@));
        i = i + 1;
    }
    assert(sessions@.take(i as int) =~= sessions@);
    ids
}

impl ProfileList {
    /// What the list holds.
    pub open spec fn view(&self) -> ProfileListModel {
        ProfileListModel {
            profiles: self.profiles@,
            selected: opt_view(self.selected_profile_id),
            panel: self.active_panel,
            session: self.active_session_id,
            edited: opt_view(self.edited_profile_id),
            auth_selector_open: self.auth_selector_open,
            context_menu: opt_view(self.context_menu),
            next_number: self.next_profile_number,
        }
    }

    /// The profile that is selected.
    pub fn selected_profile(&self) -> (r: Option<&ConnectionProfile>)
        ensures
            r == match self@.selected {
                Some(id) if has_profile(self.profiles@, id) => Some(
                    &self.profiles@[profile_position(self.profiles@, id)],
                ),
                _ => None,
            },
    {
        match &self.selected_profile_id {
            Some(id) => match find_profile(&self.profiles, id.as_str()) {
                Some(i) => Some(&self.profiles[i]),
                None => None,
            },
            None => None,
        }
    }

    /// Selects a profile and shows it.
    pub fn select_profile(&mut self, profile_id: String)
        ensures
            final(self)@ == (ProfileListModel {
                selected: Some(profile_id@),
                panel: ActivePanel::Server,
                session: None,
                context_menu: None,
                ..old(self)@
            }),
    {
        self.active_panel = ActivePanel::Server;
        self.context_menu = None;
        self.active_session_id = None;
        self.selected_profile_id = Some(profile_id);
    }

    /// Takes in what came of saving a profile: the profiles as they were saved and a warning, or
    /// why they could not be saved.
    pub fn finish_save(
        &mut self,
        profile: &ConnectionProfile,
        mode: ProfileEditorMode,
        result: Result<(Vec<ConnectionProfile>, Option<String>), String>,
    ) -> (r: SaveReport)
        requires
            mode == ProfileEditorMode::Create && result is Ok ==> old(self).next_profile_number
                < usize::MAX,
        ensures
            save_finished(old(self)@, *profile, mode, result, final(self)@, r),
    {
        match result {
            Ok((profiles, warning)) => {
                self.profiles = profiles;
                self.selected_profile_id = Some(profile.id.clone());
                self.active_panel = ActivePanel::Server;
                if mode == ProfileEditorMode::Create {
                    self.next_profile_number = self.next_profile_number + 1;
                }
                self.edited_profile_id = None;
                self.auth_selector_open = false;
                SaveReport { form_error: warning, record: Some(record_profile_saved(profile)) }
            },
            Err(error) => SaveReport { form_error: Some(error), record: None },
        }
    }

    /// Deletes a profile, unless another one is reached over it or a session with it is live.
    pub fn delete_profile<S>(&mut self, profile_id: &str, sessions: &Vec<Session<S>>) -> (r:
        Deletion)
        ensures
            deleted(old(self)@, profile_id@, sessions@, final(self)@, r),
    {
        proof {
            first_index_properties(self.profiles@, refers_to(profile_id@));
        }
        match find_referrer(&self.profiles, profile_id) {
            Some(i) => return Deletion::InUse { referrer: self.profiles[i].name.clone() },
            None => (),
        }
        if has_live_session(sessions, profile_id) {
            return Deletion::LiveSession;
        }
        let position: usize = match find_profile(&self.profiles, profile_id) {
            Some(i) => i,
            None => return Deletion::Missing,
        };
        let ids = profile_sessions(sessions, profile_id);
        self.profiles.remove(position);
        if opt_text_is(&self.selected_profile_id, profile_id) {
            self.selected_profile_id = None;
            self.active_panel = ActivePanel::Home;
            self.active_session_id = None;
        }
        if opt_text_is(&self.edited_profile_id, profile_id) {
            self.edited_profile_id = None;
            self.auth_selector_open = false;
        }
        self.context_menu = None;
        Deletion::Deleted { sessions: ids }
    }
}

/// Lists with the same identifiers have the same largest number.
proof fn same_ids_same_numbers(a: Seq<ConnectionProfile>, b: Seq<ConnectionProfile>)
    requires
        a.len() == b.len(),
        forall|i: int| 0 <= i < a.len() ==> (#[trigger] a[i]).id@ == b[i].id@,
    ensures
        largest_number(a) == largest_number(b),
    decreases a.len(),
{
    if a.len() > 0 {
        assert(a.last().id@ == b.last().id@);
        same_ids_same_numbers(a.drop_last(), b.drop_last());
    }
}

/// The number for the next new profile stays above all that are in use, whether a profile was
/// changed or one was made with that number.
pub proof fn numbers_stay_free(
    list: ProfileListModel,
    profile: ConnectionProfile,
    profiles: Seq<ConnectionProfile>,
    mode: ProfileEditorMode,
)
    requires
        largest_number(list.profiles) < list.next_number,
        with_profile(list.profiles, profile, profiles),
        mode == ProfileEditorMode::Edit ==> has_profile(list.profiles, profile.id@),
        mode == ProfileEditorMode::Create ==> list.next_number < usize::MAX && profile.id@
            == "demo-"@ + decimal(list.next_number as nat),
    ensures
        ({
            let after = with_saved(list, profiles, profile.id@, mode);
            largest_number(after.profiles) < after.next_number
        }),
{
    let before = list.profiles;
    let id = profile.id@;
    first_index_properties(before, has_profile_id(id));
    if has_profile(before, id) {
        assert forall|i: int| 0 <= i < profiles.len() implies (#[trigger] profiles[i]).id@
            == before[i].id@ by {
            if i != profile_position(before, id) {
                assert(same_profile(profiles[i], before[i]));
            }
        }
        same_ids_same_numbers(profiles, before);
    } else {
        let number = list.next_number as nat;
        assert forall|i: int| 0 <= i < before.len() implies (#[trigger] profiles.drop_last()[i]).id@
            == before[i].id@ by {
            assert(same_profile(profiles[i], before[i]));
        }
        same_ids_same_numbers(profiles.drop_last(), before);
        parse_of_decimal(number, usize::MAX as nat);
        assert(starts_with(id, "demo-"@)) by {
            assert(id.take("demo-"@.len() as int) =~= "demo-"@);
        }
        assert(id.skip("demo-"@.len() as int) =~= decimal(number));
    }
}

/// Every profile that another is reached over is there.
pub open spec fn routes_are_whole(profiles: Seq<ConnectionProfile>) -> bool {
    forall|i: int, j: int|
        0 <= i < profiles.len() && 0 <= j < profiles[i].route.jump_host_ids@.len() ==> has_profile(
            profiles,
            (#[trigger] profiles[i].route.jump_host_ids@[j])@,
        )
}

/// Deleting a profile breaks no route.
pub proof fn deleting_breaks_no_route(list: ProfileListModel, id: Seq<char>)
    requires
        routes_are_whole(list.profiles),
        !any_where(list.profiles, refers_to(id)),
        has_profile(list.profiles, id),
    ensures
        routes_are_whole(without_profile(list, id).profiles),
{
    let before = list.profiles;
    let gone = profile_position(before, id);
    let after = before.remove(gone);
    first_index_properties(before, has_profile_id(id));
    any_where_iff(before, refers_to(id));
    let refers = refers_to(id);
    assert forall|i: int, j: int|
        0 <= i < after.len() && 0 <= j < after[i].route.jump_host_ids@.len() implies has_profile(
        after,
        (#[trigger] after[i].route.jump_host_ids@[j])@,
    ) by {
        let i0 = if i < gone {
            i
        } else {
            i + 1
        };
        let jump = after[i].route.jump_host_ids@[j]@;
        assert(after[i] == before[i0]);
        assert(before[i0].route.jump_host_ids@[j]@ == jump);
        assert(has_profile(before, jump));
        any_where_iff(after, has_profile_id(jump));
        let wanted = has_profile_id(jump);
        if jump == id {
            assert(views(before[i0].route.jump_host_ids@)[j] == id);
            assert(!refers(before[i0]));
            assert(wanted(after[i]));
        } else {
            first_index_properties(before, has_profile_id(jump));
            let k0 = profile_position(before, jump);
            assert(k0 != gone);
            let k = if k0 < gone {
                k0
            } else {
                k0 - 1
            };
            assert(after[k] == before[k0]);
            assert(wanted(after[k]));
        }
        first_index_properties(after, has_profile_id(jump));
    }
}

/// What the menu of a profile offers.
#[derive(Clone, Copy, Debug, PartialEq, Eq, Structural)]
pub struct ProfileMenu {
    pub can_open_terminal: bool,
    pub can_delete: bool,
}

/// What the menu of a profile offers: a terminal while no secret is being looked for and none of
/// the profile's is changing, and deletion while no session is live.
pub fn profile_menu<S>(
    sessions: &Vec<Session<S>>,
    profile_id: &str,
    looking_up: bool,
    updating_keychain: bool,
) -> (r: ProfileMenu)
    ensures
        r.can_open_terminal == (!looking_up && !updating_keychain),
        r.can_delete == !any_where(sessions@, is_live_with::<S>(profile_id@)),
{
    ProfileMenu {
        can_open_terminal: !looking_up && !updating_keychain,
        can_delete: !has_live_session(sessions, profile_id),
    }
}

/// What the connection's button does.
#[derive(Clone, Copy, Debug, PartialEq, Eq, Structural)]
pub enum ConnectionAction {
    Nothing,
    Connect,
    Disconnect,
}

/// What the connection's button looks like.
#[derive(Clone, Copy, Debug, PartialEq, Eq, Structural)]
pub enum ConnectionIcon {
    Connect,
    Reconnect,
    Disconnect,
}

/// How a state stands out.
#[derive(Clone, Copy, Debug, PartialEq, Eq, Structural)]
pub enum StatusTone {
    Good,
    Warning,
    Error,
    Muted,
}

/// The connection's button and status.
#[derive(Clone, Copy, Debug, PartialEq, Eq)]
pub struct ConnectionControls {
    pub label_key: &'static str,
    pub icon: ConnectionIcon,
    pub tone: StatusTone,
    pub action: ConnectionAction,
}

/// What is known of the connection of the selected profile.
#[derive(Clone, Copy, Debug, PartialEq, Eq, Structural)]
pub struct ConnectionSituation {
    /// The state of the session; disconnected where there is none.
    pub state: SessionState,
    /// A secret for the session is being looked for in the keychain.
    pub checking_keychain: bool,
    /// A secret of the profile is changing in the keychain.
    pub updating_keychain: bool,
    /// The profile's terminal has ended.
    pub terminal_ended: bool,
}

/// The key of what the connection's button says.
pub open spec fn connection_label(situation: ConnectionSituation) -> &'static str {
    if situation.checking_keychain {
        "credential-checking"
    } else if situation.updating_keychain {
        "credential-updating"
    } else if situation.state == SessionState::Failed {
        "common-retry"
    } else if situation.state == SessionState::Disconnecting {
        "connection-status-disconnecting"
    } else if situation.state.is_live() {
        "common-disconnect"
    } else if situation.terminal_ended {
        "common-reconnect"
    } else {
        "common-connect"
    }
}

/// How the connection's status stands out.
pub open spec fn connection_tone(situation: ConnectionSituation) -> StatusTone {
    if situation.checking_keychain || situation.updating_keychain {
        StatusTone::Warning
    } else {
        match situation.state {
            SessionState::Connected => StatusTone::Good,
            SessionState::Failed => StatusTone::Error,
            SessionState::Disconnected => StatusTone::Muted,
            _ => StatusTone::Warning,
        }
    }
}

/// What the connection's button does.
pub open spec fn connection_action(situation: ConnectionSituation) -> ConnectionAction {
    if situation.state.is_idle() && !situation.checking_keychain && !situation.updating_keychain {
        ConnectionAction::Connect
    } else if situation.state.is_live() {
        ConnectionAction::Disconnect
    } else {
        ConnectionAction::Nothing
    }
}

/// The connection's button and status.
pub fn connection_controls(situation: ConnectionSituation) -> (r: ConnectionControls)
    ensures
        r.label_key == connection_label(situation),
        r.icon == if situation.state.is_live() {
            ConnectionIcon::Disconnect
        } else if situation.state == SessionState::Failed || situation.terminal_ended {
            ConnectionIcon::Reconnect
        } else {
            ConnectionIcon::Connect
        },
        r.tone == connection_tone(situation),
        r.action == connection_action(situation),
{
    let state = situation.state;
    let busy = situation.checking_keychain || situation.updating_keychain;
    let can_disconnect = state.can_disconnect();
    let label_key = if situation.checking_keychain {
        "credential-checking"
    } else if situation.updating_keychain {
        "credential-updating"
    } else if state == SessionState::Failed {
        "common-retry"
    } else if state == SessionState::Disconnecting {
        "connection-status-disconnecting"
    } else if can_disconnect {
        "common-disconnect"
    } else if situation.terminal_ended {
        "common-reconnect"
    } else {
        "common-connect"
    };
    let icon = if can_disconnect {
        ConnectionIcon::Disconnect
    } else if state == SessionState::Failed || situation.terminal_ended {
        ConnectionIcon::Reconnect
    } else {
        ConnectionIcon::Connect
    };
    let tone = if busy {
        StatusTone::Warning
    } else {
        match state {
            SessionState::Connected => StatusTone::Good,
            SessionState::Failed => StatusTone::Error,
            SessionState::Disconnected => StatusTone::Muted,
            _ => StatusTone::Warning,
        }
    };
    let action = if state.can_connect() && !busy {
        ConnectionAction::Connect
    } else if can_disconnect {
        ConnectionAction::Disconnect
    } else {
        ConnectionAction::Nothing
    };
    ConnectionControls { label_key, icon, tone, action }
}

/// What is said of a connection.
#[derive(Clone, Copy, Debug, PartialEq, Eq, Structural)]
pub enum ConnectionStatus {
    CheckingKeychain,
    UpdatingKeychain,
    State(SessionState),
}

/// What is said of a connection.
pub fn connection_status(situation: ConnectionSituation) -> (r: ConnectionStatus)
    ensures
        r == if situation.checking_keychain {
            ConnectionStatus::CheckingKeychain
        } else if situation.updating_keychain {
            ConnectionStatus::UpdatingKeychain
        } else {
            ConnectionStatus::State(situation.state)
        },
{
    if situation.checking_keychain {
        ConnectionStatus::CheckingKeychain
    } else if situation.updating_keychain {
        ConnectionStatus::UpdatingKeychain
    } else {
        ConnectionStatus::State(situation.state)
    }
}

/// A profile is deleted only where no other profile is reached over it and no session of it is
/// connected or on its way; otherwise nothing changes, and the reason is told. What goes is the
/// first profile with the identifier; every other profile stays, in its order.
pub proof fn deletion_takes_one_profile<S>(
    before: ProfileListModel,
    id: Seq<char>,
    sessions: Seq<Session<S>>,
    after: ProfileListModel,
    r: Deletion,
    p: int,
)
    requires
        deleted(before, id, sessions, after, r),
        0 <= p <= before.profiles.len(),
        p < before.profiles.len() ==> before.profiles[p].id@ == id,
        forall|k: int| 0 <= k < p ==> (#[trigger] before.profiles[k]).id@ != id,
    ensures
        r is InUse <==> exists|k: int|
            0 <= k < before.profiles.len() && (#[trigger] before.profiles[k]).id@ != id && views(
                before.profiles[k].route.jump_host_ids@,
            ).contains(id),
        r is LiveSession ==> exists|k: int|
            0 <= k < sessions.len() && (#[trigger] sessions[k]).profile_id@ == id && (
            sessions[k].connection_state == SessionState::Connecting
                || sessions[k].connection_state == SessionState::Authenticating
                || sessions[k].connection_state == SessionState::Connected),
        r is Deleted ==> forall|k: int|
            0 <= k < sessions.len() && (#[trigger] sessions[k]).profile_id@ == id
                ==> sessions[k].connection_state != SessionState::Connecting
                && sessions[k].connection_state != SessionState::Authenticating
                && sessions[k].connection_state != SessionState::Connected,
        r is Missing ==> p == before.profiles.len(),
        !(r is Deleted) ==> after == before,
        r is Deleted ==> {
            &&& p < before.profiles.len()
            &&& after.profiles.len() == before.profiles.len() - 1
            &&& forall|k: int| 0 <= k < p ==> #[trigger] after.profiles[k] == before.profiles[k]
            &&& forall|k: int|
                p <= k < after.profiles.len() ==> #[trigger] after.profiles[k]
                    == before.profiles[k + 1]
        },
{
    any_where_iff(before.profiles, refers_to(id));
    any_where_iff(sessions, is_live_with::<S>(id));
    first_index_is(before.profiles, has_profile_id(id), p);
    if exists|k: int|
        0 <= k < before.profiles.len() && (#[trigger] before.profiles[k]).id@ != id && views(
            before.profiles[k].route.jump_host_ids@,
        ).contains(id) {
        let k = choose|k: int|
            0 <= k < before.profiles.len() && (#[trigger] before.profiles[k]).id@ != id && views(
                before.profiles[k].route.jump_host_ids@,
            ).contains(id);
        assert(refers_to(id)(before.profiles[k]));
    }
    if r is InUse {
        let k = choose|k: int|
            0 <= k < before.profiles.len() && refers_to(id)(#[trigger] before.profiles[k]);
        assert(before.profiles[k].id@ != id);
    }
    if r is Deleted {
        assert forall|k: int|
            0 <= k < sessions.len() && (#[trigger] sessions[k]).profile_id@ == id implies
            sessions[k].connection_state != SessionState::Connecting
            && sessions[k].connection_state != SessionState::Authenticating
            && sessions[k].connection_state != SessionState::Connected by {
            assert(!is_live_with::<S>(id)(sessions[k]));
        }
    }
    if r is LiveSession {
        let k = choose|k: int|
            0 <= k < sessions.len() && is_live_with::<S>(id)(#[trigger] sessions[k]);
        assert(sessions[k].profile_id@ == id);
    }
}

/// A deleted profile is neither selected nor edited nor shown any more; another profile that was
/// selected or edited stays so. Every session of the deleted profile goes, and no other.
pub proof fn deleted_profile_is_shown_nowhere<S>(
    before: ProfileListModel,
    id: Seq<char>,
    sessions: Seq<Session<S>>,
    after: ProfileListModel,
    gone: Vec<SessionId>,
    number: SessionId,
)
    requires
        deleted(before, id, sessions, after, Deletion::Deleted { sessions: gone }),
    ensures
        after.selected != Some(id),
        after.edited != Some(id),
        after.context_menu is None,
        before.selected == Some(id) ==> after.selected is None && after.panel == ActivePanel::Home
            && after.session is None,
        before.selected != Some(id) ==> after.selected == before.selected && after.panel
            == before.panel && after.session == before.session,
        before.edited != Some(id) ==> after.edited == before.edited && after.auth_selector_open
            == before.auth_selector_open,
        before.edited == Some(id) ==> after.edited is None && !after.auth_selector_open,
        after.next_number == before.next_number,
        gone@.contains(number) <==> exists|k: int|
            0 <= k < sessions.len() && (#[trigger] sessions[k]).profile_id@ == id && sessions[k].id
                == number,
{
    let wanted = belongs_to::<S>(id);
    let kept = sessions.filter(wanted);
    if gone@.contains(number) {
        let k = gone@.index_of(number);
        assert(kept[k].id == number);
        assert(kept.contains(kept[k]));
        crate::sequences::filter_is_exact(sessions, wanted, kept[k]);
        let s = sessions.index_of(kept[k]);
        assert(sessions[s].profile_id@ == id);
    }
    if exists|k: int|
        0 <= k < sessions.len() && (#[trigger] sessions[k]).profile_id@ == id && sessions[k].id
            == number {
        let k = choose|k: int|
            0 <= k < sessions.len() && (#[trigger] sessions[k]).profile_id@ == id
                && sessions[k].id == number;
        crate::sequences::filter_is_exact(sessions, wanted, sessions[k]);
        let s = kept.index_of(sessions[k]);
        assert(sessions_of(sessions, id)[s] == number);
    }
}

/// A saved profile is selected and shown, and no longer edited; only a new one uses up a number.
pub proof fn saved_profile_is_shown(
    list: ProfileListModel,
    profiles: Seq<ConnectionProfile>,
    id: Seq<char>,
    mode: ProfileEditorMode,
)
    requires
        list.next_number < usize::MAX,
    ensures
        ({
            let after = with_saved(list, profiles, id, mode);
            &&& after.profiles == profiles
            &&& after.selected == Some(id)
            &&& after.panel == ActivePanel::Server
            &&& after.edited is None && !after.auth_selector_open
            &&& mode == ProfileEditorMode::Create ==> after.next_number == list.next_number + 1
            &&& mode == ProfileEditorMode::Edit ==> after.next_number == list.next_number
            &&& after.session == list.session && after.context_menu == list.context_menu
        }),
{
}

/// The connection's button connects only what has no connection, and never while a secret is
/// looked up or changed; it disconnects whatever is connected or on its way; and it does nothing
/// to a connection that is going.
pub proof fn button_fits_the_connection(situation: ConnectionSituation)
    ensures
        connection_action(situation) == ConnectionAction::Disconnect <==> situation.state
            == SessionState::Connecting || situation.state == SessionState::Authenticating
            || situation.state == SessionState::Connected,
        connection_action(situation) == ConnectionAction::Connect <==> (situation.state
            == SessionState::Disconnected || situation.state == SessionState::Failed)
            && !situation.checking_keychain && !situation.updating_keychain,
        situation.state == SessionState::Disconnecting ==> connection_action(situation)
            == ConnectionAction::Nothing,
        connection_tone(situation) == StatusTone::Good <==> situation.state
            == SessionState::Connected && !situation.checking_keychain
            && !situation.updating_keychain,
        connection_tone(situation) == StatusTone::Error <==> situation.state
            == SessionState::Failed && !situation.checking_keychain
            && !situation.updating_keychain,
        connection_tone(situation) == StatusTone::Muted <==> situation.state
            == SessionState::Disconnected && !situation.checking_keychain
            && !situation.updating_keychain,
{
}

/// The largest number is that of a profile whose identifier has one, and no other has a larger; it
/// is 0 where none has one.
pub proof fn largest_number_is_in_use(profiles: Seq<ConnectionProfile>)
    ensures
        forall|i: int|
            0 <= i < profiles.len() ==> (profile_number((#[trigger] profiles[i]).id@) matches Some(
                n,
            ) ==> n <= largest_number(profiles)),
        largest_number(profiles) == 0 || exists|i: int|
            0 <= i < profiles.len() && profile_number((#[trigger] profiles[i]).id@) == Some(
                largest_number(profiles),
            ),
    decreases profiles.len(),
{
    if profiles.len() > 0 {
        let head = profiles.drop_last();
        largest_number_is_in_use(head);
        assert forall|i: int| 0 <= i < profiles.len() implies (profile_number(
            (#[trigger] profiles[i]).id@,
        ) matches Some(n) ==> n <= largest_number(profiles)) by {
            if i < head.len() {
                assert(head[i] == profiles[i]);
            }
        }
        if largest_number(profiles) == largest_number(head) {
            if largest_number(head) != 0 {
                let i = choose|i: int|
                    0 <= i < head.len() && profile_number((#[trigger] head[i]).id@) == Some(
                        largest_number(head),
                    );
                assert(profiles[i] == head[i]);
            }
        } else {
            assert(profile_number(profiles[profiles.len() - 1].id@) == Some(
                largest_number(profiles),
            ));
        }
    }
}

/// Where a profile could not be saved, the list stays as it was, the form stays open and says why,
/// and the log says nothing.
pub proof fn unsaved_profile_changes_nothing(
    before: ProfileListModel,
    profile: ConnectionProfile,
    mode: ProfileEditorMode,
    result: Result<(Vec<ConnectionProfile>, Option<String>), String>,
    after: ProfileListModel,
    r: SaveReport,
)
    requires
        save_finished(before, profile, mode, result, after, r),
    ensures
        result matches Err(error) ==> after == before && r.form_error == Some(error)
            && r.record is None,
        result matches Ok((profiles, warning)) ==> after.profiles == profiles@ && after.selected
            == Some(profile.id@) && after.edited is None && r.form_error == warning
            && r.record is Some,
{
}

} // verus!
