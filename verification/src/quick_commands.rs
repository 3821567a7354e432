//! Commands sent to several servers at once, and the panel they are typed in.
use crate::profile::ConnectionProfile;
use crate::sequences::{any_where, any_where_iff};
use crate::session::{Session, SessionId, SessionState, TerminalSessionKind};
use crate::text::{filter_push, text_eq, views, views_push};
use crate::text_set::TextSet;
use vstd::prelude::*;
use vstd::string::*;

verus! {

/// The session is a connection to a server that takes input.
pub open spec fn is_available<S>(session: Session<S>) -> bool {
    session.kind == TerminalSessionKind::Ssh && session.connection_state == SessionState::Connected
        && session.has_handle
}

/// Being a connection to the server of the profile `id` that takes input.
pub open spec fn serves<S>(id: Seq<char>) -> spec_fn(Session<S>) -> bool {
    |session: Session<S>| session.profile_id@ == id && is_available(session)
}

/// Being a profile with a connection that takes input.
pub open spec fn is_connected<S>(sessions: Seq<Session<S>>) -> spec_fn(ConnectionProfile) -> bool {
    |profile: ConnectionProfile| any_where(sessions, serves::<S>(profile.id@))
}

/// The identifiers of profiles.
pub open spec fn profile_ids(profiles: Seq<ConnectionProfile>) -> Seq<Seq<char>> {
    profiles.map_values(|profile: ConnectionProfile| profile.id@)
}

/// The identifiers of the profiles with a connection that takes input.
pub open spec fn connected_ids<S>(
    profiles: Seq<ConnectionProfile>,
    sessions: Seq<Session<S>>,
) -> Seq<Seq<char>> {
    profile_ids(profiles.filter(is_connected(sessions)))
}

/// The session is a connection to a server that takes input.
pub fn takes_input<S>(session: &Session<S>) -> (r: bool)
    ensures
        r == is_available(*session),
{
    session.kind == TerminalSessionKind::Ssh && session.connection_state == SessionState::Connected
        && session.has_handle
}

/// A session serves the profile `id`.
fn profile_is_served<S>(sessions: &Vec<Session<S>>, id: &str) -> (r: bool)
    ensures
        r == any_where(sessions@, serves::<S>(id@)),
{
    let ghost wanted = serves::<S>(id@);
    proof {
        any_where_iff(sessions@, wanted);
    }
    let mut i: usize = 0;
    while i < sessions.len()
        invariant
            i <= sessions@.len(),
            wanted == serves::<S>(id@),
            any_where(sessions@, wanted) <==> exists|k: int|
                0 <= k < sessions@.len() && wanted(#[trigger] sessions@[k]),
            forall|k: int| 0 <= k < i ==> !wanted(#[trigger] sessions@[k]),
        decreases sessions@.len() - i,
    {
        if text_eq(sessions[i].profile_id.as_str(), id) && takes_input(&sessions[i]) {
            assert(wanted(sessions@[i as int]));
            return true;
        }
        i = i + 1;
    }
    false
}

/// The identifiers of the profiles with a connection that takes input, in the order of the
/// profiles.
pub fn connected_ssh_profile_ids<S>(
    profiles: &Vec<ConnectionProfile>,
    sessions: &Vec<Session<S>>,
) -> (r: Vec<String>)
    ensures
        views(r@) == connected_ids(profiles@, sessions@),
{
    let mut ids: Vec<String> = Vec::new();
    let mut i: usize = 0;
    proof {
        reveal(Seq::filter);
    }
    assert(views(ids@) =~= connected_ids(profiles@.take(0), sessions@));
    while i < profiles.len()
        invariant
            i <= profiles@.len(),
            views(ids@) == connected_ids(profiles@.take(i as int), sessions@),
        decreases profiles@.len() - i,
    {
        let ghost before = profiles@.take(i as int);
        proof {
            assert(profiles@.take(i + 1) =~= before.push(profiles@[i as int]));
            filter_push(before, profiles@[i as int], is_connected(sessions@));
        }
        let ghost known = ids@;
        let ghost connected = is_connected(sessions@);
        if profile_is_served(sessions, profiles[i].id.as_str()) {
            ids.push(profiles[i].id.clone());
            proof {
                assert(connected(profiles@[i as int]));
                views_push(known, profiles@[i as int].id);
            }
        } else {
            assert(!connected(profiles@[i as int]));
        }
        assert(views(ids@) =~= connected_ids(profiles@.take(i + 1), sessions@));
        i = i + 1;
    }
    assert(profiles@.take(i as int) =~= profiles@);
    ids
}

/// A session as the choice of targets sees it: its number, its profile, and whether it takes
/// input.
pub open spec fn candidate_serves(candidate: (SessionId, Seq<char>, bool), id: Seq<char>) -> bool {
    candidate.1 == id && candidate.2
}

/// The last session that takes input for the profile `id`.
pub open spec fn latest_session(
    sessions: Seq<(SessionId, Seq<char>, bool)>,
    id: Seq<char>,
) -> Option<SessionId>
    decreases sessions.len(),
{
    if sessions.len() == 0 {
        None
    } else if candidate_serves(sessions.last(), id) {
        Some(sessions.last().0)
    } else {
        latest_session(sessions.drop_last(), id)
    }
}

/// The active session takes input for the profile `id`.
pub open spec fn active_serves(
    sessions: Seq<(SessionId, Seq<char>, bool)>,
    active: Option<SessionId>,
    id: Seq<char>,
) -> bool {
    exists|i: int|
        0 <= i < sessions.len() && active == Some((#[trigger] sessions[i]).0) && candidate_serves(
            sessions[i],
            id,
        )
}

/// The session that a command for the profile `id` goes to: the active one where it serves the
/// profile, else the latest that does.
pub open spec fn target_session(
    sessions: Seq<(SessionId, Seq<char>, bool)>,
    active: Option<SessionId>,
    id: Seq<char>,
) -> Option<SessionId> {
    if active_serves(sessions, active, id) {
        active
    } else {
        latest_session(sessions, id)
    }
}

/// The profiles that a command goes to, each with its session: the selected profiles that have a
/// session, each once, in their order.
pub open spec fn target_sessions(
    ids: Seq<Seq<char>>,
    selected: Set<Seq<char>>,
    sessions: Seq<(SessionId, Seq<char>, bool)>,
    active: Option<SessionId>,
) -> Seq<(Seq<char>, SessionId)>
    decreases ids.len(),
{
    if ids.len() == 0 {
        Seq::empty()
    } else {
        let before = target_sessions(ids.drop_last(), selected, sessions, active);
        let id = ids.last();
        match target_session(sessions, active, id) {
            Some(session) if selected.contains(id) && !ids.drop_last().contains(id) => before.push(
                (id, session),
            ),
            _ => before,
        }
    }
}

/// Targets by the texts of their profiles' identifiers.
pub open spec fn target_views(targets: Seq<(String, SessionId)>) -> Seq<(Seq<char>, SessionId)> {
    targets.map_values(|target: (String, SessionId)| (target.0@, target.1))
}

/// Candidates by the texts of their profiles' identifiers.
pub open spec fn candidate_views(sessions: Seq<(SessionId, &str, bool)>) -> Seq<
    (SessionId, Seq<char>, bool),
> {
    sessions.map_values(
        |candidate: (SessionId, &str, bool)| (candidate.0, candidate.1@, candidate.2),
    )
}

/// The session that a command for the profile `id` goes to.
fn choose_session(
    sessions: &[(SessionId, &str, bool)],
    active: Option<SessionId>,
    id: &str,
) -> (r: Option<SessionId>)
    ensures
        r == target_session(candidate_views(sessions@), active, id@),
{
    let mut latest: Option<SessionId> = None;
    let mut i: usize = 0;
    let ghost all = candidate_views(sessions@);
    assert(all.take(0) =~= Seq::<(SessionId, Seq<char>, bool)>::empty());
    while i < sessions.len()
        invariant
            i <= sessions@.len(),
            all == candidate_views(sessions@),
            latest == latest_session(all.take(i as int), id@),
            forall|k: int|
                0 <= k < i ==> !(active == Some((#[trigger] all[k]).0) && candidate_serves(
                    all[k],
                    id@,
                )),
        decreases sessions@.len() - i,
    {
        proof {
            assert(all.take(i + 1).drop_last() =~= all.take(i as int));
            assert(all.take(i + 1).last() == all[i as int]);
        }
        let candidate = sessions[i];
        if text_eq(candidate.1, id) && candidate.2 {
            match active {
                Some(active_id) => {
                    if active_id == candidate.0 {
                        assert(candidate_serves(all[i as int], id@));
                        return active;
                    }
                },
                None => (),
            }
            latest = Some(candidate.0);
        }
        i = i + 1;
    }
    assert(all.take(i as int) =~= all);
    latest
}

/// The profiles that a command goes to, each with its session.
pub fn quick_command_target_sessions(
    profile_ids: &Vec<String>,
    selected_profile_ids: &TextSet,
    sessions: &[(SessionId, &str, bool)],
    active_session_id: Option<SessionId>,
) -> (r: Vec<(String, SessionId)>)
    ensures
        target_views(r@) == target_sessions(
            views(profile_ids@),
            selected_profile_ids@,
            candidate_views(sessions@),
            active_session_id,
        ),
{
    let mut targets: Vec<(String, SessionId)> = Vec::new();
    let mut seen = TextSet::new();
    let mut i: usize = 0;
    let ghost ids = views(profile_ids@);
    assert(ids.take(0) =~= Seq::<Seq<char>>::empty());
    assert(target_views(targets@) =~= Seq::<(Seq<char>, SessionId)>::empty());
    while i < profile_ids.len()
        invariant
            i <= profile_ids@.len(),
            ids == views(profile_ids@),
            forall|id: Seq<char>| #[trigger]
                seen@.contains(id) <==> ids.take(i as int).contains(id)
                    && selected_profile_ids@.contains(id),
            target_views(targets@) == target_sessions(
                ids.take(i as int),
                selected_profile_ids@,
                candidate_views(sessions@),
                active_session_id,
            ),
        decreases profile_ids@.len() - i,
    {
        let ghost before = ids.take(i as int);
        let ghost done = target_views(targets@);
        let ghost known = seen@;
        let id = &profile_ids[i];
        proof {
            assert(ids.take(i + 1) =~= before.push(id@));
            assert(before.push(id@).drop_last() =~= before);
            assert forall|x: Seq<char>| before.push(id@).contains(x) <==> before.contains(x) || x
                == id@ by {
                if before.contains(x) {
                    assert(before.push(id@)[before.index_of(x)] == x);
                }
                if x == id@ {
                    assert(before.push(id@)[before.len() as int] == x);
                }
            }
        }
        if selected_profile_ids.contains(id.as_str()) && seen.insert(id.clone()) {
            assert(!known.contains(id@));
            match choose_session(sessions, active_session_id, id.as_str()) {
                Some(session) => {
                    targets.push((id.clone(), session));
                    assert(target_views(targets@) =~= done.push((id@, session)));
                },
                None => (),
            }
        } else {
            assert(selected_profile_ids@.contains(id@) ==> known.contains(id@));
        }
        assert forall|x: Seq<char>| #[trigger] seen@.contains(x) <==> ids.take(i + 1).contains(x)
            && selected_profile_ids@.contains(x) by {
            assert(seen@.contains(x) <==> known.contains(x) || (x == id@
                && selected_profile_ids@.contains(x)));
        }
        i = i + 1;
    }
    assert(ids.take(i as int) =~= ids);
    targets
}

/// A command goes to every selected server with a session, to no other, and to none twice.
pub proof fn each_server_is_targeted_once(
    ids: Seq<Seq<char>>,
    selected: Set<Seq<char>>,
    sessions: Seq<(SessionId, Seq<char>, bool)>,
    active: Option<SessionId>,
)
    ensures
        ({
            let targets = target_sessions(ids, selected, sessions, active);
            &&& forall|i: int, j: int|
                0 <= i < j < targets.len() ==> (#[trigger] targets[i]).0 != (
                #[trigger] targets[j]).0
            &&& forall|i: int|
                0 <= i < targets.len() ==> ids.contains((#[trigger] targets[i]).0)
                    && selected.contains(targets[i].0) && target_session(
                    sessions,
                    active,
                    targets[i].0,
                ) == Some(targets[i].1)
            &&& forall|id: Seq<char>|
                #![trigger target_session(sessions, active, id)]
                ids.contains(id) && selected.contains(id) && target_session(sessions, active, id)
                    is Some ==> exists|i: int|
                    0 <= i < targets.len() && (#[trigger] targets[i]).0 == id
        }),
    decreases ids.len(),
{
    if ids.len() > 0 {
        let rest = ids.drop_last();
        let id = ids.last();
        each_server_is_targeted_once(rest, selected, sessions, active);
        let before = target_sessions(rest, selected, sessions, active);
        let targets = target_sessions(ids, selected, sessions, active);
        assert forall|x: Seq<char>| ids.contains(x) <==> rest.contains(x) || x == id by {
            if rest.contains(x) {
                assert(ids[rest.index_of(x)] == x);
            }
            if ids.contains(x) && x != id {
                let k = ids.index_of(x);
                assert(rest[k] == x);
            }
            assert(ids[ids.len() - 1] == id);
        }
        assert forall|i: int| 0 <= i < before.len() implies before[i] == #[trigger] targets[i] by {}
        assert forall|i: int, j: int| 0 <= i < j < targets.len() implies (
        #[trigger] targets[i]).0 != (#[trigger] targets[j]).0 by {
            assert(before[i] == targets[i]);
            if j < before.len() {
                assert(before[j] == targets[j]);
            } else {
                assert(rest.contains(before[i].0));
            }
        }
        assert forall|i: int| 0 <= i < targets.len() implies ids.contains((#[trigger] targets[i]).0)
            && selected.contains(targets[i].0) && target_session(sessions, active, targets[i].0)
            == Some(targets[i].1) by {
            if i < before.len() {
                assert(before[i] == targets[i]);
            }
        }
        assert forall|x: Seq<char>|
            #![trigger target_session(sessions, active, x)]
            ids.contains(x) && selected.contains(x) && target_session(sessions, active, x)
                is Some implies exists|i: int|
            0 <= i < targets.len() && (#[trigger] targets[i]).0 == x by {
            if rest.contains(x) {
                let i = choose|i: int| 0 <= i < before.len() && (#[trigger] before[i]).0 == x;
                assert(targets[i].0 == x);
            } else {
                assert(targets[targets.len() - 1].0 == x);
            }
        }
    }
}

/// The session that a command goes to takes input for the profile that it was chosen for.
pub proof fn target_takes_input(
    sessions: Seq<(SessionId, Seq<char>, bool)>,
    active: Option<SessionId>,
    id: Seq<char>,
)
    ensures
        match target_session(sessions, active, id) {
            Some(session) => exists|i: int|
                0 <= i < sessions.len() && (#[trigger] sessions[i]).0 == session
                    && candidate_serves(sessions[i], id),
            None => forall|i: int|
                0 <= i < sessions.len() ==> !candidate_serves(#[trigger] sessions[i], id),
        },
    decreases sessions.len(),
{
    if !active_serves(sessions, active, id) && sessions.len() > 0 && !candidate_serves(
        sessions.last(),
        id,
    ) {
        let rest = sessions.drop_last();
        assert(!active_serves(rest, active, id)) by {
            if active_serves(rest, active, id) {
                let i = choose|i: int|
                    0 <= i < rest.len() && active == Some((#[trigger] rest[i]).0)
                        && candidate_serves(rest[i], id);
                assert(sessions[i] == rest[i]);
            }
        }
        target_takes_input(rest, active, id);
        assert forall|i: int| 0 <= i < rest.len() implies rest[i] == #[trigger] sessions[i] by {}
        match target_session(sessions, active, id) {
            Some(session) => {
                let i = choose|i: int|
                    0 <= i < rest.len() && (#[trigger] rest[i]).0 == session && candidate_serves(
                        rest[i],
                        id,
                    );
                assert(sessions[i].0 == session);
            },
            None => {
                assert forall|i: int| 0 <= i < sessions.len() implies !candidate_serves(
                    #[trigger] sessions[i],
                    id,
                ) by {
                    if i < rest.len() {
                        assert(rest[i] == sessions[i]);
                    }
                }
            },
        }
    }
}

/// A command goes to the active session where that takes input for the profile. Where it does not,
/// it goes to the latest session that does: none after it takes input for the profile. It goes
/// nowhere only where no session takes input for the profile.
pub proof fn latest_session_is_chosen(
    sessions: Seq<(SessionId, Seq<char>, bool)>,
    active: Option<SessionId>,
    id: Seq<char>,
)
    ensures
        ({
            let chosen = target_session(sessions, active, id);
            let active_takes_input = exists|i: int|
                0 <= i < sessions.len() && active == Some((#[trigger] sessions[i]).0)
                    && sessions[i].1 == id && sessions[i].2;
            if active_takes_input {
                chosen == active
            } else {
                match chosen {
                    Some(session) => exists|i: int|
                        0 <= i < sessions.len() && (#[trigger] sessions[i]).0 == session
                            && sessions[i].1 == id && sessions[i].2 && forall|j: int|
                            i < j < sessions.len() ==> !((#[trigger] sessions[j]).1 == id
                                && sessions[j].2),
                    None => forall|i: int|
                        0 <= i < sessions.len() ==> !((#[trigger] sessions[i]).1 == id
                            && sessions[i].2),
                }
            }
        }),
{
    latest_session_stands_last(sessions, id);
    if active_serves(sessions, active, id) {
        let i = choose|i: int|
            0 <= i < sessions.len() && active == Some((#[trigger] sessions[i]).0)
                && candidate_serves(sessions[i], id);
        assert(sessions[i].1 == id && sessions[i].2);
    }
    if exists|i: int|
        0 <= i < sessions.len() && active == Some((#[trigger] sessions[i]).0) && sessions[i].1 == id
            && sessions[i].2 {
        let i = choose|i: int|
            0 <= i < sessions.len() && active == Some((#[trigger] sessions[i]).0) && sessions[i].1
                == id && sessions[i].2;
        assert(candidate_serves(sessions[i], id));
    }
}

/// The latest session that takes input for the profile has none after it that does.
proof fn latest_session_stands_last(sessions: Seq<(SessionId, Seq<char>, bool)>, id: Seq<char>)
    ensures
        match latest_session(sessions, id) {
            Some(session) => exists|i: int|
                0 <= i < sessions.len() && (#[trigger] sessions[i]).0 == session && sessions[i].1
                    == id && sessions[i].2 && forall|j: int|
                    i < j < sessions.len() ==> !((#[trigger] sessions[j]).1 == id && sessions[j].2),
            None => forall|i: int|
                0 <= i < sessions.len() ==> !((#[trigger] sessions[i]).1 == id && sessions[i].2),
        },
    decreases sessions.len(),
{
    if sessions.len() > 0 {
        let last = sessions.len() - 1;
        if candidate_serves(sessions.last(), id) {
            assert(sessions[last].0 == sessions.last().0);
        } else {
            let rest = sessions.drop_last();
            latest_session_stands_last(rest, id);
            match latest_session(rest, id) {
                Some(session) => {
                    let i = choose|i: int|
                        0 <= i < rest.len() && (#[trigger] rest[i]).0 == session && rest[i].1 == id
                            && rest[i].2 && forall|j: int|
                            i < j < rest.len() ==> !((#[trigger] rest[j]).1 == id && rest[j].2);
                    assert forall|j: int| i < j < sessions.len() implies !((
                    #[trigger] sessions[j]).1 == id && sessions[j].2) by {
                        if j < last {
                            assert(rest[j] == sessions[j]);
                        }
                    }
                    assert(sessions[i] == rest[i]);
                },
                None => {
                    assert forall|i: int| 0 <= i < sessions.len() implies !((
                    #[trigger] sessions[i]).1 == id && sessions[i].2) by {
                        if i < last {
                            assert(rest[i] == sessions[i]);
                        }
                    }
                },
            }
        }
    }
}

/// One profile more adds one target at most, behind those before it: where the profile is selected,
/// was not there already, and has a session to go to.
pub proof fn targets_stand_in_the_order_of_profiles(
    ids: Seq<Seq<char>>,
    id: Seq<char>,
    selected: Set<Seq<char>>,
    sessions: Seq<(SessionId, Seq<char>, bool)>,
    active: Option<SessionId>,
)
    ensures
        target_sessions(Seq::empty(), selected, sessions, active).len() == 0,
        ({
            let before = target_sessions(ids, selected, sessions, active);
            let after = target_sessions(ids.push(id), selected, sessions, active);
            let has_session = exists|i: int|
                0 <= i < sessions.len() && (#[trigger] sessions[i]).1 == id && sessions[i].2;
            if selected.contains(id) && has_session && forall|k: int|
                0 <= k < ids.len() ==> (#[trigger] ids[k]) != id {
                &&& after.len() == before.len() + 1
                &&& after.drop_last() == before
                &&& after.last().0 == id
                &&& Some(after.last().1) == target_session(sessions, active, id)
            } else {
                after == before
            }
        }),
{
    assert(ids.push(id).drop_last() =~= ids);
    latest_session_is_chosen(sessions, active, id);
    let before = target_sessions(ids, selected, sessions, active);
    let after = target_sessions(ids.push(id), selected, sessions, active);
    if active_serves(sessions, active, id) {
        let i = choose|i: int|
            0 <= i < sessions.len() && active == Some((#[trigger] sessions[i]).0)
                && candidate_serves(sessions[i], id);
        assert(sessions[i].1 == id && sessions[i].2);
    }
    if after.len() == before.len() + 1 {
        assert(after.drop_last() =~= before);
    }
}

/// A profile is offered for commands exactly where a connection to its server takes input, and the
/// profiles stand in their order.
pub proof fn connected_profiles_take_input<S>(
    profiles: Seq<ConnectionProfile>,
    profile: ConnectionProfile,
    sessions: Seq<Session<S>>,
)
    ensures
        connected_ids(Seq::empty(), sessions).len() == 0,
        ({
            let before = connected_ids(profiles, sessions);
            let after = connected_ids(profiles.push(profile), sessions);
            let connected = exists|i: int|
                0 <= i < sessions.len() && (#[trigger] sessions[i]).profile_id@ == profile.id@
                    && sessions[i].kind == TerminalSessionKind::Ssh && sessions[i].connection_state
                    == SessionState::Connected && sessions[i].has_handle;
            after == if connected {
                before.push(profile.id@)
            } else {
                before
            }
        }),
{
    reveal(Seq::filter);
    let wanted = serves::<S>(profile.id@);
    any_where_iff(sessions, wanted);
    let connected = is_connected(sessions);
    filter_push(profiles, profile, connected);
    assert(connected(profile) == any_where(sessions, wanted));
    if any_where(sessions, wanted) {
        let i = choose|i: int| 0 <= i < sessions.len() && wanted(#[trigger] sessions[i]);
        assert(sessions[i].profile_id@ == profile.id@);
    }
    if exists|i: int|
        0 <= i < sessions.len() && (#[trigger] sessions[i]).profile_id@ == profile.id@
            && sessions[i].kind == TerminalSessionKind::Ssh && sessions[i].connection_state
            == SessionState::Connected && sessions[i].has_handle {
        let i = choose|i: int|
            0 <= i < sessions.len() && (#[trigger] sessions[i]).profile_id@ == profile.id@
                && sessions[i].kind == TerminalSessionKind::Ssh && sessions[i].connection_state
                == SessionState::Connected && sessions[i].has_handle;
        assert(wanted(sessions[i]));
    }
    assert(connected_ids(profiles.push(profile), sessions) =~= if any_where(sessions, wanted) {
        connected_ids(profiles, sessions).push(profile.id@)
    } else {
        connected_ids(profiles, sessions)
    });
}

} // verus!
