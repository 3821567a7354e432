//! Choosing what to take over from an OpenSSH configuration.
use crate::local_path::{local_display, local_path_text};
use crate::message::{labelled, labelled_text};
use crate::number::{decimal, u64_text};
use crate::profile::{has_profile, find_profile, AuthConfig, ConnectionProfile};
use crate::profile_editor::profile_auth_label;
use crate::sequences::{count_where, count_where_push, first_index, first_index_is};
use crate::text::{
    filter_push, join_texts, join_with, opt_view, text_eq, text_is_empty, views, views_push,
};
use crate::text_set::{toggled, TextSet};
use std::path::PathBuf;
use vstd::prelude::*;
use vstd::string::*;

verus! {

/// How a host of the configuration relates to the profiles there are.
#[derive(Clone, Copy, Debug, PartialEq, Eq, Structural)]
pub enum OpenSshImportStatus {
    New,
    Update,
    Unchanged,
    Conflict,
    Invalid,
}

/// Something in the configuration that was not understood.
#[derive(Debug, PartialEq, Eq)]
pub struct OpenSshWarning {
    pub path: PathBuf,
    pub line: u64,
    pub message: String,
}

/// A host of the configuration.
#[derive(Debug, PartialEq, Eq)]
pub struct OpenSshImportCandidate {
    pub alias: String,
    pub status: OpenSshImportStatus,
    pub profile: Option<ConnectionProfile>,
    /// The key file that the configuration names.
    pub identity_file: Option<PathBuf>,
    pub warnings: Vec<OpenSshWarning>,
}

/// What a configuration offers.
#[derive(Debug, PartialEq, Eq)]
pub struct OpenSshImportPreview {
    pub root_path: PathBuf,
    pub candidates: Vec<OpenSshImportCandidate>,
    pub warnings: Vec<OpenSshWarning>,
}

/// The key of the name of a status.
pub fn openssh_status_key(status: OpenSshImportStatus) -> (r: &'static str)
    ensures
        r == match status {
            OpenSshImportStatus::New => "import-status-new",
            OpenSshImportStatus::Update => "import-status-update",
            OpenSshImportStatus::Unchanged => "import-status-unchanged",
            OpenSshImportStatus::Conflict => "import-status-conflict",
            OpenSshImportStatus::Invalid => "import-status-invalid",
        },
{
    match status {
        OpenSshImportStatus::New => "import-status-new",
        OpenSshImportStatus::Update => "import-status-update",
        OpenSshImportStatus::Unchanged => "import-status-unchanged",
        OpenSshImportStatus::Conflict => "import-status-conflict",
        OpenSshImportStatus::Invalid => "import-status-invalid",
    }
}

/// The candidate's profile has the identifier `id`.
pub open spec fn offers(candidate: OpenSshImportCandidate, id: Seq<char>) -> bool {
    match candidate.profile {
        Some(profile) => profile.id@ == id,
        None => false,
    }
}

/// The alias of the last candidate whose profile has the identifier `id`.
pub open spec fn alias_of(candidates: Seq<OpenSshImportCandidate>, id: Seq<char>) -> Option<
    Seq<char>,
>
    decreases candidates.len(),
{
    if candidates.len() == 0 {
        None
    } else if offers(candidates.last(), id) {
        Some(candidates.last().alias@)
    } else {
        alias_of(candidates.drop_last(), id)
    }
}

/// The profiles that a candidate is reached over.
pub open spec fn jumps_of(candidate: OpenSshImportCandidate) -> Seq<Seq<char>> {
    match candidate.profile {
        Some(profile) => views(profile.route.jump_host_ids@),
        None => Seq::empty(),
    }
}

/// Where the candidate `i` is in the set, so is the alias that its jump `j` stands for.
pub open spec fn jump_is_met(
    candidates: Seq<OpenSshImportCandidate>,
    set: Set<Seq<char>>,
    i: int,
    j: int,
) -> bool {
    set.contains(candidates[i].alias@) ==> match alias_of(candidates, jumps_of(candidates[i])[j]) {
        Some(alias) => set.contains(alias),
        None => true,
    }
}

/// Whatever the candidates in the set are reached over is in the set too.
pub open spec fn is_closed(candidates: Seq<OpenSshImportCandidate>, set: Set<Seq<char>>) -> bool {
    forall|i: int, j: int|
        0 <= i < candidates.len() && 0 <= j < jumps_of(candidates[i]).len() ==> #[trigger]
            jump_is_met(candidates, set, i, j)
}

/// `set` is the smallest set that holds `start` and whatever its candidates are reached over.
pub open spec fn is_completion(
    candidates: Seq<OpenSshImportCandidate>,
    start: Set<Seq<char>>,
    set: Set<Seq<char>>,
) -> bool {
    &&& start.subset_of(set)
    &&& is_closed(candidates, set)
    &&& forall|other: Set<Seq<char>>|
        start.subset_of(other) && #[trigger] is_closed(candidates, other) ==> set.subset_of(other)
}

/// Being a candidate outside the set.
pub open spec fn is_outside(set: Set<Seq<char>>) -> spec_fn(OpenSshImportCandidate) -> bool {
    |candidate: OpenSshImportCandidate| !set.contains(candidate.alias@)
}

/// The position of the last candidate whose profile has the identifier `id`.
fn find_alias(candidates: &Vec<OpenSshImportCandidate>, id: &str) -> (r: Option<usize>)
    ensures
        match r {
            Some(k) => k < candidates@.len() && alias_of(candidates@, id@) == Some(
                candidates@[k as int].alias@,
            ),
            None => alias_of(candidates@, id@) is None,
        },
{
    let mut found: Option<usize> = None;
    let mut i: usize = 0;
    assert(candidates@.take(0) =~= Seq::<OpenSshImportCandidate>::empty());
    while i < candidates.len()
        invariant
            i <= candidates@.len(),
            match found {
                Some(k) => k < i && alias_of(candidates@.take(i as int), id@) == Some(
                    candidates@[k as int].alias@,
                ),
                None => alias_of(candidates@.take(i as int), id@) is None,
            },
        decreases candidates@.len() - i,
    {
        proof {
            assert(candidates@.take(i + 1).drop_last() =~= candidates@.take(i as int));
            assert(candidates@.take(i + 1).last() == candidates@[i as int]);
        }
        match &candidates[i].profile {
            Some(profile) => {
                if text_eq(profile.id.as_str(), id) {
                    found = Some(i);
                }
            },
            None => (),
        }
        i = i + 1;
    }
    assert(candidates@.take(i as int) =~= candidates@);
    found
}

/// A set that grows by a candidate's alias leaves fewer candidates outside.
proof fn fewer_outside(
    candidates: Seq<OpenSshImportCandidate>,
    small: Set<Seq<char>>,
    large: Set<Seq<char>>,
    k: int,
)
    requires
        small.subset_of(large),
        0 <= k < candidates.len(),
        !small.contains(candidates[k].alias@),
        large.contains(candidates[k].alias@),
    ensures
        count_where(candidates, is_outside(large)) < count_where(candidates, is_outside(small)),
    decreases candidates.len(),
{
    let rest = candidates.drop_last();
    assert(rest.push(candidates.last()) =~= candidates);
    count_where_push(rest, candidates.last(), is_outside(large));
    count_where_push(rest, candidates.last(), is_outside(small));
    if k < rest.len() {
        assert(rest[k] == candidates[k]);
        fewer_outside(rest, small, large, k);
    } else {
        no_more_outside(rest, small, large);
    }
}

/// A larger set leaves no more candidates outside.
proof fn no_more_outside(
    candidates: Seq<OpenSshImportCandidate>,
    small: Set<Seq<char>>,
    large: Set<Seq<char>>,
)
    requires
        small.subset_of(large),
    ensures
        count_where(candidates, is_outside(large)) <= count_where(candidates, is_outside(small)),
    decreases candidates.len(),
{
    reveal(Seq::filter);
    if candidates.len() > 0 {
        let rest = candidates.drop_last();
        assert(rest.push(candidates.last()) =~= candidates);
        count_where_push(rest, candidates.last(), is_outside(large));
        count_where_push(rest, candidates.last(), is_outside(small));
        no_more_outside(rest, small, large);
    }
}

/// Adds to the selection whatever its candidates are reached over, and so on.
pub fn include_openssh_dependencies(preview: &OpenSshImportPreview, selected_aliases: &mut TextSet)
    ensures
        is_completion(preview.candidates@, old(selected_aliases)@, final(selected_aliases)@),
{
    let ghost start = selected_aliases@;
    let ghost all = preview.candidates@;
    let mut done = false;
    while !done
        invariant
            all == preview.candidates@,
            start.subset_of(selected_aliases@),
            done ==> is_closed(all, selected_aliases@),
            forall|other: Set<Seq<char>>|
                start.subset_of(other) && #[trigger] is_closed(all, other)
                    ==> selected_aliases@.subset_of(other),
        decreases
            count_where(all, is_outside(selected_aliases@)),
            if done {
                0int
            } else {
                1int
            },
    {
        let ghost before = selected_aliases@;
        let mut added = false;
        let mut i: usize = 0;
        while i < preview.candidates.len()
            invariant
                all == preview.candidates@,
                i <= all.len(),
                start.subset_of(before),
                before.subset_of(selected_aliases@),
                forall|other: Set<Seq<char>>|
                    start.subset_of(other) && #[trigger] is_closed(all, other)
                        ==> selected_aliases@.subset_of(other),
                added ==> exists|k: int|
                    0 <= k < all.len() && !before.contains((#[trigger] all[k]).alias@)
                        && selected_aliases@.contains(all[k].alias@),
                !added ==> selected_aliases@ == before && forall|m: int, j: int|
                    0 <= m < i && 0 <= j < jumps_of(all[m]).len() ==> #[trigger] jump_is_met(
                        all,
                        before,
                        m,
                        j,
                    ),
            decreases all.len() - i,
        {
            let candidate = &preview.candidates[i];
            if selected_aliases.contains(candidate.alias.as_str()) {
                match &candidate.profile {
                    Some(profile) => {
                        let jumps = &profile.route.jump_host_ids;
                        let mut j: usize = 0;
                        while j < jumps.len()
                            invariant
                                all == preview.candidates@,
                                i < all.len(),
                                *candidate == all[i as int],
                                candidate.profile == Some(*profile),
                                jumps@ == profile.route.jump_host_ids@,
                                j <= jumps@.len(),
                                start.subset_of(before),
                                before.subset_of(selected_aliases@),
                                selected_aliases@.contains(candidate.alias@),
                                forall|other: Set<Seq<char>>|
                                    start.subset_of(other) && #[trigger] is_closed(all, other)
                                        ==> selected_aliases@.subset_of(other),
                                added ==> exists|k: int|
                                    0 <= k < all.len() && !before.contains(
                                        (#[trigger] all[k]).alias@,
                                    ) && selected_aliases@.contains(all[k].alias@),
                                !added ==> selected_aliases@ == before && forall|m: int, n: int|
                                    0 <= m < i && 0 <= n < jumps_of(all[m]).len()
                                        ==> #[trigger] jump_is_met(all, before, m, n),
                                !added ==> forall|n: int|
                                    0 <= n < j ==> #[trigger] jump_is_met(
                                        all,
                                        before,
                                        i as int,
                                        n,
                                    ),
                            decreases jumps@.len() - j,
                        {
                            let ghost known = selected_aliases@;
                            let ghost jump = jumps@[j as int]@;
                            assert(jumps_of(all[i as int])[j as int] == jump);
                            match find_alias(&preview.candidates, jumps[j].as_str()) {
                                Some(k) => {
                                    let alias = preview.candidates[k].alias.clone();
                                    let is_new = selected_aliases.insert(alias);
                                    proof {
                                        assert forall|other: Set<Seq<char>>|
                                            start.subset_of(other) && #[trigger] is_closed(
                                                all,
                                                other,
                                            ) implies selected_aliases@.subset_of(other) by {
                                            assert(known.subset_of(other));
                                            assert(jump_is_met(all, other, i as int, j as int));
                                            assert(other.contains(all[i as int].alias@));
                                        }
                                        if is_new {
                                            assert(!before.contains(all[k as int].alias@));
                                        } else {
                                            assert(selected_aliases@ =~= known);
                                        }
                                    }
                                    if is_new {
                                        added = true;
                                    }
                                },
                                None => (),
                            }
                            assert(!added ==> jump_is_met(all, before, i as int, j as int));
                            j = j + 1;
                        }
                    },
                    None => {
                        assert(jumps_of(all[i as int]).len() == 0);
                    },
                }
            } else {
                assert(!before.contains(all[i as int].alias@));
                assert forall|n: int| 0 <= n < jumps_of(all[i as int]).len() implies #[trigger]
                    jump_is_met(all, before, i as int, n) by {}
            }
            i = i + 1;
        }
        proof {
            if added {
                let k = choose|k: int|
                    0 <= k < all.len() && !before.contains((#[trigger] all[k]).alias@)
                        && selected_aliases@.contains(all[k].alias@);
                fewer_outside(all, before, selected_aliases@, k);
            }
        }
        if !added {
            done = true;
        }
    }
}

/// A selection has one completion only.
pub proof fn completion_is_unique(
    candidates: Seq<OpenSshImportCandidate>,
    start: Set<Seq<char>>,
    a: Set<Seq<char>>,
    b: Set<Seq<char>>,
)
    requires
        is_completion(candidates, start, a),
        is_completion(candidates, start, b),
    ensures
        a == b,
{
    assert(is_closed(candidates, a) && is_closed(candidates, b));
    assert(a =~= b);
}

/// Completing a completion changes nothing.
pub proof fn completing_twice(
    candidates: Seq<OpenSshImportCandidate>,
    start: Set<Seq<char>>,
    once: Set<Seq<char>>,
    twice: Set<Seq<char>>,
)
    requires
        is_completion(candidates, start, once),
        is_completion(candidates, once, twice),
    ensures
        twice == once,
{
    assert(is_closed(candidates, once));
    assert(once.subset_of(once));
    assert(twice =~= once);
}

/// Selecting more completes to more.
pub proof fn completion_grows(
    candidates: Seq<OpenSshImportCandidate>,
    small: Set<Seq<char>>,
    large: Set<Seq<char>>,
    a: Set<Seq<char>>,
    b: Set<Seq<char>>,
)
    requires
        small.subset_of(large),
        is_completion(candidates, small, a),
        is_completion(candidates, large, b),
    ensures
        a.subset_of(b),
{
    assert(small.subset_of(b));
    assert(is_closed(candidates, b));
}

/// Being a candidate that is selected from the start.
pub open spec fn is_wanted() -> spec_fn(OpenSshImportCandidate) -> bool {
    |candidate: OpenSshImportCandidate|
        candidate.status == OpenSshImportStatus::New || candidate.status
            == OpenSshImportStatus::Update
}

/// The aliases of candidates.
pub open spec fn aliases(candidates: Seq<OpenSshImportCandidate>) -> Seq<Seq<char>> {
    candidates.map_values(|candidate: OpenSshImportCandidate| candidate.alias@)
}

/// What is selected from the start, before it is completed.
pub open spec fn wanted_aliases(candidates: Seq<OpenSshImportCandidate>) -> Set<Seq<char>> {
    aliases(candidates.filter(is_wanted())).to_set()
}

/// What is selected from the start: what is new or changed, and what that is reached over.
pub fn default_openssh_selection(preview: &OpenSshImportPreview) -> (r: TextSet)
    ensures
        is_completion(preview.candidates@, wanted_aliases(preview.candidates@), r@),
{
    let mut list: Vec<String> = Vec::new();
    let mut i: usize = 0;
    let ghost all = preview.candidates@;
    let ghost wanted = is_wanted();
    proof {
        reveal(Seq::filter);
    }
    assert(views(list@) =~= aliases(all.take(0).filter(wanted)));
    while i < preview.candidates.len()
        invariant
            all == preview.candidates@,
            wanted == is_wanted(),
            i <= all.len(),
            views(list@) == aliases(all.take(i as int).filter(wanted)),
        decreases all.len() - i,
    {
        let ghost before = all.take(i as int);
        let ghost known = list@;
        proof {
            assert(all.take(i + 1) =~= before.push(all[i as int]));
            filter_push(before, all[i as int], wanted);
        }
        let status = preview.candidates[i].status;
        if status == OpenSshImportStatus::New || status == OpenSshImportStatus::Update {
            list.push(preview.candidates[i].alias.clone());
            proof {
                assert(wanted(all[i as int]));
                views_push(known, all[i as int].alias);
            }
        } else {
            assert(!wanted(all[i as int]));
        }
        assert(views(list@) =~= aliases(all.take(i + 1).filter(wanted)));
        i = i + 1;
    }
    assert(all.take(i as int) =~= all);
    let mut selected = TextSet::from_texts(&list);
    include_openssh_dependencies(preview, &mut selected);
    selected
}

/// The way to log in that follows another when the user goes through them. A key file is offered
/// where the configuration names one.
pub open spec fn next_auth(auth: AuthConfig, identity_file: Option<PathBuf>) -> AuthConfig {
    match auth {
        AuthConfig::NoPassword => AuthConfig::Password,
        AuthConfig::Password => match identity_file {
            Some(path) => AuthConfig::PrivateKey { path },
            None => AuthConfig::Agent,
        },
        AuthConfig::Agent => AuthConfig::NoPassword,
        AuthConfig::PrivateKey { .. } => AuthConfig::Agent,
    }
}

/// Going through the ways to log in leads back to the first one: after four steps where the
/// configuration names a key file, else after three.
pub proof fn going_through_returns(identity_file: Option<PathBuf>)
    ensures
        ({
            let a = next_auth(AuthConfig::NoPassword, identity_file);
            let b = next_auth(a, identity_file);
            let c = next_auth(b, identity_file);
            if identity_file is Some {
                next_auth(c, identity_file) == AuthConfig::NoPassword
            } else {
                c == AuthConfig::NoPassword
            }
        }),
{
}

/// Having the alias `alias`.
pub open spec fn has_alias(alias: Seq<char>) -> spec_fn(OpenSshImportCandidate) -> bool {
    |candidate: OpenSshImportCandidate| candidate.alias@ == alias
}

/// The position of the first candidate with the alias `alias`.
pub open spec fn candidate_position(
    candidates: Seq<OpenSshImportCandidate>,
    alias: Seq<char>,
) -> int {
    first_index(candidates, has_alias(alias))
}

impl OpenSshImportPreview {
    /// Moves a candidate on to the next way to log in; says whether there was one to move.
    pub fn cycle_openssh_authentication(&mut self, alias: &str) -> (r: bool)
        ensures
            auth_cycled(*old(self), alias@, *final(self), r),
    {
        let ghost all = self.candidates@;
        let ghost wanted = has_alias(alias@);
        let mut i: usize = 0;
        while i < self.candidates.len() && !text_eq(self.candidates[i].alias.as_str(), alias)
            invariant
                *self == *old(self),
                all == self.candidates@,
                wanted == has_alias(alias@),
                i <= all.len(),
                forall|k: int| 0 <= k < i ==> !wanted(#[trigger] all[k]),
            decreases all.len() - i,
        {
            assert(!wanted(all[i as int]));
            i = i + 1;
        }
        proof {
            if i < all.len() {
                assert(wanted(all[i as int]));
            }
            first_index_is(all, wanted, i as int);
        }
        if i == self.candidates.len() || self.candidates[i].profile.is_none() {
            return false;
        }
        let identity_file = match &self.candidates[i].identity_file {
            Some(path) => Some(path.clone()),
            None => None,
        };
        match self.candidates[i].profile.as_mut() {
            Some(profile) => {
                profile.auth = match &profile.auth {
                    AuthConfig::NoPassword => AuthConfig::Password,
                    AuthConfig::Password => match identity_file {
                        Some(path) => AuthConfig::PrivateKey { path },
                        None => AuthConfig::Agent,
                    },
                    AuthConfig::Agent => AuthConfig::NoPassword,
                    AuthConfig::PrivateKey { .. } => AuthConfig::Agent,
                };
                true
            },
            None => false,
        }
    }
}

/// The state of choosing what to take over.
#[derive(Debug)]
pub struct OpenSshImport {
    pub preview: Option<OpenSshImportPreview>,
    pub loading: bool,
    pub error: Option<String>,
    pub selected_aliases: TextSet,
    pub overwrite_conflicts: TextSet,
}

/// The profile that is selected when the profiles have changed: the same one where it is still
/// there, else the first.
pub open spec fn selection_in(
    selected: Option<Seq<char>>,
    profiles: Seq<ConnectionProfile>,
) -> Option<Seq<char>> {
    match selected {
        Some(id) if has_profile(profiles, id) => Some(id),
        _ => if profiles.len() > 0 {
            Some(profiles[0].id@)
        } else {
            None
        },
    }
}

/// The profile that is selected when the profiles have changed.
pub fn keep_selection(selected: &Option<String>, profiles: &Vec<ConnectionProfile>) -> (r: Option<
    String,
>)
    ensures
        opt_view(r) == selection_in(opt_view(*selected), profiles@),
{
    match selected {
        Some(id) => {
            if find_profile(profiles, id.as_str()).is_some() {
                return Some(id.clone());
            }
        },
        None => (),
    }
    if profiles.len() > 0 {
        Some(profiles[0].id.clone())
    } else {
        None
    }
}

/// What beginning to take the selection over comes to.
pub open spec fn apply_begun(
    before: OpenSshImport,
    after: OpenSshImport,
    r: Option<PathBuf>,
) -> bool {
    match before.preview {
        Some(preview) if before.can_apply() => r == Some(preview.root_path) && after == (
        OpenSshImport { loading: true, error: None, ..before }),
        _ => r is None && after == before,
    }
}

/// What becomes of the selection when a candidate is selected, or taken out of it.
pub open spec fn selection_toggled(
    preview: Option<OpenSshImportPreview>,
    before: Set<Seq<char>>,
    alias: Seq<char>,
    after: Set<Seq<char>>,
) -> bool {
    if before.contains(alias) {
        after == before.remove(alias)
    } else {
        match preview {
            Some(preview) => is_completion(preview.candidates@, before.insert(alias), after),
            None => after == before.insert(alias),
        }
    }
}

/// What moving a candidate on to the next way to log in comes to.
pub open spec fn auth_cycled(
    before: OpenSshImportPreview,
    alias: Seq<char>,
    after: OpenSshImportPreview,
    r: bool,
) -> bool {
    let i = candidate_position(before.candidates@, alias);
    let candidate = before.candidates@[i];
    &&& r <==> i < before.candidates@.len() && candidate.profile is Some
    &&& !r ==> after == before
    &&& r ==> after == (OpenSshImportPreview { candidates: after.candidates, ..before })
        && after.candidates@ == before.candidates@.update(
        i,
        OpenSshImportCandidate {
            profile: Some(
                ConnectionProfile {
                    auth: next_auth(candidate.profile->0.auth, candidate.identity_file),
                    ..candidate.profile->0
                },
            ),
            ..candidate
        },
    )
}

impl OpenSshImport {
    /// The state before anything was read.
    pub fn new() -> (r: Self)
        ensures
            r.preview is None,
            !r.loading,
            r.error is None,
            r.selected_aliases@ == Set::<Seq<char>>::empty(),
            r.overwrite_conflicts@ == Set::<Seq<char>>::empty(),
    {
        OpenSshImport {
            preview: None,
            loading: false,
            error: None,
            selected_aliases: TextSet::new(),
            overwrite_conflicts: TextSet::new(),
        }
    }

    /// The usual configuration is to be read when the panel is shown.
    pub fn reads_default_on_show(&self) -> (r: bool)
        ensures
            r == (self.preview is None && !self.loading),
    {
        self.preview.is_none() && !self.loading
    }

    /// Begins to read a configuration; false where one is being read or taken over already.
    pub fn begin_preview(&mut self) -> (r: bool)
        ensures
            r == !old(self).loading,
            *final(self) == if r {
                OpenSshImport { loading: true, error: None, ..*old(self) }
            } else {
                *old(self)
            },
    {
        if self.loading {
            return false;
        }
        self.loading = true;
        self.error = None;
        true
    }

    /// Shows what a configuration offers.
    pub fn finish_preview(&mut self, preview: OpenSshImportPreview)
        ensures
            final(self).preview == Some(preview),
            !final(self).loading,
            final(self).error == old(self).error,
            is_completion(
                preview.candidates@,
                wanted_aliases(preview.candidates@),
                final(self).selected_aliases@,
            ),
            final(self).overwrite_conflicts@ == Set::<Seq<char>>::empty(),
    {
        self.loading = false;
        self.selected_aliases = default_openssh_selection(&preview);
        self.overwrite_conflicts.clear();
        self.preview = Some(preview);
    }

    /// Shows why a configuration could not be read or taken over.
    pub fn fail(&mut self, label: &str, detail: &str)
        ensures
            *final(self) == (OpenSshImport {
                loading: false,
                error: final(self).error,
                ..*old(self)
            }),
            final(self).error is Some,
            final(self).error->0@ == labelled_text(label@, detail@),
    {
        self.loading = false;
        self.error = Some(labelled(label, detail));
    }

    /// Selects a candidate with whatever it is reached over, or takes it out of the selection.
    pub fn toggle_openssh_candidate(&mut self, alias: String)
        ensures
            *final(self) == (OpenSshImport {
                selected_aliases: final(self).selected_aliases,
                ..*old(self)
            }),
            selection_toggled(
                old(self).preview,
                old(self).selected_aliases@,
                alias@,
                final(self).selected_aliases@,
            ),
    {
        if self.selected_aliases.toggle(alias) {
            match &self.preview {
                Some(preview) => {
                    include_openssh_dependencies(preview, &mut self.selected_aliases);
                },
                None => (),
            }
        }
    }

    /// Changes whether a candidate replaces the profile that it conflicts with.
    pub fn toggle_openssh_conflict_policy(&mut self, alias: String)
        ensures
            *final(self) == (OpenSshImport {
                overwrite_conflicts: final(self).overwrite_conflicts,
                ..*old(self)
            }),
            final(self).overwrite_conflicts@ == toggled(old(self).overwrite_conflicts@, alias@),
    {
        self.overwrite_conflicts.toggle(alias);
    }

    /// Something can be taken over.
    pub open spec fn can_apply(self) -> bool {
        !self.loading && !(self.selected_aliases@ =~= Set::<Seq<char>>::empty())
    }

    /// The button that takes the selection over is enabled.
    pub fn apply_enabled(&self) -> (r: bool)
        ensures
            r == self.can_apply(),
    {
        !self.loading && !self.selected_aliases.is_empty()
    }

    /// The key of what the button that takes the selection over says.
    pub fn apply_label_key(&self) -> (r: &'static str)
        ensures
            r == if self.loading {
                "common-loading"
            } else {
                "import-apply"
            },
    {
        if self.loading {
            "common-loading"
        } else {
            "import-apply"
        }
    }

    /// Begins to take the selection over: the configuration to read again when that is done.
    pub fn begin_apply(&mut self) -> (r: Option<PathBuf>)
        ensures
            apply_begun(*old(self), *final(self), r),
    {
        if self.loading || self.selected_aliases.is_empty() {
            return None;
        }
        match &self.preview {
            Some(preview) => {
                let root_path = preview.root_path.clone();
                self.loading = true;
                self.error = None;
                Some(root_path)
            },
            None => None,
        }
    }

    /// The selection was taken over: how many profiles are new, and which one is selected now.
    pub fn finish_apply(
        &mut self,
        profile_count: usize,
        profiles: &Vec<ConnectionProfile>,
        selected_profile: &Option<String>,
    ) -> (r: (usize, Option<String>))
        ensures
            *final(self) == (OpenSshImport {
                loading: false,
                error: None,
                selected_aliases: final(self).selected_aliases,
                ..*old(self)
            }),
            final(self).selected_aliases@ == Set::<Seq<char>>::empty(),
            r.0 == if profiles@.len() > profile_count {
                profiles@.len() - profile_count
            } else {
                0
            },
            opt_view(r.1) == selection_in(
                opt_view(*selected_profile),
                profiles@,
            ),
    {
        self.loading = false;
        self.error = None;
        self.selected_aliases.clear();
        let imported: usize = if profiles.len() > profile_count {
            profiles.len() - profile_count
        } else {
            0
        };
        (imported, keep_selection(selected_profile, profiles))
    }
}

/// A warning as text.
pub open spec fn warning_line(warning: OpenSshWarning) -> Seq<char> {
    local_display(warning.path) + seq![':'] + decimal(warning.line as nat) + seq![':', ' ']
        + warning.message@
}

/// Warnings as text, one on each line.
pub open spec fn warning_text(warnings: Seq<OpenSshWarning>) -> Seq<char> {
    join_with(warnings.map_values(|warning: OpenSshWarning| warning_line(warning)), "\n"@)
}

/// Warnings as text, one on each line.
pub fn openssh_warning_text(warnings: &Vec<OpenSshWarning>) -> (r: String)
    ensures
        r@ == warning_text(warnings@),
{
    let mut lines: Vec<String> = Vec::new();
    let mut i: usize = 0;
    while i < warnings.len()
        invariant
            i <= warnings@.len(),
            lines@.len() == i,
            forall|k: int| 0 <= k < i ==> (#[trigger] lines@[k])@ == warning_line(warnings@[k]),
        decreases warnings@.len() - i,
    {
        let warning = &warnings[i];
        let mut line = local_path_text(&warning.path);
        line.push(':');
        let number = u64_text(warning.line);
        line.append(number.as_str());
        line.push(':');
        line.push(' ');
        line.append(warning.message.as_str());
        assert(line@ =~= warning_line(*warning));
        lines.push(line);
        i = i + 1;
    }
    assert(views(lines@) =~= warnings@.map_values(
        |warning: OpenSshWarning| warning_line(warning),
    ));
    join_texts(&lines, "\n")
}

/// What the row of a candidate shows.
#[derive(Debug, PartialEq, Eq)]
pub struct OpenSshRow {
    pub selected: bool,
    /// The candidate can be selected and its way to log in changed.
    pub selectable: bool,
    pub status_key: &'static str,
    pub auth_key: &'static str,
    /// What happens to a conflicting profile; none where there is no conflict.
    pub policy_key: Option<&'static str>,
    /// The warnings; none where there are none to show.
    pub warnings: Option<String>,
}

/// The row shows the candidate.
pub open spec fn is_row_for(
    row: OpenSshRow,
    candidate: OpenSshImportCandidate,
    state: OpenSshImport,
) -> bool {
    &&& row.selected == state.selected_aliases@.contains(candidate.alias@)
    &&& row.selectable == (candidate.status != OpenSshImportStatus::Invalid)
    &&& row.status_key == match candidate.status {
        OpenSshImportStatus::New => "import-status-new",
        OpenSshImportStatus::Update => "import-status-update",
        OpenSshImportStatus::Unchanged => "import-status-unchanged",
        OpenSshImportStatus::Conflict => "import-status-conflict",
        OpenSshImportStatus::Invalid => "import-status-invalid",
    }
    &&& row.auth_key == match candidate.profile {
        Some(profile) => match profile.auth {
            AuthConfig::NoPassword => "common-none",
            AuthConfig::Password => "credential-password",
            AuthConfig::PrivateKey { .. } => "profile-auth-private-key",
            AuthConfig::Agent => "profile-auth-agent",
        },
        None => "common-none",
    }
    &&& row.policy_key == if candidate.status != OpenSshImportStatus::Conflict {
        None
    } else if state.overwrite_conflicts@.contains(candidate.alias@) {
        Some("import-overwrite-local")
    } else {
        Some("import-keep-local")
    }
    &&& match row.warnings {
        Some(text) => text@ == warning_text(candidate.warnings@) && text@.len() > 0,
        None => warning_text(candidate.warnings@).len() == 0,
    }
}

/// What the row of a candidate shows.
pub fn openssh_row(candidate: &OpenSshImportCandidate, state: &OpenSshImport) -> (r: OpenSshRow)
    ensures
        is_row_for(r, *candidate, *state),
{
    let text = openssh_warning_text(&candidate.warnings);
    OpenSshRow {
        selected: state.selected_aliases.contains(candidate.alias.as_str()),
        selectable: candidate.status != OpenSshImportStatus::Invalid,
        status_key: openssh_status_key(candidate.status),
        auth_key: match &candidate.profile {
            Some(profile) => profile_auth_label(&profile.auth),
            None => "common-none",
        },
        policy_key: if candidate.status != OpenSshImportStatus::Conflict {
            None
        } else if state.overwrite_conflicts.contains(candidate.alias.as_str()) {
            Some("import-overwrite-local")
        } else {
            Some("import-keep-local")
        },
        warnings: if text_is_empty(text.as_str()) {
            None
        } else {
            Some(text)
        },
    }
}

/// The panel for what a configuration offers.
#[derive(Debug, PartialEq, Eq)]
pub struct OpenSshPanel {
    /// How many warnings there are on the whole, and what they say; none where there are none.
    pub warnings: Option<(usize, String)>,
    pub rows: Vec<OpenSshRow>,
    /// A configuration was read and offers nothing.
    pub empty: bool,
}

/// The panel for what a configuration offers. Before one was read the panel is bare.
pub fn openssh_panel(state: &OpenSshImport) -> (r: OpenSshPanel)
    ensures
        match state.preview {
            None => r.warnings is None && r.rows@.len() == 0 && !r.empty,
            Some(preview) => {
                &&& match r.warnings {
                    Some((count, text)) => count == preview.warnings@.len() && count > 0 && text@
                        == warning_text(preview.warnings@),
                    None => preview.warnings@.len() == 0,
                }
                &&& r.rows@.len() == preview.candidates@.len()
                &&& forall|i: int|
                    0 <= i < r.rows@.len() ==> is_row_for(
                        #[trigger] r.rows@[i],
                        preview.candidates@[i],
                        *state,
                    )
                &&& r.empty == (preview.candidates@.len() == 0)
            },
        },
{
    let mut rows: Vec<OpenSshRow> = Vec::new();
    match &state.preview {
        None => OpenSshPanel { warnings: None, rows, empty: false },
        Some(preview) => {
            let mut i: usize = 0;
            while i < preview.candidates.len()
                invariant
                    i <= preview.candidates@.len(),
                    rows@.len() == i,
                    forall|k: int|
                        0 <= k < i ==> is_row_for(
                            #[trigger] rows@[k],
                            preview.candidates@[k],
                            *state,
                        ),
                decreases preview.candidates@.len() - i,
            {
                rows.push(openssh_row(&preview.candidates[i], state));
                i = i + 1;
            }
            OpenSshPanel {
                warnings: if preview.warnings.len() == 0 {
                    None
                } else {
                    Some((preview.warnings.len(), openssh_warning_text(&preview.warnings)))
                },
                rows,
                empty: preview.candidates.len() == 0,
            }
        },
    }
}

/// What a selected host is reached over is selected with it: of the candidates whose profile has
/// the identifier that the route names, the last.
pub proof fn jumps_come_with_their_host(
    candidates: Seq<OpenSshImportCandidate>,
    start: Set<Seq<char>>,
    set: Set<Seq<char>>,
    i: int,
    j: int,
    k: int,
)
    requires
        is_completion(candidates, start, set),
        0 <= i < candidates.len(),
        set.contains(candidates[i].alias@),
        candidates[i].profile is Some,
        0 <= j < candidates[i].profile->0.route.jump_host_ids@.len(),
        0 <= k < candidates.len(),
        candidates[k].profile is Some,
        candidates[k].profile->0.id@ == candidates[i].profile->0.route.jump_host_ids@[j]@,
        forall|m: int|
            k < m < candidates.len() ==> !((#[trigger] candidates[m]).profile is Some
                && candidates[m].profile->0.id@
                == candidates[i].profile->0.route.jump_host_ids@[j]@),
    ensures
        set.contains(candidates[k].alias@),
{
    let id = candidates[i].profile->0.route.jump_host_ids@[j]@;
    assert(jumps_of(candidates[i])[j] == id);
    assert(jump_is_met(candidates, set, i, j));
    last_offer_counts(candidates, id, k);
}

/// The alias of an identifier is that of the last candidate with it.
proof fn last_offer_counts(candidates: Seq<OpenSshImportCandidate>, id: Seq<char>, k: int)
    requires
        0 <= k < candidates.len(),
        offers(candidates[k], id),
        forall|m: int| k < m < candidates.len() ==> !offers(#[trigger] candidates[m], id),
    ensures
        alias_of(candidates, id) == Some(candidates[k].alias@),
    decreases candidates.len(),
{
    if k < candidates.len() - 1 {
        assert(!offers(candidates[candidates.len() - 1], id));
        let rest = candidates.drop_last();
        assert forall|m: int| k < m < rest.len() implies !offers(#[trigger] rest[m], id) by {
            assert(rest[m] == candidates[m]);
        }
        last_offer_counts(rest, id, k);
    }
}

/// Nothing is selected beside what was chosen and what a selected host is reached over.
pub proof fn nothing_needless_is_selected(
    candidates: Seq<OpenSshImportCandidate>,
    start: Set<Seq<char>>,
    set: Set<Seq<char>>,
    alias: Seq<char>,
)
    requires
        is_completion(candidates, start, set),
        set.contains(alias),
    ensures
        start.contains(alias) || exists|i: int, j: int|
            0 <= i < candidates.len() && set.contains((#[trigger] candidates[i]).alias@)
                && candidates[i].profile is Some && 0 <= j
                < candidates[i].profile->0.route.jump_host_ids@.len() && alias_of(
                candidates,
                (#[trigger] candidates[i].profile->0.route.jump_host_ids@[j])@,
            ) == Some(alias),
{
    let needed = exists|i: int, j: int|
        0 <= i < candidates.len() && set.contains((#[trigger] candidates[i]).alias@)
            && candidates[i].profile is Some && 0 <= j
            < candidates[i].profile->0.route.jump_host_ids@.len() && alias_of(
            candidates,
            (#[trigger] candidates[i].profile->0.route.jump_host_ids@[j])@,
        ) == Some(alias);
    if !start.contains(alias) && !needed {
        let other = set.remove(alias);
        assert forall|i: int, j: int|
            0 <= i < candidates.len() && 0 <= j < jumps_of(candidates[i]).len() implies #[trigger]
            jump_is_met(candidates, other, i, j) by {
            assert(jump_is_met(candidates, set, i, j));
            if other.contains(candidates[i].alias@) {
                let jump = candidates[i].profile->0.route.jump_host_ids@[j];
                assert(jumps_of(candidates[i])[j] == jump@);
                assert(alias_of(candidates, jump@) != Some(alias));
            }
        }
        assert(is_closed(candidates, other));
        assert(start.subset_of(other));
        assert(set.subset_of(other));
        assert(other.contains(alias));
    }
}

/// Chosen from the start is what is new or was changed, and nothing that is unchanged, conflicts
/// with a profile or is not valid.
pub proof fn new_and_changed_hosts_are_chosen(
    candidates: Seq<OpenSshImportCandidate>,
    alias: Seq<char>,
)
    ensures
        wanted_aliases(candidates).contains(alias) <==> exists|i: int|
            0 <= i < candidates.len() && (#[trigger] candidates[i]).alias@ == alias && (
            candidates[i].status == OpenSshImportStatus::New || candidates[i].status
                == OpenSshImportStatus::Update),
{
    let wanted = is_wanted();
    let kept = candidates.filter(wanted);
    if wanted_aliases(candidates).contains(alias) {
        let k = aliases(kept).index_of(alias);
        assert(kept[k].alias@ == alias);
        assert(kept.contains(kept[k]));
        crate::sequences::filter_is_exact(candidates, wanted, kept[k]);
        let i = candidates.index_of(kept[k]);
        assert(candidates[i].alias@ == alias);
    }
    if exists|i: int|
        0 <= i < candidates.len() && (#[trigger] candidates[i]).alias@ == alias && (
        candidates[i].status == OpenSshImportStatus::New || candidates[i].status
            == OpenSshImportStatus::Update) {
        let i = choose|i: int|
            0 <= i < candidates.len() && (#[trigger] candidates[i]).alias@ == alias && (
            candidates[i].status == OpenSshImportStatus::New || candidates[i].status
                == OpenSshImportStatus::Update);
        crate::sequences::filter_is_exact(candidates, wanted, candidates[i]);
        let k = kept.index_of(candidates[i]);
        assert(aliases(kept)[k] == alias);
    }
}

/// A step through the ways to log in never stays where it is, and offers a key only where the
/// configuration names one, and then that one.
pub proof fn step_offers_what_is_there(auth: AuthConfig, identity_file: Option<PathBuf>)
    ensures
        auth is NoPassword ==> next_auth(auth, identity_file) is Password,
        auth is Agent ==> next_auth(auth, identity_file) is NoPassword,
        auth is PrivateKey ==> next_auth(auth, identity_file) is Agent,
        auth is Password && identity_file is None ==> next_auth(auth, identity_file) is Agent,
        auth is Password && identity_file is Some ==> next_auth(auth, identity_file) is PrivateKey,
        next_auth(auth, identity_file) matches AuthConfig::PrivateKey { path } ==> identity_file
            == Some(path),
{
}

/// The selected profile stays selected as long as it is there; else the first is selected.
pub proof fn selection_stays_on_its_profile(
    selected: Option<Seq<char>>,
    profiles: Seq<ConnectionProfile>,
)
    ensures
        selected matches Some(id) && (exists|i: int|
            0 <= i < profiles.len() && (#[trigger] profiles[i]).id@ == id) ==> selection_in(
            selected,
            profiles,
        ) == selected,
        profiles.len() == 0 ==> selection_in(selected, profiles) is None,
        profiles.len() > 0 && (selected is None || forall|i: int|
            0 <= i < profiles.len() ==> (#[trigger] profiles[i]).id@ != selected->0)
            ==> selection_in(selected, profiles) == Some(profiles[0].id@),
{
    if let Some(id) = selected {
        crate::profile::profile_position_is_first(profiles, id);
    }
}

/// A click on a candidate takes it out of the selection alone, or selects it; whatever else was
/// selected stays selected.
pub proof fn click_keeps_the_other_candidates(
    preview: Option<OpenSshImportPreview>,
    before: Set<Seq<char>>,
    alias: Seq<char>,
    after: Set<Seq<char>>,
    other: Seq<char>,
)
    requires
        selection_toggled(preview, before, alias, after),
    ensures
        after.contains(alias) <==> !before.contains(alias),
        other != alias && before.contains(other) ==> after.contains(other),
        before.contains(alias) && other != alias ==> (after.contains(other) <==> before.contains(
            other,
        )),
{
}

/// Another way to log in is chosen for the first candidate with the alias, and nothing else of it
/// or of any other candidate changes.
pub proof fn only_the_way_to_log_in_changes(
    before: OpenSshImportPreview,
    alias: Seq<char>,
    after: OpenSshImportPreview,
    r: bool,
    i: int,
)
    requires
        auth_cycled(before, alias, after, r),
        0 <= i < before.candidates@.len(),
    ensures
        after.candidates@.len() == before.candidates@.len(),
        after.candidates@[i].alias == before.candidates@[i].alias,
        after.candidates@[i].status == before.candidates@[i].status,
        after.candidates@[i].identity_file == before.candidates@[i].identity_file,
        before.candidates@[i].alias@ != alias ==> after.candidates@[i] == before.candidates@[i],
        before.candidates@[i].alias@ == alias && (forall|k: int|
            0 <= k < i ==> (#[trigger] before.candidates@[k]).alias@ != alias) ==> {
            &&& r <==> before.candidates@[i].profile is Some
            &&& before.candidates@[i].profile matches Some(profile) ==> {
                &&& after.candidates@[i].profile is Some
                &&& after.candidates@[i].profile->0.auth == next_auth(
                    profile.auth,
                    before.candidates@[i].identity_file,
                )
                &&& after.candidates@[i].profile->0.id == profile.id
                &&& after.candidates@[i].profile->0.host == profile.host
                &&& after.candidates@[i].profile->0.port == profile.port
                &&& after.candidates@[i].profile->0.username == profile.username
                &&& after.candidates@[i].profile->0.route == profile.route
            }
        },
{
    crate::sequences::first_index_properties(before.candidates@, has_alias(alias));
    let p = candidate_position(before.candidates@, alias);
    if p < before.candidates@.len() {
        assert(has_alias(alias)(before.candidates@[p]));
    }
    if before.candidates@[i].alias@ == alias {
        assert(has_alias(alias)(before.candidates@[i]));
        assert(p <= i);
    }
}

/// The selection is taken over only where something is selected, a configuration was read, and
/// nothing is under way; the configuration that is read again is the one that was shown.
pub proof fn selection_is_taken_over_once(
    before: OpenSshImport,
    after: OpenSshImport,
    r: Option<PathBuf>,
    again: OpenSshImport,
    second: Option<PathBuf>,
)
    requires
        apply_begun(before, after, r),
        apply_begun(after, again, second),
    ensures
        r is Some <==> !before.loading && before.preview is Some && (exists|alias: Seq<char>|
            #[trigger] before.selected_aliases@.contains(alias)),
        r is Some ==> r == Some(before.preview->0.root_path) && after.loading && after.error is None
            && after.selected_aliases == before.selected_aliases && after.overwrite_conflicts
            == before.overwrite_conflicts && after.preview == before.preview,
        r is None ==> after == before,
        r is Some ==> second is None,
{
    let selected = before.selected_aliases@;
    if exists|alias: Seq<char>| #[trigger] selected.contains(alias) {
        let alias = choose|alias: Seq<char>| #[trigger] selected.contains(alias);
        assert(!(selected =~= Set::<Seq<char>>::empty()));
    } else {
        assert(selected =~= Set::<Seq<char>>::empty());
    }
}

} // verus!
