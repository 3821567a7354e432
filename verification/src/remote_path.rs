//! Paths on the server: slash-separated text, absolute or relative to the login directory.
use crate::remote_files::{RemoteFileEntry, RemoteFileKind};
use crate::text::{
    chars_of, components, components_on, starts_with, string_of, strip_prefix, text_before, text_eq,
    text_less, text_less_total, text_less_transitive, trim_end_char, trim_end_char_properties,
    trim_end_matches, views,
};
use vstd::prelude::*;
use vstd::string::*;

verus! {

/// The position of the last `c` in `s`, or -1.
pub open spec fn last_position(s: Seq<char>, c: char) -> int
    decreases s.len(),
{
    if s.len() == 0 {
        -1
    } else if s.last() == c {
        s.len() - 1
    } else {
        last_position(s.drop_last(), c)
    }
}

/// The directory that holds `path`: none for the root, for the login directory and for no path.
pub open spec fn parent_path(path: Seq<char>) -> Option<Seq<char>> {
    let trimmed = trim_end_char(path, '/');
    let separator = last_position(trimmed, '/');
    if trimmed.len() == 0 || trimmed == "."@ {
        None
    } else if separator == 0 {
        Some("/"@)
    } else if separator > 0 {
        Some(trimmed.take(separator))
    } else {
        Some("."@)
    }
}

/// What stands behind the last slash of `path`; a path without a name is called `download`.
pub open spec fn file_name(path: Seq<char>) -> Seq<char> {
    let trimmed = trim_end_char(path, '/');
    let name = trimmed.skip(last_position(trimmed, '/') + 1);
    if name.len() == 0 {
        "download"@
    } else {
        name
    }
}

/// The path of `name` in `directory`.
pub open spec fn join_path(directory: Seq<char>, name: Seq<char>) -> Seq<char> {
    if directory == "/"@ {
        "/"@ + name
    } else if directory == "."@ {
        name
    } else {
        trim_end_char(directory, '/') + "/"@ + name
    }
}

/// `path` as seen from `root`: nothing for `root` itself, none for a path outside.
pub open spec fn relative_path(root: Seq<char>, path: Seq<char>) -> Option<Seq<char>> {
    let base = trim_end_char(root, '/').push('/');
    if path == root {
        Some(Seq::empty())
    } else if starts_with(path, base) {
        Some(path.skip(base.len() as int))
    } else {
        None
    }
}

/// `candidate` lies below `parent`.
pub open spec fn is_descendant(parent: Seq<char>, candidate: Seq<char>) -> bool {
    parent != candidate && starts_with(candidate, trim_end_char(parent, '/').push('/'))
}

/// How many names `path` is made of.
pub open spec fn path_depth(path: Seq<char>) -> nat {
    components_on(path, '/').len()
}

/// The absolute path made of these names.
pub open spec fn absolute(names: Seq<Seq<char>>) -> Seq<char>
    decreases names.len(),
{
    if names.len() == 0 {
        Seq::empty()
    } else {
        absolute(names.drop_last()).push('/') + names.last()
    }
}

/// The label and the target of each step from the root to `path`; one step for a relative path.
pub open spec fn breadcrumbs(path: Seq<char>) -> Seq<(Seq<char>, Seq<char>)> {
    if path.len() > 0 && path[0] == '/' {
        let names = components_on(path, '/');
        seq![("/"@, "/"@)] + Seq::new(
            names.len(),
            |i: int| (names[i], absolute(names.take(i + 1))),
        )
    } else {
        seq![(path, path)]
    }
}

/// The texts of a list of pairs.
pub open spec fn pair_views(list: Seq<(String, String)>) -> Seq<(Seq<char>, Seq<char>)> {
    list.map_values(|p: (String, String)| (p.0@, p.1@))
}

/// Fewer names come first; paths with the same number of names go by their text.
pub open spec fn path_before(a: Seq<char>, b: Seq<char>) -> bool {
    path_depth(a) < path_depth(b) || (path_depth(a) == path_depth(b) && text_less(a, b))
}

/// `e` is the first entry of `entries` with its path.
pub open spec fn first_with_path(entries: Seq<RemoteFileEntry>, e: RemoteFileEntry) -> bool {
    exists|i: int|
        0 <= i < entries.len() && #[trigger] entries[i] == e && forall|j: int|
            0 <= j < i ==> (#[trigger] entries[j]).path@ != e.path@
}

/// `path` lies below a directory of `entries` (of two entries with one path the first counts).
pub open spec fn under_selected_directory(entries: Seq<RemoteFileEntry>, path: Seq<char>) -> bool {
    exists|d: RemoteFileEntry|
        #[trigger] first_with_path(entries, d) && d.kind == RemoteFileKind::Directory
            && is_descendant(d.path@, path)
}

/// `result` is what is left of `entries` when everything below a selected directory is dropped:
/// the first entry of each path, in the order of paths.
pub open spec fn is_collapsed(
    entries: Seq<RemoteFileEntry>,
    result: Seq<RemoteFileEntry>,
) -> bool {
    &&& forall|i: int, j: int|
        0 <= i < j < result.len() ==> path_before(
            (#[trigger] result[i]).path@,
            (#[trigger] result[j]).path@,
        )
    &&& forall|e: RemoteFileEntry| #[trigger]
        result.contains(e) <==> first_with_path(entries, e) && !under_selected_directory(
            entries,
            e.path@,
        )
}

/// What `last_position` says of the characters.
pub proof fn last_position_properties(s: Seq<char>, c: char)
    ensures
        -1 <= last_position(s, c) < s.len(),
        last_position(s, c) >= 0 ==> s[last_position(s, c)] == c,
        forall|i: int| last_position(s, c) < i < s.len() ==> s[i] != c,
    decreases s.len(),
{
    if s.len() > 0 && s.last() != c {
        last_position_properties(s.drop_last(), c);
        assert forall|i: int| last_position(s, c) < i < s.len() implies s[i] != c by {
            if i < s.len() - 1 {
                assert(s[i] == s.drop_last()[i]);
            }
        }
    }
}

/// The position that `last_position` names is the only one with what it says.
proof fn last_position_is(s: Seq<char>, c: char, p: int)
    requires
        -1 <= p < s.len(),
        p >= 0 ==> s[p] == c,
        forall|i: int| p < i < s.len() ==> s[i] != c,
    ensures
        last_position(s, c) == p,
{
    last_position_properties(s, c);
    let q = last_position(s, c);
    if q < p {
        assert(s[p] != c);
    } else if p < q {
        assert(s[q] != c);
    }
}

/// Finds the last `c`.
fn rfind(chars: &Vec<char>, c: char) -> (r: Option<usize>)
    ensures
        match r {
            Some(i) => i == last_position(chars@, c),
            None => last_position(chars@, c) == -1,
        },
        r matches Some(i) ==> i < chars@.len(),
{
    let mut end: usize = chars.len();
    assert(chars@.take(end as int) =~= chars@);
    while end > 0
        invariant
            end <= chars@.len(),
            last_position(chars@, c) == last_position(chars@.take(end as int), c),
        decreases end,
    {
        if chars[end - 1] == c {
            return Some(end - 1);
        }
        assert(chars@.take(end as int).drop_last() =~= chars@.take(end - 1));
        end = end - 1;
    }
    None
}

/// The directory that holds `path`.
pub fn remote_parent_path(path: &str) -> (r: Option<String>)
    ensures
        crate::text::opt_view(r) == parent_path(path@),
{
    let trimmed = trim_end_matches(path, '/');
    if trimmed.is_empty() || text_eq(trimmed, ".") {
        return None;
    }
    let chars = chars_of(trimmed);
    match rfind(&chars, '/') {
        Some(separator) => {
            if separator == 0 {
                Some("/".to_owned())
            } else {
                assert(chars@.subrange(0, separator as int) =~= chars@.take(separator as int));
                Some(string_of(&chars, 0, separator))
            }
        },
        None => Some(".".to_owned()),
    }
}

/// What stands behind the last slash of `path`.
pub fn remote_file_name<'a>(path: &'a str) -> (r: &'a str)
    ensures
        r@ == file_name(path@),
{
    let trimmed = trim_end_matches(path, '/');
    let chars = chars_of(trimmed);
    let count: usize = chars.len();
    let start: usize = match rfind(&chars, '/') {
        Some(separator) => separator + 1,
        None => 0,
    };
    assert(trimmed@.subrange(start as int, trimmed@.len() as int) =~= trimmed@.skip(start as int));
    let name = trimmed.substring_char(start, count);
    if name.is_empty() {
        "download"
    } else {
        name
    }
}

/// The path of `name` in `directory`.
pub fn remote_join_path(directory: &str, name: &str) -> (r: String)
    ensures
        r@ == join_path(directory@, name@),
{
    if text_eq(directory, "/") {
        let mut path: String = "/".to_owned();
        path.append(name);
        path
    } else if text_eq(directory, ".") {
        name.to_owned()
    } else {
        let mut path: String = trim_end_matches(directory, '/').to_owned();
        path.append("/");
        path.append(name);
        path
    }
}

/// A prefix followed by a slash, taken off in two steps, is one prefix.
proof fn starts_with_slash(s: Seq<char>, base: Seq<char>)
    ensures
        starts_with(s, base.push('/')) <==> starts_with(s, base) && starts_with(
            s.skip(base.len() as int),
            seq!['/'],
        ),
        starts_with(s, base.push('/')) ==> s.skip(base.len() as int).skip(1) == s.skip(
            base.len() as int + 1,
        ),
{
    let n = base.len() as int;
    if starts_with(s, base.push('/')) {
        assert(s.take(n) =~= s.take(n + 1).take(n));
        assert(base.push('/').take(n) =~= base);
        assert(s.take(n + 1)[n] == '/');
        assert(s.skip(n).take(1) =~= seq!['/']);
        assert(s.skip(n).skip(1) =~= s.skip(n + 1));
    }
    if starts_with(s, base) && starts_with(s.skip(n), seq!['/']) {
        assert(s.skip(n).take(1)[0] == '/');
        assert(s.take(n + 1) =~= s.take(n).push(s[n]));
    }
}

/// `path` as seen from `root`.
pub fn remote_relative_path<'a>(root: &str, path: &'a str) -> (r: Option<&'a str>)
    ensures
        match r {
            Some(relative) => relative_path(root@, path@) == Some(relative@),
            None => relative_path(root@, path@) is None,
        },
{
    proof {
        reveal_strlit("");
        reveal_strlit("/");
        assert("/"@ =~= seq!['/']);
        starts_with_slash(path@, trim_end_char(root@, '/'));
    }
    if text_eq(path, root) {
        assert(""@ =~= Seq::<char>::empty());
        return Some("");
    }
    match strip_prefix(path, trim_end_matches(root, '/')) {
        Some(rest) => strip_prefix(rest, "/"),
        None => None,
    }
}

/// `candidate` lies below `parent`.
pub fn remote_path_is_descendant(parent: &str, candidate: &str) -> (r: bool)
    ensures
        r == is_descendant(parent@, candidate@),
{
    proof {
        reveal_strlit("/");
        assert("/"@ =~= seq!['/']);
        starts_with_slash(candidate@, trim_end_char(parent@, '/'));
    }
    if text_eq(parent, candidate) {
        return false;
    }
    match strip_prefix(candidate, trim_end_matches(parent, '/')) {
        Some(rest) => strip_prefix(rest, "/").is_some(),
        None => false,
    }
}

/// How many names `path` is made of.
pub fn remote_path_depth(path: &str) -> (r: usize)
    ensures
        r == path_depth(path@),
{
    let names = components(path, '/');
    assert(views(names@).len() == names@.len());
    names.len()
}

/// The label and the target of each step from the root to `path`.
pub fn remote_breadcrumbs(path: &str) -> (r: Vec<(String, String)>)
    ensures
        pair_views(r@) == breadcrumbs(path@),
{
    proof {
        reveal_strlit("/");
        assert("/"@ =~= seq!['/']);
    }
    if strip_prefix(path, "/").is_none() {
        assert(!(path@.len() > 0 && path@[0] == '/')) by {
            if path@.len() > 0 && path@[0] == '/' {
                assert(path@.take(1) =~= "/"@);
            }
        }
        let mut single: Vec<(String, String)> = Vec::new();
        single.push((path.to_owned(), path.to_owned()));
        assert(pair_views(single@) =~= breadcrumbs(path@));
        return single;
    }
    assert(path@.take(1)[0] == '/');
    let names = components(path, '/');
    let ghost all = views(names@);
    let mut crumbs: Vec<(String, String)> = Vec::new();
    crumbs.push(("/".to_owned(), "/".to_owned()));
    let mut target: String = String::new();
    let mut i: usize = 0;
    while i < names.len()
        invariant
            i <= names@.len(),
            all == views(names@),
            "/"@ == seq!['/'],
            target@ == absolute(all.take(i as int)),
            crumbs@.len() == i + 1,
            pair_views(crumbs@)[0] == ("/"@, "/"@),
            forall|k: int|
                0 <= k < i ==> #[trigger] pair_views(crumbs@)[k + 1] == (
                    all[k],
                    absolute(all.take(k + 1)),
                ),
        decreases names@.len() - i,
    {
        let ghost before = crumbs@;
        target.push('/');
        target.append(names[i].as_str());
        assert(all.take(i + 1).drop_last() =~= all.take(i as int));
        assert(all.take(i + 1).last() == names@[i as int]@);
        crumbs.push((names[i].clone(), target.clone()));
        assert forall|k: int| 0 <= k < i + 1 implies #[trigger] pair_views(crumbs@)[k + 1] == (
            all[k],
            absolute(all.take(k + 1)),
        ) by {
            if k < i {
                assert(pair_views(crumbs@)[k + 1] == pair_views(before)[k + 1]);
            }
        }
        assert(pair_views(crumbs@)[0] == pair_views(before)[0]);
        i = i + 1;
    }
    assert forall|k: int| 0 <= k < pair_views(crumbs@).len() implies pair_views(crumbs@)[k]
        == breadcrumbs(path@)[k] by {
        if k > 0 {
            assert(pair_views(crumbs@)[(k - 1) + 1] == (all[k - 1], absolute(all.take(k))));
        }
    }
    assert(pair_views(crumbs@) =~= breadcrumbs(path@));
    crumbs
}

/// Paths are ordered totally.
pub proof fn path_before_total(a: Seq<char>, b: Seq<char>)
    ensures
        !path_before(a, a),
        a == b ==> !path_before(a, b) && !path_before(b, a),
        a != b ==> (path_before(a, b) <==> !path_before(b, a)),
{
    text_less_total(a, b);
    text_less_total(a, a);
}

/// The order of paths is transitive.
pub proof fn path_before_transitive(a: Seq<char>, b: Seq<char>, c: Seq<char>)
    requires
        path_before(a, b),
        path_before(b, c),
    ensures
        path_before(a, c),
{
    if text_less(a, b) && text_less(b, c) {
        text_less_transitive(a, b, c);
    }
}

/// `a` comes before `b` in the order of paths.
fn remote_path_before(a: &str, b: &str) -> (r: bool)
    ensures
        r == path_before(a@, b@),
{
    let x: usize = remote_path_depth(a);
    let y: usize = remote_path_depth(b);
    x < y || (x == y && text_before(a, b))
}

/// Each entry's path comes before the next one's.
spec fn in_path_order(list: Seq<RemoteFileEntry>) -> bool {
    forall|i: int, j: int|
        0 <= i < j < list.len() ==> path_before(
            (#[trigger] list[i]).path@,
            (#[trigger] list[j]).path@,
        )
}

/// The least entry with a path that occurs is the first with it.
proof fn some_first_with_path(entries: Seq<RemoteFileEntry>, k: int)
    requires
        0 <= k < entries.len(),
    ensures
        exists|e: RemoteFileEntry| #[trigger]
            first_with_path(entries, e) && e.path@ == entries[k].path@,
    decreases k,
{
    if exists|j: int| 0 <= j < k && (#[trigger] entries[j]).path@ == entries[k].path@ {
        let j = choose|j: int| 0 <= j < k && (#[trigger] entries[j]).path@ == entries[k].path@;
        some_first_with_path(entries, j);
    } else {
        assert(entries[k] == entries[k]);
        assert(first_with_path(entries, entries[k]));
    }
}

/// What one entry more does to the entries that are first with their path.
proof fn first_with_path_push(entries: Seq<RemoteFileEntry>, x: RemoteFileEntry, e: RemoteFileEntry)
    ensures
        first_with_path(entries.push(x), e) <==> first_with_path(entries, e) || (e == x
            && forall|j: int| 0 <= j < entries.len() ==> (#[trigger] entries[j]).path@ != x.path@),
{
    let more = entries.push(x);
    if first_with_path(more, e) {
        let i = choose|i: int|
            0 <= i < more.len() && #[trigger] more[i] == e && forall|j: int|
                0 <= j < i ==> (#[trigger] more[j]).path@ != e.path@;
        if i < entries.len() {
            assert(entries[i] == e);
            assert forall|j: int| 0 <= j < i implies (#[trigger] entries[j]).path@ != e.path@ by {
                assert(more[j] == entries[j]);
            }
        } else {
            assert forall|j: int| 0 <= j < entries.len() implies (#[trigger] entries[j]).path@
                != x.path@ by {
                assert(more[j] == entries[j]);
            }
        }
    }
    if first_with_path(entries, e) {
        let i = choose|i: int|
            0 <= i < entries.len() && #[trigger] entries[i] == e && forall|j: int|
                0 <= j < i ==> (#[trigger] entries[j]).path@ != e.path@;
        assert(more[i] == e);
    }
    if e == x && forall|j: int|
        0 <= j < entries.len() ==> (#[trigger] entries[j]).path@ != x.path@ {
        assert(more[entries.len() as int] == e);
    }
}

/// The first entry of each path, in the order of paths.
fn first_entries_in_order(entries: &Vec<RemoteFileEntry>) -> (r: Vec<RemoteFileEntry>)
    ensures
        in_path_order(r@),
        forall|e: RemoteFileEntry| #[trigger] r@.contains(e) <==> first_with_path(entries@, e),
{
    let mut out: Vec<RemoteFileEntry> = Vec::new();
    let mut i: usize = 0;
    while i < entries.len()
        invariant
            i <= entries@.len(),
            in_path_order(out@),
            forall|e: RemoteFileEntry| #[trigger]
                out@.contains(e) <==> first_with_path(entries@.take(i as int), e),
        decreases entries@.len() - i,
    {
        let ghost seen = entries@.take(i as int);
        let ghost x = entries@[i as int];
        let ghost before = out@;
        let mut at: usize = 0;
        while at < out.len() && remote_path_before(out[at].path.as_str(), entries[i].path.as_str())
            invariant
                i < entries@.len(),
                at <= out@.len(),
                x == entries@[i as int],
                forall|k: int| 0 <= k < at ==> path_before((#[trigger] out@[k]).path@, x.path@),
            decreases out@.len() - at,
        {
            at = at + 1;
        }
        proof {
            assert(entries@.take(i + 1) =~= seen.push(x));
            assert forall|e: RemoteFileEntry|
                first_with_path(entries@.take(i + 1), e) <==> #[trigger] first_with_path(seen, e)
                    || (e == x && forall|j: int|
                    0 <= j < seen.len() ==> (#[trigger] seen[j]).path@ != x.path@) by {
                first_with_path_push(seen, x, e);
            }
        }
        if at < out.len() && text_eq(out[at].path.as_str(), entries[i].path.as_str()) {
            proof {
                assert(out@.contains(out@[at as int]));
                assert(first_with_path(seen, out@[at as int]));
                assert forall|e: RemoteFileEntry| #[trigger]
                    out@.contains(e) <==> first_with_path(entries@.take(i + 1), e) by {
                    assert(first_with_path(seen, e) <==> out@.contains(e));
                }
            }
        } else {
            proof {
                assert forall|k: int| at <= k < out@.len() implies path_before(
                    x.path@,
                    (#[trigger] out@[k]).path@,
                ) by {
                    path_before_total(out@[at as int].path@, x.path@);
                    if k > at {
                        path_before_transitive(x.path@, out@[at as int].path@, out@[k].path@);
                    }
                }
                assert forall|j: int| 0 <= j < seen.len() implies (#[trigger] seen[j]).path@
                    != x.path@ by {
                    if seen[j].path@ == x.path@ {
                        some_first_with_path(seen, j);
                        let f = choose|f: RemoteFileEntry| #[trigger]
                            first_with_path(seen, f) && f.path@ == seen[j].path@;
                        assert(out@.contains(f));
                        let k = out@.index_of(f);
                        assert(out@[k] == f);
                        path_before_total(x.path@, x.path@);
                    }
                }
            }
            out.insert(at, entries[i].clone());
            proof {
                let after = out@;
                assert(after == before.insert(at as int, x));
                assert(after[at as int] == x);
                assert(in_path_order(after)) by {
                    assert forall|a: int, b: int| 0 <= a < b < after.len() implies path_before(
                        (#[trigger] after[a]).path@,
                        (#[trigger] after[b]).path@,
                    ) by {
                        let a0 = if a < at { a } else { a - 1 };
                        let b0 = if b < at { b } else { b - 1 };
                        if a == at {
                            assert(after[b] == before[b0]);
                        } else if b == at {
                            assert(after[a] == before[a0]);
                        } else {
                            assert(after[a] == before[a0]);
                            assert(after[b] == before[b0]);
                        }
                    }
                }
                assert forall|e: RemoteFileEntry| #[trigger]
                    after.contains(e) <==> first_with_path(entries@.take(i + 1), e) by {
                    assert(first_with_path(seen, e) <==> before.contains(e));
                    if after.contains(e) {
                        let k = after.index_of(e);
                        if k < at {
                            assert(before[k] == e);
                        } else if k > at {
                            assert(before[k - 1] == e);
                        }
                    }
                    if before.contains(e) {
                        let k = before.index_of(e);
                        assert(after[if k < at {
                            k
                        } else {
                            k + 1
                        }] == e);
                    }
                }
            }
        }
        i = i + 1;
    }
    assert(entries@.take(i as int) =~= entries@);
    out
}

/// Drops everything that lies below a selected directory, and all but the first entry of a path;
/// what is left comes in the order of paths.
pub fn collapse_nested_remote_entries(entries: Vec<RemoteFileEntry>) -> (r: Vec<RemoteFileEntry>)
    ensures
        is_collapsed(entries@, r@),
{
    let ordered = first_entries_in_order(&entries);
    let mut out: Vec<RemoteFileEntry> = Vec::new();
    let mut i: usize = 0;
    while i < ordered.len()
        invariant
            i <= ordered@.len(),
            in_path_order(ordered@),
            forall|e: RemoteFileEntry| #[trigger]
                ordered@.contains(e) <==> first_with_path(entries@, e),
            in_path_order(out@),
            forall|k: int| 0 <= k < out@.len() ==> ordered@.take(i as int).contains(
                #[trigger] out@[k],
            ),
            forall|e: RemoteFileEntry| #[trigger]
                out@.contains(e) <==> ordered@.take(i as int).contains(e)
                    && !under_selected_directory(entries@, e.path@),
        decreases ordered@.len() - i,
    {
        let ghost x = ordered@[i as int];
        let ghost seen = ordered@.take(i as int);
        let mut nested: bool = false;
        let mut j: usize = 0;
        while j < ordered.len()
            invariant
                i < ordered@.len(),
                j <= ordered@.len(),
                x == ordered@[i as int],
                forall|e: RemoteFileEntry| #[trigger]
                    ordered@.contains(e) <==> first_with_path(entries@, e),
                nested ==> under_selected_directory(entries@, x.path@),
                !nested ==> forall|k: int|
                    0 <= k < j ==> !((#[trigger] ordered@[k]).kind == RemoteFileKind::Directory
                        && is_descendant(ordered@[k].path@, x.path@)),
            decreases ordered@.len() - j,
        {
            if ordered[j].kind == RemoteFileKind::Directory && remote_path_is_descendant(
                ordered[j].path.as_str(),
                ordered[i].path.as_str(),
            ) {
                assert(ordered@.contains(ordered@[j as int]));
                assert(first_with_path(entries@, ordered@[j as int]));
                nested = true;
            }
            j = j + 1;
        }
        assert(!nested ==> !under_selected_directory(entries@, x.path@)) by {
            if !nested && under_selected_directory(entries@, x.path@) {
                let d = choose|d: RemoteFileEntry|
                    #[trigger] first_with_path(entries@, d) && d.kind == RemoteFileKind::Directory
                        && is_descendant(d.path@, x.path@);
                assert(ordered@.contains(d));
                let k = ordered@.index_of(d);
                assert(ordered@[k] == d);
            }
        }
        let ghost before = out@;
        assert(ordered@.take(i + 1) =~= seen.push(x));
        assert forall|e: RemoteFileEntry| #[trigger]
            ordered@.take(i + 1).contains(e) <==> seen.contains(e) || e == x by {
            if seen.contains(e) {
                let k = seen.index_of(e);
                assert(ordered@.take(i + 1)[k] == e);
            }
            if e == x {
                assert(ordered@.take(i + 1)[i as int] == e);
            }
            if ordered@.take(i + 1).contains(e) && e != x {
                let k = ordered@.take(i + 1).index_of(e);
                assert(seen[k] == e);
            }
        }
        if !nested {
            proof {
                assert forall|k: int| 0 <= k < before.len() implies path_before(
                    (#[trigger] before[k]).path@,
                    x.path@,
                ) by {
                    let m = seen.index_of(before[k]);
                    assert(ordered@[m] == before[k]);
                }
            }
            out.push(ordered[i].clone());
            assert forall|e: RemoteFileEntry| #[trigger]
                out@.contains(e) <==> before.contains(e) || e == x by {
                if before.contains(e) {
                    let k = before.index_of(e);
                    assert(out@[k] == e);
                }
                if e == x {
                    assert(out@[before.len() as int] == e);
                }
                if out@.contains(e) && e != x {
                    let k = out@.index_of(e);
                    assert(before[k] == e);
                }
            }
        }
        assert forall|k: int| 0 <= k < out@.len() implies ordered@.take(i + 1).contains(
            #[trigger] out@[k],
        ) by {
            if k < before.len() {
                assert(seen.contains(before[k]));
            }
        }
        i = i + 1;
    }
    assert(ordered@.take(i as int) =~= ordered@);
    out
}

/// A name can stand in a path: it is not empty and holds no slash.
pub open spec fn is_name(name: Seq<char>) -> bool {
    name.len() > 0 && !name.contains('/')
}

/// What trimming slashes leaves of a text that does not end in one.
proof fn trim_end_char_id(s: Seq<char>, c: char)
    requires
        s.len() > 0,
        s.last() != c,
    ensures
        trim_end_char(s, c) == s,
{
}

/// The parts of a joined path: what stands before the name ends in a slash.
proof fn join_path_shape(directory: Seq<char>, name: Seq<char>)
    requires
        is_name(name),
        directory != "."@,
    ensures
        join_path(directory, name) == trim_end_char(directory, '/').push('/') + name,
        trim_end_char(join_path(directory, name), '/') == join_path(directory, name),
        last_position(join_path(directory, name), '/') == trim_end_char(directory, '/').len(),
{
    reveal_strlit("/");
    let base = trim_end_char(directory, '/');
    let path = join_path(directory, name);
    if directory == "/"@ {
        assert(directory =~= seq!['/']);
        assert(directory.drop_last() =~= Seq::<char>::empty());
        reveal_with_fuel(trim_end_char, 2);
        assert(base =~= Seq::<char>::empty());
    }
    assert("/"@ =~= seq!['/']);
    assert(path =~= base.push('/') + name);
    assert(path.last() == name.last());
    assert(name.contains(name.last()));
    trim_end_char_id(path, '/');
    let n = base.len() as int;
    assert forall|i: int| n < i < path.len() implies path[i] != '/' by {
        assert(path[i] == name[i - n - 1]);
        assert(name.contains(name[i - n - 1]));
    }
    last_position_is(path, '/', n);
}

/// The last name of a joined path is the name that was joined.
pub proof fn file_name_of_join(directory: Seq<char>, name: Seq<char>)
    requires
        is_name(name),
    ensures
        file_name(join_path(directory, name)) == name,
{
    reveal_strlit(".");
    reveal_strlit("/");
    assert("."@[0] != "/"@[0]);
    if directory == "."@ {
        assert(name.contains(name.last()));
        trim_end_char_id(name, '/');
        assert forall|i: int| 0 <= i < name.len() implies name[i] != '/' by {
            assert(name.contains(name[i]));
        }
        last_position_is(name, '/', -1);
        assert(name.skip(0) =~= name);
    } else {
        join_path_shape(directory, name);
        let path = join_path(directory, name);
        let n = trim_end_char(directory, '/').len() as int;
        assert(path.skip(n + 1) =~= name);
    }
}

/// Going up from a joined path leads back to the directory (the login directory has no parent, so
/// the name `.` in it is left out).
pub proof fn parent_of_join(directory: Seq<char>, name: Seq<char>)
    requires
        is_name(name),
        !(directory == "."@ && name == "."@),
    ensures
        parent_path(join_path(directory, name)) == Some(
            if directory == "."@ {
                "."@
            } else if trim_end_char(directory, '/').len() == 0 {
                "/"@
            } else {
                trim_end_char(directory, '/')
            },
        ),
{
    reveal_strlit(".");
    reveal_strlit("/");
    assert("."@[0] != "/"@[0]);
    if directory == "."@ {
        assert(name.contains(name.last()));
        trim_end_char_id(name, '/');
        assert forall|i: int| 0 <= i < name.len() implies name[i] != '/' by {
            assert(name.contains(name[i]));
        }
        last_position_is(name, '/', -1);
    } else {
        join_path_shape(directory, name);
        let path = join_path(directory, name);
        let base = trim_end_char(directory, '/');
        assert(path.len() >= 2);
        assert(path.take(base.len() as int) =~= base);
    }
}

/// A joined path lies below its directory, seen from there it is the name, and it ends in that.
pub proof fn join_is_below(directory: Seq<char>, name: Seq<char>)
    requires
        is_name(name),
        directory != "."@,
    ensures
        is_descendant(directory, join_path(directory, name)),
        relative_path(directory, join_path(directory, name)) == Some(name),
        join_path(directory, name).last() == name.last(),
        name.last() != '/',
{
    join_path_shape(directory, name);
    trim_end_char_properties(directory, '/');
    let path = join_path(directory, name);
    let base = trim_end_char(directory, '/');
    assert(path.take(base.len() as int + 1) =~= base.push('/'));
    assert(path.skip(base.len() as int + 1) =~= name);
    assert(path.last() == name.last());
    assert(name.contains(name.last()));
    if path == directory {
        assert(directory.last() == '/');
    }
}

/// Nothing lies below itself.
pub proof fn descendant_irreflexive(path: Seq<char>)
    ensures
        !is_descendant(path, path),
{
}

/// What lies below something below `a` lies below `a`, unless it is `a` again: paths that differ
/// only in the slashes at their end lie below each other.
pub proof fn descendant_transitive(a: Seq<char>, b: Seq<char>, c: Seq<char>)
    requires
        is_descendant(a, b),
        is_descendant(b, c),
        a != c,
    ensures
        is_descendant(a, c),
{
    let x = trim_end_char(a, '/');
    let y = trim_end_char(b, '/');
    let n = x.len() as int;
    trim_end_char_properties(a, '/');
    trim_end_char_properties(b, '/');
    assert(b.take(n + 1)[n] == '/');
    assert forall|i: int| 0 <= i < n implies b[i] == x[i] by {
        assert(b.take(n + 1)[i] == x.push('/')[i]);
    }
    let m = y.len() as int;
    assert forall|i: int| 0 <= i < m implies c[i] == b[i] by {
        assert(c.take(m + 1)[i] == y.push('/')[i]);
        assert(y[i] == b.take(m)[i]);
    }
    assert(c.take(m + 1)[m] == '/');
    if m < n {
        assert(b[n - 1] == '/');
        assert(x[n - 1] == '/');
        assert(false);
    }
    assert(c.take(n + 1) =~= x.push('/')) by {
        assert forall|i: int| 0 <= i < n + 1 implies c[i] == x.push('/')[i] by {
            if i < m {
                assert(c[i] == b[i]);
            } else {
                assert(i == n && m == n);
            }
        }
    }
}

/// The way to an absolute path has one step for the root and one per name; each target is the one
/// before it, a slash and the step's own name.
pub proof fn breadcrumbs_cover_path(path: Seq<char>, i: int)
    requires
        path.len() > 0,
        path[0] == '/',
        0 <= i < path_depth(path),
    ensures
        breadcrumbs(path).len() == path_depth(path) + 1,
        breadcrumbs(path)[0] == ("/"@, "/"@),
        breadcrumbs(path)[1].1 == seq!['/'] + breadcrumbs(path)[1].0,
        i > 0 ==> breadcrumbs(path)[i + 1].1 == breadcrumbs(path)[i].1.push('/') + breadcrumbs(
            path,
        )[i + 1].0,
{
    let names = components_on(path, '/');
    assert(breadcrumbs(path)[1] == (names[0], absolute(names.take(1))));
    assert(names.take(1).drop_last() =~= Seq::<Seq<char>>::empty());
    assert(absolute(names.take(1).drop_last()) =~= Seq::<char>::empty());
    assert(breadcrumbs(path)[1].1 =~= seq!['/'] + breadcrumbs(path)[1].0);
    if i > 0 {
        assert(breadcrumbs(path)[i + 1] == (names[i], absolute(names.take(i + 1))));
        assert(breadcrumbs(path)[i] == (names[i - 1], absolute(names.take(i))));
        assert(names.take(i + 1).drop_last() =~= names.take(i));
    }
}

/// Two lists in the order of paths with the same entries are the same list.
proof fn ordered_lists_agree(a: Seq<RemoteFileEntry>, b: Seq<RemoteFileEntry>)
    requires
        in_path_order(a),
        in_path_order(b),
        forall|e: RemoteFileEntry| #[trigger] a.contains(e) <==> b.contains(e),
    ensures
        a == b,
    decreases a.len(),
{
    if a.len() == 0 {
        if b.len() > 0 {
            assert(b.contains(b[0]));
            assert(a.contains(b[0]));
        }
        assert(a =~= b);
    } else {
        let x = a.last();
        assert(a.contains(x));
        assert(b.contains(x));
        let y = b.last();
        assert(b.contains(y));
        assert(a.contains(y));
        let p = b.index_of(x);
        let q = a.index_of(y);
        assert(b[p] == x && a[q] == y);
        path_before_total(x.path@, y.path@);
        if p < b.len() - 1 && q < a.len() - 1 {
            assert(path_before(b[p].path@, b[b.len() - 1].path@));
            assert(path_before(a[q].path@, a[a.len() - 1].path@));
            assert(false);
        }
        assert(x == y);
        let a1 = a.drop_last();
        let b1 = b.drop_last();
        assert forall|e: RemoteFileEntry| #[trigger] a1.contains(e) <==> b1.contains(e) by {
            path_before_total(x.path@, x.path@);
            if a1.contains(e) {
                let k = a1.index_of(e);
                assert(a[k] == e);
                assert(a.contains(e));
                assert(path_before(a[k].path@, a[a.len() - 1].path@));
                assert(b.contains(e));
                let m = b.index_of(e);
                assert(b[m] == e);
                assert(b1[m] == e);
            }
            if b1.contains(e) {
                let k = b1.index_of(e);
                assert(b[k] == e);
                assert(b.contains(e));
                assert(path_before(b[k].path@, b[b.len() - 1].path@));
                assert(a.contains(e));
                let m = a.index_of(e);
                assert(a[m] == e);
                assert(a1[m] == e);
            }
        }
        assert(in_path_order(a1)) by {
            assert forall|i: int, j: int| 0 <= i < j < a1.len() implies path_before(
                (#[trigger] a1[i]).path@,
                (#[trigger] a1[j]).path@,
            ) by {
                assert(path_before(a[i].path@, a[j].path@));
            }
        }
        assert(in_path_order(b1)) by {
            assert forall|i: int, j: int| 0 <= i < j < b1.len() implies path_before(
                (#[trigger] b1[i]).path@,
                (#[trigger] b1[j]).path@,
            ) by {
                assert(path_before(b[i].path@, b[j].path@));
            }
        }
        ordered_lists_agree(a1, b1);
        assert(a =~= a1.push(x));
        assert(b =~= b1.push(y));
    }
}

/// There is one way to collapse a selection.
pub proof fn collapse_is_unique(
    entries: Seq<RemoteFileEntry>,
    a: Seq<RemoteFileEntry>,
    b: Seq<RemoteFileEntry>,
)
    requires
        is_collapsed(entries, a),
        is_collapsed(entries, b),
    ensures
        a == b,
{
    assert forall|e: RemoteFileEntry| #[trigger] a.contains(e) <==> b.contains(e) by {
        assert(b.contains(e) <==> first_with_path(entries, e) && !under_selected_directory(
            entries,
            e.path@,
        ));
    }
    ordered_lists_agree(a, b);
}

/// No entry that is left lies below a directory that is left.
pub proof fn collapsed_entries_are_not_nested(
    entries: Seq<RemoteFileEntry>,
    result: Seq<RemoteFileEntry>,
    i: int,
    j: int,
)
    requires
        is_collapsed(entries, result),
        0 <= i < result.len(),
        0 <= j < result.len(),
        result[i].kind == RemoteFileKind::Directory,
    ensures
        !is_descendant(result[i].path@, result[j].path@),
{
    assert(result.contains(result[i]));
    assert(result.contains(result[j]));
    assert(first_with_path(entries, result[i]));
}

/// In a list in the order of paths each entry is the first with its path.
proof fn ordered_entries_are_first(list: Seq<RemoteFileEntry>, e: RemoteFileEntry)
    requires
        in_path_order(list),
    ensures
        first_with_path(list, e) <==> list.contains(e),
{
    if list.contains(e) {
        let k = list.index_of(e);
        assert(list[k] == e);
        assert forall|j: int| 0 <= j < k implies (#[trigger] list[j]).path@ != e.path@ by {
            path_before_total(e.path@, e.path@);
            assert(path_before(list[j].path@, list[k].path@));
        }
    }
}

/// No entry that is left lies below a directory that is left, whichever way it is asked.
proof fn collapsed_entry_is_outside(
    entries: Seq<RemoteFileEntry>,
    result: Seq<RemoteFileEntry>,
    e: RemoteFileEntry,
)
    requires
        is_collapsed(entries, result),
        result.contains(e),
    ensures
        !under_selected_directory(result, e.path@),
{
    if under_selected_directory(result, e.path@) {
        let d = choose|d: RemoteFileEntry|
            #[trigger] first_with_path(result, d) && d.kind == RemoteFileKind::Directory
                && is_descendant(d.path@, e.path@);
        let k = result.index_of(e);
        assert(in_path_order(result));
        ordered_entries_are_first(result, d);
        let m = result.index_of(d);
        collapsed_entries_are_not_nested(entries, result, m, k);
    }
}

/// Collapsing what is left again changes nothing.
pub proof fn collapse_is_idempotent(
    entries: Seq<RemoteFileEntry>,
    result: Seq<RemoteFileEntry>,
)
    requires
        is_collapsed(entries, result),
    ensures
        is_collapsed(result, result),
{
    assert(in_path_order(result));
    assert forall|e: RemoteFileEntry| #[trigger]
        result.contains(e) <==> first_with_path(result, e) && !under_selected_directory(
            result,
            e.path@,
        ) by {
        ordered_entries_are_first(result, e);
        if result.contains(e) {
            collapsed_entry_is_outside(entries, result, e);
        }
    }
}

/// What lies below a directory begins with its path and a slash, and goes on after that: a path
/// that only begins with the same letters does not lie below it. Below the root lies every other
/// absolute path.
pub proof fn below_means_after_a_slash(parent: Seq<char>, path: Seq<char>)
    ensures
        parent.len() > 0 && parent.last() != '/' ==> (is_descendant(parent, path) <==> path.len()
            > parent.len() && path.take(parent.len() as int) == parent && path[parent.len() as int]
            == '/'),
        parent == seq!['/'] ==> (is_descendant(parent, path) <==> path.len() > 0 && path[0] == '/'
            && path != parent),
{
    if parent.len() > 0 && parent.last() != '/' {
        trim_end_char_id(parent, '/');
        let lead = parent.push('/');
        if is_descendant(parent, path) {
            assert(path.take(lead.len() as int) =~= lead);
            assert(path[parent.len() as int] == lead[parent.len() as int]);
            assert(path.take(parent.len() as int) =~= parent) by {
                assert forall|i: int| 0 <= i < parent.len() implies path[i] == parent[i] by {
                    assert(path.take(lead.len() as int)[i] == lead[i]);
                }
            }
        }
        if path.len() > parent.len() && path.take(parent.len() as int) == parent
            && path[parent.len() as int] == '/' {
            assert(path.take(lead.len() as int) =~= lead) by {
                assert forall|i: int| 0 <= i < parent.len() implies path[i] == lead[i] by {
                    assert(path.take(parent.len() as int)[i] == parent[i]);
                }
            }
        }
    }
    if parent == seq!['/'] {
        assert(parent.drop_last() =~= Seq::<char>::empty());
        reveal_with_fuel(trim_end_char, 3);
        assert(trim_end_char(parent, '/') =~= Seq::<char>::empty());
        assert(trim_end_char(parent, '/').push('/') =~= parent);
        if path.len() > 0 && path[0] == '/' {
            assert(path.take(1) =~= parent);
        }
        if is_descendant(parent, path) {
            assert(path.take(1)[0] == '/');
        }
    }
}

/// Of a selection, what is left is its entries that lie below no selected directory: each path
/// once, none that was not selected, and nothing is left out but what a selected directory holds.
pub proof fn collapsing_loses_nothing(
    entries: Seq<RemoteFileEntry>,
    result: Seq<RemoteFileEntry>,
    i: int,
    j: int,
    d: int,
)
    requires
        is_collapsed(entries, result),
    ensures
        0 <= j < result.len() ==> entries.contains(result[j]),
        0 <= i < j < result.len() ==> result[i].path@ != result[j].path@,
        0 <= i < entries.len() && (forall|k: int|
            0 <= k < i ==> (#[trigger] entries[k]).path@ != entries[i].path@) ==> {
            ||| result.contains(entries[i])
            ||| exists|k: int|
                0 <= k < entries.len() && (#[trigger] entries[k]).kind == RemoteFileKind::Directory
                    && is_descendant(entries[k].path@, entries[i].path@)
        },
        0 <= j < result.len() && 0 <= d < entries.len() && entries[d].kind
            == RemoteFileKind::Directory && (forall|k: int|
            0 <= k < d ==> (#[trigger] entries[k]).path@ != entries[d].path@) ==> !is_descendant(
            entries[d].path@,
            result[j].path@,
        ),
{
    if 0 <= j < result.len() {
        assert(result.contains(result[j]));
        assert(first_with_path(entries, result[j]));
        if 0 <= d < entries.len() && entries[d].kind == RemoteFileKind::Directory && (forall|k: int|
            0 <= k < d ==> (#[trigger] entries[k]).path@ != entries[d].path@) {
            assert(first_with_path(entries, entries[d]));
        }
    }
    if 0 <= i < j < result.len() {
        assert(path_before(result[i].path@, result[j].path@));
        path_before_total(result[i].path@, result[j].path@);
    }
    if 0 <= i < entries.len() && (forall|k: int|
        0 <= k < i ==> (#[trigger] entries[k]).path@ != entries[i].path@) {
        assert(first_with_path(entries, entries[i]));
        if under_selected_directory(entries, entries[i].path@) {
            let dir = choose|dir: RemoteFileEntry|
                #[trigger] first_with_path(entries, dir) && dir.kind == RemoteFileKind::Directory
                    && is_descendant(dir.path@, entries[i].path@);
            let k = choose|k: int|
                0 <= k < entries.len() && #[trigger] entries[k] == dir && forall|m: int|
                    0 <= m < k ==> (#[trigger] entries[m]).path@ != dir.path@;
            assert(entries[k].kind == RemoteFileKind::Directory);
        } else {
            assert(result.contains(entries[i]));
        }
    }
}

/// A path is seen from a directory as what follows the directory and a slash; the directory itself
/// is seen as nothing; and a path that does not lie in it is not seen from there.
pub proof fn path_is_seen_from_its_directory(root: Seq<char>, rest: Seq<char>, path: Seq<char>)
    requires
        root.len() > 0,
        root.last() != '/',
    ensures
        relative_path(root, root.push('/') + rest) == Some(rest),
        relative_path(root, root) == Some(Seq::<char>::empty()),
        relative_path(root, path) is Some <==> path == root || is_descendant(root, path),
{
    trim_end_char_id(root, '/');
    let base = root.push('/');
    let whole = base + rest;
    assert(whole.take(base.len() as int) =~= base);
    assert(whole.skip(base.len() as int) =~= rest);
    assert(whole.len() > root.len());
}

} // verus!
