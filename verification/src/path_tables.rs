//! Tables keyed by remote path.
use crate::remote_files::RemoteFileEntry;
use crate::remote_path::{is_descendant, remote_path_is_descendant};
use crate::sequences::{
    any_where, filter_is_exact, first_index, first_index_is, first_index_properties, first_where,
    first_where_append,
};
use crate::text::{filter_push, text_eq, views};
use vstd::prelude::*;
use vstd::string::*;

verus! {

/// Being what `key` is mapped to.
pub open spec fn has_key(key: Seq<char>) -> spec_fn((Seq<char>, Seq<RemoteFileEntry>)) -> bool {
    |item: (Seq<char>, Seq<RemoteFileEntry>)| item.0 == key
}

/// The entries that `key` is mapped to.
pub open spec fn table_get(
    table: Seq<(Seq<char>, Seq<RemoteFileEntry>)>,
    key: Seq<char>,
) -> Option<Seq<RemoteFileEntry>> {
    match first_where(table, has_key(key)) {
        Some(item) => Some(item.1),
        None => None,
    }
}

/// The table with `key` mapped to `value`: in the place that `key` has, else at the end.
pub open spec fn table_insert(
    table: Seq<(Seq<char>, Seq<RemoteFileEntry>)>,
    key: Seq<char>,
    value: Seq<RemoteFileEntry>,
) -> Seq<(Seq<char>, Seq<RemoteFileEntry>)> {
    let i = first_index(table, has_key(key));
    if i < table.len() {
        table.update(i, (key, value))
    } else {
        table.push((key, value))
    }
}

/// Being an entry with `path`.
pub open spec fn entry_has_path(path: Seq<char>) -> spec_fn(RemoteFileEntry) -> bool {
    |entry: RemoteFileEntry| entry.path@ == path
}

/// Every entry of the table, in the order of the keys.
pub open spec fn table_entries(
    table: Seq<(Seq<char>, Seq<RemoteFileEntry>)>,
) -> Seq<RemoteFileEntry>
    decreases table.len(),
{
    if table.len() == 0 {
        Seq::empty()
    } else {
        table_entries(table.drop_last()) + table.last().1
    }
}

/// Each key stands once.
pub open spec fn distinct_keys(table: Seq<(Seq<char>, Seq<RemoteFileEntry>)>) -> bool {
    forall|i: int, j: int|
        0 <= i < j < table.len() ==> (#[trigger] table[i]).0 != (#[trigger] table[j]).0
}

/// `path` is one of `removed` or lies below one.
pub open spec fn is_removed(removed: Seq<Seq<char>>, path: Seq<char>) -> bool {
    exists|i: int|
        0 <= i < removed.len() && (path == #[trigger] removed[i] || is_descendant(removed[i], path))
}

/// The entries that are left when `removed` and everything below is gone.
pub open spec fn entries_left(
    entries: Seq<RemoteFileEntry>,
    removed: Seq<Seq<char>>,
) -> Seq<RemoteFileEntry> {
    entries.filter(|entry: RemoteFileEntry| !is_removed(removed, entry.path@))
}

/// The table that is left when `removed` and everything below is gone.
pub open spec fn table_left(
    table: Seq<(Seq<char>, Seq<RemoteFileEntry>)>,
    removed: Seq<Seq<char>>,
) -> Seq<(Seq<char>, Seq<RemoteFileEntry>)> {
    table.filter(
        |item: (Seq<char>, Seq<RemoteFileEntry>)| !is_removed(removed, item.0),
    ).map_values(
        |item: (Seq<char>, Seq<RemoteFileEntry>)| (item.0, entries_left(item.1, removed)),
    )
}

/// `path` is one of `removed` or lies below one.
pub fn path_is_removed(removed: &Vec<String>, path: &str) -> (r: bool)
    ensures
        r == is_removed(views(removed@), path@),
{
    let mut i: usize = 0;
    while i < removed.len()
        invariant
            i <= removed@.len(),
            forall|k: int|
                0 <= k < i ==> path@ != (#[trigger] views(removed@)[k]) && !is_descendant(
                    views(removed@)[k],
                    path@,
                ),
        decreases removed@.len() - i,
    {
        if text_eq(path, removed[i].as_str()) || remote_path_is_descendant(
            removed[i].as_str(),
            path,
        ) {
            assert(views(removed@)[i as int] == removed@[i as int]@);
            return true;
        }
        i = i + 1;
    }
    false
}

/// The entries that are left when `removed` and everything below is gone.
pub fn retain_entries(entries: &Vec<RemoteFileEntry>, removed: &Vec<String>) -> (r: Vec<
    RemoteFileEntry,
>)
    ensures
        r@ == entries_left(entries@, views(removed@)),
{
    let ghost left = |entry: RemoteFileEntry| !is_removed(views(removed@), entry.path@);
    let mut out: Vec<RemoteFileEntry> = Vec::new();
    let mut i: usize = 0;
    assert(out@ == entries@.take(0).filter(left)) by {
        reveal(Seq::filter);
    }
    while i < entries.len()
        invariant
            i <= entries@.len(),
            left == (|entry: RemoteFileEntry| !is_removed(views(removed@), entry.path@)),
            out@ == entries@.take(i as int).filter(left),
        decreases entries@.len() - i,
    {
        proof {
            filter_push(entries@.take(i as int), entries@[i as int], left);
            assert(entries@.take(i + 1) =~= entries@.take(i as int).push(entries@[i as int]));
        }
        if !path_is_removed(removed, entries[i].path.as_str()) {
            out.push(entries[i].clone());
        }
        i = i + 1;
    }
    assert(entries@.take(i as int) =~= entries@);
    out
}

/// Directory listings by the path of the directory.
#[derive(Debug)]
pub struct PathMap {
    items: Vec<(String, Vec<RemoteFileEntry>)>,
}

impl PathMap {
    /// The keys and what they are mapped to, in the order in which the keys came.
    pub closed spec fn view(&self) -> Seq<(Seq<char>, Seq<RemoteFileEntry>)> {
        self.items@.map_values(|item: (String, Vec<RemoteFileEntry>)| (item.0@, item.1@))
    }

    /// No key is held twice.
    #[verifier::type_invariant]
    spec fn distinct(&self) -> bool {
        distinct_keys(self@)
    }

    /// The empty table.
    pub fn new() -> (r: Self)
        ensures
            r@ == Seq::<(Seq<char>, Seq<RemoteFileEntry>)>::empty(),
    {
        let table = PathMap { items: Vec::new() };
        assert(table@ =~= Seq::<(Seq<char>, Seq<RemoteFileEntry>)>::empty());
        table
    }

    /// How many keys there are.
    pub fn len(&self) -> (r: usize)
        ensures
            r == self@.len(),
    {
        self.items.len()
    }

    /// The position of `key`.
    fn position(&self, key: &str) -> (r: Option<usize>)
        ensures
            ({
                let i = first_index(self@, has_key(key@));
                match r {
                    Some(found) => found == i && i < self@.len(),
                    None => i == self@.len(),
                }
            }),
    {
        let ghost wanted = has_key(key@);
        let mut i: usize = 0;
        while i < self.items.len()
            invariant
                i <= self.items@.len(),
                wanted == (has_key(key@)),
                forall|k: int| 0 <= k < i ==> (#[trigger] self@[k]).0 != key@,
            decreases self.items@.len() - i,
        {
            if text_eq(self.items[i].0.as_str(), key) {
                proof {
                    first_index_is(self@, wanted, i as int);
                }
                return Some(i);
            }
            i = i + 1;
        }
        proof {
            first_index_is(self@, wanted, i as int);
        }
        None
    }

    /// The entries that `key` is mapped to.
    pub fn get(&self, key: &str) -> (r: Option<&Vec<RemoteFileEntry>>)
        ensures
            match r {
                Some(entries) => table_get(self@, key@) == Some(entries@),
                None => table_get(self@, key@) is None,
            },
    {
        proof {
            first_index_properties(
                self@,
                has_key(key@),
            );
        }
        match self.position(key) {
            Some(i) => Some(&self.items[i].1),
            None => None,
        }
    }

    /// Maps `key` to `value`.
    pub fn insert(&mut self, key: String, value: Vec<RemoteFileEntry>)
        ensures
            final(self)@ == table_insert(old(self)@, key@, value@),
    {
        proof {
            use_type_invariant(&*self);
            first_index_properties(
                self@,
                has_key(key@),
            );
        }
        let at = self.position(key.as_str());
        let ghost before = self@;
        let ghost pair = (key@, value@);
        match at {
            Some(i) => {
                let mut items: Vec<(String, Vec<RemoteFileEntry>)> = Vec::new();
                std::mem::swap(&mut items, &mut self.items);
                items.set(i, (key, value));
                let ghost after = items@.map_values(
                    |item: (String, Vec<RemoteFileEntry>)| (item.0@, item.1@),
                );
                assert(after =~= before.update(i as int, pair));
                assert(distinct_keys(after)) by {
                    assert forall|a: int, b: int| 0 <= a < b < after.len() implies (
                    #[trigger] after[a]).0 != (#[trigger] after[b]).0 by {
                        assert(after[a].0 == before[a].0);
                        assert(after[b].0 == before[b].0);
                    }
                }
                self.items = items;
            },
            None => {
                let ghost after = before.push(pair);
                assert(distinct_keys(after)) by {
                    assert forall|a: int, b: int| 0 <= a < b < after.len() implies (
                    #[trigger] after[a]).0 != (#[trigger] after[b]).0 by {
                        assert(after[a].0 == before[a].0);
                        if b < before.len() {
                            assert(after[b].0 == before[b].0);
                        }
                    }
                }
                assert(self.items@.push((key, value)).map_values(
                    |item: (String, Vec<RemoteFileEntry>)| (item.0@, item.1@),
                ) =~= after);
                let mut items: Vec<(String, Vec<RemoteFileEntry>)> = Vec::new();
                std::mem::swap(&mut items, &mut self.items);
                items.push((key, value));
                self.items = items;
            },
        }
    }

    /// Takes every key out.
    pub fn clear(&mut self)
        ensures
            final(self)@ == Seq::<(Seq<char>, Seq<RemoteFileEntry>)>::empty(),
    {
        self.items = Vec::new();
        assert(self@ =~= Seq::<(Seq<char>, Seq<RemoteFileEntry>)>::empty());
    }

    /// The first entry with `path`.
    pub fn find(&self, path: &str) -> (r: Option<&RemoteFileEntry>)
        ensures
            match r {
                Some(entry) => first_where(table_entries(self@), entry_has_path(path@)) == Some(
                    *entry,
                ),
                None => first_where(table_entries(self@), entry_has_path(path@)) is None,
            },
    {
        let ghost wanted = entry_has_path(path@);
        let mut i: usize = 0;
        assert(self@.take(0) =~= Seq::<(Seq<char>, Seq<RemoteFileEntry>)>::empty());
        while i < self.items.len()
            invariant
                i <= self.items@.len(),
                wanted == entry_has_path(path@),
                !any_where(table_entries(self@.take(i as int)), wanted),
            decreases self.items@.len() - i,
        {
            let entries = &self.items[i].1;
            let ghost seen = table_entries(self@.take(i as int));
            proof {
                assert(self@.take(i + 1).drop_last() =~= self@.take(i as int));
                assert(self@.take(i + 1).last().1 == entries@);
                first_where_append(seen, entries@, wanted);
            }
            let mut j: usize = 0;
            while j < entries.len()
                invariant
                    i < self.items@.len(),
                    j <= entries@.len(),
                    entries@ == self.items@[i as int].1@,
                    wanted == entry_has_path(path@),
                    seen == table_entries(self@.take(i as int)),
                    !any_where(seen, wanted),
                    table_entries(self@.take(i + 1)) == seen + entries@,
                    forall|k: int| 0 <= k < j ==> (#[trigger] entries@[k]).path@ != path@,
                decreases entries@.len() - j,
            {
                if text_eq(entries[j].path.as_str(), path) {
                    proof {
                        first_index_is(entries@, wanted, j as int);
                        first_where_append(seen, entries@, wanted);
                        table_entries_split(self@, i + 1);
                        let rest = choose|rest: Seq<RemoteFileEntry>|
                            table_entries(self@) == #[trigger] (table_entries(self@.take(i + 1))
                                + rest);
                        first_where_append(table_entries(self@.take(i + 1)), rest, wanted);
                    }
                    return Some(&entries[j]);
                }
                j = j + 1;
            }
            proof {
                first_index_is(entries@, wanted, j as int);
                first_where_append(seen, entries@, wanted);
            }
            i = i + 1;
        }
        assert(self@.take(i as int) =~= self@);
        None
    }

    /// Takes `removed` and everything below out, keys and entries alike.
    pub fn remove_paths(&mut self, removed: &Vec<String>)
        ensures
            final(self)@ == table_left(old(self)@, views(removed@)),
    {
        proof {
            use_type_invariant(&*self);
        }
        let ghost before = self@;
        let ghost gone = views(removed@);
        let ghost stays = |item: (Seq<char>, Seq<RemoteFileEntry>)| !is_removed(gone, item.0);
        let ghost trimmed = |item: (Seq<char>, Seq<RemoteFileEntry>)|
            (item.0, entries_left(item.1, gone));
        let ghost shown = |item: (String, Vec<RemoteFileEntry>)| (item.0@, item.1@);
        let mut kept: Vec<(String, Vec<RemoteFileEntry>)> = Vec::new();
        let mut i: usize = 0;
        proof {
            reveal(Seq::filter);
            assert(kept@.map_values(shown) =~= before.take(0).filter(stays).map_values(trimmed));
        }
        while i < self.items.len()
            invariant
                i <= self.items@.len(),
                *self == *old(self),
                before == self@,
                distinct_keys(before),
                gone == views(removed@),
                stays == (|item: (Seq<char>, Seq<RemoteFileEntry>)| !is_removed(gone, item.0)),
                trimmed == (|item: (Seq<char>, Seq<RemoteFileEntry>)|
                    (item.0, entries_left(item.1, gone))),
                shown == (|item: (String, Vec<RemoteFileEntry>)| (item.0@, item.1@)),
                kept@.map_values(shown) == before.take(i as int).filter(stays).map_values(trimmed),
                distinct_keys(kept@.map_values(shown)),
                forall|k: int|
                    0 <= k < kept@.len() ==> exists|m: int|
                        0 <= m < i && (#[trigger] kept@[k]).0@ == (#[trigger] before[m]).0,
            decreases self.items@.len() - i,
        {
            let ghost earlier = kept@.map_values(shown);
            proof {
                filter_push(before.take(i as int), before[i as int], stays);
                assert(before.take(i + 1) =~= before.take(i as int).push(before[i as int]));
            }
            if !path_is_removed(removed, self.items[i].0.as_str()) {
                let entries = retain_entries(&self.items[i].1, removed);
                kept.push((self.items[i].0.clone(), entries));
                proof {
                    let now = kept@.map_values(shown);
                    let item = trimmed(before[i as int]);
                    assert(now =~= earlier.push(item));
                    let filtered = before.take(i as int).filter(stays);
                    assert(filtered.push(before[i as int]).map_values(trimmed)
                        =~= filtered.map_values(trimmed).push(item));
                    assert forall|a: int, b: int| 0 <= a < b < now.len() implies (
                    #[trigger] now[a]).0 != (#[trigger] now[b]).0 by {
                        if b < earlier.len() {
                            assert(now[a] == earlier[a]);
                            assert(now[b] == earlier[b]);
                        } else {
                            let m = choose|m: int|
                                0 <= m < i && kept@[a].0@ == (#[trigger] before[m]).0;
                            assert(before[m].0 != before[i as int].0);
                        }
                    }
                    assert forall|k: int| 0 <= k < kept@.len() implies exists|m: int|
                        0 <= m < i + 1 && (#[trigger] kept@[k]).0@ == (#[trigger] before[m]).0 by {
                        if k < earlier.len() {
                            let m = choose|m: int|
                                0 <= m < i && kept@[k].0@ == (#[trigger] before[m]).0;
                            assert(before[m].0 == kept@[k].0@);
                        } else {
                            assert(before[i as int].0 == kept@[k].0@);
                        }
                    }
                }
            }
            i = i + 1;
        }
        assert(before.take(i as int) =~= before);
        self.items = kept;
    }
}

/// What comes first in a table stays first in its entries.
proof fn table_entries_split(table: Seq<(Seq<char>, Seq<RemoteFileEntry>)>, n: int)
    requires
        0 <= n <= table.len(),
    ensures
        exists|rest: Seq<RemoteFileEntry>|
            table_entries(table) == #[trigger] (table_entries(table.take(n)) + rest),
    decreases table.len() - n,
{
    if n == table.len() {
        assert(table.take(n) =~= table);
        assert(table_entries(table) =~= table_entries(table.take(n)) + Seq::empty());
    } else {
        table_entries_split(table, n + 1);
        let rest = choose|rest: Seq<RemoteFileEntry>|
            table_entries(table) == #[trigger] (table_entries(table.take(n + 1)) + rest);
        assert(table.take(n + 1).drop_last() =~= table.take(n));
        assert(table_entries(table) =~= table_entries(table.take(n)) + (table[n].1 + rest));
    }
}

/// What is left of a listing after a removal is what is neither removed nor below it.
pub proof fn removal_leaves_the_rest(
    entries: Seq<RemoteFileEntry>,
    removed: Seq<Seq<char>>,
    entry: RemoteFileEntry,
)
    ensures
        entries_left(entries, removed).contains(entry) <==> entries.contains(entry)
            && !removed.contains(entry.path@) && forall|i: int|
            0 <= i < removed.len() ==> !is_descendant(#[trigger] removed[i], entry.path@),
{
    let stays = |entry: RemoteFileEntry| !is_removed(removed, entry.path@);
    filter_is_exact(entries, stays, entry);
    if removed.contains(entry.path@) {
        let k = removed.index_of(entry.path@);
        assert(removed[k] == entry.path@);
    }
}

/// After a listing was put into the table under a key, the key gives that listing, and every
/// other key what it gave before.
pub proof fn inserted_listing_is_found(
    table: Seq<(Seq<char>, Seq<RemoteFileEntry>)>,
    key: Seq<char>,
    value: Seq<RemoteFileEntry>,
    other: Seq<char>,
)
    ensures
        table_get(table_insert(table, key, value), key) == Some(value),
        other != key ==> table_get(table_insert(table, key, value), other) == table_get(
            table,
            other,
        ),
{
    let after = table_insert(table, key, value);
    let at = first_index(table, has_key(key));
    first_index_properties(table, has_key(key));
    assert forall|i: int| 0 <= i < at implies !has_key(key)(#[trigger] after[i]) by {
        assert(after[i] == table[i]);
    }
    first_index_is(after, has_key(key), at);
    if other != key {
        first_index_properties(table, has_key(other));
        let place = first_index(table, has_key(other));
        if place < table.len() {
            assert(has_key(other)(table[place]));
            assert(place != at);
            assert(after[place] == table[place]);
            assert forall|i: int| 0 <= i < place implies !has_key(other)(#[trigger] after[i]) by {
                if i != at {
                    assert(after[i] == table[i]);
                }
            }
            first_index_is(after, has_key(other), place);
        } else {
            assert forall|i: int| 0 <= i < after.len() implies !has_key(other)(
                #[trigger] after[i],
            ) by {
                if i != at {
                    assert(after[i] == table[i]);
                }
            }
            first_index_is(after, has_key(other), after.len() as int);
        }
    }
}

} // verus!
