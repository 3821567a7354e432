//! The fonts that a terminal can be drawn in.
use crate::sequences::{first_index, first_index_is, first_index_properties};
use crate::text::{
    chars_of, filter_push, lower_case, text_before, text_less, text_less_transitive, to_lower_case,
    trim, trimmed, views, views_push,
};
use vstd::prelude::*;
use vstd::string::*;

verus! {

/// A letter of ASCII in lower case; any other character as it is.
pub open spec fn lower_ascii(c: char) -> char {
    if 'A' <= c <= 'Z' {
        (c as u32 + 32) as char
    } else {
        c
    }
}

/// Two texts are the same but for the case of ASCII letters.
pub open spec fn same_but_case(a: Seq<char>, b: Seq<char>) -> bool {
    a.len() == b.len() && forall|i: int|
        0 <= i < a.len() ==> lower_ascii(#[trigger] a[i]) == lower_ascii(b[i])
}

/// Two characters are the same but for the case of an ASCII letter.
fn same_char(a: char, b: char) -> (r: bool)
    ensures
        r == (lower_ascii(a) == lower_ascii(b)),
{
    let x: u32 = if 'A' <= a && a <= 'Z' {
        a as u32 + 32
    } else {
        a as u32
    };
    let y: u32 = if 'A' <= b && b <= 'Z' {
        b as u32 + 32
    } else {
        b as u32
    };
    assert(lower_ascii(a) as u32 == x);
    assert(lower_ascii(b) as u32 == y);
    x == y
}

/// Two texts are the same but for the case of ASCII letters.
pub fn eq_ignore_ascii_case(a: &str, b: &str) -> (r: bool)
    ensures
        r == same_but_case(a@, b@),
{
    let x = chars_of(a);
    let y = chars_of(b);
    if x.len() != y.len() {
        return false;
    }
    let mut i: usize = 0;
    while i < x.len()
        invariant
            i <= x@.len(),
            x@.len() == y@.len(),
            x@ == a@,
            y@ == b@,
            forall|k: int| 0 <= k < i ==> lower_ascii(#[trigger] a@[k]) == lower_ascii(b@[k]),
        decreases x@.len() - i,
    {
        if !same_char(x[i], y[i]) {
            assert(lower_ascii(a@[i as int]) != lower_ascii(b@[i as int]));
            return false;
        }
        i = i + 1;
    }
    true
}

/// Being the name of a font for people to choose: not blank, and not one of the system's own,
/// which begin with a dot.
pub open spec fn is_usable() -> spec_fn(Seq<char>) -> bool {
    |family: Seq<char>| trim(family).len() > 0 && trim(family)[0] != '.'
}

/// Coming behind `family` in the order of names in lower case.
pub open spec fn is_behind(family: Seq<char>) -> spec_fn(Seq<char>) -> bool {
    |other: Seq<char>| text_less(lower_case(family), lower_case(other))
}

/// `list` with `family` before the first name that comes behind it.
pub open spec fn with_family(list: Seq<Seq<char>>, family: Seq<char>) -> Seq<Seq<char>> {
    list.insert(first_index(list, is_behind(family)), family)
}

/// The names in the order of their lower case; those alike there keep their order.
pub open spec fn in_order(families: Seq<Seq<char>>) -> Seq<Seq<char>>
    decreases families.len(),
{
    if families.len() == 0 {
        Seq::empty()
    } else {
        with_family(in_order(families.drop_last()), families.last())
    }
}

/// The names without those that are the same as the one before, but for case.
pub open spec fn without_repeats(families: Seq<Seq<char>>) -> Seq<Seq<char>>
    decreases families.len(),
{
    if families.len() == 0 {
        Seq::empty()
    } else {
        let before = without_repeats(families.drop_last());
        if before.len() > 0 && same_but_case(families.last(), before.last()) {
            before
        } else {
            before.push(families.last())
        }
    }
}

/// The fonts to choose from, of those installed.
pub open spec fn offered_families(families: Seq<Seq<char>>) -> Seq<Seq<char>> {
    without_repeats(in_order(families.filter(is_usable())))
}

/// The usable names in order.
fn sort_families(families: Vec<String>) -> (r: Vec<String>)
    ensures
        views(r@) == in_order(views(families@).filter(is_usable())),
{
    let mut out: Vec<String> = Vec::new();
    let mut keys: Vec<String> = Vec::new();
    let ghost all = views(families@);
    let ghost usable = is_usable();
    let mut i: usize = 0;
    proof {
        reveal(Seq::filter);
        assert(all.take(0) =~= Seq::<Seq<char>>::empty());
        assert(views(out@) =~= Seq::<Seq<char>>::empty());
    }
    while i < families.len()
        invariant
            i <= families@.len(),
            all == views(families@),
            usable == is_usable(),
            views(out@) == in_order(all.take(i as int).filter(usable)),
            keys@.len() == out@.len(),
            forall|k: int| 0 <= k < out@.len() ==> (#[trigger] keys@[k])@ == lower_case(out@[k]@),
        decreases families@.len() - i,
    {
        let ghost before = all.take(i as int);
        let family = &families[i];
        proof {
            assert(all.take(i + 1) =~= before.push(family@));
            filter_push(before, family@, usable);
            assert(before.filter(usable).push(family@).drop_last() =~= before.filter(usable));
        }
        let name = chars_of(trimmed(family.as_str()));
        if name.len() > 0 && name[0] != '.' {
            assert(usable(family@));
            let key = to_lower_case(family.as_str());
            let ghost list = views(out@);
            let ghost behind = is_behind(family@);
            let mut at: usize = 0;
            while at < out.len() && !text_before(key.as_str(), keys[at].as_str())
                invariant
                    at <= out@.len(),
                    list == views(out@),
                    key@ == lower_case(family@),
                    behind == is_behind(family@),
                    keys@.len() == out@.len(),
                    forall|k: int|
                        0 <= k < out@.len() ==> (#[trigger] keys@[k])@ == lower_case(out@[k]@),
                    forall|k: int| 0 <= k < at ==> !behind(#[trigger] list[k]),
                decreases out@.len() - at,
            {
                assert(!behind(list[at as int]));
                at = at + 1;
            }
            proof {
                if at < out@.len() {
                    assert(behind(list[at as int]));
                }
                first_index_is(list, behind, at as int);
            }
            out.insert(at, family.clone());
            keys.insert(at, key);
            assert(views(out@) =~= with_family(list, family@));
        } else {
            assert(!usable(family@));
        }
        i = i + 1;
    }
    assert(all.take(i as int) =~= all);
    out
}

/// The fonts to choose from, of those installed.
pub fn normalize_terminal_font_families(families: Vec<String>) -> (r: Vec<String>)
    ensures
        views(r@) == offered_families(views(families@)),
{
    let sorted = sort_families(families);
    let ghost all = views(sorted@);
    let mut out: Vec<String> = Vec::new();
    let mut i: usize = 0;
    assert(all.take(0) =~= Seq::<Seq<char>>::empty());
    assert(views(out@) =~= Seq::<Seq<char>>::empty());
    while i < sorted.len()
        invariant
            i <= sorted@.len(),
            all == views(sorted@),
            views(out@) == without_repeats(all.take(i as int)),
        decreases sorted@.len() - i,
    {
        let ghost kept = out@;
        proof {
            assert(all.take(i + 1).drop_last() =~= all.take(i as int));
            assert(all.take(i + 1).last() == sorted@[i as int]@);
        }
        let repeats = out.len() > 0 && eq_ignore_ascii_case(
            sorted[i].as_str(),
            out[out.len() - 1].as_str(),
        );
        assert(out@.len() > 0 ==> views(out@).last() == out@[out@.len() - 1]@);
        if !repeats {
            out.push(sorted[i].clone());
            proof {
                views_push(kept, sorted@[i as int]);
            }
        }
        i = i + 1;
    }
    assert(all.take(i as int) =~= all);
    out
}

/// No name comes behind one that stands after it.
pub open spec fn is_ordered(families: Seq<Seq<char>>) -> bool {
    forall|i: int, j: int|
        0 <= i < j < families.len() ==> !text_less(
            lower_case(#[trigger] families[j]),
            lower_case(#[trigger] families[i]),
        )
}

/// Putting a name into an ordered list leaves it ordered.
proof fn with_family_is_ordered(list: Seq<Seq<char>>, family: Seq<char>)
    requires
        is_ordered(list),
    ensures
        is_ordered(with_family(list, family)),
{
    let behind = is_behind(family);
    let at = first_index(list, behind);
    let after = with_family(list, family);
    first_index_properties(list, behind);
    assert forall|i: int, j: int| 0 <= i < j < after.len() implies !text_less(
        lower_case(#[trigger] after[j]),
        lower_case(#[trigger] after[i]),
    ) by {
        let i0 = if i < at { i } else { i - 1 };
        let j0 = if j < at { j } else { j - 1 };
        if i == at {
            assert(after[j] == list[j0]);
            assert(behind(list[at]));
            let a = lower_case(family);
            let b = lower_case(list[at]);
            let c = lower_case(list[j0]);
            if text_less(c, a) {
                text_less_transitive(c, a, b);
                if j0 != at {
                    assert(!text_less(lower_case(list[j0]), lower_case(list[at])));
                } else {
                    crate::text::text_less_irreflexive(c);
                }
            }
        } else if j == at {
            assert(after[i] == list[i0]);
            assert(!behind(list[i0]));
        } else {
            assert(after[i] == list[i0]);
            assert(after[j] == list[j0]);
        }
    }
}

/// The names are put in order, none is lost and none added.
pub proof fn in_order_properties(families: Seq<Seq<char>>)
    ensures
        is_ordered(in_order(families)),
        in_order(families).to_multiset() == families.to_multiset(),
    decreases families.len(),
{
    broadcast use vstd::seq_lib::group_to_multiset_ensures;

    if families.len() == 0 {
        assert(families =~= Seq::<Seq<char>>::empty());
    } else {
        let rest = families.drop_last();
        let family = families.last();
        in_order_properties(rest);
        with_family_is_ordered(in_order(rest), family);
        first_index_properties(in_order(rest), is_behind(family));
        assert(rest.push(family) =~= families);
        let list = in_order(rest);
        let at = first_index(list, is_behind(family));
        vstd::seq_lib::to_multiset_insert(list, at, family);
    }
}

/// Of names that follow each other, none is the same as the one before but for case; each is one
/// of the given names, and each given name is there in some case.
pub proof fn without_repeats_properties(families: Seq<Seq<char>>)
    ensures
        forall|i: int|
            0 < i < without_repeats(families).len() ==> !same_but_case(
                #[trigger] without_repeats(families)[i],
                without_repeats(families)[i - 1],
            ),
        forall|x: Seq<char>| without_repeats(families).contains(x) ==> families.contains(x),
        forall|k: int|
            0 <= k < families.len() ==> exists|i: int|
                0 <= i < without_repeats(families).len() && same_but_case(
                    #[trigger] families[k],
                    #[trigger] without_repeats(families)[i],
                ),
    decreases families.len(),
{
    if families.len() > 0 {
        let rest = families.drop_last();
        let family = families.last();
        without_repeats_properties(rest);
        let before = without_repeats(rest);
        let after = without_repeats(families);
        assert forall|i: int| 0 < i < after.len() implies !same_but_case(
            #[trigger] after[i],
            after[i - 1],
        ) by {
            if i < before.len() {
                assert(after[i] == before[i]);
                assert(after[i - 1] == before[i - 1]);
            } else {
                assert(after[i - 1] == before.last());
            }
        }
        assert forall|x: Seq<char>| after.contains(x) implies families.contains(x) by {
            if before.contains(x) {
                assert(rest.contains(x));
                assert(families[rest.index_of(x)] == x);
            } else {
                let i = after.index_of(x);
                assert(after[i] == x);
                if i < before.len() {
                    assert(before[i] == x);
                }
                assert(x == family);
                assert(families[families.len() - 1] == x);
            }
        }
        assert forall|k: int| 0 <= k < families.len() implies exists|i: int|
            0 <= i < after.len() && same_but_case(
                #[trigger] families[k],
                #[trigger] after[i],
            ) by {
            if k < rest.len() {
                assert(families[k] == rest[k]);
                let i = choose|i: int|
                    0 <= i < before.len() && same_but_case(
                        #[trigger] rest[k],
                        #[trigger] before[i],
                    );
                assert(after[i] == before[i]);
            } else {
                let i = after.len() - 1;
                assert(same_but_case(families[k], after[i]));
            }
        }
    }
}

/// The systems that the program runs on, as far as their fonts differ.
#[derive(Clone, Copy, Debug, PartialEq, Eq, Structural)]
pub enum Platform {
    MacOs,
    Windows,
    Other,
}

/// The font of fixed width that a system comes with.
pub open spec fn platform_font(platform: Platform) -> &'static str {
    match platform {
        Platform::MacOs => "Menlo",
        Platform::Windows => "Consolas",
        Platform::Other => "DejaVu Sans Mono",
    }
}

/// The font of fixed width that a system comes with.
pub fn ui_monospace_font_family(platform: Platform) -> (r: &'static str)
    ensures
        r == platform_font(platform),
{
    match platform {
        Platform::MacOs => "Menlo",
        Platform::Windows => "Consolas",
        Platform::Other => "DejaVu Sans Mono",
    }
}

/// Being called `name`, but for case.
pub open spec fn is_called(name: Seq<char>) -> spec_fn(Seq<char>) -> bool {
    |family: Seq<char>| same_but_case(family, name)
}

/// The font that is called `name`, but for case.
pub open spec fn family_called(available: Seq<Seq<char>>, name: Seq<char>) -> Option<Seq<char>> {
    crate::sequences::first_where(available, is_called(name))
}

/// The font to use: the wanted one where it is there, else the first that is there of those that
/// suit best, else the first of all, else the usual one by its name.
pub open spec fn chosen_family(
    preferred: Option<Seq<char>>,
    available: Seq<Seq<char>>,
    platform: Platform,
) -> Seq<char> {
    let wanted = match preferred {
        Some(name) => family_called(available, name),
        None => None,
    };
    if wanted is Some {
        wanted->0
    } else if family_called(available, "SF Mono"@) is Some {
        family_called(available, "SF Mono"@)->0
    } else if family_called(available, "Menlo"@) is Some {
        family_called(available, "Menlo"@)->0
    } else if family_called(available, platform_font(platform)@) is Some {
        family_called(available, platform_font(platform)@)->0
    } else if available.len() > 0 {
        available[0]
    } else {
        "Menlo"@
    }
}

/// The font that is called `name`, but for case.
fn find_family(available: &Vec<String>, name: &str) -> (r: Option<String>)
    ensures
        crate::text::opt_view(r) == family_called(views(available@), name@),
{
    let ghost all = views(available@);
    let ghost wanted = is_called(name@);
    let mut i: usize = 0;
    while i < available.len()
        invariant
            i <= available@.len(),
            all == views(available@),
            wanted == is_called(name@),
            forall|k: int| 0 <= k < i ==> !wanted(#[trigger] all[k]),
        decreases available@.len() - i,
    {
        if eq_ignore_ascii_case(available[i].as_str(), name) {
            proof {
                assert(wanted(all[i as int]));
                first_index_is(all, wanted, i as int);
            }
            return Some(available[i].clone());
        }
        assert(!wanted(all[i as int]));
        i = i + 1;
    }
    proof {
        first_index_is(all, wanted, i as int);
    }
    None
}

/// The font to use.
pub fn resolve_terminal_font_family(
    preferred: Option<&str>,
    available: &Vec<String>,
    platform: Platform,
) -> (r: String)
    ensures
        r@ == chosen_family(
            match preferred {
                Some(name) => Some(name@),
                None => None,
            },
            views(available@),
            platform,
        ),
{
    match preferred {
        Some(name) => match find_family(available, name) {
            Some(family) => return family,
            None => (),
        },
        None => (),
    }
    match find_family(available, "SF Mono") {
        Some(family) => return family,
        None => (),
    }
    match find_family(available, "Menlo") {
        Some(family) => return family,
        None => (),
    }
    match find_family(available, ui_monospace_font_family(platform)) {
        Some(family) => return family,
        None => (),
    }
    assert(views(available@).len() == available@.len());
    if available.len() > 0 {
        assert(views(available@)[0] == available@[0]@);
        available[0].clone()
    } else {
        "Menlo".to_string()
    }
}

/// Where there are fonts, the one to use is one of them.
pub proof fn chosen_family_is_available(
    preferred: Option<Seq<char>>,
    available: Seq<Seq<char>>,
    platform: Platform,
)
    requires
        available.len() > 0,
    ensures
        available.contains(chosen_family(preferred, available, platform)),
{
    if preferred is Some {
        first_index_properties(available, is_called(preferred->0));
    }
    first_index_properties(available, is_called("SF Mono"@));
    first_index_properties(available, is_called("Menlo"@));
    first_index_properties(available, is_called(platform_font(platform)@));
}

/// The font that the user wants is used where it is installed, in the way it is installed,
/// whatever the case of its letters. Where it is not, the first choice is SF Mono, then Menlo,
/// then the system's own, then whatever is installed first.
pub proof fn wanted_font_is_used(
    preferred: Option<Seq<char>>,
    available: Seq<Seq<char>>,
    platform: Platform,
    name: Seq<char>,
    i: int,
)
    requires
        0 <= i < available.len(),
        same_but_case(available[i], name),
        forall|k: int| 0 <= k < i ==> !same_but_case(#[trigger] available[k], name),
    ensures
        preferred == Some(name) ==> chosen_family(preferred, available, platform) == available[i],
        (preferred is None || forall|k: int|
            0 <= k < available.len() ==> !same_but_case(#[trigger] available[k], preferred->0))
            && name == "SF Mono"@ ==> chosen_family(preferred, available, platform) == available[i],
        (preferred is None || forall|k: int|
            0 <= k < available.len() ==> !same_but_case(#[trigger] available[k], preferred->0)) && (
        forall|k: int|
            0 <= k < available.len() ==> !same_but_case(#[trigger] available[k], "SF Mono"@))
            && name == "Menlo"@ ==> chosen_family(preferred, available, platform) == available[i],
{
    first_index_is(available, is_called(name), i);
    if preferred is Some {
        first_index_properties(available, is_called(preferred->0));
    }
    first_index_properties(available, is_called("SF Mono"@));
}

/// Where no font is installed that is wanted or suits, the first of all is used; without any, the
/// usual one.
pub proof fn some_font_is_used(
    preferred: Option<Seq<char>>,
    available: Seq<Seq<char>>,
    platform: Platform,
)
    ensures
        available.len() == 0 ==> chosen_family(preferred, available, platform) == "Menlo"@,
        available.len() > 0 && (forall|k: int|
            0 <= k < available.len() ==> !same_but_case(#[trigger] available[k], "SF Mono"@)
                && !same_but_case(available[k], "Menlo"@) && !same_but_case(
                available[k],
                platform_font(platform)@,
            ) && (preferred is Some ==> !same_but_case(available[k], preferred->0)))
            ==> chosen_family(preferred, available, platform) == available[0],
{
    if preferred is Some {
        first_index_properties(available, is_called(preferred->0));
    }
    first_index_properties(available, is_called("SF Mono"@));
    first_index_properties(available, is_called("Menlo"@));
    first_index_properties(available, is_called(platform_font(platform)@));
}

/// The fonts to choose from are installed ones with a name that is neither blank nor begins with a
/// dot, and every such font is among them, but for the case of its letters.
pub proof fn offered_fonts_are_installed(families: Seq<Seq<char>>, family: Seq<char>, k: int)
    ensures
        offered_families(families).contains(family) ==> families.contains(family) && trim(
            family,
        ).len() > 0 && trim(family)[0] != '.',
        0 <= k < families.len() && trim(families[k]).len() > 0 && trim(families[k])[0] != '.'
            ==> exists|i: int|
            0 <= i < offered_families(families).len() && same_but_case(
                families[k],
                #[trigger] offered_families(families)[i],
            ),
{
    broadcast use vstd::seq_lib::group_to_multiset_ensures;

    let usable = is_usable();
    let kept = families.filter(usable);
    let sorted = in_order(kept);
    in_order_properties(kept);
    without_repeats_properties(sorted);
    if offered_families(families).contains(family) {
        assert(sorted.contains(family));
        assert(sorted.to_multiset().count(family) > 0);
        assert(kept.contains(family));
        crate::sequences::filter_is_exact(families, usable, family);
    }
    if 0 <= k < families.len() && trim(families[k]).len() > 0 && trim(families[k])[0] != '.' {
        crate::sequences::filter_is_exact(families, usable, families[k]);
        assert(families.contains(families[k]));
        assert(kept.contains(families[k]));
        assert(kept.to_multiset().count(families[k]) > 0);
        assert(sorted.contains(families[k]));
        let m = sorted.index_of(families[k]);
        let i = choose|i: int|
            0 <= i < without_repeats(sorted).len() && same_but_case(
                #[trigger] sorted[m],
                #[trigger] without_repeats(sorted)[i],
            );
        assert(same_but_case(families[k], offered_families(families)[i]));
    }
}

} // verus!
