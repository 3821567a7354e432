//! Text as sequences of characters: the operations on strings that the rest of the crate is
//! written with, each with its meaning as a function on `Seq<char>`.
use vstd::prelude::*;
use vstd::string::*;
use vstd::utf8::*;

verus! {

/// `String::push` of std appends one character.
pub assume_specification[ String::push ](s: &mut String, c: char)
    ensures
        final(s)@ == old(s)@.push(c),
;

/// The texts of a list of strings.
pub open spec fn views(list: Seq<String>) -> Seq<Seq<char>> {
    list.map_values(|s: String| s@)
}

/// The text of an optional string.
pub open spec fn opt_view(s: Option<String>) -> Option<Seq<char>> {
    match s {
        Some(s) => Some(s@),
        None => None,
    }
}

/// `s` without the run of `c` at its end.
pub open spec fn trim_end_char(s: Seq<char>, c: char) -> Seq<char>
    decreases s.len(),
{
    if s.len() > 0 && s.last() == c {
        trim_end_char(s.drop_last(), c)
    } else {
        s
    }
}

/// The pieces of `s` between occurrences of `c`; always at least one piece.
pub open spec fn split_on(s: Seq<char>, c: char) -> Seq<Seq<char>>
    decreases s.len(),
{
    if s.len() == 0 {
        seq![Seq::<char>::empty()]
    } else {
        let before = split_on(s.drop_last(), c);
        if s.last() == c {
            before.push(Seq::<char>::empty())
        } else {
            before.drop_last().push(before.last().push(s.last()))
        }
    }
}

/// The pieces of `s` between occurrences of `c` that are not empty.
pub open spec fn components_on(s: Seq<char>, c: char) -> Seq<Seq<char>> {
    split_on(s, c).filter(|piece: Seq<char>| piece.len() > 0)
}

/// Pieces put together, with `separator` between each two.
pub open spec fn join_with(pieces: Seq<Seq<char>>, separator: Seq<char>) -> Seq<char>
    decreases pieces.len(),
{
    if pieces.len() == 0 {
        Seq::empty()
    } else if pieces.len() == 1 {
        pieces[0]
    } else {
        join_with(pieces.drop_last(), separator) + separator + pieces.last()
    }
}

/// `prefix` stands at the start of `s`.
pub open spec fn starts_with(s: Seq<char>, prefix: Seq<char>) -> bool {
    prefix.len() <= s.len() && s.take(prefix.len() as int) == prefix
}

/// Lexicographic order by code point, which is the order of `str`.
pub open spec fn text_less(a: Seq<char>, b: Seq<char>) -> bool
    decreases a.len(),
{
    if b.len() == 0 {
        false
    } else if a.len() == 0 {
        true
    } else if a[0] == b[0] {
        text_less(a.drop_first(), b.drop_first())
    } else {
        a[0] < b[0]
    }
}

/// Characters of the Unicode property `White_Space`.
pub open spec fn is_white_space(c: char) -> bool {
    let u = c as u32;
    ||| 0x09 <= u <= 0x0d
    ||| u == 0x20
    ||| u == 0x85
    ||| u == 0xa0
    ||| u == 0x1680
    ||| 0x2000 <= u <= 0x200a
    ||| u == 0x2028
    ||| u == 0x2029
    ||| u == 0x202f
    ||| u == 0x205f
    ||| u == 0x3000
}

/// `s` without white space at its start.
pub open spec fn trim_start(s: Seq<char>) -> Seq<char>
    decreases s.len(),
{
    if s.len() > 0 && is_white_space(s[0]) {
        trim_start(s.drop_first())
    } else {
        s
    }
}

/// `s` without white space at its end.
pub open spec fn trim_end(s: Seq<char>) -> Seq<char>
    decreases s.len(),
{
    if s.len() > 0 && is_white_space(s.last()) {
        trim_end(s.drop_last())
    } else {
        s
    }
}

/// `s` without white space at both ends.
pub open spec fn trim(s: Seq<char>) -> Seq<char> {
    trim_end(trim_start(s))
}

/// The order of texts is irreflexive.
pub proof fn text_less_irreflexive(a: Seq<char>)
    ensures
        !text_less(a, a),
    decreases a.len(),
{
    if a.len() > 0 {
        text_less_irreflexive(a.drop_first());
    }
}

/// Of two different texts exactly one comes before the other.
pub proof fn text_less_total(a: Seq<char>, b: Seq<char>)
    ensures
        a == b ==> !text_less(a, b) && !text_less(b, a),
        a != b ==> (text_less(a, b) <==> !text_less(b, a)),
    decreases a.len(),
{
    if a == b {
        text_less_irreflexive(a);
    } else if a.len() > 0 && b.len() > 0 {
        if a[0] == b[0] {
            text_less_total(a.drop_first(), b.drop_first());
            if a.drop_first() == b.drop_first() {
                assert(a =~= seq![a[0]] + a.drop_first());
                assert(b =~= seq![b[0]] + b.drop_first());
            }
        }
    } else if a.len() == 0 && b.len() == 0 {
        assert(a =~= b);
    }
}

/// The order of texts is transitive.
pub proof fn text_less_transitive(a: Seq<char>, b: Seq<char>, c: Seq<char>)
    requires
        text_less(a, b),
        text_less(b, c),
    ensures
        text_less(a, c),
    decreases a.len(),
{
    if a.len() > 0 && b.len() > 0 && c.len() > 0 && a[0] == b[0] && b[0] == c[0] {
        text_less_transitive(a.drop_first(), b.drop_first(), c.drop_first());
    }
}

/// What `trim_end_char` leaves does not end in the character, and what it cut off was a run of it.
pub proof fn trim_end_char_properties(s: Seq<char>, c: char)
    ensures
        trim_end_char(s, c).len() <= s.len(),
        trim_end_char(s, c) == s.take(trim_end_char(s, c).len() as int),
        trim_end_char(s, c).len() > 0 ==> trim_end_char(s, c).last() != c,
        forall|i: int| trim_end_char(s, c).len() <= i < s.len() ==> s[i] == c,
    decreases s.len(),
{
    if s.len() > 0 && s.last() == c {
        let shorter = s.drop_last();
        trim_end_char_properties(shorter, c);
        let n = trim_end_char(shorter, c).len() as int;
        assert(shorter.take(n) =~= s.take(n));
        assert forall|i: int| n <= i < s.len() implies s[i] == c by {
            if i < s.len() - 1 {
                assert(s[i] == shorter[i]);
            }
        }
    } else {
        assert(s.take(s.len() as int) =~= s);
    }
}

/// There is always a piece, and no piece holds the separator.
pub proof fn split_on_properties(s: Seq<char>, c: char)
    ensures
        split_on(s, c).len() > 0,
        forall|i: int|
            0 <= i < split_on(s, c).len() ==> !(#[trigger] split_on(s, c)[i]).contains(c),
    decreases s.len(),
{
    if s.len() > 0 {
        let shorter = s.drop_last();
        split_on_properties(shorter, c);
        let before = split_on(shorter, c);
        assert forall|i: int| 0 <= i < split_on(s, c).len() implies !(#[trigger] split_on(
            s,
            c,
        )[i]).contains(c) by {
            if i < before.len() - 1 {
                assert(split_on(s, c)[i] == before[i]);
            } else if s.last() == c {
                if i == before.len() - 1 {
                    assert(split_on(s, c)[i] == before[i]);
                }
            } else {
                let piece = before.last().push(s.last());
                assert(!before[before.len() - 1].contains(c));
                if piece.contains(c) {
                    let k = piece.index_of(c);
                    assert(piece[k] == c);
                    assert(before.last()[k] == c);
                    assert(false);
                }
            }
        }
    }
}

/// `views` commutes with `push`.
pub broadcast proof fn views_push(list: Seq<String>, s: String)
    ensures
        #[trigger] views(list.push(s)) == views(list).push(s@),
{
    assert(views(list.push(s)) =~= views(list).push(s@));
}

/// The characters of a text, one per element.
pub fn chars_of(s: &str) -> (r: Vec<char>)
    ensures
        r@ == s@,
{
    let mut out: Vec<char> = Vec::new();
    for c in it: s.chars()
        invariant
            out@ == s@.take(it.index()),
            it.seq() == s@,
    {
        out.push(c);
    }
    out
}

/// The text made of the characters `from..to` of `chars`.
pub fn string_of(chars: &Vec<char>, from: usize, to: usize) -> (r: String)
    requires
        from <= to <= chars@.len(),
    ensures
        r@ == chars@.subrange(from as int, to as int),
{
    let mut out: String = String::new();
    let mut i: usize = from;
    while i < to
        invariant
            from <= i <= to <= chars@.len(),
            out@ == chars@.subrange(from as int, i as int),
        decreases to - i,
    {
        out.push(chars[i]);
        i = i + 1;
        assert(chars@.subrange(from as int, i as int) =~= chars@.subrange(
            from as int,
            i - 1,
        ).push(chars@[i - 1]));
    }
    out
}

/// Two texts are the same.
pub fn text_eq(a: &str, b: &str) -> (r: bool)
    ensures
        r == (a@ == b@),
{
    broadcast use encode_utf8_decode_utf8;

    let x = a.as_bytes();
    let y = b.as_bytes();
    if x.len() != y.len() {
        return false;
    }
    let mut i: usize = 0;
    while i < x.len()
        invariant
            i <= x@.len(),
            x@.len() == y@.len(),
            x@ == encode_utf8(a@),
            y@ == encode_utf8(b@),
            forall|j: int| 0 <= j < i ==> x@[j] == y@[j],
        decreases x@.len() - i,
    {
        if x[i] != y[i] {
            return false;
        }
        i = i + 1;
    }
    assert(x@ =~= y@);
    assert(decode_utf8(encode_utf8(a@)) == a@);
    assert(decode_utf8(encode_utf8(b@)) == b@);
    true
}

/// An optional text is this one.
pub fn opt_text_is(a: &Option<String>, b: &str) -> (r: bool)
    ensures
        r == (opt_view(*a) == Some(b@)),
{
    match a {
        Some(text) => text_eq(text.as_str(), b),
        None => false,
    }
}

/// Two optional texts are the same.
pub fn opt_text_eq(a: &Option<String>, b: &Option<String>) -> (r: bool)
    ensures
        r == (opt_view(*a) == opt_view(*b)),
{
    match (a, b) {
        (Some(x), Some(y)) => text_eq(x.as_str(), y.as_str()),
        (None, None) => true,
        _ => false,
    }
}

/// A copy of an optional text.
pub fn clone_opt_text(a: &Option<String>) -> (r: Option<String>)
    ensures
        r == *a,
{
    match a {
        Some(text) => Some(text.clone()),
        None => None,
    }
}

/// A copy of a list of texts.
pub fn clone_texts(list: &Vec<String>) -> (r: Vec<String>)
    ensures
        r@ == list@,
{
    let mut out: Vec<String> = Vec::new();
    let mut i: usize = 0;
    while i < list.len()
        invariant
            i <= list@.len(),
            out@ == list@.take(i as int),
        decreases list@.len() - i,
    {
        out.push(list[i].clone());
        i = i + 1;
        assert(list@.take(i as int) =~= list@.take(i - 1).push(list@[i - 1]));
    }
    assert(list@.take(i as int) =~= list@);
    out
}

/// The position of the first text equal to `s`.
pub fn position_of_text(list: &Vec<String>, s: &str) -> (r: Option<usize>)
    ensures
        match r {
            Some(i) => i < list@.len() && list@[i as int]@ == s@ && forall|j: int|
                0 <= j < i ==> (#[trigger] list@[j])@ != s@,
            None => forall|j: int| 0 <= j < list@.len() ==> (#[trigger] list@[j])@ != s@,
        },
        r is Some <==> views(list@).contains(s@),
{
    let mut i: usize = 0;
    while i < list.len()
        invariant
            i <= list@.len(),
            forall|j: int| 0 <= j < i ==> (#[trigger] list@[j])@ != s@,
        decreases list@.len() - i,
    {
        if text_eq(list[i].as_str(), s) {
            assert(views(list@)[i as int] == s@);
            return Some(i);
        }
        i = i + 1;
    }
    None
}

/// The list holds the text `s`.
pub fn contains_text(list: &Vec<String>, s: &str) -> (r: bool)
    ensures
        r == views(list@).contains(s@),
{
    position_of_text(list, s).is_some()
}

/// The text is empty.
pub fn text_is_empty(s: &str) -> (r: bool)
    ensures
        r == (s@.len() == 0),
{
    s.is_empty()
}

/// `s` without the run of `c` at its end.
pub fn trim_end_matches<'a>(s: &'a str, c: char) -> (r: &'a str)
    ensures
        r@ == trim_end_char(s@, c),
{
    let chars = chars_of(s);
    let mut end: usize = chars.len();
    assert(s@.take(s@.len() as int) =~= s@);
    while end > 0 && chars[end - 1] == c
        invariant
            end <= chars@.len(),
            chars@ == s@,
            trim_end_char(s@, c) == trim_end_char(s@.take(end as int), c),
        decreases end,
    {
        assert(s@.take(end as int).drop_last() =~= s@.take(end - 1));
        end = end - 1;
    }
    assert(s@.subrange(0, end as int) =~= s@.take(end as int));
    s.substring_char(0, end)
}

/// The pieces of `s` between occurrences of `c`.
pub fn split(s: &str, c: char) -> (r: Vec<String>)
    ensures
        views(r@) == split_on(s@, c),
{
    let chars = chars_of(s);
    let mut out: Vec<String> = Vec::new();
    let mut piece: String = String::new();
    let mut i: usize = 0;
    assert(s@.take(0) =~= Seq::<char>::empty());
    assert(views(out@).push(piece@) =~= split_on(s@.take(0), c));
    while i < chars.len()
        invariant
            i <= chars@.len(),
            chars@ == s@,
            views(out@).push(piece@) == split_on(s@.take(i as int), c),
        decreases chars@.len() - i,
    {
        let ghost before = views(out@).push(piece@);
        assert(s@.take(i + 1).drop_last() =~= s@.take(i as int));
        assert(before.drop_last() =~= views(out@));
        if chars[i] == c {
            proof {
                views_push(out@, piece);
            }
            out.push(piece);
            piece = String::new();
            assert(views(out@).push(piece@) =~= before.push(Seq::<char>::empty()));
        } else {
            piece.push(chars[i]);
        }
        i = i + 1;
    }
    assert(s@.take(i as int) =~= s@);
    proof {
        views_push(out@, piece);
    }
    out.push(piece);
    out
}

/// The pieces of `s` between occurrences of `c` that are not empty.
pub fn components(s: &str, c: char) -> (r: Vec<String>)
    ensures
        views(r@) == components_on(s@, c),
{
    let pieces = split(s, c);
    let mut out: Vec<String> = Vec::new();
    let mut i: usize = 0;
    let ghost nonempty = |piece: Seq<char>| piece.len() > 0;
    assert(views(out@) =~= views(pieces@).take(0).filter(nonempty)) by {
        reveal(Seq::filter);
    }
    while i < pieces.len()
        invariant
            i <= pieces@.len(),
            nonempty == (|piece: Seq<char>| piece.len() > 0),
            views(out@) == views(pieces@).take(i as int).filter(nonempty),
        decreases pieces@.len() - i,
    {
        let ghost seen = views(pieces@).take(i as int);
        proof {
            filter_push(seen, views(pieces@)[i as int], nonempty);
            assert(views(pieces@).take(i + 1) =~= seen.push(views(pieces@)[i as int]));
        }
        if !pieces[i].as_str().is_empty() {
            proof {
                views_push(out@, pieces@[i as int]);
            }
            out.push(pieces[i].clone());
        }
        i = i + 1;
    }
    assert(views(pieces@).take(i as int) =~= views(pieces@));
    out
}

/// Filtering one element more keeps it exactly where it passes.
pub proof fn filter_push<A>(s: Seq<A>, a: A, keep: spec_fn(A) -> bool)
    ensures
        s.push(a).filter(keep) == if keep(a) {
            s.filter(keep).push(a)
        } else {
            s.filter(keep)
        },
{
    reveal(Seq::filter);
    assert(s.push(a).drop_last() =~= s);
}

/// `a` comes before `b` in the order of texts.
pub fn text_before(a: &str, b: &str) -> (r: bool)
    ensures
        r == text_less(a@, b@),
{
    let x = chars_of(a);
    let y = chars_of(b);
    let mut i: usize = 0;
    assert(a@.skip(0) =~= a@);
    assert(b@.skip(0) =~= b@);
    while i < x.len() && i < y.len() && x[i] == y[i]
        invariant
            i <= x@.len(),
            i <= y@.len(),
            x@ == a@,
            y@ == b@,
            text_less(a@, b@) == text_less(a@.skip(i as int), b@.skip(i as int)),
        decreases x@.len() - i,
    {
        assert(a@.skip(i as int).drop_first() =~= a@.skip(i + 1));
        assert(b@.skip(i as int).drop_first() =~= b@.skip(i + 1));
        i = i + 1;
    }
    if i >= y.len() {
        false
    } else if i >= x.len() {
        true
    } else {
        x[i] < y[i]
    }
}

/// The text `prefix` stands at the start of `s`; the rest of `s` is handed back.
pub fn strip_prefix<'a>(s: &'a str, prefix: &str) -> (r: Option<&'a str>)
    ensures
        match r {
            Some(rest) => starts_with(s@, prefix@) && rest@ == s@.skip(prefix@.len() as int),
            None => !starts_with(s@, prefix@),
        },
{
    let x = chars_of(s);
    let y = chars_of(prefix);
    if y.len() > x.len() {
        return None;
    }
    let mut i: usize = 0;
    while i < y.len()
        invariant
            i <= y@.len() <= x@.len(),
            x@ == s@,
            y@ == prefix@,
            forall|j: int| 0 <= j < i ==> x@[j] == y@[j],
        decreases y@.len() - i,
    {
        if x[i] != y[i] {
            assert(s@.take(prefix@.len() as int)[i as int] != prefix@[i as int]);
            return None;
        }
        i = i + 1;
    }
    assert(s@.take(prefix@.len() as int) =~= prefix@);
    assert(s@.subrange(y@.len() as int, x@.len() as int) =~= s@.skip(prefix@.len() as int));
    Some(s.substring_char(y.len(), x.len()))
}

/// A character is white space.
pub fn char_is_white_space(c: char) -> (r: bool)
    ensures
        r == is_white_space(c),
{
    let u: u32 = c as u32;
    (0x09 <= u && u <= 0x0d) || u == 0x20 || u == 0x85 || u == 0xa0 || u == 0x1680 || (0x2000 <= u
        && u <= 0x200a) || u == 0x2028 || u == 0x2029 || u == 0x202f || u == 0x205f || u == 0x3000
}

/// `s` without white space at both ends.
pub fn trimmed<'a>(s: &'a str) -> (r: &'a str)
    ensures
        r@ == trim(s@),
{
    let chars = chars_of(s);
    let mut start: usize = 0;
    assert(s@.skip(0) =~= s@);
    while start < chars.len() && char_is_white_space(chars[start])
        invariant
            start <= chars@.len(),
            chars@ == s@,
            trim_start(s@) == trim_start(s@.skip(start as int)),
        decreases chars@.len() - start,
    {
        assert(s@.skip(start as int).drop_first() =~= s@.skip(start + 1));
        start = start + 1;
    }
    let mut end: usize = chars.len();
    assert(s@.subrange(start as int, s@.len() as int) =~= s@.skip(start as int));
    assert(trim_start(s@) == s@.skip(start as int));
    while end > start && char_is_white_space(chars[end - 1])
        invariant
            start <= end <= chars@.len(),
            chars@ == s@,
            trim(s@) == trim_end(s@.subrange(start as int, end as int)),
        decreases end,
    {
        assert(s@.subrange(start as int, end as int).drop_last() =~= s@.subrange(
            start as int,
            end - 1,
        ));
        end = end - 1;
    }
    s.substring_char(start, end)
}

/// The list with `separator` between each two of its texts.
pub fn join_texts(list: &Vec<String>, separator: &str) -> (r: String)
    ensures
        r@ == join_with(views(list@), separator@),
{
    let mut out: String = String::new();
    let mut i: usize = 0;
    while i < list.len()
        invariant
            i <= list@.len(),
            out@ == join_with(views(list@).take(i as int), separator@),
        decreases list@.len() - i,
    {
        let ghost seen = views(list@).take(i + 1);
        assert(seen.drop_last() =~= views(list@).take(i as int));
        assert(seen.last() == list@[i as int]@);
        if i > 0 {
            out.append(separator);
        }
        out.append(list[i].as_str());
        i = i + 1;
        assert(out@ =~= join_with(seen, separator@));
    }
    assert(views(list@).take(i as int) =~= views(list@));
    out
}

/// The text holds the character `c`.
pub fn text_contains_char(s: &str, c: char) -> (r: bool)
    ensures
        r == s@.contains(c),
{
    let chars = chars_of(s);
    let mut i: usize = 0;
    while i < chars.len()
        invariant
            i <= chars@.len(),
            chars@ == s@,
            forall|j: int| 0 <= j < i ==> s@[j] != c,
        decreases chars@.len() - i,
    {
        if chars[i] == c {
            assert(s@[i as int] == c);
            return true;
        }
        i = i + 1;
    }
    false
}

/// The text with each character in lower case, as `str::to_lowercase` gives it.
pub uninterp spec fn lower_case(s: Seq<char>) -> Seq<char>;

/// `str::to_lowercase`: the text in lower case by Unicode's tables, which are std's to hold.
#[verifier::external_body]
pub(crate) fn to_lower_case(s: &str) -> (r: String)
    ensures
        r@ == lower_case(s@),
{
    s.to_lowercase()
}

/// `part` stands in `s` at `i`.
pub open spec fn stands_at(s: Seq<char>, part: Seq<char>, i: int) -> bool {
    0 <= i <= s.len() - part.len() && s.subrange(i, i + part.len()) == part
}

/// `part` stands somewhere in `s`.
pub open spec fn has_part(s: Seq<char>, part: Seq<char>) -> bool {
    exists|i: int| stands_at(s, part, i)
}

/// `part` stands somewhere in `s`.
pub fn text_contains(s: &str, part: &str) -> (r: bool)
    ensures
        r == has_part(s@, part@),
{
    let x = chars_of(s);
    let y = chars_of(part);
    if y.len() > x.len() {
        return false;
    }
    let last: usize = x.len() - y.len();
    let mut i: usize = 0;
    loop
        invariant
            i <= last,
            last == x@.len() - y@.len(),
            x@.len() == x.len(),
            x@ == s@,
            y@ == part@,
            forall|k: int| 0 <= k < i ==> !stands_at(s@, part@, k),
        decreases last - i,
    {
        let mut j: usize = 0;
        while j < y.len() && x[i + j] == y[j]
            invariant
                i <= last,
                last == x@.len() - y@.len(),
                x@.len() == x.len(),
                j <= y@.len(),
                forall|k: int| 0 <= k < j ==> x@[i + k] == y@[k],
            decreases y@.len() - j,
        {
            j = j + 1;
        }
        if j == y.len() {
            assert(s@.subrange(i as int, i + part@.len()) =~= part@);
            assert(stands_at(s@, part@, i as int));
            return true;
        }
        assert(!stands_at(s@, part@, i as int)) by {
            if stands_at(s@, part@, i as int) {
                assert(s@.subrange(i as int, i + part@.len())[j as int] == part@[j as int]);
            }
        }
        if i == last {
            return false;
        }
        i = i + 1;
    }
}

/// A separator and a piece more at the end of a text are one piece more.
pub proof fn one_piece_more(s: Seq<char>, c: char, piece: Seq<char>)
    requires
        !piece.contains(c),
    ensures
        split_on(s.push(c) + piece, c) == split_on(s, c).push(piece),
    decreases piece.len(),
{
    let whole = s.push(c) + piece;
    if piece.len() == 0 {
        assert(whole =~= s.push(c));
        assert(whole.drop_last() =~= s);
        assert(piece =~= Seq::<char>::empty());
    } else {
        let shorter = piece.drop_last();
        assert forall|i: int| 0 <= i < shorter.len() implies shorter[i] != c by {
            assert(piece.contains(piece[i]));
        }
        assert(!shorter.contains(c));
        one_piece_more(s, c, shorter);
        assert(whole.drop_last() =~= s.push(c) + shorter);
        assert(whole.last() == piece.last());
        assert(piece.contains(piece.last()));
        let before = split_on(s, c).push(shorter);
        assert(before.drop_last() =~= split_on(s, c));
        assert(before.last().push(piece.last()) =~= piece);
    }
}

/// A text without the separator is one piece.
pub proof fn text_without_separator_is_one_piece(s: Seq<char>, c: char)
    requires
        !s.contains(c),
    ensures
        split_on(s, c) == seq![s],
    decreases s.len(),
{
    if s.len() == 0 {
        assert(s =~= Seq::<char>::empty());
    } else {
        let shorter = s.drop_last();
        assert forall|i: int| 0 <= i < shorter.len() implies shorter[i] != c by {
            assert(s.contains(s[i]));
        }
        assert(!shorter.contains(c));
        text_without_separator_is_one_piece(shorter, c);
        assert(s.contains(s.last()));
        assert(seq![shorter].drop_last() =~= Seq::<Seq<char>>::empty());
        assert(shorter.push(s.last()) =~= s);
        assert(Seq::<Seq<char>>::empty().push(s) =~= seq![s]);
    }
}

/// The pieces of a text, put together with the separator between them, are the text again.
pub proof fn pieces_join_back(s: Seq<char>, c: char)
    ensures
        join_with(split_on(s, c), seq![c]) == s,
    decreases s.len(),
{
    let pieces = split_on(s, c);
    if s.len() == 0 {
        assert(pieces[0] =~= s);
    } else {
        let head = s.drop_last();
        let before = split_on(head, c);
        pieces_join_back(head, c);
        split_on_properties(head, c);
        if s.last() == c {
            assert(pieces.drop_last() =~= before);
            assert(join_with(pieces, seq![c]) =~= head + seq![c] + Seq::<char>::empty());
            assert(head + seq![c] + Seq::<char>::empty() =~= s);
        } else if before.len() == 1 {
            assert(pieces[0] =~= before[0].push(s.last()));
            assert(before[0].push(s.last()) =~= s);
        } else {
            assert(pieces.drop_last() =~= before.drop_last());
            assert(join_with(pieces, seq![c]) =~= head.push(s.last()));
            assert(head.push(s.last()) =~= s);
        }
    }
}

/// Trimming cuts white space off the two ends, all of it and nothing else: what is left stands in
/// the text, and neither begins nor ends with white space.
pub proof fn trim_cuts_only_the_ends(s: Seq<char>) -> (r: (int, int))
    ensures
        0 <= r.0 <= r.1 <= s.len(),
        trim(s) == s.subrange(r.0, r.1),
        forall|i: int| 0 <= i < r.0 ==> is_white_space(#[trigger] s[i]),
        forall|i: int| r.1 <= i < s.len() ==> is_white_space(#[trigger] s[i]),
        trim(s).len() > 0 ==> !is_white_space(trim(s)[0]) && !is_white_space(trim(s).last()),
{
    let a = trim_start_cuts(s);
    let rest = s.skip(a);
    let n = trim_end_cuts(rest);
    assert(rest.take(n) =~= s.subrange(a, a + n));
    assert forall|i: int| a + n <= i < s.len() implies is_white_space(#[trigger] s[i]) by {
        assert(rest[i - a] == s[i]);
    }
    (a, a + n)
}

/// Where the text without white space at its start begins.
proof fn trim_start_cuts(s: Seq<char>) -> (a: int)
    ensures
        0 <= a <= s.len(),
        trim_start(s) == s.skip(a),
        forall|i: int| 0 <= i < a ==> is_white_space(#[trigger] s[i]),
        a < s.len() ==> !is_white_space(s[a]),
    decreases s.len(),
{
    if s.len() > 0 && is_white_space(s[0]) {
        let rest = s.drop_first();
        let a = trim_start_cuts(rest);
        assert(rest.skip(a) =~= s.skip(a + 1));
        assert forall|i: int| 0 <= i < a + 1 implies is_white_space(#[trigger] s[i]) by {
            if i > 0 {
                assert(rest[i - 1] == s[i]);
            }
        }
        a + 1
    } else {
        assert(s.skip(0) =~= s);
        0
    }
}

/// Where the text without white space at its end stops.
proof fn trim_end_cuts(s: Seq<char>) -> (n: int)
    ensures
        0 <= n <= s.len(),
        trim_end(s) == s.take(n),
        forall|i: int| n <= i < s.len() ==> is_white_space(#[trigger] s[i]),
        n > 0 ==> !is_white_space(s[n - 1]),
    decreases s.len(),
{
    if s.len() > 0 && is_white_space(s.last()) {
        let rest = s.drop_last();
        let n = trim_end_cuts(rest);
        assert(rest.take(n) =~= s.take(n));
        assert forall|i: int| n <= i < s.len() implies is_white_space(#[trigger] s[i]) by {
            if i < rest.len() {
                assert(rest[i] == s[i]);
            }
        }
        n
    } else {
        assert(s.take(s.len() as int) =~= s);
        s.len() as int
    }
}

} // verus!
