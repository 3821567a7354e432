//! Paths on this machine, which std holds and takes apart.
use crate::text::{split, split_on, views};
use std::path::PathBuf;
use vstd::prelude::*;

verus! {

/// `std::path::PathBuf`: a path of this machine, carried through unread.
#[verifier::external_type_specification]
#[verifier::external_body]
pub struct ExPathBuf(PathBuf);

/// `PathBuf::clone`: the same path.
pub assume_specification[ <PathBuf as Clone>::clone ](path: &PathBuf) -> (r: PathBuf)
    ensures
        r == *path,
;

/// The last component of a local path, as `Path::file_name` tells it.
pub uninterp spec fn last_component(path: PathBuf) -> Option<PathBuf>;

/// A local path as `Path::display` shows it.
pub uninterp spec fn local_display(path: PathBuf) -> Seq<char>;

/// A local path with another one behind it, as `Path::join` makes it.
pub uninterp spec fn joined_paths(base: PathBuf, relative: PathBuf) -> PathBuf;

/// What follows a prefix in a local path that begins with it, as `Path::strip_prefix` tells it.
pub uninterp spec fn path_below(path: PathBuf, prefix: Seq<char>) -> Option<PathBuf>;

/// The local path that a text names, as `PathBuf::from` reads it.
pub uninterp spec fn local_path_of(text: Seq<char>) -> PathBuf;

/// A local path as text, with what is not Unicode replaced, as `Path::to_string_lossy` gives it.
pub uninterp spec fn local_lossy(path: PathBuf) -> Seq<char>;

/// Two local paths are equal as `PathBuf` compares them, component by component.
pub uninterp spec fn local_paths_equal(a: PathBuf, b: PathBuf) -> bool;

/// `PathBuf::from`: the path that a text names.
#[verifier::external_body]
pub(crate) fn path_from_text(text: &str) -> (r: PathBuf)
    ensures
        r == local_path_of(text@),
{
    PathBuf::from(text)
}

/// `Path::to_string_lossy`: the path as text.
#[verifier::external_body]
pub(crate) fn path_lossy_text(path: &PathBuf) -> (r: String)
    ensures
        r@ == local_lossy(*path),
{
    path.to_string_lossy().into_owned()
}

/// `PathBuf::eq`: the two paths have the same components; a path is equal to itself.
#[verifier::external_body]
pub(crate) fn paths_equal(a: &PathBuf, b: &PathBuf) -> (r: bool)
    ensures
        r == local_paths_equal(*a, *b),
        *a == *b ==> r,
{
    a == b
}

/// `Path::file_name`: the last component of the path, as a path of its own; which paths have one is
/// std's to say.
#[verifier::external_body]
pub(crate) fn path_file_name(path: &PathBuf) -> (r: Option<PathBuf>)
    ensures
        r == last_component(*path),
{
    path.file_name().map(PathBuf::from)
}

/// The last component of a local path as text, with what is not Unicode replaced.
pub open spec fn local_name(path: PathBuf) -> Option<Seq<char>> {
    match last_component(path) {
        Some(name) => Some(local_lossy(name)),
        None => None,
    }
}

/// The last component of a local path as text.
pub(crate) fn local_file_name(path: &PathBuf) -> (r: Option<String>)
    ensures
        crate::text::opt_view(r) == local_name(*path),
{
    match path_file_name(path) {
        Some(name) => Some(path_lossy_text(&name)),
        None => None,
    }
}

/// `Path::display`: the path as text for people.
#[verifier::external_body]
pub(crate) fn local_path_text(path: &PathBuf) -> (r: String)
    ensures
        r@ == local_display(*path),
{
    path.display().to_string()
}

/// `Path::join`: the path with another one behind it.
#[verifier::external_body]
pub(crate) fn join_paths(base: &PathBuf, relative: &PathBuf) -> (r: PathBuf)
    ensures
        r == joined_paths(*base, *relative),
{
    base.join(relative)
}

/// `Path::strip_prefix`: the rest of a path that begins with these components.
#[verifier::external_body]
pub(crate) fn strip_path_prefix(path: &PathBuf, prefix: &str) -> (r: Option<PathBuf>)
    ensures
        r == path_below(*path, prefix@),
{
    path.strip_prefix(prefix).ok().map(|rest| rest.to_path_buf())
}

/// A local path with one more component.
pub open spec fn local_join(path: PathBuf, component: Seq<char>) -> PathBuf {
    joined_paths(path, local_path_of(component))
}

/// A local path with one more component.
pub(crate) fn join_local(path: &PathBuf, component: &str) -> (r: PathBuf)
    ensures
        r == local_join(*path, component@),
{
    join_paths(path, &path_from_text(component))
}

/// A piece of a remote path that may become a local component: not empty and not a step to the
/// same or the upper directory.
pub open spec fn is_plain_component(piece: Seq<char>) -> bool {
    piece.len() > 0 && piece != "."@ && piece != ".."@
}

/// `root` with each of `pieces` joined to it in turn.
pub open spec fn join_all(root: PathBuf, pieces: Seq<Seq<char>>) -> PathBuf
    decreases pieces.len(),
{
    if pieces.len() == 0 {
        root
    } else {
        local_join(join_all(root, pieces.drop_last()), pieces.last())
    }
}

/// The local path below `root` for a remote path relative to its own root: its plain components in
/// order, so that it cannot leave `root`.
pub open spec fn local_target(root: PathBuf, relative: Seq<char>) -> PathBuf {
    join_all(root, split_on(relative, '/').filter(|piece: Seq<char>| is_plain_component(piece)))
}

/// The local path below `root` for a remote path relative to its own root.
pub fn join_remote_relative(root: &PathBuf, relative: &str) -> (r: PathBuf)
    ensures
        r == local_target(*root, relative@),
{
    let pieces = split(relative, '/');
    let ghost all = views(pieces@);
    let ghost plain = |piece: Seq<char>| is_plain_component(piece);
    let mut path: PathBuf = root.clone();
    let mut i: usize = 0;
    assert(path == join_all(*root, all.take(0).filter(plain))) by {
        reveal(Seq::filter);
    }
    while i < pieces.len()
        invariant
            i <= pieces@.len(),
            all == views(pieces@),
            plain == (|piece: Seq<char>| is_plain_component(piece)),
            path == join_all(*root, all.take(i as int).filter(plain)),
        decreases pieces@.len() - i,
    {
        let piece = pieces[i].as_str();
        proof {
            crate::text::filter_push(all.take(i as int), all[i as int], plain);
            assert(all.take(i + 1) =~= all.take(i as int).push(all[i as int]));
        }
        if !piece.is_empty() && !crate::text::text_eq(piece, ".") && !crate::text::text_eq(
            piece,
            "..",
        ) {
            path = join_local(&path, piece);
            proof {
                let before = all.take(i as int).filter(plain);
                assert(before.push(all[i as int]).drop_last() =~= before);
            }
        }
        i = i + 1;
    }
    assert(all.take(i as int) =~= all);
    path
}

/// A remote name below another path goes below that path's place on this machine, under the same
/// name; an empty piece and a step to the same or the upper directory change nothing.
pub proof fn remote_names_go_down(root: PathBuf, relative: Seq<char>, name: Seq<char>)
    requires
        !name.contains('/'),
    ensures
        ({
            let target = local_target(root, relative.push('/') + name);
            if name.len() == 0 || name == "."@ || name == ".."@ {
                target == local_target(root, relative)
            } else {
                target == joined_paths(local_target(root, relative), local_path_of(name))
            }
        }),
        ({
            let target = local_target(root, name);
            if name.len() == 0 || name == "."@ || name == ".."@ {
                target == root
            } else {
                target == joined_paths(root, local_path_of(name))
            }
        }),
{
    let plain = |piece: Seq<char>| is_plain_component(piece);
    crate::text::one_piece_more(relative, '/', name);
    crate::text::filter_push(split_on(relative, '/'), name, plain);
    let before = split_on(relative, '/').filter(plain);
    assert(before.push(name).drop_last() =~= before);
    crate::text::text_without_separator_is_one_piece(name, '/');
    let none = Seq::<Seq<char>>::empty();
    crate::text::filter_push(none, name, plain);
    assert(none.push(name) =~= seq![name]);
    assert(none.filter(plain) =~= none) by {
        reveal(Seq::filter);
    }
    assert(none.push(name).drop_last() =~= none);
    reveal_with_fuel(join_all, 3);
}

} // verus!
