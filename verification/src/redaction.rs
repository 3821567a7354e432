//! What the log must not hold: where the keys of a connection lie.
use crate::local_path::{
    join_paths, joined_paths, local_lossy, path_below, path_lossy_text, strip_path_prefix,
};
use crate::profile::{AuthConfig, ConnectionProfile};
use crate::text::views;
use std::path::PathBuf;
use vstd::prelude::*;

verus! {

/// `directories::BaseDirs::new` and `BaseDirs::home_dir`: the user's home directory. Nothing is
/// said of it, as it is the system's to tell.
#[verifier::external_body]
fn home_directory() -> (r: Option<PathBuf>) {
    directories::BaseDirs::new().map(|dirs| dirs.home_dir().to_path_buf())
}

/// The texts that a profile's key file is known by: its path, and its path in the home directory
/// where it is written with `~`.
pub open spec fn key_texts(profile: ConnectionProfile, home: Option<PathBuf>) -> Seq<Seq<char>> {
    match profile.auth {
        AuthConfig::PrivateKey { path } => match (path_below(path, "~"@), home) {
            (Some(relative), Some(home)) => seq![
                local_lossy(path),
                local_lossy(joined_paths(home, relative)),
            ],
            _ => seq![local_lossy(path)],
        },
        _ => seq![],
    }
}

/// The texts that the key files of the profiles are known by.
pub open spec fn texts_of_keys(profiles: Seq<ConnectionProfile>, home: Option<PathBuf>) -> Seq<
    Seq<char>,
>
    decreases profiles.len(),
{
    if profiles.len() == 0 {
        Seq::empty()
    } else {
        texts_of_keys(profiles.drop_last(), home) + key_texts(profiles.last(), home)
    }
}

/// The texts that the key files of the profiles are known by, with this home directory.
pub fn texts_to_redact(profiles: &Vec<ConnectionProfile>, home: &Option<PathBuf>) -> (r: Vec<
    String,
>)
    ensures
        views(r@) == texts_of_keys(profiles@, *home),
{
    let mut texts: Vec<String> = Vec::new();
    let mut i: usize = 0;
    assert(profiles@.take(0) =~= Seq::<ConnectionProfile>::empty());
    assert(views(texts@) =~= Seq::<Seq<char>>::empty());
    while i < profiles.len()
        invariant
            i <= profiles@.len(),
            views(texts@) == texts_of_keys(profiles@.take(i as int), *home),
        decreases profiles@.len() - i,
    {
        let ghost before = views(texts@);
        proof {
            assert(profiles@.take(i + 1).drop_last() =~= profiles@.take(i as int));
            assert(profiles@.take(i + 1).last() == profiles@[i as int]);
        }
        match &profiles[i].auth {
            AuthConfig::PrivateKey { path } => {
                texts.push(path_lossy_text(path));
                match (strip_path_prefix(path, "~"), home) {
                    (Some(relative), Some(home)) => {
                        let full = join_paths(home, &relative);
                        texts.push(path_lossy_text(&full));
                    },
                    _ => (),
                }
            },
            _ => (),
        }
        assert(views(texts@) =~= before + key_texts(profiles@[i as int], *home));
        i = i + 1;
    }
    assert(profiles@.take(i as int) =~= profiles@);
    texts
}

/// The texts that the log must not hold while these servers are connected to, with the home
/// directory that the user has.
pub fn register_key_paths(profiles: &Vec<ConnectionProfile>) -> (r: Vec<String>)
    ensures
        exists|home: Option<PathBuf>| views(r@) == #[trigger] texts_of_keys(profiles@, home),
{
    let home = home_directory();
    let texts = texts_to_redact(profiles, &home);
    assert(views(texts@) == texts_of_keys(profiles@, home));
    texts
}

/// Wherever the home directory is, the path of every key file is among the texts.
pub proof fn every_key_path_is_redacted(
    profiles: Seq<ConnectionProfile>,
    home: Option<PathBuf>,
    i: int,
    path: PathBuf,
)
    requires
        0 <= i < profiles.len(),
        profiles[i].auth == (AuthConfig::PrivateKey { path }),
    ensures
        texts_of_keys(profiles, home).contains(local_lossy(path)),
    decreases profiles.len(),
{
    let rest = profiles.drop_last();
    let before = texts_of_keys(rest, home);
    let last = key_texts(profiles.last(), home);
    if i < rest.len() {
        assert(rest[i] == profiles[i]);
        every_key_path_is_redacted(rest, home, i, path);
        let k = before.index_of(local_lossy(path));
        assert((before + last)[k] == local_lossy(path));
    } else {
        assert(last[0] == local_lossy(path));
        assert((before + last)[before.len() as int] == local_lossy(path));
    }
}

/// A key file that is written with `~` is also known by its path in the home directory.
pub proof fn path_in_the_home_directory_is_redacted(
    profiles: Seq<ConnectionProfile>,
    home: PathBuf,
    i: int,
    path: PathBuf,
    relative: PathBuf,
)
    requires
        0 <= i < profiles.len(),
        profiles[i].auth == (AuthConfig::PrivateKey { path }),
        path_below(path, "~"@) == Some(relative),
    ensures
        texts_of_keys(profiles, Some(home)).contains(local_lossy(joined_paths(home, relative))),
    decreases profiles.len(),
{
    let rest = profiles.drop_last();
    let before = texts_of_keys(rest, Some(home));
    let last = key_texts(profiles.last(), Some(home));
    let text = local_lossy(joined_paths(home, relative));
    if i < rest.len() {
        assert(rest[i] == profiles[i]);
        path_in_the_home_directory_is_redacted(rest, home, i, path, relative);
        let k = before.index_of(text);
        assert((before + last)[k] == text);
    } else {
        assert(last[1] == text);
        assert((before + last)[(before.len() + 1) as int] == text);
    }
}

/// One profile more adds the texts of its key file, and none where it logs in without one.
pub proof fn only_key_files_are_redacted(
    profiles: Seq<ConnectionProfile>,
    profile: ConnectionProfile,
    home: Option<PathBuf>,
)
    ensures
        texts_of_keys(Seq::empty(), home).len() == 0,
        !(profile.auth is PrivateKey) ==> texts_of_keys(profiles.push(profile), home)
            == texts_of_keys(profiles, home),
        profile.auth is PrivateKey && (home is None || path_below(
            profile.auth->PrivateKey_path,
            "~"@,
        ) is None) ==> texts_of_keys(profiles.push(profile), home) == texts_of_keys(
            profiles,
            home,
        ).push(local_lossy(profile.auth->PrivateKey_path)),
{
    let before = texts_of_keys(profiles, home);
    assert(profiles.push(profile).drop_last() =~= profiles);
    if !(profile.auth is PrivateKey) {
        assert(before + key_texts(profile, home) =~= before);
    } else if home is None || path_below(profile.auth->PrivateKey_path, "~"@) is None {
        assert(before + key_texts(profile, home) =~= before.push(
            local_lossy(profile.auth->PrivateKey_path),
        ));
    }
}

} // verus!
