//! Finding a program on the search path.
//!
//! A search path is a list of directories separated by colons. The
//! directories are tried in the order in which they stand, and the first one
//! that holds an entry of the wanted name wins. Nothing is remembered from
//! one search to the next.

use crate::system::System;
use crate::text::{split, split_on};
use vstd::prelude::*;

verus! {

/// The directories that a search path names, in order.
pub open spec fn search_dirs(path: Seq<char>) -> Seq<Seq<char>> {
    split_on(path, ':')
}

/// Where an entry called `name` stands if it stands in `dir`.
pub open spec fn candidate(dir: Seq<char>, name: Seq<char>) -> Seq<char> {
    dir + seq!['/'] + name
}

/// The first of `dirs` in which `files` has an entry called `name`.
pub open spec fn first_match(
    dirs: Seq<Seq<char>>,
    name: Seq<char>,
    files: Seq<Seq<char>>,
) -> Option<Seq<char>>
    decreases dirs.len(),
{
    if dirs.len() == 0 {
        None
    } else if files.contains(candidate(dirs[0], name)) {
        Some(dirs[0])
    } else {
        first_match(dirs.drop_first(), name, files)
    }
}

/// What a search of `path` can answer at all: nothing, or one of the
/// directories that `path` names.
pub open spec fn may_find(path: Seq<char>, found: Option<Seq<char>>) -> bool {
    found matches Some(dir) ==> search_dirs(path).contains(dir)
}

/// What a search for `name` along `path` answers on a model machine.
pub open spec fn found_on(system: System, path: Seq<char>, name: Seq<char>) -> Option<Seq<char>> {
    first_match(search_dirs(path), name, system.model_files())
}

/// The diagnostic for a search path that is needed and not set.
pub open spec fn no_path_line() -> Seq<char> {
    "PATH env not defined"@
}

/// What a search can answer where the search path may be missing: without
/// a path nothing is searched, and the answer is of no account.
pub open spec fn may_answer(path: Option<Seq<char>>, found: Option<Seq<char>>) -> bool {
    path matches Some(dirs) ==> may_find(dirs, found)
}

/// What a search for `name` answers on a model machine, where the
/// search path may be missing.
pub open spec fn answer_on(system: System, path: Option<Seq<char>>, name: Seq<char>) -> Option<
    Seq<char>,
> {
    match path {
        Some(dirs) => found_on(system, dirs, name),
        None => None,
    }
}

/// The first match is one of the directories searched, holds the entry, and
/// no directory before it does; without a match no directory holds it.
pub proof fn lemma_first_match(dirs: Seq<Seq<char>>, name: Seq<char>, files: Seq<Seq<char>>)
    ensures
        match first_match(dirs, name, files) {
            Some(dir) => exists|i: int|
                {
                    &&& 0 <= i < dirs.len()
                    &&& #[trigger] dirs[i] == dir
                    &&& files.contains(candidate(dir, name))
                    &&& forall|j: int|
                        0 <= j < i ==> !files.contains(candidate(#[trigger] dirs[j], name))
                },
            None => forall|j: int|
                0 <= j < dirs.len() ==> !files.contains(candidate(#[trigger] dirs[j], name)),
        },
    decreases dirs.len(),
{
    if dirs.len() == 0 {
    } else if files.contains(candidate(dirs[0], name)) {
        assert(dirs[0] == dirs[0]);
    } else {
        let rest = dirs.drop_first();
        lemma_first_match(rest, name, files);
        match first_match(rest, name, files) {
            Some(dir) => {
                let i = choose|i: int|
                    {
                        &&& 0 <= i < rest.len()
                        &&& #[trigger] rest[i] == dir
                        &&& files.contains(candidate(dir, name))
                        &&& forall|j: int|
                            0 <= j < i ==> !files.contains(candidate(#[trigger] rest[j], name))
                    };
                assert(dirs[i + 1] == dir);
                assert forall|j: int| 0 <= j < i + 1 implies !files.contains(
                    candidate(#[trigger] dirs[j], name),
                ) by {
                    if j > 0 {
                        assert(dirs[j] == rest[j - 1]);
                    }
                }
            },
            None => {
                assert forall|j: int| 0 <= j < dirs.len() implies !files.contains(
                    candidate(#[trigger] dirs[j], name),
                ) by {
                    if j > 0 {
                        assert(dirs[j] == rest[j - 1]);
                    }
                }
            },
        }
    }
}

/// A name that stands in none of the directories of `path` is not found.
pub proof fn lemma_absent_is_not_found(system: System, path: Seq<char>, name: Seq<char>)
    requires
        forall|i: int|
            0 <= i < search_dirs(path).len() ==> !system.model_files().contains(
                candidate(#[trigger] search_dirs(path)[i], name),
            ),
    ensures
        found_on(system, path, name) is None,
{
    lemma_first_match(search_dirs(path), name, system.model_files());
}

/// The path of an entry called `name` in `dir`.
pub fn candidate_path(dir: &str, name: &str) -> (file: String)
    ensures
        file@ == candidate(dir@, name@),
{
    proof {
        reveal_strlit("/");
        assert("/"@ =~= seq!['/']);
    }
    let mut file = String::from_str(dir);
    file.append("/");
    file.append(name);
    file
}

/// Searches the directories of `path`, in order, for an entry called
/// `binary`, and gives the first directory that holds one.
///
/// Every directory is asked about afresh at each call. Any entry counts:
/// it need not be a regular file, nor executable. On the host the answer
/// depends on the file system at the time of the call; what holds of every
/// answer is that it is one of the directories that `path` names.
pub fn search_in_path(binary: &str, path: &str, system: &System) -> (found: Option<String>)
    ensures
        may_find(path@, found.deep_view()),
        system.is_model() ==> found.deep_view() == found_on(*system, path@, binary@),
{
    let dirs = split(path, ':');
    let ghost files = system.model_files();
    let mut i: usize = 0;
    assert(dirs.deep_view().skip(0) =~= dirs.deep_view());
    while i < dirs.len()
        invariant
            i <= dirs.len(),
            dirs.deep_view() == search_dirs(path@),
            files == system.model_files(),
            first_match(search_dirs(path@), binary@, files) == first_match(
                dirs.deep_view().skip(i as int),
                binary@,
                files,
            ),
        decreases dirs.len() - i,
    {
        let ghost rest = dirs.deep_view().skip(i as int);
        assert(rest[0] == dirs[i as int]@);
        assert(rest.drop_first() =~= dirs.deep_view().skip(i + 1));
        let file = candidate_path(dirs[i].as_str(), binary);
        if system.has_file(file.as_str()) {
            let dir = dirs[i].clone();
            assert(dirs.deep_view()[i as int] == dir@);
            return Some(dir);
        }
        i += 1;
    }
    None
}

} // verus!
