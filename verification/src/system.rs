//! The machine that the interpreter asks about files and the home directory.
//!
//! The interpreter asks two things of the machine it runs on: whether a file
//! exists, and where the user's home directory is. `System::Host` asks the
//! real machine, and nothing is known of its answers before they come.
//! `System::Model` answers from a list, so that everything built on these
//! two questions can be run, and reasoned about, against a machine whose
//! answers are known.

use crate::text::contains_text;
use vstd::prelude::*;

verus! {

/// Where the answers come from.
#[derive(Debug, PartialEq, Eq)]
pub enum System {
    /// The machine that the process runs on.
    Host,
    /// A machine given by the paths that exist on it and by its user's home
    /// directory, if the user has one.
    Model { files: Vec<String>, home: Option<String> },
}

impl System {
    /// Whether this is a model machine, whose answers are known.
    pub open spec fn is_model(&self) -> bool {
        self is Model
    }

    /// The paths that exist on a model machine.
    pub open spec fn model_files(&self) -> Seq<Seq<char>> {
        match self {
            System::Model { files, .. } => files.deep_view(),
            System::Host => Seq::empty(),
        }
    }

    /// The home directory on a model machine.
    pub open spec fn model_home(&self) -> Option<Seq<char>> {
        match self {
            System::Model { home, .. } => home.deep_view(),
            System::Host => None,
        }
    }

    /// Whether something exists at `path`. On the host the answer is the
    /// file system's at the time of the call, and nothing is known of it
    /// beforehand.
    pub(crate) fn has_file(&self, path: &str) -> (present: bool)
        ensures
            self.is_model() ==> present == self.model_files().contains(path@),
    {
        match self {
            System::Host => host_has_file(path),
            System::Model { files, .. } => contains_text(files.as_slice(), path),
        }
    }

    /// The user's home directory, if it can be told. On the host the answer
    /// is the environment's at the time of the call, and nothing is known of
    /// it beforehand.
    pub(crate) fn home_dir(&self) -> (home: Option<String>)
        ensures
            self.is_model() ==> home.deep_view() == self.model_home(),
    {
        match self {
            System::Host => host_home_dir(),
            System::Model { home, .. } => match home {
                Some(dir) => Some(dir.clone()),
                None => None,
            },
        }
    }
}

/// Asks the file system, through `std::path::Path::try_exists`, whether
/// `path` leads to something. A path that cannot be examined counts as
/// absent. Nothing is claimed of the answer: it is the file system's.
#[verifier::external_body]
fn host_has_file(path: &str) -> (present: bool) {
    match std::path::Path::new(path).try_exists() {
        Ok(present) => present,
        Err(_) => false,
    }
}

/// Asks `home::home_dir` for the user's home directory. A directory whose
/// name is not Unicode text counts as unknown. Nothing is claimed of the
/// answer: it depends on the environment and on the user database.
#[verifier::external_body]
fn host_home_dir() -> (home: Option<String>) {
    match home::home_dir() {
        Some(dir) => dir.into_os_string().into_string().ok(),
        None => None,
    }
}

} // verus!
