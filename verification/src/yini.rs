//! The configuration values the run consumes, as plain data. The
//! configuration file's own grammar is parsed outside the library; the
//! surrounding binary fills these structures and hands them in.

use crate::github::GitHubShortName;
use vstd::prelude::*;

verus! {

/// Per-platform binary settings: the depot the platform's payload is
/// published under.
#[derive(Clone, Debug)]
pub struct BinariesPlatform {
    pub depot: u64,
}

/// The binaries section: which release of which repository the platform
/// archives are fetched from, and the depot of each platform.
#[derive(Clone, Debug)]
pub struct BinariesYini {
    pub repo: GitHubShortName,
    /// Release package name.
    pub name: String,
    pub version: String,
    pub macos: BinariesPlatform,
    pub windows: BinariesPlatform,
    pub linux: BinariesPlatform,
}

/// The content section: the content repository, its depot, and the ordered
/// copy rules applied to the fetched tree.
#[derive(Clone, Debug)]
pub struct ContentYini {
    pub depot: u64,
    pub repo: GitHubShortName,
    /// `(source pattern, destination subdirectory)` pairs.
    pub copy: Vec<(String, String)>,
}

/// The whole configuration of a run.
#[derive(Clone, Debug)]
pub struct BoilerYini {
    pub app_id: u64,
    pub binaries: BinariesYini,
    pub content: ContentYini,
}

impl Default for BoilerYini {
    /// The empty configuration every parse starts from: zero identifiers and
    /// empty names throughout.
    fn default() -> (r: BoilerYini)
        ensures
            r.app_id == 0,
            r.binaries.repo.org@ == Seq::<char>::empty(),
            r.binaries.repo.name@ == Seq::<char>::empty(),
            r.binaries.name@ == Seq::<char>::empty(),
            r.binaries.version@ == Seq::<char>::empty(),
            r.binaries.macos.depot == 0,
            r.binaries.windows.depot == 0,
            r.binaries.linux.depot == 0,
            r.content.depot == 0,
            r.content.repo.org@ == Seq::<char>::empty(),
            r.content.repo.name@ == Seq::<char>::empty(),
            r.content.copy@.len() == 0,
    {
        BoilerYini {
            app_id: 0,
            binaries: BinariesYini {
                repo: GitHubShortName { org: String::new(), name: String::new() },
                name: String::new(),
                version: String::new(),
                macos: BinariesPlatform { depot: 0 },
                windows: BinariesPlatform { depot: 0 },
                linux: BinariesPlatform { depot: 0 },
            },
            content: ContentYini {
                depot: 0,
                repo: GitHubShortName { org: String::new(), name: String::new() },
                copy: Vec::new(),
            },
        }
    }
}

} // verus!
