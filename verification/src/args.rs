//! Run configuration: the targets a run assembles and the invocation values
//! the surrounding binary hands to the library.

use vstd::prelude::*;

verus! {

/// Which part of a release a run can assemble.
#[derive(Copy, Clone, Eq, PartialEq, Structural, Debug)]
pub enum Target {
    /// macOS binaries and depot
    Mac,
    /// Linux binaries and depot
    Linux,
    /// Windows binaries and depot
    Windows,
    /// Game content (`data/`) and depot
    Content,
}

/// The set of targets a run assembles, one gate per target.
#[derive(Copy, Clone, Eq, PartialEq, Structural, Debug)]
pub struct Selection {
    pub content: bool,
    pub mac: bool,
    pub linux: bool,
    pub windows: bool,
}

impl Selection {
    /// The selection that builds every target.
    pub open spec fn all() -> Selection {
        Selection { content: true, mac: true, linux: true, windows: true }
    }

    pub open spec fn spec_gate(self, t: Target) -> bool {
        match t {
            Target::Content => self.content,
            Target::Mac => self.mac,
            Target::Linux => self.linux,
            Target::Windows => self.windows,
        }
    }

    /// Whether the selection includes `t`.
    pub fn gate(&self, t: Target) -> (r: bool)
        ensures
            r == self.spec_gate(t),
    {
        match t {
            Target::Content => self.content,
            Target::Mac => self.mac,
            Target::Linux => self.linux,
            Target::Windows => self.windows,
        }
    }
}

/// The gates that a requested subset of targets resolves to: an empty request
/// selects everything, any other request selects exactly what it names.
pub open spec fn spec_resolve(req: Seq<Target>) -> Selection {
    if req.len() == 0 {
        Selection::all()
    } else {
        Selection {
            content: req.contains(Target::Content),
            mac: req.contains(Target::Mac),
            linux: req.contains(Target::Linux),
            windows: req.contains(Target::Windows),
        }
    }
}

/// An empty request resolves to the same selection as naming all four
/// targets outright.
pub proof fn lemma_empty_request_selects_all(full: Seq<Target>)
    requires
        full.contains(Target::Content),
        full.contains(Target::Mac),
        full.contains(Target::Linux),
        full.contains(Target::Windows),
    ensures
        spec_resolve(Seq::empty()) == spec_resolve(full),
{
}

/// Resolve the requested subset of targets into the gates that drive the run.
///
/// Order and duplicates in the request are irrelevant.
pub fn resolve_targets(requested: &Vec<Target>) -> (sel: Selection)
    ensures
        sel == spec_resolve(requested@),
{
    if requested.len() == 0 {
        Selection { content: true, mac: true, linux: true, windows: true }
    } else {
        let mut sel = Selection { content: false, mac: false, linux: false, windows: false };
        let mut i: usize = 0;
        while i < requested.len()
            invariant
                i <= requested@.len(),
                sel.content == requested@.subrange(0, i as int).contains(Target::Content),
                sel.mac == requested@.subrange(0, i as int).contains(Target::Mac),
                sel.linux == requested@.subrange(0, i as int).contains(Target::Linux),
                sel.windows == requested@.subrange(0, i as int).contains(Target::Windows),
            decreases requested@.len() - i,
        {
            match requested[i] {
                Target::Content => { sel.content = true },
                Target::Mac => { sel.mac = true },
                Target::Linux => { sel.linux = true },
                Target::Windows => { sel.windows = true },
            }
            proof {
                assert(requested@.subrange(0, i + 1 as int).drop_last() =~= requested@.subrange(
                    0,
                    i as int,
                ));
                assert(requested@.subrange(0, i + 1 as int).last() == requested@[i as int]);
            }
            i = i + 1;
        }
        proof {
            assert(requested@.subrange(0, requested@.len() as int) =~= requested@);
        }
        sel
    }
}

/// The invocation values the run is driven by, as plain data. The
/// surrounding binary fills it from whatever argument syntax it accepts.
#[derive(Clone, Debug)]
pub struct Args {
    /// Path of the declarative configuration file.
    pub ini: String,
    /// Bearer credential for private release assets, if any.
    pub github_token: Option<String>,
    /// Root of the fixed per-platform redistributable payloads.
    pub steam_redist: String,
    /// Destination root of the staged layout.
    pub build_dir: String,
    /// Scratch root for fetched repositories and archives.
    pub temp_dir: String,
    /// Release branch to mark the build live on, if any.
    pub live_branch: Option<String>,
    /// Preserve the destination root from a previous run and clean gated
    /// subtrees in place.
    pub keep_build_dir: bool,
    /// Requested targets; empty means all.
    pub targets: Vec<Target>,
}

} // verus!
