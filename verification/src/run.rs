//! The run-level decisions: the release-branch policy gate, the directory
//! lifecycle of the staged tree, the depots the umbrella descriptor
//! enumerates, and the provenance stamps written into populated subtrees.

use crate::args::spec_resolve;
use crate::args::resolve_targets;
use crate::args::Selection;
use crate::args::Target;
use crate::strutil::lower_eq;
use crate::strutil::lower_seq;
use crate::vdf::depot_entries;
use crate::vdf::Depot;
use vstd::prelude::*;

verus! {

/// How a gated staging subtree is prepared before population.
#[derive(Copy, Clone, Eq, PartialEq, Structural, Debug)]
pub enum DirOp {
    /// Remove the subtree's entries in place; the directory itself
    /// survives.
    Clean,
    /// Create the subtree fresh (the whole destination root was wiped
    /// first).
    Create,
}

/// The directory work of a run: what happens to the roots and to each
/// staging subtree. Subtrees of unselected targets carry no operation and
/// are never touched.
#[derive(Clone, Debug)]
pub struct LifecyclePlan {
    /// Remove the whole destination root before anything else.
    pub wipe_build_root: bool,
    /// Remove the scratch root before anything else; always done, since it
    /// never holds final artifacts.
    pub wipe_temp_root: bool,
    pub content: Option<DirOp>,
    pub mac: Option<DirOp>,
    pub linux: Option<DirOp>,
    pub windows: Option<DirOp>,
}

/// The operation a subtree receives: selected subtrees are cleaned in place
/// under keep-mode and freshly created otherwise; unselected subtrees get
/// none.
pub open spec fn spec_subtree_op(gated: bool, keep: bool) -> Option<DirOp> {
    if gated {
        if keep {
            Some(DirOp::Clean)
        } else {
            Some(DirOp::Create)
        }
    } else {
        None
    }
}

/// Plan the directory lifecycle of a run. Under keep-mode the destination
/// root survives and only the gated subtrees are cleaned in place; otherwise
/// the root is wiped once and the gated subtrees are created fresh. The
/// scratch root is wiped either way.
pub fn plan_lifecycle(sel: Selection, keep: bool) -> (p: LifecyclePlan)
    ensures
        p.wipe_build_root == !keep,
        p.wipe_temp_root,
        p.content == spec_subtree_op(sel.content, keep),
        p.mac == spec_subtree_op(sel.mac, keep),
        p.linux == spec_subtree_op(sel.linux, keep),
        p.windows == spec_subtree_op(sel.windows, keep),
{
    let op = if keep {
        DirOp::Clean
    } else {
        DirOp::Create
    };
    LifecyclePlan {
        wipe_build_root: !keep,
        wipe_temp_root: true,
        content: if sel.content {
            Some(op)
        } else {
            None
        },
        mac: if sel.mac {
            Some(op)
        } else {
            None
        },
        linux: if sel.linux {
            Some(op)
        } else {
            None
        },
        windows: if sel.windows {
            Some(op)
        } else {
            None
        },
    }
}

/// Whether a release branch is forbidden: it equals a public or default
/// channel name, compared case-insensitively.
pub open spec fn spec_forbidden_branch(s: Seq<char>) -> bool {
    lower_seq(s) == "default"@ || lower_seq(s) == "public"@
}

/// Test a release branch against the forbidden channel names.
pub fn forbidden_live_branch(branch: &str) -> (r: bool)
    ensures
        r == spec_forbidden_branch(branch@),
{
    lower_eq(branch, "default") || lower_eq(branch, "public")
}

/// A run rejected before any fetch or write because its release branch is a
/// forbidden channel.
#[derive(Clone, Debug)]
pub struct BranchError {
    pub branch: String,
}

/// Everything the run decided before touching the filesystem: the resolved
/// target gates and the directory lifecycle they imply.
#[derive(Clone, Debug)]
pub struct RunPlan {
    pub selection: Selection,
    pub lifecycle: LifecyclePlan,
}

/// Decide a run up front: reject a forbidden release branch before anything
/// else, then resolve the requested targets and plan the directory
/// lifecycle. A run whose branch is rejected has no plan, so no directory
/// is wiped, created or cleaned for it.
pub fn plan_run(live_branch: &Option<String>, requested: &Vec<Target>, keep: bool) -> (r: Result<
    RunPlan,
    BranchError,
>)
    ensures
        r is Err <==> (live_branch matches Some(b) && spec_forbidden_branch(b@)),
        r matches Err(e) ==> (live_branch matches Some(b) && e.branch@ == b@),
        r matches Ok(p) ==> {
            &&& p.selection == spec_resolve(requested@)
            &&& p.lifecycle.wipe_build_root == !keep
            &&& p.lifecycle.wipe_temp_root
            &&& p.lifecycle.content == spec_subtree_op(p.selection.content, keep)
            &&& p.lifecycle.mac == spec_subtree_op(p.selection.mac, keep)
            &&& p.lifecycle.linux == spec_subtree_op(p.selection.linux, keep)
            &&& p.lifecycle.windows == spec_subtree_op(p.selection.windows, keep)
        },
{
    if let Some(b) = live_branch {
        if forbidden_live_branch(b.as_str()) {
            return Err(BranchError { branch: b.clone() });
        }
    }
    let selection = resolve_targets(requested);
    let lifecycle = plan_lifecycle(selection, keep);
    Ok(RunPlan { selection, lifecycle })
}

/// The depots the umbrella descriptor enumerates: only populated ones, in
/// the fixed canonical order content, macOS, Linux, Windows.
pub open spec fn spec_selected_depots(
    sel: Selection,
    content: u64,
    mac: u64,
    linux: u64,
    windows: u64,
) -> Seq<(u64, Seq<char>)> {
    let s0 = Seq::<(u64, Seq<char>)>::empty();
    let s1 = if sel.content {
        s0.push((content, "depot_content.vdf"@))
    } else {
        s0
    };
    let s2 = if sel.mac {
        s1.push((mac, "depot_macos.vdf"@))
    } else {
        s1
    };
    let s3 = if sel.linux {
        s2.push((linux, "depot_linux.vdf"@))
    } else {
        s2
    };
    if sel.windows {
        s3.push((windows, "depot_windows.vdf"@))
    } else {
        s3
    }
}

proof fn lemma_depot_entries_push(s: Seq<Depot>, d: Depot)
    ensures
        depot_entries(s.push(d)) == depot_entries(s).push((d.id, d.vdf@)),
{
    assert(s.push(d).drop_last() =~= s);
}

/// Build the umbrella descriptor's depot list for a selection, in canonical
/// order, with each depot's fixed manifest file name.
pub fn selected_depots(sel: Selection, content: u64, mac: u64, linux: u64, windows: u64) -> (r:
    Vec<Depot>)
    ensures
        depot_entries(r@) == spec_selected_depots(sel, content, mac, linux, windows),
{
    let mut v: Vec<Depot> = Vec::new();
    assert(v@ =~= Seq::<Depot>::empty());
    if sel.content {
        let d = Depot { id: content, vdf: String::from_str("depot_content.vdf") };
        proof {
            lemma_depot_entries_push(v@, d);
        }
        v.push(d);
    }
    if sel.mac {
        let d = Depot { id: mac, vdf: String::from_str("depot_macos.vdf") };
        proof {
            lemma_depot_entries_push(v@, d);
        }
        v.push(d);
    }
    if sel.linux {
        let d = Depot { id: linux, vdf: String::from_str("depot_linux.vdf") };
        proof {
            lemma_depot_entries_push(v@, d);
        }
        v.push(d);
    }
    if sel.windows {
        let d = Depot { id: windows, vdf: String::from_str("depot_windows.vdf") };
        proof {
            lemma_depot_entries_push(v@, d);
        }
        v.push(d);
    }
    v
}

/// The download URL of one platform's release archive: the common release
/// prefix with the platform's fixed suffix; the content target has no
/// archive.
pub open spec fn spec_platform_archive_url(prefix: Seq<char>, t: Target) -> Option<Seq<char>> {
    match t {
        Target::Mac => Some(prefix + "-darwin-arm64.tar.gz"@),
        Target::Windows => Some(prefix + "-windows-x86_64.zip"@),
        Target::Linux => Some(prefix + "-linux-x86_64.tar.gz"@),
        Target::Content => None,
    }
}

/// Build the download URL of a platform's release archive from the common
/// release prefix. The content target is fetched from its repository, not
/// as an archive, and yields none.
pub fn platform_archive_url(prefix: &str, t: Target) -> (r: Option<String>)
    ensures
        r is Some <==> spec_platform_archive_url(prefix@, t) is Some,
        r matches Some(u) ==> u@ == spec_platform_archive_url(prefix@, t)->0,
{
    let suffix = match t {
        Target::Mac => "-darwin-arm64.tar.gz",
        Target::Windows => "-windows-x86_64.zip",
        Target::Linux => "-linux-x86_64.tar.gz",
        Target::Content => {
            return None;
        },
    };
    let mut u = String::from_str(prefix);
    u.append(suffix);
    proof {
        assert(u@ =~= spec_platform_archive_url(prefix@, t)->0);
    }
    Some(u)
}

/// The file name the umbrella descriptor is written under.
pub fn app_build_file_name(app_id: u64) -> (r: String)
    ensures
        r@ == "app_build_"@ + crate::strutil::spec_dec(app_id as int) + ".vdf"@,
{
    let mut r = String::from_str("app_build_");
    let ids = crate::strutil::u64_to_string(app_id);
    r.append(ids.as_str());
    r.append(".vdf");
    proof {
        assert(r@ =~= "app_build_"@ + crate::strutil::spec_dec(app_id as int) + ".vdf"@);
    }
    r
}

/// Render the provenance stamp of the content subtree.
pub fn content_buildinfo(org: &str, name: &str, commit: &str, committed_at: &str, built_at: &str) -> (r: String)
    ensures
        r@ == "repo: "@ + org@ + "/"@ + name@ + "\ncommit: "@ + commit@ + "\ncommitted_at_utc: "@
            + committed_at@ + "\nbuilt_at_utc: "@ + built_at@ + "\n"@,
{
    let mut r = String::from_str("repo: ");
    r.append(org);
    r.append("/");
    r.append(name);
    r.append("\ncommit: ");
    r.append(commit);
    r.append("\ncommitted_at_utc: ");
    r.append(committed_at);
    r.append("\nbuilt_at_utc: ");
    r.append(built_at);
    r.append("\n");
    proof {
        assert(r@ =~= "repo: "@ + org@ + "/"@ + name@ + "\ncommit: "@ + commit@
            + "\ncommitted_at_utc: "@ + committed_at@ + "\nbuilt_at_utc: "@ + built_at@ + "\n"@);
    }
    r
}

/// Render the provenance stamp of a binaries subtree.
pub fn binaries_buildinfo(org: &str, name: &str, version: &str, built_at: &str) -> (r: String)
    ensures
        r@ == "repo: "@ + org@ + "/"@ + name@ + "\nversion: "@ + version@ + "\nbuilt_at_utc: "@
            + built_at@ + "\n"@,
{
    let mut r = String::from_str("repo: ");
    r.append(org);
    r.append("/");
    r.append(name);
    r.append("\nversion: ");
    r.append(version);
    r.append("\nbuilt_at_utc: ");
    r.append(built_at);
    r.append("\n");
    proof {
        assert(r@ =~= "repo: "@ + org@ + "/"@ + name@ + "\nversion: "@ + version@
            + "\nbuilt_at_utc: "@ + built_at@ + "\n"@);
    }
    r
}

} // verus!
