//! Rendering of the build manifests: the umbrella application build
//! descriptor and the per-depot build configuration. The output grammar is
//! consumed byte-for-byte by an external upload tool, so every function here
//! pins its result exactly.

use crate::strutil::spec_dec;
use crate::strutil::u64_to_string;
use vstd::prelude::*;

verus! {

/// One independently addressable payload of the release: a numeric depot
/// identifier and the file name of the manifest describing it.
#[derive(Clone, Debug)]
pub struct Depot {
    pub id: u64,
    pub vdf: String,
}

/// What a depot contributes to the rendered text: its identifier and its
/// manifest file name.
pub open spec fn depot_entries(ds: Seq<Depot>) -> Seq<(u64, Seq<char>)>
    decreases ds.len(),
{
    if ds.len() == 0 {
        Seq::empty()
    } else {
        depot_entries(ds.drop_last()).push((ds.last().id, ds.last().vdf@))
    }
}

/// One line of the umbrella descriptor's depot table.
pub open spec fn spec_depot_line(d: Depot) -> Seq<char> {
    "            \""@ + spec_dec(d.id as int) + "\" \""@ + d.vdf@ + "\"\n"@
}

/// The depot table of the umbrella descriptor, one line per depot, in the
/// given order.
pub open spec fn spec_depot_lines(ds: Seq<Depot>) -> Seq<char>
    decreases ds.len(),
{
    if ds.len() == 0 {
        Seq::empty()
    } else {
        spec_depot_lines(ds.drop_last()) + spec_depot_line(ds.last())
    }
}

/// The full text of the umbrella application build descriptor.
pub open spec fn spec_app_build(
    app_id: u64,
    desc: Seq<char>,
    live: Seq<char>,
    ds: Seq<Depot>,
) -> Seq<char> {
    "\"AppBuild\"\n{\n    \"appid\"    \""@ + spec_dec(app_id as int) + "\"\n    \"desc\"     \""@
        + desc + "\"\n    \"setlive\"  \""@ + live + "\"\n\n    \"depots\"\n    {\n"@
        + spec_depot_lines(ds) + "    }\n}"@
}

/// The live branch field of the descriptor: the branch when one is set,
/// empty otherwise.
pub open spec fn spec_live(live_branch: Option<&str>) -> Seq<char> {
    match live_branch {
        Some(b) => b@,
        None => Seq::empty(),
    }
}

/// Render the umbrella application build descriptor over the given depots,
/// in their given order.
pub fn app_build(
    app_id: u64,
    description: &str,
    live_branch: Option<&str>,
    depots: &Vec<Depot>,
) -> (r: String)
    ensures
        r@ == spec_app_build(app_id, description@, spec_live(live_branch), depots@),
{
    let mut lines = String::new();
    let mut i: usize = 0;
    while i < depots.len()
        invariant
            i <= depots@.len(),
            lines@ == spec_depot_lines(depots@.subrange(0, i as int)),
        decreases depots@.len() - i,
    {
        let d = &depots[i];
        lines.append("            \"");
        let ids = u64_to_string(d.id);
        lines.append(ids.as_str());
        lines.append("\" \"");
        lines.append(d.vdf.as_str());
        lines.append("\"\n");
        proof {
            assert(depots@.subrange(0, i + 1 as int).drop_last() =~= depots@.subrange(0, i as int));
            assert(depots@.subrange(0, i + 1 as int).last() == depots@[i as int]);
            assert(lines@ =~= spec_depot_lines(depots@.subrange(0, i + 1 as int)));
        }
        i = i + 1;
    }
    proof {
        assert(depots@.subrange(0, depots@.len() as int) =~= depots@);
    }
    let mut r = String::from_str("\"AppBuild\"\n{\n    \"appid\"    \"");
    let ids = u64_to_string(app_id);
    r.append(ids.as_str());
    r.append("\"\n    \"desc\"     \"");
    r.append(description);
    r.append("\"\n    \"setlive\"  \"");
    match live_branch {
        Some(b) => r.append(b),
        None => (),
    }
    r.append("\"\n\n    \"depots\"\n    {\n");
    r.append(lines.as_str());
    r.append("    }\n}");
    proof {
        assert(r@ =~= spec_app_build(app_id, description@, spec_live(live_branch), depots@));
    }
    r
}

/// The part of a depot manifest shared by the filtered and unfiltered forms:
/// everything up to and including the closing brace of the file mapping.
pub open spec fn spec_depot_common(depot_id: u64, content_root: Seq<char>) -> Seq<char> {
    "\"DepotBuildConfig\"\n{\n    \"depotid\"     \""@ + spec_dec(depot_id as int)
        + "\"\n    \"contentroot\" \""@ + content_root
        + "\"\n    \"filemapping\" {\n        \"LocalPath\" \"*\"\n        \"DepotPath\" \".\"\n        \"recursive\" \"1\"\n    }"@
}

/// The full text of an unconditional depot manifest.
pub open spec fn spec_depot_vdf(depot_id: u64, content_root: Seq<char>) -> Seq<char> {
    spec_depot_common(depot_id, content_root) + "\n}"@
}

/// The full text of a depot manifest restricted to one platform.
pub open spec fn spec_depot_vdf_os(depot_id: u64, content_root: Seq<char>, os_name: Seq<
    char>) -> Seq<char> {
    spec_depot_common(depot_id, content_root) + "\n    \"config\" { \"oslist\" \""@ + os_name
        + "\" }\n}"@
}

/// Adding an os filter to a depot manifest inserts exactly the `config`
/// block before the final closing brace; everything before it is unchanged.
pub proof fn lemma_os_filter_adds_config_only(depot_id: u64, content_root: Seq<char>, os_name: Seq<
    char>)
    ensures
        spec_depot_vdf(depot_id, content_root) == spec_depot_common(depot_id, content_root)
            + "\n}"@,
        spec_depot_vdf_os(depot_id, content_root, os_name) == spec_depot_common(
            depot_id,
            content_root,
        ) + "\n    \"config\" { \"oslist\" \""@ + os_name + "\" }\n}"@,
{
}

/// Rendering is a function of the argument values alone: runs with equal
/// inputs produce byte-identical descriptors.
pub proof fn lemma_app_build_deterministic(
    app_id: u64,
    desc: Seq<char>,
    live: Seq<char>,
    d1: Seq<Depot>,
    d2: Seq<Depot>,
)
    requires
        depot_entries(d1) == depot_entries(d2),
    ensures
        spec_app_build(app_id, desc, live, d1) == spec_app_build(app_id, desc, live, d2),
{
    lemma_depot_lines_from_entries(d1, d2);
}

proof fn lemma_depot_entries_len(ds: Seq<Depot>)
    ensures
        depot_entries(ds).len() == ds.len(),
    decreases ds.len(),
{
    if ds.len() > 0 {
        lemma_depot_entries_len(ds.drop_last());
    }
}

proof fn lemma_depot_lines_from_entries(d1: Seq<Depot>, d2: Seq<Depot>)
    requires
        depot_entries(d1) == depot_entries(d2),
    ensures
        spec_depot_lines(d1) == spec_depot_lines(d2),
    decreases d1.len(),
{
    lemma_depot_entries_len(d1);
    lemma_depot_entries_len(d2);
    if d1.len() > 0 {
        assert(depot_entries(d1).drop_last() =~= depot_entries(d1.drop_last()));
        assert(depot_entries(d2).drop_last() =~= depot_entries(d2.drop_last()));
        lemma_depot_lines_from_entries(d1.drop_last(), d2.drop_last());
        assert(depot_entries(d1).last() == depot_entries(d2).last());
        assert(d1.last().id == d2.last().id && d1.last().vdf@ == d2.last().vdf@);
    }
}

/// Render the manifest of a depot that applies on every platform.
///
/// `content_root` must already be the absolute, symlink-resolved path of the
/// depot's staged subtree; resolving it is the caller's task.
pub fn depot(depot_id: u64, content_root: &str) -> (r: String)
    ensures
        r@ == spec_depot_vdf(depot_id, content_root@),
{
    let mut r = depot_common(depot_id, content_root);
    r.append("\n}");
    proof {
        assert(r@ =~= spec_depot_vdf(depot_id, content_root@));
    }
    r
}

/// Render the manifest of a depot restricted to the platform `os_name`.
///
/// `content_root` must already be the absolute, symlink-resolved path of the
/// depot's staged subtree; resolving it is the caller's task.
pub fn depot_with_os_filter(depot_id: u64, content_root: &str, os_name: &str) -> (r: String)
    ensures
        r@ == spec_depot_vdf_os(depot_id, content_root@, os_name@),
{
    let mut r = depot_common(depot_id, content_root);
    r.append("\n    \"config\" { \"oslist\" \"");
    r.append(os_name);
    r.append("\" }\n}");
    proof {
        assert(r@ =~= spec_depot_vdf_os(depot_id, content_root@, os_name@));
    }
    r
}

fn depot_common(depot_id: u64, content_root: &str) -> (r: String)
    ensures
        r@ == spec_depot_common(depot_id, content_root@),
{
    let mut r = String::from_str("\"DepotBuildConfig\"\n{\n    \"depotid\"     \"");
    let ids = u64_to_string(depot_id);
    r.append(ids.as_str());
    r.append("\"\n    \"contentroot\" \"");
    r.append(content_root);
    r.append(
        "\"\n    \"filemapping\" {\n        \"LocalPath\" \"*\"\n        \"DepotPath\" \".\"\n        \"recursive\" \"1\"\n    }",
    );
    proof {
        assert(r@ =~= spec_depot_common(depot_id, content_root@));
    }
    r
}

} // verus!
