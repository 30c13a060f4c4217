//! The flattening heuristic applied after extraction: archives commonly wrap
//! their payload in a single versioned top directory which must not leak
//! into the staged layout. The library decides whether to hoist; the
//! surrounding binary performs the moves.

use crate::strutil::str_eq;
use vstd::prelude::*;

verus! {

/// One direct child of the extraction destination.
#[derive(Clone, Debug)]
pub struct DirEntryInfo {
    pub name: String,
    pub is_dir: bool,
}

/// What to do with a freshly extracted destination directory.
#[derive(Clone, Debug)]
pub enum FlattenAction {
    /// The layout stays as extracted.
    Leave,
    /// Move every entry inside the wrapper directory up into the
    /// destination and remove the then-empty wrapper.
    Hoist { wrapper: String },
}

/// The destination's entries with any entry literally named `__MACOSX`
/// ignored.
pub open spec fn kept_entries(s: Seq<DirEntryInfo>) -> Seq<DirEntryInfo>
    decreases s.len(),
{
    if s.len() == 0 {
        Seq::empty()
    } else {
        let rest = kept_entries(s.drop_last());
        if s.last().name@ == "__MACOSX"@ {
            rest
        } else {
            rest.push(s.last())
        }
    }
}

/// Decide whether a destination layout is flattened: exactly one remaining
/// entry that is a directory is hoisted; a single file, or two or more
/// entries, or none, leave the layout untouched.
pub fn flatten_decision(entries: &Vec<DirEntryInfo>) -> (r: FlattenAction)
    ensures
        ({
            let kept = kept_entries(entries@);
            if kept.len() == 1 && kept[0].is_dir {
                r matches FlattenAction::Hoist { wrapper } && wrapper@ == kept[0].name@
            } else {
                r is Leave
            }
        }),
{
    let mut count: usize = 0;
    let mut keep_idx: usize = 0;
    let mut i: usize = 0;
    while i < entries.len()
        invariant
            i <= entries@.len(),
            count <= i,
            count == kept_entries(entries@.subrange(0, i as int)).len(),
            count > 0 ==> keep_idx < i && kept_entries(entries@.subrange(0, i as int)).last()
                == entries@[keep_idx as int],
            count == 1 ==> kept_entries(entries@.subrange(0, i as int))[0] == entries@[
                keep_idx as int],
        decreases entries@.len() - i,
    {
        proof {
            assert(entries@.subrange(0, i + 1 as int).drop_last() =~= entries@.subrange(
                0,
                i as int,
            ));
            assert(entries@.subrange(0, i + 1 as int).last() == entries@[i as int]);
        }
        if !str_eq(entries[i].name.as_str(), "__MACOSX") {
            count = count + 1;
            keep_idx = i;
        }
        i = i + 1;
    }
    proof {
        assert(entries@.subrange(0, entries@.len() as int) =~= entries@);
    }
    if count == 1 {
        let e = &entries[keep_idx];
        if e.is_dir {
            return FlattenAction::Hoist { wrapper: e.name.clone() };
        }
    }
    FlattenAction::Leave
}

} // verus!
