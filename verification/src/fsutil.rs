//! Resolution of declarative copy rules against a source tree.
//!
//! The source tree is handed in as a plain listing of its entries, relative
//! to the source root; the functions here decide which files are copied
//! where and return a plan. The surrounding binary walks the real tree to
//! produce the listing and executes the plan with ordinary filesystem
//! copies, creating each destination's parent directories as it goes;
//! nothing in a plan ever deletes or overwrites unrelated content.

use crate::strutil::spec_basename;
use crate::strutil::spec_join;
use crate::strutil::spec_starts_with;
use crate::strutil::trim_while;
use crate::strutil::basename;
use crate::strutil::contains_char;
use crate::strutil::join_path;
use crate::strutil::starts_with_str;
use crate::strutil::str_eq;
use crate::strutil::substr;
use crate::strutil::trim_class;
use crate::strutil::TrimClass;
use vstd::prelude::*;

verus! {

/// One entry of the source-tree listing: a path relative to the source
/// root, with `/` separating its components, and whether it is a directory.
#[derive(Clone, Debug)]
pub struct FsEntry {
    pub path: String,
    pub is_dir: bool,
}

/// One declarative copy rule: a source path, directory or glob pattern
/// relative to the source root, and a destination directory relative to the
/// destination root.
#[derive(Clone, Debug)]
pub struct CopyMapping {
    pub from: String,
    pub to: String,
}

/// One planned file copy: a source file relative to the source root and its
/// destination relative to the destination root.
#[derive(Clone, Debug)]
pub struct CopyAction {
    pub from: String,
    pub to: String,
}

/// A non-fatal finding made while resolving rules; the run continues.
#[derive(Clone, Debug)]
pub enum CopyWarning {
    /// A rule whose source normalized to the empty path was skipped.
    EmptyFrom { from: String },
    /// A glob rule matched nothing.
    UnmatchedGlob { from: String },
    /// A literal rule's source exists neither as a file nor as a directory.
    PathNotFound { from: String },
    /// A picked subfolder does not exist in the source root.
    MissingPick { pick: String },
}

/// The resolved plan: destination directories to create, file copies to
/// perform in order, and the warnings found on the way.
#[derive(Clone, Debug)]
pub struct CopyPlan {
    pub dirs: Vec<String>,
    pub copies: Vec<CopyAction>,
    pub warnings: Vec<CopyWarning>,
}

/// A glob rule whose pattern text does not compile; this aborts the run.
#[derive(Clone, Debug)]
pub struct GlobPatternError {
    pub pattern: String,
}

/// The mathematical image of a warning.
pub enum WarnModel {
    EmptyFrom(Seq<char>),
    UnmatchedGlob(Seq<char>),
    PathNotFound(Seq<char>),
    MissingPick(Seq<char>),
}

pub open spec fn warn_view(w: CopyWarning) -> WarnModel {
    match w {
        CopyWarning::EmptyFrom { from } => WarnModel::EmptyFrom(from@),
        CopyWarning::UnmatchedGlob { from } => WarnModel::UnmatchedGlob(from@),
        CopyWarning::PathNotFound { from } => WarnModel::PathNotFound(from@),
        CopyWarning::MissingPick { pick } => WarnModel::MissingPick(pick@),
    }
}

pub open spec fn warns_view(s: Seq<CopyWarning>) -> Seq<WarnModel>
    decreases s.len(),
{
    if s.len() == 0 {
        Seq::empty()
    } else {
        warns_view(s.drop_last()).push(warn_view(s.last()))
    }
}

pub open spec fn dirs_view(s: Seq<String>) -> Seq<Seq<char>>
    decreases s.len(),
{
    if s.len() == 0 {
        Seq::empty()
    } else {
        dirs_view(s.drop_last()).push(s.last()@)
    }
}

/// The `(source, destination)` path pairs of a sequence of copy actions.
pub open spec fn copies_view(s: Seq<CopyAction>) -> Seq<(Seq<char>, Seq<char>)>
    decreases s.len(),
{
    if s.len() == 0 {
        Seq::empty()
    } else {
        copies_view(s.drop_last()).push((s.last().from@, s.last().to@))
    }
}

/// A rule component normalized: surrounding path separators, then
/// surrounding ASCII whitespace, trimmed away.
pub open spec fn spec_norm(s: Seq<char>) -> Seq<char> {
    trim_while(trim_while(s, TrimClass::PathSep), TrimClass::AsciiSpace)
}

/// Normalize a rule component.
pub fn norm_component(s: &str) -> (r: String)
    ensures
        r@ == spec_norm(s@),
{
    let t = trim_class(s, TrimClass::PathSep);
    trim_class(t.as_str(), TrimClass::AsciiSpace)
}

/// Whether a rule source is a glob pattern: it holds one of `* ? [ {`.
pub open spec fn spec_has_glob_meta(s: Seq<char>) -> bool {
    s.contains('*') || s.contains('?') || s.contains('[') || s.contains('{')
}

/// Test a rule source for glob metacharacters.
pub fn has_glob_meta(s: &str) -> (r: bool)
    ensures
        r == spec_has_glob_meta(s@),
{
    contains_char(s, '*') || contains_char(s, '?') || contains_char(s, '[') || contains_char(
        s,
        '{',
    )
}

/// Whether a glob pattern text compiles. Named after `glob::Pattern::new`,
/// whose success depends on the pattern text alone.
pub uninterp spec fn glob_pattern_ok(pat: Seq<char>) -> bool;

/// Whether a glob pattern matches a path text, with path separators matched
/// only literally — the semantics the same crate's filesystem-walking
/// expansion applies to the paths it finds. Named after
/// `glob::Pattern::matches_with`, whose result depends on the two texts
/// alone.
pub uninterp spec fn glob_match(pat: Seq<char>, path: Seq<char>) -> bool;

/// Relies on glob::Pattern::new: compiling a pattern succeeds or fails on
/// the pattern text alone.
#[verifier::external_body]
fn glob_pattern_valid(pat: &str) -> (r: bool)
    ensures
        r == glob_pattern_ok(pat@),
{
    glob::Pattern::new(pat).is_ok()
}

/// Relies on glob::Pattern::new and glob::Pattern::matches_with: matching is
/// a function of the pattern and path texts; `require_literal_separator` is
/// set, as the crate's own filesystem-walking expansion always sets it.
#[verifier::external_body]
fn glob_match_exec(pat: &str, path: &str) -> (r: bool)
    requires
        glob_pattern_ok(pat@),
    ensures
        r == glob_match(pat@, path@),
{
    let options = glob::MatchOptions { require_literal_separator: true, ..glob::MatchOptions::new() };
    match glob::Pattern::new(pat) {
        Ok(p) => p.matches_with(path, options),
        Err(_) => false,
    }
}

/// The first listed entry with the given path, if any.
pub open spec fn spec_find_entry(files: Seq<FsEntry>, p: Seq<char>) -> Option<FsEntry>
    decreases files.len(),
{
    if files.len() == 0 {
        None
    } else if files[0].path@ == p {
        Some(files[0])
    } else {
        spec_find_entry(files.drop_first(), p)
    }
}

/// The copies a matched directory contributes: every file beneath it,
/// preserving the path relative to it — the directory's own name is
/// dropped from the destination.
pub open spec fn spec_dir_copies(files: Seq<FsEntry>, dir: Seq<char>, to: Seq<char>) -> Seq<
    (Seq<char>, Seq<char>),
>
    decreases files.len(),
{
    if files.len() == 0 {
        Seq::empty()
    } else {
        let rest = spec_dir_copies(files.drop_last(), dir, to);
        let e = files.last();
        if !e.is_dir && spec_starts_with(e.path@, dir + seq!['/']) {
            rest.push((e.path@, spec_join(to, e.path@.subrange(dir.len() + 1 as int, e.path@.len() as int))))
        } else {
            rest
        }
    }
}

/// The copies a glob rule contributes, walking the listing in order: a
/// matched directory contributes every file beneath it with the directory's
/// own name dropped; a matched file is copied under its base name alone.
pub open spec fn spec_glob_copies(
    gs: Seq<FsEntry>,
    all: Seq<FsEntry>,
    pat: Seq<char>,
    to: Seq<char>,
) -> Seq<(Seq<char>, Seq<char>)>
    decreases gs.len(),
{
    if gs.len() == 0 {
        Seq::empty()
    } else {
        let rest = spec_glob_copies(gs.drop_last(), all, pat, to);
        let e = gs.last();
        if glob_match(pat, e.path@) {
            if e.is_dir {
                rest + spec_dir_copies(all, e.path@, to)
            } else {
                rest.push((e.path@, spec_join(to, spec_basename(e.path@))))
            }
        } else {
            rest
        }
    }
}

/// Whether any listed entry matches the pattern.
pub open spec fn spec_glob_matched_any(files: Seq<FsEntry>, pat: Seq<char>) -> bool {
    exists|k: int| 0 <= k < files.len() && glob_match(pat, files[k].path@)
}

/// The copies one rule contributes, after normalization.
pub open spec fn spec_rule_copies(files: Seq<FsEntry>, from_n: Seq<char>, to_n: Seq<char>) -> Seq<
    (Seq<char>, Seq<char>),
> {
    if spec_has_glob_meta(from_n) {
        spec_glob_copies(files, files, from_n, to_n)
    } else {
        match spec_find_entry(files, from_n) {
            Some(e) => if e.is_dir {
                spec_dir_copies(files, from_n, to_n)
            } else {
                seq![(from_n, spec_join(to_n, spec_basename(from_n)))]
            },
            None => Seq::empty(),
        }
    }
}

/// Whether a rule is the fatal case: a glob whose pattern does not compile.
pub open spec fn spec_rule_bad(m: CopyMapping) -> bool {
    spec_norm(m.from@).len() > 0 && spec_has_glob_meta(spec_norm(m.from@)) && !glob_pattern_ok(
        spec_norm(m.from@),
    )
}

/// Index of the first rule with an invalid glob pattern, if any.
pub open spec fn spec_first_bad_rule(ms: Seq<CopyMapping>) -> Option<int>
    decreases ms.len(),
{
    if ms.len() == 0 {
        None
    } else if spec_rule_bad(ms[0]) {
        Some(0)
    } else {
        match spec_first_bad_rule(ms.drop_first()) {
            Some(j) => Some(j + 1),
            None => None,
        }
    }
}

/// The destination directories the rules ask to exist: one per rule whose
/// source does not normalize to the empty path, created whether or not the
/// rule matches anything.
pub open spec fn spec_plan_dirs(ms: Seq<CopyMapping>) -> Seq<Seq<char>>
    decreases ms.len(),
{
    if ms.len() == 0 {
        Seq::empty()
    } else {
        let rest = spec_plan_dirs(ms.drop_last());
        let m = ms.last();
        if spec_norm(m.from@).len() == 0 {
            rest
        } else {
            rest.push(spec_norm(m.to@))
        }
    }
}

/// The copies of all rules, in rule order.
pub open spec fn spec_plan_copies(files: Seq<FsEntry>, ms: Seq<CopyMapping>) -> Seq<
    (Seq<char>, Seq<char>),
>
    decreases ms.len(),
{
    if ms.len() == 0 {
        Seq::empty()
    } else {
        let rest = spec_plan_copies(files, ms.drop_last());
        let m = ms.last();
        if spec_norm(m.from@).len() == 0 {
            rest
        } else {
            rest + spec_rule_copies(files, spec_norm(m.from@), spec_norm(m.to@))
        }
    }
}

/// The warnings of all rules, in rule order.
pub open spec fn spec_plan_warnings(files: Seq<FsEntry>, ms: Seq<CopyMapping>) -> Seq<WarnModel>
    decreases ms.len(),
{
    if ms.len() == 0 {
        Seq::empty()
    } else {
        let rest = spec_plan_warnings(files, ms.drop_last());
        let m = ms.last();
        let from_n = spec_norm(m.from@);
        if from_n.len() == 0 {
            rest.push(WarnModel::EmptyFrom(m.from@))
        } else if spec_has_glob_meta(from_n) {
            if glob_pattern_ok(from_n) && !spec_glob_matched_any(files, from_n) {
                rest.push(WarnModel::UnmatchedGlob(from_n))
            } else {
                rest
            }
        } else if spec_find_entry(files, from_n) is None {
            rest.push(WarnModel::PathNotFound(from_n))
        } else {
            rest
        }
    }
}

/// The whole-tree mirror: every file of the listing copied to the same
/// relative path.
pub open spec fn spec_mirror_all(files: Seq<FsEntry>) -> Seq<(Seq<char>, Seq<char>)>
    decreases files.len(),
{
    if files.len() == 0 {
        Seq::empty()
    } else {
        let rest = spec_mirror_all(files.drop_last());
        let e = files.last();
        if !e.is_dir {
            rest.push((e.path@, e.path@))
        } else {
            rest
        }
    }
}

/// The mirror of one picked subfolder: every file beneath it copied to the
/// same relative path, so the pick keeps its own name in the destination.
pub open spec fn spec_mirror_under(files: Seq<FsEntry>, dir: Seq<char>) -> Seq<
    (Seq<char>, Seq<char>),
>
    decreases files.len(),
{
    if files.len() == 0 {
        Seq::empty()
    } else {
        let rest = spec_mirror_under(files.drop_last(), dir);
        let e = files.last();
        if !e.is_dir && spec_starts_with(e.path@, dir + seq!['/']) {
            rest.push((e.path@, e.path@))
        } else {
            rest
        }
    }
}

/// The copies of a non-empty pick list, in pick order.
pub open spec fn spec_picks_copies(files: Seq<FsEntry>, picks: Seq<String>) -> Seq<
    (Seq<char>, Seq<char>),
>
    decreases picks.len(),
{
    if picks.len() == 0 {
        Seq::empty()
    } else {
        let rest = spec_picks_copies(files, picks.drop_last());
        let p = spec_norm(picks.last()@);
        if p.len() == 0 {
            rest
        } else {
            match spec_find_entry(files, p) {
                Some(e) => if e.is_dir {
                    rest + spec_mirror_under(files, p)
                } else {
                    rest.push((p, p))
                },
                None => rest,
            }
        }
    }
}

/// The warnings of a non-empty pick list: one per pick that does not exist.
pub open spec fn spec_picks_warnings(files: Seq<FsEntry>, picks: Seq<String>) -> Seq<WarnModel>
    decreases picks.len(),
{
    if picks.len() == 0 {
        Seq::empty()
    } else {
        let rest = spec_picks_warnings(files, picks.drop_last());
        let p = spec_norm(picks.last()@);
        if p.len() == 0 {
            rest
        } else if spec_find_entry(files, p) is None {
            rest.push(WarnModel::MissingPick(p))
        } else {
            rest
        }
    }
}

/// What a pick list selects: the whole tree when it is empty, the picked
/// subfolders otherwise.
pub open spec fn spec_selected_copies(files: Seq<FsEntry>, picks: Seq<String>) -> Seq<
    (Seq<char>, Seq<char>),
> {
    if picks.len() == 0 {
        spec_mirror_all(files)
    } else {
        spec_picks_copies(files, picks)
    }
}

proof fn lemma_copies_view_push(s: Seq<CopyAction>, a: CopyAction)
    ensures
        copies_view(s.push(a)) == copies_view(s).push((a.from@, a.to@)),
{
    assert(s.push(a).drop_last() =~= s);
}

proof fn lemma_warns_view_push(s: Seq<CopyWarning>, w: CopyWarning)
    ensures
        warns_view(s.push(w)) == warns_view(s).push(warn_view(w)),
{
    assert(s.push(w).drop_last() =~= s);
}

proof fn lemma_dirs_view_push(s: Seq<String>, x: String)
    ensures
        dirs_view(s.push(x)) == dirs_view(s).push(x@),
{
    assert(s.push(x).drop_last() =~= s);
}

proof fn lemma_find_entry_at(files: Seq<FsEntry>, p: Seq<char>, idx: int)
    requires
        0 <= idx < files.len(),
        files[idx].path@ == p,
        forall|j: int| 0 <= j < idx ==> files[j].path@ != p,
    ensures
        spec_find_entry(files, p) == Some(files[idx]),
    decreases idx,
{
    if idx > 0 {
        lemma_find_entry_at(files.drop_first(), p, idx - 1);
    }
}

proof fn lemma_find_entry_none(files: Seq<FsEntry>, p: Seq<char>)
    requires
        forall|j: int| 0 <= j < files.len() ==> files[j].path@ != p,
    ensures
        spec_find_entry(files, p) is None,
    decreases files.len(),
{
    if files.len() > 0 {
        lemma_find_entry_none(files.drop_first(), p);
    }
}

proof fn lemma_first_bad_none(ms: Seq<CopyMapping>)
    requires
        forall|j: int| 0 <= j < ms.len() ==> !spec_rule_bad(ms[j]),
    ensures
        spec_first_bad_rule(ms) is None,
    decreases ms.len(),
{
    if ms.len() > 0 {
        lemma_first_bad_none(ms.drop_first());
    }
}

proof fn lemma_first_bad_at(ms: Seq<CopyMapping>, i: int)
    requires
        0 <= i < ms.len(),
        forall|j: int| 0 <= j < i ==> !spec_rule_bad(ms[j]),
        spec_rule_bad(ms[i]),
    ensures
        spec_first_bad_rule(ms) == Some(i),
    decreases i,
{
    if i > 0 {
        lemma_first_bad_at(ms.drop_first(), i - 1);
    }
}

/// First listing index whose path equals `p`, if any.
fn find_entry_idx(files: &Vec<FsEntry>, p: &str) -> (r: Option<usize>)
    ensures
        match r {
            Some(idx) => idx < files@.len() && spec_find_entry(files@, p@) == Some(
                files@[idx as int],
            ) && files@[idx as int].path@ == p@,
            None => spec_find_entry(files@, p@) is None,
        },
{
    let mut k: usize = 0;
    while k < files.len()
        invariant
            k <= files@.len(),
            forall|j: int| 0 <= j < k ==> files@[j].path@ != p@,
        decreases files@.len() - k,
    {
        if str_eq(files[k].path.as_str(), p) {
            proof {
                lemma_find_entry_at(files@, p@, k as int);
            }
            return Some(k);
        }
        k = k + 1;
    }
    proof {
        lemma_find_entry_none(files@, p@);
    }
    None
}

/// Append to `copies` every file beneath `dir`, preserving the path
/// relative to `dir` under the destination `to`.
fn push_dir_copies(copies: &mut Vec<CopyAction>, files: &Vec<FsEntry>, dir: &str, to: &str)
    ensures
        copies_view(final(copies)@) == copies_view(old(copies)@) + spec_dir_copies(
            files@,
            dir@,
            to@,
        ),
{
    let dir_len = dir.unicode_len();
    let mut prefix = String::from_str(dir);
    prefix.append("/");
    proof {
        reveal_strlit("/");
        assert(prefix@ =~= dir@ + seq!['/']);
    }
    let mut t: usize = 0;
    while t < files.len()
        invariant
            dir_len == dir@.len(),
            prefix@ == dir@ + seq!['/'],
            t <= files@.len(),
            copies_view(copies@) == copies_view(old(copies)@) + spec_dir_copies(
                files@.subrange(0, t as int),
                dir@,
                to@,
            ),
        decreases files@.len() - t,
    {
        proof {
            assert(files@.subrange(0, t + 1 as int).drop_last() =~= files@.subrange(0, t as int));
            assert(files@.subrange(0, t + 1 as int).last() == files@[t as int]);
        }
        let f = &files[t];
        if !f.is_dir && starts_with_str(f.path.as_str(), prefix.as_str()) {
            let n = f.path.unicode_len();
            let rel = substr(f.path.as_str(), dir_len + 1, n);
            let dest = join_path(to, rel.as_str());
            let a = CopyAction { from: f.path.clone(), to: dest };
            proof {
                lemma_copies_view_push(copies@, a);
            }
            copies.push(a);
            proof {
                assert(copies_view(copies@) =~= copies_view(old(copies)@) + spec_dir_copies(
                    files@.subrange(0, t + 1 as int),
                    dir@,
                    to@,
                ));
            }
        }
        t = t + 1;
    }
    proof {
        assert(files@.subrange(0, files@.len() as int) =~= files@);
    }
}

/// Resolve the ordered copy rules against the source listing.
///
/// Each rule is applied independently, in order; later rules may write into
/// directories earlier rules created, and no rule removes anything. The one
/// fatal case is a glob pattern that does not compile; unmatched globs and
/// missing literal paths only warn.
pub fn copy_mappings(files: &Vec<FsEntry>, mappings: &Vec<CopyMapping>) -> (r: Result<
    CopyPlan,
    GlobPatternError,
>)
    ensures
        match r {
            Ok(plan) => spec_first_bad_rule(mappings@) is None && dirs_view(plan.dirs@)
                == spec_plan_dirs(mappings@) && copies_view(plan.copies@) == spec_plan_copies(
                files@,
                mappings@,
            ) && warns_view(plan.warnings@) == spec_plan_warnings(files@, mappings@),
            Err(e) => spec_first_bad_rule(mappings@) is Some && e.pattern@ == spec_norm(
                mappings@[spec_first_bad_rule(mappings@)->0].from@,
            ),
        },
{
    let mut dirs: Vec<String> = Vec::new();
    let mut copies: Vec<CopyAction> = Vec::new();
    let mut warnings: Vec<CopyWarning> = Vec::new();
    let mut i: usize = 0;
    while i < mappings.len()
        invariant
            i <= mappings@.len(),
            forall|j: int| 0 <= j < i ==> !spec_rule_bad(mappings@[j]),
            dirs_view(dirs@) == spec_plan_dirs(mappings@.subrange(0, i as int)),
            copies_view(copies@) == spec_plan_copies(files@, mappings@.subrange(0, i as int)),
            warns_view(warnings@) == spec_plan_warnings(files@, mappings@.subrange(0, i as int)),
        decreases mappings@.len() - i,
    {
        proof {
            assert(mappings@.subrange(0, i + 1 as int).drop_last() =~= mappings@.subrange(
                0,
                i as int,
            ));
            assert(mappings@.subrange(0, i + 1 as int).last() == mappings@[i as int]);
        }
        let m = &mappings[i];
        let from_n = norm_component(m.from.as_str());
        let to_n = norm_component(m.to.as_str());
        if from_n.unicode_len() == 0 {
            let w = CopyWarning::EmptyFrom { from: m.from.clone() };
            proof {
                lemma_warns_view_push(warnings@, w);
            }
            warnings.push(w);
        } else {
            proof {
                lemma_dirs_view_push(dirs@, to_n);
            }
            dirs.push(to_n.clone());
            if has_glob_meta(from_n.as_str()) {
                if !glob_pattern_valid(from_n.as_str()) {
                    proof {
                        lemma_first_bad_at(mappings@, i as int);
                    }
                    return Err(GlobPatternError { pattern: from_n });
                }
                let ghost copies0 = copies@;
                let mut matched = false;
                let mut k: usize = 0;
                while k < files.len()
                    invariant
                        glob_pattern_ok(from_n@),
                        k <= files@.len(),
                        matched == spec_glob_matched_any(files@.subrange(0, k as int), from_n@),
                        copies_view(copies@) == copies_view(copies0) + spec_glob_copies(
                            files@.subrange(0, k as int),
                            files@,
                            from_n@,
                            to_n@,
                        ),
                    decreases files@.len() - k,
                {
                    proof {
                        assert(files@.subrange(0, k + 1 as int).drop_last() =~= files@.subrange(
                            0,
                            k as int,
                        ));
                        assert(files@.subrange(0, k + 1 as int).last() == files@[k as int]);
                    }
                    let e = &files[k];
                    if glob_match_exec(from_n.as_str(), e.path.as_str()) {
                        matched = true;
                        assert(files@.subrange(0, k + 1 as int)[k as int] == files@[k as int]);
                        if e.is_dir {
                            push_dir_copies(&mut copies, files, e.path.as_str(), to_n.as_str());
                            proof {
                                assert(copies_view(copies@) =~= copies_view(copies0)
                                    + spec_glob_copies(
                                    files@.subrange(0, k + 1 as int),
                                    files@,
                                    from_n@,
                                    to_n@,
                                ));
                            }
                        } else {
                            let b = basename(e.path.as_str());
                            let dest = join_path(to_n.as_str(), b.as_str());
                            let a = CopyAction { from: e.path.clone(), to: dest };
                            proof {
                                lemma_copies_view_push(copies@, a);
                            }
                            copies.push(a);
                            proof {
                                assert(copies_view(copies@) =~= copies_view(copies0)
                                    + spec_glob_copies(
                                    files@.subrange(0, k + 1 as int),
                                    files@,
                                    from_n@,
                                    to_n@,
                                ));
                            }
                        }
                    }
                    k = k + 1;
                }
                proof {
                    assert(files@.subrange(0, files@.len() as int) =~= files@);
                }
                if !matched {
                    let w = CopyWarning::UnmatchedGlob { from: from_n.clone() };
                    proof {
                        lemma_warns_view_push(warnings@, w);
                    }
                    warnings.push(w);
                }
            } else {
                match find_entry_idx(files, from_n.as_str()) {
                    Some(idx) => {
                        if files[idx].is_dir {
                            push_dir_copies(&mut copies, files, from_n.as_str(), to_n.as_str());
                        } else {
                            let b = basename(from_n.as_str());
                            let dest = join_path(to_n.as_str(), b.as_str());
                            let a = CopyAction { from: from_n.clone(), to: dest };
                            proof {
                                lemma_copies_view_push(copies@, a);
                            }
                            copies.push(a);
                            proof {
                                assert(copies_view(copies@) =~= copies_view(
                                    copies@.drop_last(),
                                ).push((from_n@, spec_join(to_n@, spec_basename(from_n@)))));
                            }
                        }
                    },
                    None => {
                        let w = CopyWarning::PathNotFound { from: from_n.clone() };
                        proof {
                            lemma_warns_view_push(warnings@, w);
                        }
                        warnings.push(w);
                    },
                }
            }
        }
        i = i + 1;
    }
    proof {
        assert(mappings@.subrange(0, mappings@.len() as int) =~= mappings@);
        lemma_first_bad_none(mappings@);
    }
    Ok(CopyPlan { dirs, copies, warnings })
}

/// Append to `copies` every file beneath `dir`, mirrored to the same
/// relative path.
fn push_mirror_under(copies: &mut Vec<CopyAction>, files: &Vec<FsEntry>, dir: &str)
    ensures
        copies_view(final(copies)@) == copies_view(old(copies)@) + spec_mirror_under(files@, dir@),
{
    let mut prefix = String::from_str(dir);
    prefix.append("/");
    proof {
        reveal_strlit("/");
        assert(prefix@ =~= dir@ + seq!['/']);
    }
    let mut t: usize = 0;
    while t < files.len()
        invariant
            prefix@ == dir@ + seq!['/'],
            t <= files@.len(),
            copies_view(copies@) == copies_view(old(copies)@) + spec_mirror_under(
                files@.subrange(0, t as int),
                dir@,
            ),
        decreases files@.len() - t,
    {
        proof {
            assert(files@.subrange(0, t + 1 as int).drop_last() =~= files@.subrange(0, t as int));
            assert(files@.subrange(0, t + 1 as int).last() == files@[t as int]);
        }
        let f = &files[t];
        if !f.is_dir && starts_with_str(f.path.as_str(), prefix.as_str()) {
            let a = CopyAction { from: f.path.clone(), to: f.path.clone() };
            proof {
                lemma_copies_view_push(copies@, a);
            }
            copies.push(a);
            proof {
                assert(copies_view(copies@) =~= copies_view(old(copies)@) + spec_mirror_under(
                    files@.subrange(0, t + 1 as int),
                    dir@,
                ));
            }
        }
        t = t + 1;
    }
    proof {
        assert(files@.subrange(0, files@.len() as int) =~= files@);
    }
}

/// Mirror picked top-level subfolders of the source root into the
/// destination under the same names — or the whole tree when no picks are
/// given. A pick that does not exist warns and is skipped; nothing is
/// deleted.
pub fn copy_selected_dirs(files: &Vec<FsEntry>, picks: &Vec<String>) -> (r: CopyPlan)
    ensures
        r.dirs@.len() == 0,
        copies_view(r.copies@) == spec_selected_copies(files@, picks@),
        warns_view(r.warnings@) == if picks@.len() == 0 {
            Seq::<WarnModel>::empty()
        } else {
            spec_picks_warnings(files@, picks@)
        },
{
    let mut copies: Vec<CopyAction> = Vec::new();
    let mut warnings: Vec<CopyWarning> = Vec::new();
    if picks.len() == 0 {
        let mut t: usize = 0;
        while t < files.len()
            invariant
                t <= files@.len(),
                copies_view(copies@) == spec_mirror_all(files@.subrange(0, t as int)),
            decreases files@.len() - t,
        {
            proof {
                assert(files@.subrange(0, t + 1 as int).drop_last() =~= files@.subrange(
                    0,
                    t as int,
                ));
                assert(files@.subrange(0, t + 1 as int).last() == files@[t as int]);
            }
            let f = &files[t];
            if !f.is_dir {
                let a = CopyAction { from: f.path.clone(), to: f.path.clone() };
                proof {
                    lemma_copies_view_push(copies@, a);
                }
                copies.push(a);
            }
            t = t + 1;
        }
        proof {
            assert(files@.subrange(0, files@.len() as int) =~= files@);
        }
        return CopyPlan { dirs: Vec::new(), copies, warnings };
    }
    let mut i: usize = 0;
    while i < picks.len()
        invariant
            i <= picks@.len(),
            copies_view(copies@) == spec_picks_copies(files@, picks@.subrange(0, i as int)),
            warns_view(warnings@) == spec_picks_warnings(files@, picks@.subrange(0, i as int)),
        decreases picks@.len() - i,
    {
        proof {
            assert(picks@.subrange(0, i + 1 as int).drop_last() =~= picks@.subrange(0, i as int));
            assert(picks@.subrange(0, i + 1 as int).last() == picks@[i as int]);
        }
        let p = norm_component(picks[i].as_str());
        if p.unicode_len() > 0 {
            match find_entry_idx(files, p.as_str()) {
                Some(idx) => {
                    if files[idx].is_dir {
                        push_mirror_under(&mut copies, files, p.as_str());
                    } else {
                        let a = CopyAction { from: p.clone(), to: p.clone() };
                        proof {
                            lemma_copies_view_push(copies@, a);
                        }
                        copies.push(a);
                    }
                },
                None => {
                    let w = CopyWarning::MissingPick { pick: p.clone() };
                    proof {
                        lemma_warns_view_push(warnings@, w);
                    }
                    warnings.push(w);
                },
            }
        }
        i = i + 1;
    }
    proof {
        assert(picks@.subrange(0, picks@.len() as int) =~= picks@);
    }
    CopyPlan { dirs: Vec::new(), copies, warnings }
}

proof fn lemma_dir_copies_contains(all: Seq<FsEntry>, dir: Seq<char>, to: Seq<char>, t: int)
    requires
        0 <= t < all.len(),
        !all[t].is_dir,
        spec_starts_with(all[t].path@, dir + seq!['/']),
    ensures
        spec_dir_copies(all, dir, to).contains(
            (
                all[t].path@,
                spec_join(to, all[t].path@.subrange(dir.len() + 1 as int, all[t].path@.len() as int)),
            ),
        ),
    decreases all.len(),
{
    let pair = (
        all[t].path@,
        spec_join(to, all[t].path@.subrange(dir.len() + 1 as int, all[t].path@.len() as int)),
    );
    if t == all.len() - 1 {
        let r = spec_dir_copies(all, dir, to);
        assert(r.last() == pair);
    } else {
        assert(all.drop_last()[t] == all[t]);
        lemma_dir_copies_contains(all.drop_last(), dir, to, t);
        let rest = spec_dir_copies(all.drop_last(), dir, to);
        let j = choose|j: int| 0 <= j < rest.len() && rest[j] == pair;
        assert(spec_dir_copies(all, dir, to)[j] == pair);
    }
}

proof fn lemma_glob_copies_contains_dir(
    gs: Seq<FsEntry>,
    all: Seq<FsEntry>,
    pat: Seq<char>,
    to: Seq<char>,
    k: int,
    pair: (Seq<char>, Seq<char>),
)
    requires
        0 <= k < gs.len(),
        gs[k].is_dir,
        glob_match(pat, gs[k].path@),
        spec_dir_copies(all, gs[k].path@, to).contains(pair),
    ensures
        spec_glob_copies(gs, all, pat, to).contains(pair),
    decreases gs.len(),
{
    let rest = spec_glob_copies(gs.drop_last(), all, pat, to);
    if k == gs.len() - 1 {
        let dc = spec_dir_copies(all, gs[k].path@, to);
        let i = choose|i: int| 0 <= i < dc.len() && dc[i] == pair;
        assert(spec_glob_copies(gs, all, pat, to)[rest.len() + i] == pair);
    } else {
        assert(gs.drop_last()[k] == gs[k]);
        lemma_glob_copies_contains_dir(gs.drop_last(), all, pat, to, k, pair);
        let j = choose|j: int| 0 <= j < rest.len() && rest[j] == pair;
        assert(spec_glob_copies(gs, all, pat, to)[j] == pair);
    }
}

/// A glob rule that matches a directory copies each file beneath it to the
/// destination under the path relative to the matched directory: the
/// matched directory's own name does not appear in the destination.
pub proof fn lemma_glob_dir_drops_matched_name(
    files: Seq<FsEntry>,
    pat: Seq<char>,
    to: Seq<char>,
    k: int,
    t: int,
)
    requires
        0 <= k < files.len(),
        files[k].is_dir,
        glob_match(pat, files[k].path@),
        0 <= t < files.len(),
        !files[t].is_dir,
        spec_starts_with(files[t].path@, files[k].path@ + seq!['/']),
    ensures
        spec_glob_copies(files, files, pat, to).contains(
            (
                files[t].path@,
                spec_join(
                    to,
                    files[t].path@.subrange(
                        files[k].path@.len() + 1 as int,
                        files[t].path@.len() as int,
                    ),
                ),
            ),
        ),
{
    lemma_dir_copies_contains(files, files[k].path@, to, t);
    lemma_glob_copies_contains_dir(
        files,
        files,
        pat,
        to,
        k,
        (
            files[t].path@,
            spec_join(
                to,
                files[t].path@.subrange(
                    files[k].path@.len() + 1 as int,
                    files[t].path@.len() as int,
                ),
            ),
        ),
    );
}

proof fn lemma_glob_copies_contains_file(
    gs: Seq<FsEntry>,
    all: Seq<FsEntry>,
    pat: Seq<char>,
    to: Seq<char>,
    k: int,
)
    requires
        0 <= k < gs.len(),
        !gs[k].is_dir,
        glob_match(pat, gs[k].path@),
    ensures
        spec_glob_copies(gs, all, pat, to).contains(
            (gs[k].path@, spec_join(to, spec_basename(gs[k].path@))),
        ),
    decreases gs.len(),
{
    let pair = (gs[k].path@, spec_join(to, spec_basename(gs[k].path@)));
    let rest = spec_glob_copies(gs.drop_last(), all, pat, to);
    if k == gs.len() - 1 {
        assert(spec_glob_copies(gs, all, pat, to).last() == pair);
    } else {
        assert(gs.drop_last()[k] == gs[k]);
        lemma_glob_copies_contains_file(gs.drop_last(), all, pat, to, k);
        let j = choose|j: int| 0 <= j < rest.len() && rest[j] == pair;
        assert(spec_glob_copies(gs, all, pat, to)[j] == pair);
    }
}

/// A glob rule that matches a plain file copies it under its base name
/// alone: the containing directory does not appear in the destination.
pub proof fn lemma_glob_file_keeps_basename(
    files: Seq<FsEntry>,
    pat: Seq<char>,
    to: Seq<char>,
    k: int,
)
    requires
        0 <= k < files.len(),
        !files[k].is_dir,
        glob_match(pat, files[k].path@),
    ensures
        spec_glob_copies(files, files, pat, to).contains(
            (files[k].path@, spec_join(to, spec_basename(files[k].path@))),
        ),
{
    lemma_glob_copies_contains_file(files, files, pat, to, k);
}

proof fn lemma_glob_copies_empty(gs: Seq<FsEntry>, all: Seq<FsEntry>, pat: Seq<char>, to: Seq<
    char>)
    requires
        forall|k: int| 0 <= k < gs.len() ==> !glob_match(pat, gs[k].path@),
    ensures
        spec_glob_copies(gs, all, pat, to) == Seq::<(Seq<char>, Seq<char>)>::empty(),
    decreases gs.len(),
{
    if gs.len() > 0 {
        assert(forall|k: int|
            0 <= k < gs.drop_last().len() ==> gs.drop_last()[k] == gs[k] && !glob_match(
                pat,
                gs.drop_last()[k].path@,
            ));
        lemma_glob_copies_empty(gs.drop_last(), all, pat, to);
    }
}

/// A glob rule that matches nothing contributes no copies at all — and, by
/// the contract of `copy_mappings`, it does not abort the run: it only
/// leaves a warning.
pub proof fn lemma_unmatched_glob_no_copies(files: Seq<FsEntry>, pat: Seq<char>, to: Seq<char>)
    requires
        !spec_glob_matched_any(files, pat),
    ensures
        spec_glob_copies(files, files, pat, to) == Seq::<(Seq<char>, Seq<char>)>::empty(),
{
    lemma_glob_copies_empty(files, files, pat, to);
}

/// Rules contribute their copies independently: the copies of a rule list
/// split anywhere are the copies of its two parts, in order — a later rule
/// never removes or changes what an earlier rule copies.
pub proof fn lemma_rules_independent(
    files: Seq<FsEntry>,
    ms1: Seq<CopyMapping>,
    ms2: Seq<CopyMapping>,
)
    ensures
        spec_plan_copies(files, ms1 + ms2) == spec_plan_copies(files, ms1) + spec_plan_copies(
            files,
            ms2,
        ),
    decreases ms2.len(),
{
    if ms2.len() == 0 {
        assert(ms1 + ms2 =~= ms1);
        assert(spec_plan_copies(files, ms1) + spec_plan_copies(files, ms2) =~= spec_plan_copies(
            files,
            ms1,
        ));
    } else {
        assert((ms1 + ms2).drop_last() =~= ms1 + ms2.drop_last());
        assert((ms1 + ms2).last() == ms2.last());
        lemma_rules_independent(files, ms1, ms2.drop_last());
        let m = ms2.last();
        if spec_norm(m.from@).len() == 0 {
        } else {
            assert(spec_plan_copies(files, ms1) + (spec_plan_copies(files, ms2.drop_last())
                + spec_rule_copies(files, spec_norm(m.from@), spec_norm(m.to@)))
                =~= (spec_plan_copies(files, ms1) + spec_plan_copies(files, ms2.drop_last()))
                + spec_rule_copies(files, spec_norm(m.from@), spec_norm(m.to@)));
        }
    }
}

} // verus!
