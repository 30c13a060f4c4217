use boiler::fsutil::copy_mappings;
use boiler::fsutil::copy_selected_dirs;
use boiler::fsutil::has_glob_meta;
use boiler::fsutil::norm_component;
use boiler::fsutil::CopyMapping;
use boiler::fsutil::CopyWarning;
use boiler::fsutil::FsEntry;

fn entry(path: &str, is_dir: bool) -> FsEntry {
    FsEntry { path: path.to_string(), is_dir }
}

fn rule(from: &str, to: &str) -> CopyMapping {
    CopyMapping { from: from.to_string(), to: to.to_string() }
}

fn icons_tree() -> Vec<FsEntry> {
    vec![
        entry("data", true),
        entry("data/icons", true),
        entry("data/icons/a.png", false),
        entry("data/icons/sub", true),
        entry("data/icons/sub/b.png", false),
    ]
}

fn pairs(plan: &boiler::fsutil::CopyPlan) -> Vec<(String, String)> {
    plan.copies.iter().map(|c| (c.from.clone(), c.to.clone())).collect()
}

#[test]
fn glob_on_files_is_not_recursive() {
    let plan = copy_mappings(&icons_tree(), &vec![rule("data/icons/*.png", "assets/")]).unwrap();
    assert_eq!(
        pairs(&plan),
        vec![("data/icons/a.png".to_string(), "assets/a.png".to_string())]
    );
    assert!(plan.warnings.is_empty());
}

#[test]
fn glob_matching_a_directory_drops_its_name() {
    let plan = copy_mappings(&icons_tree(), &vec![rule("data/ico*", "assets")]).unwrap();
    assert_eq!(
        pairs(&plan),
        vec![
            ("data/icons/a.png".to_string(), "assets/a.png".to_string()),
            ("data/icons/sub/b.png".to_string(), "assets/sub/b.png".to_string()),
        ]
    );
}

#[test]
fn glob_matching_a_file_keeps_only_its_basename() {
    let plan = copy_mappings(&icons_tree(), &vec![rule("data/icons/sub/b.p?g", "out")]).unwrap();
    assert_eq!(
        pairs(&plan),
        vec![("data/icons/sub/b.png".to_string(), "out/b.png".to_string())]
    );
}

#[test]
fn unmatched_glob_warns_and_copies_nothing() {
    let plan = copy_mappings(&icons_tree(), &vec![rule("data/nope*", "assets")]).unwrap();
    assert!(plan.copies.is_empty());
    assert_eq!(plan.warnings.len(), 1);
    assert!(matches!(&plan.warnings[0], CopyWarning::UnmatchedGlob { from } if from == "data/nope*"));
    // the destination directory is still requested, but holds no file
    assert_eq!(plan.dirs, vec!["assets".to_string()]);
}

#[test]
fn literal_directory_rule_preserves_relative_paths() {
    let plan = copy_mappings(&icons_tree(), &vec![rule("data/icons", "mirror")]).unwrap();
    assert_eq!(
        pairs(&plan),
        vec![
            ("data/icons/a.png".to_string(), "mirror/a.png".to_string()),
            ("data/icons/sub/b.png".to_string(), "mirror/sub/b.png".to_string()),
        ]
    );
}

#[test]
fn literal_file_rule_uses_basename() {
    let plan = copy_mappings(&icons_tree(), &vec![rule("data/icons/a.png", "x")]).unwrap();
    assert_eq!(pairs(&plan), vec![("data/icons/a.png".to_string(), "x/a.png".to_string())]);
}

#[test]
fn missing_literal_path_warns_and_continues() {
    let plan = copy_mappings(
        &icons_tree(),
        &vec![rule("data/gone.txt", "x"), rule("data/icons/a.png", "x")],
    )
    .unwrap();
    assert_eq!(pairs(&plan), vec![("data/icons/a.png".to_string(), "x/a.png".to_string())]);
    assert_eq!(plan.warnings.len(), 1);
    assert!(matches!(&plan.warnings[0], CopyWarning::PathNotFound { from } if from == "data/gone.txt"));
}

#[test]
fn empty_from_warns_and_is_skipped() {
    let plan = copy_mappings(&icons_tree(), &vec![rule("//", "x")]).unwrap();
    assert!(plan.copies.is_empty());
    assert!(plan.dirs.is_empty());
    assert_eq!(plan.warnings.len(), 1);
    assert!(matches!(&plan.warnings[0], CopyWarning::EmptyFrom { .. }));
}

#[test]
fn invalid_glob_pattern_aborts() {
    let err = copy_mappings(&icons_tree(), &vec![rule("data/***", "x")]).unwrap_err();
    assert_eq!(err.pattern, "data/***");
}

#[test]
fn two_rules_into_one_destination_coexist() {
    let plan = copy_mappings(
        &icons_tree(),
        &vec![rule("data/icons/a.png", "shared"), rule("data/icons/sub/b.png", "shared")],
    )
    .unwrap();
    assert_eq!(
        pairs(&plan),
        vec![
            ("data/icons/a.png".to_string(), "shared/a.png".to_string()),
            ("data/icons/sub/b.png".to_string(), "shared/b.png".to_string()),
        ]
    );
}

#[test]
fn rule_components_are_normalized() {
    let plan = copy_mappings(&icons_tree(), &vec![rule(" data/icons/a.png ", "/assets/")]).unwrap();
    assert_eq!(pairs(&plan), vec![("data/icons/a.png".to_string(), "assets/a.png".to_string())]);
    assert_eq!(plan.dirs, vec!["assets".to_string()]);
}

#[test]
fn empty_destination_copies_into_the_root() {
    let plan = copy_mappings(&icons_tree(), &vec![rule("data/icons/a.png", "")]).unwrap();
    assert_eq!(pairs(&plan), vec![("data/icons/a.png".to_string(), "a.png".to_string())]);
}

#[test]
fn glob_character_class_matches() {
    let plan = copy_mappings(&icons_tree(), &vec![rule("data/icons/[ab].png", "cls")]).unwrap();
    assert_eq!(pairs(&plan), vec![("data/icons/a.png".to_string(), "cls/a.png".to_string())]);
}

#[test]
fn glob_matching_is_case_sensitive() {
    let plan = copy_mappings(&icons_tree(), &vec![rule("data/icons/A*.png", "x")]).unwrap();
    assert!(plan.copies.is_empty());
    assert!(matches!(&plan.warnings[0], CopyWarning::UnmatchedGlob { .. }));
}

#[test]
fn glob_star_does_not_cross_separators_for_directories() {
    // `data/*` matches the `data/icons` directory but none of the files
    // below it; the matched directory contributes its subtree with its own
    // name dropped.
    let plan = copy_mappings(&icons_tree(), &vec![rule("data/*", "out")]).unwrap();
    assert_eq!(
        pairs(&plan),
        vec![
            ("data/icons/a.png".to_string(), "out/a.png".to_string()),
            ("data/icons/sub/b.png".to_string(), "out/sub/b.png".to_string()),
        ]
    );
}

#[test]
fn destination_directories_accumulate_in_rule_order() {
    let plan = copy_mappings(
        &icons_tree(),
        &vec![rule("data/icons/a.png", "one"), rule("data/icons", "two/")],
    )
    .unwrap();
    assert_eq!(plan.dirs, vec!["one".to_string(), "two".to_string()]);
}

#[test]
fn norm_component_trims_separators_then_whitespace() {
    assert_eq!(norm_component("/data/"), "data");
    assert_eq!(norm_component("  x  "), "x");
    assert_eq!(norm_component(" /a/ "), "/a/");
    assert_eq!(norm_component("///"), "");
}

#[test]
fn glob_metacharacter_detection() {
    assert!(has_glob_meta("a*b"));
    assert!(has_glob_meta("a?b"));
    assert!(has_glob_meta("a[b]"));
    assert!(has_glob_meta("a{b"));
    assert!(!has_glob_meta("plain/path.txt"));
}

#[test]
fn selected_dirs_with_no_picks_mirror_everything() {
    let plan = copy_selected_dirs(&icons_tree(), &vec![]);
    assert_eq!(
        pairs(&plan),
        vec![
            ("data/icons/a.png".to_string(), "data/icons/a.png".to_string()),
            ("data/icons/sub/b.png".to_string(), "data/icons/sub/b.png".to_string()),
        ]
    );
    assert!(plan.warnings.is_empty());
}

#[test]
fn selected_dirs_mirror_each_pick_under_its_own_name() {
    let files = vec![
        entry("data", true),
        entry("data/a.txt", false),
        entry("docs", true),
        entry("docs/d.md", false),
    ];
    let plan = copy_selected_dirs(&files, &vec!["data".to_string()]);
    assert_eq!(pairs(&plan), vec![("data/a.txt".to_string(), "data/a.txt".to_string())]);
}

#[test]
fn selected_dirs_missing_pick_warns_and_continues() {
    let files = vec![entry("data", true), entry("data/a.txt", false)];
    let plan = copy_selected_dirs(&files, &vec!["gone".to_string(), "data".to_string()]);
    assert_eq!(pairs(&plan), vec![("data/a.txt".to_string(), "data/a.txt".to_string())]);
    assert_eq!(plan.warnings.len(), 1);
    assert!(matches!(&plan.warnings[0], CopyWarning::MissingPick { pick } if pick == "gone"));
}
