use boiler::args::Target;
use boiler::run::app_build_file_name;
use boiler::run::binaries_buildinfo;
use boiler::run::content_buildinfo;
use boiler::run::forbidden_live_branch;
use boiler::run::plan_run;
use boiler::run::platform_archive_url;
use boiler::run::selected_depots;
use boiler::run::DirOp;
use boiler::vdf::app_build;

#[test]
fn forbidden_branches_are_case_insensitive() {
    assert!(forbidden_live_branch("default"));
    assert!(forbidden_live_branch("Default"));
    assert!(forbidden_live_branch("PUBLIC"));
    assert!(!forbidden_live_branch("internal"));
    assert!(!forbidden_live_branch("beta"));
    assert!(!forbidden_live_branch(""));
}

#[test]
fn forbidden_branch_aborts_before_any_plan_exists() {
    let err = plan_run(&Some("Public".to_string()), &vec![Target::Mac], false).unwrap_err();
    assert_eq!(err.branch, "Public");
}

#[test]
fn keep_mode_cleans_only_gated_subtrees_in_place() {
    let plan = plan_run(&Some("beta".to_string()), &vec![Target::Mac], true).unwrap();
    assert!(!plan.lifecycle.wipe_build_root);
    assert!(plan.lifecycle.wipe_temp_root);
    assert_eq!(plan.lifecycle.mac, Some(DirOp::Clean));
    assert_eq!(plan.lifecycle.content, None);
    assert_eq!(plan.lifecycle.linux, None);
    assert_eq!(plan.lifecycle.windows, None);
}

#[test]
fn default_mode_wipes_the_root_and_creates_gated_subtrees() {
    let plan = plan_run(&None, &vec![Target::Content, Target::Linux], false).unwrap();
    assert!(plan.lifecycle.wipe_build_root);
    assert!(plan.lifecycle.wipe_temp_root);
    assert_eq!(plan.lifecycle.content, Some(DirOp::Create));
    assert_eq!(plan.lifecycle.linux, Some(DirOp::Create));
    assert_eq!(plan.lifecycle.mac, None);
    assert_eq!(plan.lifecycle.windows, None);
}

#[test]
fn all_depots_in_canonical_order() {
    let plan = plan_run(&None, &vec![], false).unwrap();
    let depots = selected_depots(plan.selection, 11, 22, 33, 44);
    let got: Vec<(u64, String)> = depots.iter().map(|d| (d.id, d.vdf.clone())).collect();
    assert_eq!(
        got,
        vec![
            (11, "depot_content.vdf".to_string()),
            (22, "depot_macos.vdf".to_string()),
            (33, "depot_linux.vdf".to_string()),
            (44, "depot_windows.vdf".to_string()),
        ]
    );
}

#[test]
fn umbrella_descriptor_lists_only_selected_depots() {
    let plan = plan_run(&None, &vec![Target::Windows, Target::Content], false).unwrap();
    let depots = selected_depots(plan.selection, 11, 22, 33, 44);
    let got: Vec<(u64, String)> = depots.iter().map(|d| (d.id, d.vdf.clone())).collect();
    assert_eq!(
        got,
        vec![(11, "depot_content.vdf".to_string()), (44, "depot_windows.vdf".to_string())]
    );
    let text = app_build(9, "d", None, &depots);
    assert!(text.contains("\"11\" \"depot_content.vdf\""));
    assert!(text.contains("\"44\" \"depot_windows.vdf\""));
    assert!(!text.contains("depot_macos.vdf"));
    assert!(!text.contains("depot_linux.vdf"));
}

#[test]
fn platform_archive_urls() {
    assert_eq!(
        platform_archive_url("https://h/r/v1.0/game", Target::Mac).unwrap(),
        "https://h/r/v1.0/game-darwin-arm64.tar.gz"
    );
    assert_eq!(
        platform_archive_url("p", Target::Windows).unwrap(),
        "p-windows-x86_64.zip"
    );
    assert_eq!(
        platform_archive_url("p", Target::Linux).unwrap(),
        "p-linux-x86_64.tar.gz"
    );
    assert!(platform_archive_url("p", Target::Content).is_none());
}

#[test]
fn app_build_file_name_carries_the_app_id() {
    assert_eq!(app_build_file_name(480), "app_build_480.vdf");
}

#[test]
fn content_buildinfo_exact_text() {
    let s = content_buildinfo("org", "game", "abc123", "2024-05-01T10:00:00+00:00", "2024-05-02T00:00:00Z");
    assert_eq!(
        s,
        "repo: org/game\ncommit: abc123\ncommitted_at_utc: 2024-05-01T10:00:00+00:00\nbuilt_at_utc: 2024-05-02T00:00:00Z\n"
    );
}

#[test]
fn binaries_buildinfo_exact_text() {
    let s = binaries_buildinfo("org", "game", "1.2.3", "2024-05-02T00:00:00Z");
    assert_eq!(s, "repo: org/game\nversion: 1.2.3\nbuilt_at_utc: 2024-05-02T00:00:00Z\n");
}
