use boiler::vdf::app_build;
use boiler::vdf::depot;
use boiler::vdf::depot_with_os_filter;
use boiler::vdf::Depot;

fn two_depots() -> Vec<Depot> {
    vec![
        Depot { id: 1001, vdf: "depot_content.vdf".to_string() },
        Depot { id: 1002, vdf: "depot_macos.vdf".to_string() },
    ]
}

#[test]
fn app_build_exact_text() {
    let text = app_build(123, "Internal build", Some("internal"), &two_depots());
    let expected = "\"AppBuild\"\n\
{\n\
\x20   \"appid\"    \"123\"\n\
\x20   \"desc\"     \"Internal build\"\n\
\x20   \"setlive\"  \"internal\"\n\
\n\
\x20   \"depots\"\n\
\x20   {\n\
\x20           \"1001\" \"depot_content.vdf\"\n\
\x20           \"1002\" \"depot_macos.vdf\"\n\
\x20   }\n\
}";
    assert_eq!(text, expected);
}

#[test]
fn app_build_without_live_branch_leaves_setlive_empty() {
    let text = app_build(7, "d", None, &vec![]);
    assert!(text.contains("\"setlive\"  \"\"\n"));
}

#[test]
fn app_build_is_deterministic() {
    let a = app_build(42, "x", Some("beta"), &two_depots());
    let b = app_build(42, "x", Some("beta"), &two_depots());
    assert_eq!(a, b);
}

#[test]
fn depot_exact_text() {
    let text = depot(55, "/abs/build/data");
    let expected = "\"DepotBuildConfig\"\n\
{\n\
\x20   \"depotid\"     \"55\"\n\
\x20   \"contentroot\" \"/abs/build/data\"\n\
\x20   \"filemapping\" {\n\
\x20       \"LocalPath\" \"*\"\n\
\x20       \"DepotPath\" \".\"\n\
\x20       \"recursive\" \"1\"\n\
\x20   }\n\
}";
    assert_eq!(text, expected);
}

#[test]
fn os_filter_adds_exactly_the_config_block() {
    let plain = depot(55, "/abs/build/binaries/macos");
    let filtered = depot_with_os_filter(55, "/abs/build/binaries/macos", "macos");
    let plain_close = "\n}";
    let config_close = "\n    \"config\" { \"oslist\" \"macos\" }\n}";
    assert!(plain.ends_with(plain_close));
    assert!(filtered.ends_with(config_close));
    let common_plain = &plain[..plain.len() - plain_close.len()];
    let common_filtered = &filtered[..filtered.len() - config_close.len()];
    assert_eq!(common_plain, common_filtered);
}

#[test]
fn depot_id_renders_in_decimal() {
    let text = depot(18446744073709551615, "/r");
    assert!(text.contains("\"depotid\"     \"18446744073709551615\""));
    let zero = depot(0, "/r");
    assert!(zero.contains("\"depotid\"     \"0\""));
}
