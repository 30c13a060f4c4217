use boiler::args::resolve_targets;
use boiler::args::Target;

#[test]
fn empty_request_selects_all_targets() {
    let sel = resolve_targets(&vec![]);
    assert!(sel.content);
    assert!(sel.mac);
    assert!(sel.linux);
    assert!(sel.windows);
}

#[test]
fn empty_request_equals_full_request() {
    let empty = resolve_targets(&vec![]);
    let full = resolve_targets(&vec![
        Target::Content,
        Target::Mac,
        Target::Linux,
        Target::Windows,
    ]);
    assert_eq!(empty, full);
}

#[test]
fn explicit_request_selects_exactly_what_it_names() {
    let sel = resolve_targets(&vec![Target::Mac, Target::Content]);
    assert!(sel.content);
    assert!(sel.mac);
    assert!(!sel.linux);
    assert!(!sel.windows);
}

#[test]
fn duplicate_targets_collapse() {
    let once = resolve_targets(&vec![Target::Linux]);
    let twice = resolve_targets(&vec![Target::Linux, Target::Linux]);
    assert_eq!(once, twice);
    assert!(twice.linux);
    assert!(!twice.content);
}
