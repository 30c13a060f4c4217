use boiler::fetch::flatten_decision;
use boiler::fetch::DirEntryInfo;
use boiler::fetch::FlattenAction;

fn e(name: &str, is_dir: bool) -> DirEntryInfo {
    DirEntryInfo { name: name.to_string(), is_dir }
}

#[test]
fn single_directory_is_hoisted() {
    let r = flatten_decision(&vec![e("pkg-1.2.3", true)]);
    assert!(matches!(r, FlattenAction::Hoist { wrapper } if wrapper == "pkg-1.2.3"));
}

#[test]
fn macosx_metadata_entry_is_ignored() {
    let r = flatten_decision(&vec![e("__MACOSX", true), e("pkg", true)]);
    assert!(matches!(r, FlattenAction::Hoist { wrapper } if wrapper == "pkg"));
}

#[test]
fn single_file_is_left_in_place() {
    let r = flatten_decision(&vec![e("game.bin", false)]);
    assert!(matches!(r, FlattenAction::Leave));
}

#[test]
fn two_entries_are_left_in_place() {
    let r = flatten_decision(&vec![e("a", true), e("b", true)]);
    assert!(matches!(r, FlattenAction::Leave));
}

#[test]
fn empty_destination_is_left_in_place() {
    let r = flatten_decision(&vec![]);
    assert!(matches!(r, FlattenAction::Leave));
}

#[test]
fn only_macosx_entry_is_left_in_place() {
    let r = flatten_decision(&vec![e("__MACOSX", true)]);
    assert!(matches!(r, FlattenAction::Leave));
}
