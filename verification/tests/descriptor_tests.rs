use wally_install::descriptor::{descriptor_path, entry_file_candidates};

#[test]
fn descriptor_sits_in_package_root() {
    assert_eq!(descriptor_path("/pkg"), "/pkg/default.project.json");
}

#[test]
fn valid_descriptor_yields_both_entry_candidates() {
    let candidates = entry_file_candidates("/pkg", "{\"tree\": {\"$path\": \"src\"}}");
    let (lua, luau) = candidates.unwrap();
    assert_eq!(lua, "/pkg/src/init.lua");
    assert_eq!(luau, "/pkg/src/init.luau");
}

#[test]
fn invalid_json_yields_no_candidates() {
    assert!(entry_file_candidates("/pkg", "not json at all").is_none());
}

#[test]
fn descriptor_without_tree_yields_no_candidates() {
    assert!(entry_file_candidates("/pkg", "{\"name\": \"x\"}").is_none());
}

#[test]
fn tree_without_path_string_yields_no_candidates() {
    assert!(entry_file_candidates("/pkg", "{\"tree\": {}}").is_none());
    assert!(entry_file_candidates("/pkg", "{\"tree\": {\"$path\": 3}}").is_none());
}
