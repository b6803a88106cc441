use game_in_rust::resources::{contains_nul, drop_first_char, resource_path_parts, strip_root};

#[test]
fn resource_names_split_at_slashes() {
    assert_eq!(resource_path_parts("levels/level1.txt"), vec!["levels", "level1.txt"]);
    assert_eq!(resource_path_parts("a"), vec!["a"]);
    assert_eq!(resource_path_parts(""), vec![""]);
    assert_eq!(resource_path_parts("a//b/"), vec!["a", "", "b", ""]);
}

#[test]
fn strip_root_removes_every_occurrence() {
    assert_eq!(strip_root("/game/assets/models/a.glb", "/game/assets"), "/models/a.glb");
    assert_eq!(strip_root("abab", "ab"), "");
    assert_eq!(strip_root("aaa", "aa"), "a");
    assert_eq!(strip_root("xyz", ""), "xyz");
    assert_eq!(strip_root("xyz", "q"), "xyz");
    assert_eq!(strip_root("x/root/y/root", "/root"), "x/y");
    for (full, root) in [("abcabc", "bc"), ("aaaa", "aa"), ("a.b.c", ".")] {
        assert_eq!(strip_root(full, root), full.replace(root, ""));
    }
}

#[test]
fn drop_first_char_is_the_rest() {
    assert_eq!(drop_first_char("/models/a.glb"), "models/a.glb");
    assert_eq!(drop_first_char("x"), "");
    assert_eq!(drop_first_char("/é"), "é");
}

#[test]
fn nul_bytes_are_found() {
    assert!(!contains_nul(&vec![]));
    assert!(!contains_nul(&b"shader".to_vec()));
    assert!(contains_nul(&vec![1, 2, 0, 3]));
    assert!(contains_nul(&vec![0]));
}
