use abbs_meta::package::{defines_path_to_spec_path, discover, get_tree_dirs, Discovery};
use abbs_meta::path::split;

fn files(items: &[&str]) -> Vec<String> {
    items.iter().map(|s| s.to_string()).collect()
}

fn pairs(items: &[(&str, &str)]) -> Vec<(String, String)> {
    items.iter().map(|(a, b)| (a.to_string(), b.to_string())).collect()
}

#[test]
fn a_directory_with_both_files_is_discovered() {
    let tree = files(&["cat/pkg/spec", "cat/pkg/autobuild/defines"]);
    assert_eq!(get_tree_dirs(&tree), pairs(&[("cat/pkg/spec", "cat/pkg/autobuild/defines")]));
}

#[test]
fn a_directory_without_its_spec_is_left_out() {
    let tree = files(&["cat/pkg/autobuild/defines"]);
    assert_eq!(get_tree_dirs(&tree), vec![]);
}

#[test]
fn a_spec_elsewhere_does_not_count() {
    let tree = files(&[
        "cat/pkg/autobuild/defines",
        "cat/other/spec",
        "cat/pkg/autobuild/spec",
        "cat/spec",
        "pkg/spec",
    ]);
    assert_eq!(get_tree_dirs(&tree), vec![]);
}

#[test]
fn an_empty_tree_has_no_packages() {
    assert_eq!(get_tree_dirs(&vec![]), vec![]);
}

#[test]
fn a_tree_without_defines_has_no_packages() {
    let tree = files(&["README.md", "cat/pkg/spec", "cat/pkg/autobuild/build", "defines.txt"]);
    assert_eq!(get_tree_dirs(&tree), vec![]);
}

#[test]
fn pairs_come_in_the_order_of_their_defines() {
    let tree = files(&[
        "b/two/autobuild/defines",
        "a/one/spec",
        "a/one/autobuild/defines",
        "a/one/autobuild/build",
        "b/two/spec",
        "c/three/autobuild/defines",
    ]);
    assert_eq!(
        get_tree_dirs(&tree),
        pairs(&[
            ("b/two/spec", "b/two/autobuild/defines"),
            ("a/one/spec", "a/one/autobuild/defines"),
        ])
    );
}

#[test]
fn a_file_listed_twice_gives_one_pair() {
    let tree = files(&[
        "cat/pkg/autobuild/defines",
        "cat/pkg/spec",
        "cat/pkg/autobuild/defines",
        "cat/pkg//autobuild/defines",
    ]);
    assert_eq!(get_tree_dirs(&tree), pairs(&[("cat/pkg/spec", "cat/pkg/autobuild/defines")]));
}

#[test]
fn only_the_last_segment_names_a_defines_file() {
    let tree = files(&["cat/defines/x", "cat/spec", "spec", "cat/pkg/autobuild/defines.bak"]);
    assert_eq!(get_tree_dirs(&tree), vec![]);
}

#[test]
fn a_defines_one_level_down_pairs_with_a_spec_at_the_root() {
    let tree = files(&["autobuild/defines", "spec"]);
    assert_eq!(get_tree_dirs(&tree), pairs(&[("spec", "autobuild/defines")]));
}

#[test]
fn a_defines_in_the_topmost_directory_does_not_stop_the_discovery() {
    let tree = files(&["defines", "cat/pkg/spec", "cat/pkg/autobuild/defines"]);
    assert_eq!(get_tree_dirs(&tree), pairs(&[("cat/pkg/spec", "cat/pkg/autobuild/defines")]));
    let tree = files(&["cat/pkg/spec", "cat/pkg/autobuild/defines", "defines", "spec"]);
    assert_eq!(get_tree_dirs(&tree), pairs(&[("cat/pkg/spec", "cat/pkg/autobuild/defines")]));
}

#[test]
fn a_defines_in_the_topmost_directory_gives_no_pair() {
    assert_eq!(get_tree_dirs(&files(&["defines"])), vec![]);
    assert_eq!(get_tree_dirs(&files(&["defines", "spec"])), vec![]);
    assert_eq!(get_tree_dirs(&files(&["/defines", "/spec"])), vec![]);
    assert_eq!(
        discover(&files(&["defines", "spec"])),
        Discovery { pairs: vec![], missing: vec![] }
    );
}

#[test]
fn the_pairs_are_those_of_the_tree_without_the_stray_file() {
    let with = files(&[
        "a/one/spec",
        "defines",
        "a/one/autobuild/defines",
        "b/two/autobuild/defines",
        "/defines",
        "c/three/01-x/defines",
        "c/three/spec",
    ]);
    let without: Vec<String> =
        with.iter().filter(|f| *f != "defines" && *f != "/defines").cloned().collect();
    assert_eq!(discover(&with), discover(&without));
    assert_eq!(
        get_tree_dirs(&with),
        pairs(&[
            ("a/one/spec", "a/one/autobuild/defines"),
            ("c/three/spec", "c/three/01-x/defines"),
        ])
    );
}

#[test]
fn a_tree_listed_from_the_root_is_discovered_from_the_root() {
    let tree = files(&["/cat/pkg/spec", "/cat/pkg/autobuild/defines", "/autobuild/defines", "/spec"]);
    assert_eq!(
        get_tree_dirs(&tree),
        pairs(&[
            ("/cat/pkg/spec", "/cat/pkg/autobuild/defines"),
            ("/spec", "/autobuild/defines"),
        ])
    );
}

#[test]
fn a_path_from_the_root_and_one_that_is_not_name_different_places() {
    let tree = files(&["cat/pkg/spec", "/cat/pkg/autobuild/defines"]);
    assert_eq!(
        discover(&tree),
        Discovery {
            pairs: vec![],
            missing: pairs(&[("/cat/pkg/spec", "/cat/pkg/autobuild/defines")]),
        }
    );
}

#[test]
fn subpackage_directories_are_discovered_too() {
    let tree = files(&[
        "cat/pkg/spec",
        "cat/pkg/01-main/defines",
        "cat/pkg/02-extra/defines",
        "cat/pkg/01-main/build",
    ]);
    assert_eq!(
        get_tree_dirs(&tree),
        pairs(&[
            ("cat/pkg/spec", "cat/pkg/01-main/defines"),
            ("cat/pkg/spec", "cat/pkg/02-extra/defines"),
        ])
    );
}

#[test]
fn every_discovered_pair_obeys_the_pairing() {
    let tree = files(&[
        "app-a/x/spec",
        "app-a/x/autobuild/defines",
        "app-b/y/spec",
        "app-b/y/01-y/defines",
        "app-b/y/02-z/defines",
        "app-c/lonely/autobuild/defines",
        "top/defines",
        "spec",
    ]);
    let found = get_tree_dirs(&tree);
    assert_eq!(found.len(), 4);
    for (spec, defines) in &found {
        assert!(tree.contains(spec));
        assert!(tree.contains(defines));
        assert_eq!(defines_path_to_spec_path(defines), Ok(spec.clone()));
        let mut expected = split(defines);
        assert_eq!(expected.pop(), Some("defines".to_string()));
        expected.pop();
        expected.push("spec".to_string());
        assert_eq!(split(spec), expected);
    }
}

#[test]
fn a_directory_without_its_spec_is_reported_as_missing_it() {
    let tree = files(&["cat/pkg/autobuild/defines"]);
    assert_eq!(
        discover(&tree),
        Discovery {
            pairs: vec![],
            missing: pairs(&[("cat/pkg/spec", "cat/pkg/autobuild/defines")]),
        }
    );
}

#[test]
fn discover_tells_pairs_from_directories_without_spec() {
    let tree = files(&[
        "a/one/autobuild/defines",
        "b/two/autobuild/defines",
        "b/two/spec",
        "c/three/01-x/defines",
        "a/one/autobuild/defines",
        "README",
    ]);
    let found = discover(&tree);
    assert_eq!(found.pairs, pairs(&[("b/two/spec", "b/two/autobuild/defines")]));
    assert_eq!(
        found.missing,
        pairs(&[
            ("a/one/spec", "a/one/autobuild/defines"),
            ("c/three/spec", "c/three/01-x/defines"),
        ])
    );
    assert_eq!(get_tree_dirs(&tree), found.pairs);
}

#[test]
fn discover_of_an_empty_tree_finds_nothing() {
    assert_eq!(discover(&vec![]), Discovery { pairs: vec![], missing: vec![] });
}

#[test]
fn a_dot_on_the_way_does_not_hide_a_directory() {
    let tree = files(&["cat/./pkg/spec", "cat/pkg/./autobuild/defines"]);
    assert_eq!(get_tree_dirs(&tree), pairs(&[("cat/pkg/spec", "cat/pkg/./autobuild/defines")]));
}
