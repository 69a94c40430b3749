use abbs_meta::package::{defines_path_to_spec_path, package_dir, package_name, PathError};
use abbs_meta::path::{join_path, split};
use abbs_meta::text::{chars_of, contains_chars, str_contains, str_eq};

fn strings(items: &[&str]) -> Vec<String> {
    items.iter().map(|s| s.to_string()).collect()
}

const CORPUS: [&str; 40] = [
    "",
    "/",
    "//",
    ".",
    "./",
    "..",
    "/.",
    "/..",
    "defines",
    "/defines",
    "./defines",
    "../defines",
    "autobuild/defines",
    "/autobuild/defines",
    "./autobuild/defines",
    "a/./defines",
    "a/../defines",
    "a/defines/.",
    "a/defines/",
    "a//defines",
    "cat/pkg/autobuild/defines",
    "/cat/pkg/autobuild/defines",
    "//cat//pkg//autobuild//defines//",
    "./cat/pkg/autobuild/defines",
    "cat/./pkg/./autobuild/./defines",
    "cat/pkg/autobuild/defines/./.",
    "/./cat/pkg/autobuild/defines",
    "extra-doc/jade/autobuild/defines",
    "a/b/c/d/e/defines",
    "类别/包/autobuild/defines",
    "/é/ü/ö/defines",
    "a/.b/c./defines",
    "a/.../defines",
    "././a/./b",
    "a b/c d/e f",
    "x/01-main/defines",
    "/x",
    "x/",
    "/x/.",
    "..//../x",
];

#[test]
fn split_gives_the_segments_in_order() {
    assert_eq!(
        split("cat/pkg/autobuild/defines"),
        strings(&["cat", "pkg", "autobuild", "defines"])
    );
}

#[test]
fn split_of_the_empty_path_is_empty() {
    assert_eq!(split(""), Vec::<String>::new());
}

#[test]
fn split_of_the_root_is_the_root() {
    assert_eq!(split("/"), strings(&["/"]));
    assert_eq!(split("///"), strings(&["/"]));
}

#[test]
fn split_keeps_the_root_in_front() {
    assert_eq!(split("/a/b"), strings(&["/", "a", "b"]));
    assert_eq!(split("/autobuild/defines"), strings(&["/", "autobuild", "defines"]));
}

#[test]
fn split_ignores_trailing_and_repeated_separators() {
    assert_eq!(split("/a//b/"), strings(&["/", "a", "b"]));
    assert_eq!(split("a//b///c//"), strings(&["a", "b", "c"]));
    assert_eq!(split("a"), strings(&["a"]));
    assert_eq!(split("a/"), strings(&["a"]));
}

#[test]
fn split_skips_a_dot_that_is_not_in_front() {
    assert_eq!(split("a/./b"), strings(&["a", "b"]));
    assert_eq!(split("a/b/."), strings(&["a", "b"]));
    assert_eq!(split("a/./././defines"), strings(&["a", "defines"]));
    assert_eq!(split("/./a"), strings(&["/", "a"]));
    assert_eq!(split("/."), strings(&["/"]));
    assert_eq!(split("././a"), strings(&[".", "a"]));
}

#[test]
fn split_keeps_a_dot_in_front_of_a_path_that_does_not_start_at_the_root() {
    assert_eq!(split("./a/b"), strings(&[".", "a", "b"]));
    assert_eq!(split("."), strings(&["."]));
    assert_eq!(split("./"), strings(&["."]));
}

#[test]
fn split_takes_other_segments_of_dots_as_they_are() {
    assert_eq!(split("a/../b"), strings(&["a", "..", "b"]));
    assert_eq!(split("../a"), strings(&["..", "a"]));
    assert_eq!(split("a/.b/c."), strings(&["a", ".b", "c."]));
    assert_eq!(split("a/.../b"), strings(&["a", "...", "b"]));
}

#[test]
fn split_agrees_with_the_components_of_a_standard_path() {
    for text in CORPUS {
        let expected: Vec<String> = std::path::Path::new(text)
            .iter()
            .map(|c| c.to_str().unwrap().to_string())
            .collect();
        assert_eq!(split(text), expected, "{text:?}");
    }
}

#[test]
fn split_counts_characters_not_bytes() {
    assert_eq!(split("类别/包/autobuild/defines"), strings(&["类别", "包", "autobuild", "defines"]));
    assert_eq!(split("é/ü"), strings(&["é", "ü"]));
}

#[test]
fn join_path_puts_one_separator_between_segments() {
    assert_eq!(join_path(&strings(&[])), "");
    assert_eq!(join_path(&strings(&["a"])), "a");
    assert_eq!(join_path(&strings(&["a", "b"])), "a/b");
    assert_eq!(join_path(&strings(&["a", "b", "c"])), "a/b/c");
}

#[test]
fn join_path_writes_the_root_once() {
    assert_eq!(join_path(&strings(&["/"])), "/");
    assert_eq!(join_path(&strings(&["/", "a"])), "/a");
    assert_eq!(join_path(&strings(&["/", "a", "b"])), "/a/b");
}

#[test]
fn split_undoes_join_for_every_path_of_the_corpus() {
    for text in CORPUS {
        let comps = split(text);
        assert_eq!(split(&join_path(&comps)), comps, "{text:?}");
    }
}

#[test]
fn split_undoes_join() {
    let segs = strings(&["extra-doc", "jade", "spec"]);
    let joined = join_path(&segs);
    assert_eq!(joined, "extra-doc/jade/spec");
    assert_eq!(split(&joined), segs);
}

#[test]
fn join_of_split_drops_needless_separators() {
    assert_eq!(join_path(&split("/a//b/")), "/a/b");
    assert_eq!(join_path(&split("a//b/./c/")), "a/b/c");
    assert_eq!(join_path(&split("cat/pkg/spec")), "cat/pkg/spec");
}

#[test]
fn spec_path_lies_two_levels_up() {
    assert_eq!(
        defines_path_to_spec_path("cat/pkg/autobuild/defines"),
        Ok("cat/pkg/spec".to_string())
    );
    assert_eq!(
        defines_path_to_spec_path("extra-doc/jade/autobuild/defines"),
        Ok("extra-doc/jade/spec".to_string())
    );
    assert_eq!(
        defines_path_to_spec_path("a/b/c/d/e/defines"),
        Ok("a/b/c/d/spec".to_string())
    );
}

#[test]
fn spec_path_of_a_path_with_two_segments_is_the_bare_name() {
    assert_eq!(defines_path_to_spec_path("autobuild/defines"), Ok("spec".to_string()));
}

#[test]
fn spec_path_does_not_look_at_the_file_name() {
    assert_eq!(defines_path_to_spec_path("a/b/c"), Ok("a/spec".to_string()));
}

#[test]
fn spec_path_of_a_path_from_the_root_starts_at_the_root() {
    assert_eq!(defines_path_to_spec_path("/autobuild/defines"), Ok("/spec".to_string()));
    assert_eq!(defines_path_to_spec_path("/a/b/c/defines"), Ok("/a/b/spec".to_string()));
    assert_eq!(
        defines_path_to_spec_path("/cat/pkg/autobuild/defines"),
        Ok("/cat/pkg/spec".to_string())
    );
}

#[test]
fn spec_path_skips_a_dot_on_the_way() {
    assert_eq!(defines_path_to_spec_path("a/./defines"), Ok("spec".to_string()));
    assert_eq!(defines_path_to_spec_path("a/b/./c/defines"), Ok("a/b/spec".to_string()));
    assert_eq!(defines_path_to_spec_path("./defines"), Ok("spec".to_string()));
    assert_eq!(defines_path_to_spec_path("./a/b/defines"), Ok("./a/spec".to_string()));
}

#[test]
fn spec_path_of_a_file_in_the_topmost_directory_fails() {
    assert_eq!(defines_path_to_spec_path("defines"), Err(PathError::ParentIsRoot));
    assert_eq!(defines_path_to_spec_path("/defines"), Err(PathError::ParentIsRoot));
    assert_eq!(defines_path_to_spec_path("."), Err(PathError::ParentIsRoot));
}

#[test]
fn spec_path_agrees_with_the_standard_path() {
    for text in CORPUS {
        let path = std::path::Path::new(text);
        let expected = match path.parent() {
            None => Err(PathError::DirectoryIsRoot),
            Some(dir) => match dir.parent() {
                None => Err(PathError::ParentIsRoot),
                Some(up) => Ok(up.join("spec")),
            },
        };
        let found = defines_path_to_spec_path(text).map(std::path::PathBuf::from);
        assert_eq!(found, expected, "{text:?}");
    }
}

#[test]
fn package_name_and_directory_agree_with_the_standard_path() {
    for text in CORPUS {
        let path = std::path::Path::new(text);
        let name = path.iter().nth_back(2).map(|c| c.to_str().unwrap().to_string());
        assert_eq!(package_name(text), name, "{text:?}");
        let dir = path.ancestors().nth(2).map(|d| d.to_path_buf());
        assert_eq!(package_dir(text).map(std::path::PathBuf::from), dir, "{text:?}");
    }
}

#[test]
fn spec_path_of_nothing_fails() {
    assert_eq!(defines_path_to_spec_path(""), Err(PathError::DirectoryIsRoot));
    assert_eq!(defines_path_to_spec_path("/"), Err(PathError::DirectoryIsRoot));
}

#[test]
fn path_errors_read_as_sentences() {
    assert_eq!(
        PathError::DirectoryIsRoot.describe(""),
        "The directory of defines file  is root."
    );
    assert_eq!(
        PathError::ParentIsRoot.describe("defines"),
        "The parent directory of defines file defines is root."
    );
}

#[test]
fn pairing_holds_of_computed_spec_paths() {
    for defines in [
        "cat/pkg/autobuild/defines",
        "x/defines",
        "a/b/c/d/defines",
        "é/ü/ö/defines",
        "/x/y/defines",
        "/y/defines",
    ] {
        let spec = defines_path_to_spec_path(defines).unwrap();
        let mut expected = split(defines);
        expected.pop();
        expected.pop();
        expected.push("spec".to_string());
        assert_eq!(split(&spec), expected);
    }
}

#[test]
fn package_name_is_the_third_segment_from_the_end() {
    assert_eq!(package_name("extra-doc/jade/autobuild/defines"), Some("jade".to_string()));
    assert_eq!(package_name("jade/autobuild/defines"), Some("jade".to_string()));
    assert_eq!(package_name("a/b/c/d/e"), Some("c".to_string()));
}

#[test]
fn package_name_of_a_path_from_the_root_may_be_the_root() {
    assert_eq!(package_name("/autobuild/defines"), Some("/".to_string()));
    assert_eq!(package_name("/jade/autobuild/defines"), Some("jade".to_string()));
    assert_eq!(package_name("/defines"), None);
}

#[test]
fn package_name_needs_three_segments() {
    assert_eq!(package_name("autobuild/defines"), None);
    assert_eq!(package_name("defines"), None);
    assert_eq!(package_name(""), None);
}

#[test]
fn package_dir_is_the_path_two_levels_up() {
    assert_eq!(package_dir("extra-doc/jade/autobuild/defines"), Some("extra-doc/jade".to_string()));
    assert_eq!(package_dir("jade/autobuild/defines"), Some("jade".to_string()));
    assert_eq!(package_dir("autobuild/defines"), Some(String::new()));
}

#[test]
fn package_dir_of_a_path_from_the_root_starts_at_the_root() {
    assert_eq!(package_dir("/autobuild/defines"), Some("/".to_string()));
    assert_eq!(package_dir("/extra-doc/jade/autobuild/defines"), Some("/extra-doc/jade".to_string()));
    assert_eq!(package_dir("/defines"), None);
    assert_eq!(package_dir("/"), None);
}

#[test]
fn package_dir_needs_two_segments() {
    assert_eq!(package_dir("defines"), None);
    assert_eq!(package_dir(""), None);
}

#[test]
fn chars_of_gives_each_character() {
    assert_eq!(chars_of("aé包"), vec!['a', 'é', '包']);
    assert_eq!(chars_of(""), Vec::<char>::new());
}

#[test]
fn str_eq_compares_text() {
    assert!(str_eq("defines", "defines"));
    assert!(str_eq("", ""));
    assert!(!str_eq("defines", "define"));
    assert!(!str_eq("define", "defines"));
    assert!(!str_eq("spec", "spek"));
    assert!(str_eq("包", "包"));
    assert!(!str_eq("包", "类"));
}

#[test]
fn str_contains_finds_a_run_of_characters() {
    assert!(str_contains("fix security hole", "security"));
    assert!(str_contains("security", "security"));
    assert!(str_contains("xsecurity", "security"));
    assert!(str_contains("securitysecurity", "security"));
    assert!(str_contains("anything", ""));
    assert!(str_contains("", ""));
    assert!(!str_contains("", "security"));
    assert!(!str_contains("securit", "security"));
    assert!(!str_contains("secu rity", "security"));
    assert!(!str_contains("Security", "security"));
}

#[test]
fn contains_chars_agrees_with_the_standard_search() {
    let hays = ["", "a", "ab", "aab", "abab", "bbbab", "sesecurity", "包security包"];
    let needles = ["", "a", "b", "ab", "ba", "aab", "security", "包"];
    for hay in hays {
        for needle in needles {
            let h: Vec<char> = hay.chars().collect();
            let n: Vec<char> = needle.chars().collect();
            assert_eq!(contains_chars(&h, &n), hay.contains(needle), "{hay:?} {needle:?}");
        }
    }
}
