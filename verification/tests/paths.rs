use image_parse::path::{directory_of, split, to_chars, SEPARATOR};
use std::path::{Component, Path};

fn components_of(path: &str) -> Vec<String> {
    Path::new(path)
        .components()
        .filter_map(|component| match component {
            Component::Normal(name) => name.to_str().map(|name| name.to_string()),
            Component::CurDir => Some(".".to_string()),
            Component::ParentDir => Some("..".to_string()),
            _ => None,
        })
        .collect()
}

fn names(parts: &[&str]) -> Vec<String> {
    parts.iter().map(|part| part.to_string()).collect()
}

#[test]
fn the_separator_is_a_slash() {
    assert_eq!(SEPARATOR, '/');
}

#[test]
fn to_chars_keeps_every_character() {
    assert_eq!(to_chars("a/b.png"), vec!['a', '/', 'b', '.', 'p', 'n', 'g']);
    assert_eq!(to_chars(""), Vec::<char>::new());
    assert_eq!(to_chars("\u{00E9}\u{4E2D}"), vec!['\u{00E9}', '\u{4E2D}']);
}

#[test]
fn split_gives_the_components_in_order() {
    assert_eq!(split("a/b/c.png"), names(&["a", "b", "c.png"]));
    assert_eq!(split("a"), names(&["a"]));
    assert_eq!(split("/usr/lib"), names(&["usr", "lib"]));
}

#[test]
fn split_ignores_empty_runs_between_separators() {
    assert_eq!(split("a//b"), names(&["a", "b"]));
    assert_eq!(split("a/b/"), names(&["a", "b"]));
    assert_eq!(split("//a///b//"), names(&["a", "b"]));
}

#[test]
fn split_of_no_component_is_empty() {
    assert_eq!(split(""), Vec::<String>::new());
    assert_eq!(split("/"), Vec::<String>::new());
    assert_eq!(split("///"), Vec::<String>::new());
}

#[test]
fn split_reads_dots_as_names() {
    assert_eq!(split("./a/../b"), names(&[".", "a", "..", "b"]));
}

#[test]
fn split_counts_characters_not_bytes() {
    assert_eq!(split("\u{00E9}t\u{00E9}/\u{4E2D}.png"), names(&["\u{00E9}t\u{00E9}", "\u{4E2D}.png"]));
}

#[test]
fn directory_of_cuts_before_the_file_name() {
    assert_eq!(directory_of("out/sub/b.jpg"), "out/sub/");
    assert_eq!(directory_of("out/a.jpg"), "out/");
    assert_eq!(directory_of("a.jpg"), "");
    assert_eq!(directory_of("/a.jpg"), "/");
    assert_eq!(directory_of("out/sub/"), "out/");
    assert_eq!(directory_of("out//a.jpg"), "out//");
}

#[test]
fn directory_of_a_path_without_component_is_empty() {
    assert_eq!(directory_of(""), "");
    assert_eq!(directory_of("/"), "");
}

#[test]
fn directory_holds_all_components_but_the_last() {
    let path: &str = "out/x/y/z.jpg";
    let mut expected: Vec<String> = split(path);
    expected.pop();
    assert_eq!(split(&directory_of(path)), expected);
}

#[test]
fn split_leaves_out_every_dot_but_a_leading_one() {
    assert_eq!(split("a/./b"), names(&["a", "b"]));
    assert_eq!(split("a/b/."), names(&["a", "b"]));
    assert_eq!(split("a/./././b/./"), names(&["a", "b"]));
    assert_eq!(split("./a"), names(&[".", "a"]));
    assert_eq!(split("././a"), names(&[".", "a"]));
    assert_eq!(split("."), names(&["."]));
    assert_eq!(split("./"), names(&["."]));
    assert_eq!(split("/."), Vec::<String>::new());
    assert_eq!(split("/./a"), names(&["a"]));
}

#[test]
fn split_keeps_the_parent_and_names_that_only_look_like_dots() {
    assert_eq!(split("a/../b"), names(&["a", "..", "b"]));
    assert_eq!(split(".."), names(&[".."]));
    assert_eq!(split("a/.../b"), names(&["a", "...", "b"]));
    assert_eq!(split("a/.b/c."), names(&["a", ".b", "c."]));
}

#[test]
fn split_gives_the_components_of_the_standard_library() {
    let paths: Vec<&str> = vec![
        "", "/", ".", "..", "./", "./.", "/.", "/..", "a", "a/", "a/.", "a/..", "a/./b", "a//b", "./a/b",
        "././a", "../a", "/a/./b/../c/.", "a/.../b", ".a/b.", "//a//.//b//", "a/b/c.png", ". /a",
    ];
    for path in paths {
        assert_eq!(split(path), components_of(path), "{:?}", path);
    }
}

#[test]
fn directory_of_passes_over_what_closes_the_path() {
    assert_eq!(directory_of("out/a.jpg/."), "out/");
    assert_eq!(directory_of("out/a.jpg/./"), "out/");
    assert_eq!(directory_of("out/./a.jpg"), "out/./");
    assert_eq!(directory_of("out/.."), "out/");
    assert_eq!(directory_of("."), "");
    assert_eq!(directory_of("/."), "");
}
