use zip_extractor::sanitize::{output_path, sanitized_name, SEPARATOR};

fn segments(name: &str) -> Vec<String> {
    sanitized_name(name).segments().clone()
}

fn strings(items: &[&str]) -> Vec<String> {
    items.iter().map(|s| s.to_string()).collect()
}

#[test]
fn separator_is_the_forward_slash() {
    assert_eq!(SEPARATOR, '/');
}

#[test]
fn parent_segments_are_dropped() {
    assert_eq!(segments("../../etc/passwd"), strings(&["etc", "passwd"]));
    assert_eq!(output_path("out", "../../etc/passwd"), "out/etc/passwd");
}

#[test]
fn empty_segments_are_dropped() {
    assert_eq!(segments("a//b.txt"), strings(&["a", "b.txt"]));
    assert_eq!(output_path("out", "a//b.txt"), "out/a/b.txt");
}

#[test]
fn leading_separator_does_not_reach_the_root() {
    assert_eq!(segments("/etc/shadow"), strings(&["etc", "shadow"]));
    assert_eq!(output_path("out", "/etc/shadow"), "out/etc/shadow");
    assert_eq!(output_path("out", "///x"), "out/x");
}

#[test]
fn parent_segments_inside_a_name_are_dropped_not_resolved() {
    assert_eq!(segments("a/../b"), strings(&["a", "b"]));
    assert_eq!(output_path("out", "a/../../../b"), "out/a/b");
}

#[test]
fn plain_names_are_kept_as_they_are() {
    assert_eq!(segments("a/b/c.txt"), strings(&["a", "b", "c.txt"]));
    assert_eq!(segments("file.txt"), strings(&["file.txt"]));
    assert_eq!(output_path("out", "a/b/c.txt"), "out/a/b/c.txt");
}

#[test]
fn directory_names_lose_their_trailing_separator() {
    assert_eq!(segments("a/"), strings(&["a"]));
    assert_eq!(segments("a/b/"), strings(&["a", "b"]));
    assert_eq!(output_path("out", "a/"), "out/a");
}

#[test]
fn names_that_keep_nothing_land_on_the_output_directory() {
    for name in ["", "..", "/", "../..", "//", "../", "/../"] {
        let path = sanitized_name(name);
        assert!(path.is_empty());
        assert_eq!(path.len(), 0);
        assert_eq!(output_path("out", name), "out");
    }
}

#[test]
fn only_two_dots_make_a_parent_marker() {
    assert_eq!(segments("./a"), strings(&[".", "a"]));
    assert_eq!(segments(".../a"), strings(&["...", "a"]));
    assert_eq!(segments("..a/b.."), strings(&["..a", "b.."]));
    assert_eq!(segments(".a./.."), strings(&[".a."]));
    assert_eq!(segments("a../..b/.. /x"), strings(&["a..", "..b", ".. ", "x"]));
}

#[test]
fn backslashes_do_not_separate() {
    assert_eq!(segments("a\\..\\b"), strings(&["a\\..\\b"]));
}

#[test]
fn names_beyond_ascii_are_split_by_character() {
    assert_eq!(segments("文件/../内容.txt"), strings(&["文件", "内容.txt"]));
    assert_eq!(output_path("输出", "文件//内容.txt"), "输出/文件/内容.txt");
    assert_eq!(segments("é/../ü"), strings(&["é", "ü"]));
}

#[test]
fn output_directory_ending_in_a_separator_gets_no_second_one() {
    assert_eq!(output_path("out/", "a/b"), "out/a/b");
    assert_eq!(output_path("/", "a/b"), "/a/b");
    assert_eq!(output_path("/srv/data", "../x"), "/srv/data/x");
}

#[test]
fn empty_output_directory_gives_a_relative_path() {
    assert_eq!(output_path("", "a/b"), "a/b");
    assert_eq!(output_path("", "/a"), "a");
    assert_eq!(output_path("", ".."), "");
}

#[test]
fn segments_can_be_read_one_by_one() {
    let path = sanitized_name("x/../y//z");
    assert_eq!(path.len(), 3);
    assert!(!path.is_empty());
    assert_eq!(path.segment(0), "x");
    assert_eq!(path.segment(1), "y");
    assert_eq!(path.segment(2), "z");
    assert_eq!(path.under("base"), "base/x/y/z");
}

#[test]
fn no_sanitized_path_holds_a_way_up() {
    let names = [
        "../../etc/passwd",
        "a//b.txt",
        "..",
        "../",
        "a/../../..",
        "/../../x/../y",
        "..../..",
        "x/./../.",
    ];
    for name in names {
        let path = sanitized_name(name);
        for segment in path.segments() {
            assert!(!segment.is_empty());
            assert_ne!(segment, "..");
            assert!(!segment.contains('/'));
        }
        let joined = path.under("out");
        assert!(joined.starts_with("out"));
        if !path.is_empty() {
            assert!(joined.starts_with("out/"));
            assert!(joined.len() > "out/".len());
            for part in joined["out/".len()..].split('/') {
                assert!(!part.is_empty());
                assert_ne!(part, "..");
            }
        }
    }
}

#[test]
fn long_names_are_handled() {
    let mut name = String::new();
    let mut expected: Vec<String> = Vec::new();
    for i in 0..500 {
        name.push_str("../");
        name.push_str(&format!("dir{}", i));
        name.push_str("//");
        expected.push(format!("dir{}", i));
    }
    assert_eq!(segments(&name), expected);
}
