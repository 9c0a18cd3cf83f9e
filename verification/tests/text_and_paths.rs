use comic_ingest::greeting::greeting;
use comic_ingest::paths::directory_of;
use comic_ingest::paths::extension_of;
use comic_ingest::paths::is_contained;
use comic_ingest::paths::is_directory_marker;
use comic_ingest::paths::join;
use comic_ingest::text::chars_of;
use comic_ingest::text::chars_precede;
use comic_ingest::text::decimal;
use comic_ingest::text::ends_with;
use comic_ingest::text::text_precedes;
use std::path::Path;

#[test]
fn order_is_lexicographic_by_code_point() {
    assert!(text_precedes("page1.jpg", "page10.jpg"));
    assert!(text_precedes("page10.jpg", "page2.jpg"));
    assert!(text_precedes("page1.jpg", "page2.jpg"));
    assert!(!text_precedes("page2.jpg", "page10.jpg"));
    assert!(!text_precedes("same", "same"));
    assert!(text_precedes("", "a"));
    assert!(!text_precedes("a", ""));
    assert!(!text_precedes("", ""));
    assert!(text_precedes("Z", "a"));
    assert!(text_precedes("a", "é"));
    assert!(text_precedes("z", "\u{10000}"));
    assert!(text_precedes("\u{ffff}", "\u{10000}"));
}

#[test]
fn order_agrees_with_the_order_of_strings() {
    let samples = ["", "a", "A", "ab", "b", "page1", "page10", "page2", "é", "z", "日本", "\u{10000}"];
    for a in samples {
        for b in samples {
            assert_eq!(text_precedes(a, b), a < b, "{:?} against {:?}", a, b);
            assert_eq!(chars_precede(&chars_of(a), &chars_of(b)), a < b);
        }
    }
}

#[test]
fn chars_of_lists_the_characters() {
    assert_eq!(chars_of("aé日"), vec!['a', 'é', '日']);
    assert_eq!(chars_of(""), Vec::<char>::new());
}

#[test]
fn ends_with_compares_the_tail() {
    assert!(ends_with(&chars_of("page.jpg"), ".jpg"));
    assert!(ends_with(&chars_of(".jpg"), ".jpg"));
    assert!(!ends_with(&chars_of("jpg"), ".jpg"));
    assert!(!ends_with(&chars_of("page.jpg "), ".jpg"));
    assert!(ends_with(&chars_of("anything"), ""));
    assert!(ends_with(&chars_of("été"), "té"));
}

#[test]
fn decimal_writes_numbers_without_leading_zeros() {
    assert_eq!(decimal(0), "0");
    assert_eq!(decimal(7), "7");
    assert_eq!(decimal(10), "10");
    assert_eq!(decimal(404), "404");
    assert_eq!(decimal(1234567890), "1234567890");
    assert_eq!(decimal(usize::MAX), usize::MAX.to_string());
}

#[test]
fn join_puts_one_separator_between_base_and_name() {
    assert_eq!(join("out", "a/b.txt"), "out/a/b.txt");
    assert_eq!(join("out/", "a/b.txt"), "out/a/b.txt");
    assert_eq!(join("", "a/b.txt"), "a/b.txt");
    assert_eq!(join("out", ""), "out/");
    assert_eq!(join("out", "a/"), "out/a/");
    assert_eq!(join("/", "a"), "/a");
    assert_eq!(join("out", "../up.txt"), "out/../up.txt");
}

#[test]
fn join_never_lets_a_name_take_the_place_of_the_base() {
    assert_eq!(join("out", "/etc/passwd"), "out//etc/passwd");
    assert_eq!(join("out/", "/etc/passwd"), "out//etc/passwd");
    assert_eq!(join("", "/etc/passwd"), "/etc/passwd");
}

#[test]
fn join_agrees_with_the_paths_of_the_host_on_relative_names() {
    let bases = ["out", "out/", "", "/", "/tmp/dest", "a/b"];
    let names = ["a/b.txt", "a/", "", "x", "a/../b", "été/日本.png"];
    for base in bases {
        for name in names {
            let expected = Path::new(base).join(name);
            assert_eq!(Some(join(base, name).as_str()), expected.to_str());
        }
    }
}

#[test]
fn names_that_stay_inside() {
    for name in ["", "a", "a/b.txt", "a/", "a/../b", "./a", "a/./b", "a//b", "...", "..a", "a..",
        "a/b/../../c", "a/..", "a/b/..", ".hidden", "a/.."] {
        assert!(is_contained(name), "{:?}", name);
    }
}

#[test]
fn names_that_leave_are_told() {
    for name in ["/", "/a", "/tmp/evil", "..", "../", "../evil.txt", "a/../..", "a/../../b",
        "./..", "a/b/../../..", "x/../../x", "a//../.."] {
        assert!(!is_contained(name), "{:?}", name);
    }
}

#[test]
fn the_directory_of_a_path_stands_before_its_last_slash() {
    assert_eq!(directory_of("D/a/b.txt"), Some("D/a".to_string()));
    assert_eq!(directory_of("out/cover.jpg"), Some("out".to_string()));
    assert_eq!(directory_of("/b.txt"), Some("/".to_string()));
    assert_eq!(directory_of("/"), Some("/".to_string()));
    assert_eq!(directory_of("D/a/"), Some("D/a".to_string()));
    assert_eq!(directory_of("b.txt"), None);
    assert_eq!(directory_of(""), None);
}

#[test]
fn the_directory_agrees_with_the_paths_of_the_host() {
    for path in ["D/a/b.txt", "/b.txt", "out/cover.jpg", "/x/y/z", "a/b"] {
        let expected = Path::new(path).parent().and_then(|p| p.to_str()).map(|p| p.to_string());
        assert_eq!(directory_of(path), expected, "{:?}", path);
    }
}

#[test]
fn greeting_names_the_one_it_greets() {
    assert_eq!(greeting("Ada"), "Hello, Ada! You've been greeted from Rust!");
    assert_eq!(greeting(""), "Hello, ! You've been greeted from Rust!");
}

#[test]
fn directory_markers_end_with_a_slash() {
    assert!(is_directory_marker("a/"));
    assert!(is_directory_marker("/"));
    assert!(is_directory_marker("a/b/"));
    assert!(!is_directory_marker("a"));
    assert!(!is_directory_marker("a/b.txt"));
    assert!(!is_directory_marker(""));
}

#[test]
fn extension_is_what_follows_the_last_dot_of_the_last_segment() {
    assert_eq!(extension_of("page1.jpg"), Some("jpg".to_string()));
    assert_eq!(extension_of("a/b/page1.JPG"), Some("JPG".to_string()));
    assert_eq!(extension_of("archive.tar.gz"), Some("gz".to_string()));
    assert_eq!(extension_of("a.b/c.png"), Some("png".to_string()));
    assert_eq!(extension_of("name."), Some("".to_string()));
    assert_eq!(extension_of("..jpg"), Some("jpg".to_string()));
}

#[test]
fn a_leading_dot_or_no_dot_gives_no_extension() {
    assert_eq!(extension_of(".jpg"), None);
    assert_eq!(extension_of("dir/.jpg"), None);
    assert_eq!(extension_of("noext"), None);
    assert_eq!(extension_of("a.b/noext"), None);
    assert_eq!(extension_of(""), None);
    assert_eq!(extension_of("a.b/"), None);
}

#[test]
fn extension_agrees_with_the_paths_of_the_host_on_image_names() {
    let names = ["page1.jpg", "a/b/c.PNG", ".jpg", "dir/.webp", "x.y.bmp", "..jpeg", "日本/é.png"];
    for name in names {
        let expected = Path::new(name).extension().and_then(|e| e.to_str()).map(|e| e.to_string());
        assert_eq!(extension_of(name), expected, "{:?}", name);
    }
}
