use treemerge::paths::{chunk_file_name, default_output_name, extension_of};
use treemerge::strings::{chars_eq_ignore_ascii_case, chars_have_prefix, chars_of, decimal_text};

fn chars(s: &str) -> Vec<char> {
    s.chars().collect()
}

#[test]
fn first_chunk_has_the_output_name() {
    assert_eq!(chunk_file_name("out.txt", 0), "out.txt");
    assert_eq!(chunk_file_name("out", 0), "out");
}

#[test]
fn later_chunks_insert_index_before_extension() {
    assert_eq!(chunk_file_name("out.txt", 1), "out.part1.txt");
    assert_eq!(chunk_file_name("out.txt", 12), "out.part12.txt");
    assert_eq!(chunk_file_name("archive.tar.gz", 3), "archive.tar.part3.gz");
    assert_eq!(chunk_file_name("build/merged.md", 2), "build/merged.part2.md");
}

#[test]
fn chunk_name_without_extension_gets_index_at_end() {
    assert_eq!(chunk_file_name("out", 1), "out.part1");
    assert_eq!(chunk_file_name("dir.v2/out", 4), "dir.v2/out.part4");
    assert_eq!(chunk_file_name(".hidden", 1), ".hidden.part1");
    assert_eq!(chunk_file_name("", 7), ".part7");
}

#[test]
fn chunk_name_keeps_non_ascii_names() {
    assert_eq!(chunk_file_name("r\u{e9}sum\u{e9}.txt", 1), "r\u{e9}sum\u{e9}.part1.txt");
}

#[test]
fn default_output_is_root_name_with_txt() {
    assert_eq!(default_output_name("/home/user/project"), "project.txt");
    assert_eq!(default_output_name("project"), "project.txt");
    assert_eq!(default_output_name("a/b.c"), "b.c.txt");
}

#[test]
fn default_output_ignores_trailing_slashes() {
    assert_eq!(default_output_name("project/"), "project.txt");
    assert_eq!(default_output_name("/srv/data///"), "data.txt");
}

#[test]
fn default_output_falls_back_when_root_has_no_name() {
    assert_eq!(default_output_name("."), "treemerge.txt");
    assert_eq!(default_output_name(".."), "treemerge.txt");
    assert_eq!(default_output_name("/"), "treemerge.txt");
    assert_eq!(default_output_name(""), "treemerge.txt");
    assert_eq!(default_output_name("a/.."), "treemerge.txt");
    assert_eq!(default_output_name("./"), "treemerge.txt");
}

#[test]
fn extension_of_follows_the_last_dot_of_the_file_name() {
    assert_eq!(extension_of(&chars("a/b.rs")), Some(chars("rs")));
    assert_eq!(extension_of(&chars("a.b/c")), None);
    assert_eq!(extension_of(&chars(".gitignore")), None);
    assert_eq!(extension_of(&chars("a/.gitignore")), None);
    assert_eq!(extension_of(&chars("..")), None);
    assert_eq!(extension_of(&chars("..a")), Some(chars("a")));
    assert_eq!(extension_of(&chars("x.")), Some(chars("")));
    assert_eq!(extension_of(&chars("")), None);
}

#[test]
fn decimal_text_writes_numerals() {
    assert_eq!(decimal_text(0), "0");
    assert_eq!(decimal_text(7), "7");
    assert_eq!(decimal_text(10), "10");
    assert_eq!(decimal_text(1203), "1203");
    assert_eq!(decimal_text(usize::MAX), usize::MAX.to_string());
}

#[test]
fn chars_of_gives_the_characters() {
    assert_eq!(chars_of("a\u{e9}\u{2603}"), vec!['a', '\u{e9}', '\u{2603}']);
    assert_eq!(chars_of(""), Vec::<char>::new());
}

#[test]
fn comparison_ignores_ascii_case_only() {
    assert!(chars_eq_ignore_ascii_case(&chars("YeS"), &chars("yes")));
    assert!(!chars_eq_ignore_ascii_case(&chars("yes"), &chars("ye")));
    assert!(!chars_eq_ignore_ascii_case(&chars("\u{c9}"), &chars("\u{e9}")));
    assert!(!chars_eq_ignore_ascii_case(&chars("@"), &chars("`")));
    assert!(!chars_eq_ignore_ascii_case(&chars("["), &chars("{")));
}

#[test]
fn prefix_test_is_exact() {
    assert!(chars_have_prefix(&chars("text/html"), &chars("text/")));
    assert!(chars_have_prefix(&chars("ab"), &chars("")));
    assert!(!chars_have_prefix(&chars("tex"), &chars("text/")));
    assert!(!chars_have_prefix(&chars("Text/html"), &chars("text/")));
}
