use treemerge::cli::HeaderStyle;
use treemerge::writer::{count_lines, header_lines, write_header, ChunkState};

fn header(style: HeaderStyle, path: &str) -> Vec<u8> {
    let mut out: Vec<u8> = Vec::new();
    write_header(&mut out, style, path);
    out
}

#[test]
fn plain_header_is_one_marked_line_and_a_blank_one() {
    assert_eq!(header(HeaderStyle::Plain, "src/a.txt"), b">>> src/a.txt\n\n".to_vec());
}

#[test]
fn hash_header_is_one_marked_line_and_a_blank_one() {
    assert_eq!(header(HeaderStyle::Hash, "src/a.txt"), b"########## src/a.txt\n\n".to_vec());
}

#[test]
fn underline_header_matches_the_length_of_the_path() {
    assert_eq!(header(HeaderStyle::Underline, "src/a.txt"), b"src/a.txt\n=========\n\n".to_vec());
    assert_eq!(header(HeaderStyle::Underline, ""), b"\n\n\n".to_vec());
}

#[test]
fn underline_counts_the_characters_of_the_path() {
    let out = header(HeaderStyle::Underline, "\u{e9}.txt");
    assert_eq!(out, "\u{e9}.txt\n=====\n\n".as_bytes().to_vec());
    let out = header(HeaderStyle::Underline, "\u{65e5}\u{672c}/\u{1f600}");
    assert_eq!(out, "\u{65e5}\u{672c}/\u{1f600}\n====\n\n".as_bytes().to_vec());
}

#[test]
fn header_is_appended_to_what_is_there() {
    let mut out: Vec<u8> = b"before".to_vec();
    write_header(&mut out, HeaderStyle::Plain, "x");
    assert_eq!(out, b"before>>> x\n\n".to_vec());
}

#[test]
fn header_lines_by_style() {
    assert_eq!(header_lines(HeaderStyle::Plain), 1);
    assert_eq!(header_lines(HeaderStyle::Hash), 1);
    assert_eq!(header_lines(HeaderStyle::Underline), 2);
}

#[test]
fn count_lines_counts_closed_and_open_lines() {
    assert_eq!(count_lines(b""), 0);
    assert_eq!(count_lines(b"a"), 1);
    assert_eq!(count_lines(b"a\n"), 1);
    assert_eq!(count_lines(b"a\nb"), 2);
    assert_eq!(count_lines(b"a\nb\n"), 2);
    assert_eq!(count_lines(b"\n"), 1);
    assert_eq!(count_lines(b"\n\n\n"), 3);
    assert_eq!(count_lines(b"one\r\ntwo\r\n"), 2);
}

#[test]
fn new_state_is_the_empty_first_chunk() {
    let state = ChunkState::new();
    assert_eq!(state, ChunkState { lines_written: 0, chunk_index: 0 });
}

#[test]
fn file_that_fills_the_chunk_to_the_limit_stays() {
    let mut state = ChunkState::new();
    assert!(!state.begin_file(HeaderStyle::Plain, 3, Some(4)));
    assert_eq!(state, ChunkState { lines_written: 4, chunk_index: 0 });
}

#[test]
fn file_that_would_exceed_the_limit_opens_a_chunk() {
    let mut state = ChunkState::new();
    assert!(!state.begin_file(HeaderStyle::Plain, 3, Some(4)));
    assert!(state.begin_file(HeaderStyle::Plain, 3, Some(4)));
    assert_eq!(state, ChunkState { lines_written: 4, chunk_index: 1 });
    assert!(state.begin_file(HeaderStyle::Plain, 0, Some(4)));
    assert_eq!(state, ChunkState { lines_written: 1, chunk_index: 2 });
    assert!(!state.begin_file(HeaderStyle::Underline, 1, Some(4)));
    assert_eq!(state, ChunkState { lines_written: 4, chunk_index: 2 });
}

#[test]
fn underline_header_counts_two_lines() {
    let mut state = ChunkState::new();
    assert!(!state.begin_file(HeaderStyle::Underline, 2, Some(4)));
    assert_eq!(state.lines_written, 4);
    let mut state = ChunkState::new();
    assert!(state.begin_file(HeaderStyle::Underline, 3, Some(4)));
    assert_eq!(state, ChunkState { lines_written: 5, chunk_index: 1 });
}

#[test]
fn file_larger_than_the_limit_is_kept_whole() {
    let mut state = ChunkState::new();
    assert!(!state.begin_file(HeaderStyle::Hash, 1, Some(5)));
    assert!(state.begin_file(HeaderStyle::Hash, 100, Some(5)));
    assert_eq!(state, ChunkState { lines_written: 101, chunk_index: 1 });
    assert!(state.begin_file(HeaderStyle::Hash, 1, Some(5)));
    assert_eq!(state, ChunkState { lines_written: 2, chunk_index: 2 });
}

#[test]
fn without_limit_no_chunk_is_opened() {
    let mut state = ChunkState::new();
    for _ in 0..50 {
        assert!(!state.begin_file(HeaderStyle::Plain, 1_000_000, None));
    }
    assert_eq!(state, ChunkState { lines_written: 50 * 1_000_001, chunk_index: 0 });
}

#[test]
fn counts_stop_at_the_largest_value() {
    let mut state = ChunkState { lines_written: usize::MAX - 1, chunk_index: usize::MAX };
    assert!(!state.begin_file(HeaderStyle::Plain, 5, None));
    assert_eq!(state, ChunkState { lines_written: usize::MAX, chunk_index: usize::MAX });
    assert!(state.begin_file(HeaderStyle::Plain, 0, Some(usize::MAX)));
    assert_eq!(state, ChunkState { lines_written: 1, chunk_index: usize::MAX });
    let mut state = ChunkState::new();
    assert!(state.begin_file(HeaderStyle::Plain, usize::MAX, Some(usize::MAX)));
    assert_eq!(state, ChunkState { lines_written: usize::MAX, chunk_index: 1 });
}
