use std::path::PathBuf;

use mers_libs::parsing::file::{File, FilePosition};

fn file(s: &str) -> File {
    File::new(s.to_string(), PathBuf::from("test.mers"))
}

fn pos(i: usize, line: usize, col: usize) -> (usize, usize, usize) {
    let _ = FilePosition { current_char_index: i, current_line: line, current_column: col };
    (i, line, col)
}

fn at(f: &File) -> (usize, usize, usize) {
    let p = f.get_pos();
    (p.current_char_index, p.current_line, p.current_column)
}

#[test]
fn new_drops_the_shebang_line_and_leading_white_space() {
    let f = file("#!/bin/mers\n  x = 1");
    assert_eq!(f.get_line(0), Some("x = 1".to_string()));
    assert_eq!(f.get_line(1), Some(String::new()));
    assert_eq!(f.get_line(2), None);
    assert_eq!(f.path(), &PathBuf::from("test.mers"));
}

#[test]
fn new_strips_line_comments_but_keeps_the_newline() {
    let f = file("a // c\nb");
    assert_eq!(f.get_line(0), Some("a ".to_string()));
    assert_eq!(f.get_line(1), Some("b".to_string()));
    assert_eq!(f.get_line(2), Some(String::new()));
}

#[test]
fn block_comment_ends_at_a_star_read_right_before_a_slash() {
    let f = file("a/* x **/b*/c");
    assert_eq!(f.index_from(0), "ac\n");
}

#[test]
fn backslash_escapes() {
    assert_eq!(file("x\\/\\/y").index_from(0), "x//y\n");
    assert_eq!(file("a\\\nb").index_from(0), "a\\b\n");
    assert_eq!(file("a\\n").index_from(0), "a\\n\n");
    assert_eq!(file("a/b").index_from(0), "a/b\n");
}

#[test]
fn next_moves_through_lines_and_columns() {
    let mut f = file("ab\ncd");
    assert_eq!(at(&f), pos(0, 0, 0));
    assert_eq!(f.next(), Some('a'));
    assert_eq!(at(&f), pos(1, 0, 1));
    assert_eq!(f.next(), Some('b'));
    assert_eq!(f.next(), Some('\n'));
    assert_eq!(at(&f), pos(3, 1, 0));
    let pp = f.get_ppos();
    assert_eq!((pp.current_char_index, pp.current_line, pp.current_column), (2, 0, 2));
    assert_eq!(f.peek(), Some('c'));
}

#[test]
fn next_past_the_end_gives_none_and_still_counts() {
    let mut f = file("a");
    assert_eq!(f.next(), Some('a'));
    assert_eq!(f.next(), Some('\n'));
    assert_eq!(f.next(), None);
    assert_eq!(at(&f), pos(3, 1, 0));
    assert_eq!(f.peek(), None);
}

#[test]
fn next_line_reads_up_to_the_newline() {
    let mut f = file("first line\nsecond");
    assert_eq!(f.next_line(), "first line");
    assert_eq!(f.next_line(), "second");
    assert_eq!(f.next_line(), "");
}

#[test]
fn skip_whitespaces_stops_at_the_next_character() {
    let mut f = file("a   \t b");
    assert_eq!(f.next(), Some('a'));
    f.skip_whitespaces();
    assert_eq!(f.peek(), Some('b'));
    assert_eq!(at(&f), pos(6, 0, 6));
}

#[test]
fn collect_to_whitespace_stops_before_the_space() {
    let mut f = file("hello world");
    assert_eq!(f.collect_to_whitespace(), "hello");
    assert_eq!(f.peek(), Some(' '));
    assert_eq!(at(&f), pos(5, 0, 5));
}

#[test]
fn get_lines_joins_lines() {
    let f = file("a\nb\nc");
    assert_eq!(f.get_lines(0, 1), Some("a\nb".to_string()));
    assert_eq!(f.get_lines(1, 3), Some("b\nc\n".to_string()));
    assert_eq!(f.get_lines(0, 4), None);
    assert_eq!(f.get_lines(4, 4), None);
}

#[test]
fn set_pos_moves_back() {
    let mut f = file("xyz");
    let start = *f.get_pos();
    f.next();
    f.next();
    f.set_pos(start);
    assert_eq!(f.next(), Some('x'));
}

#[test]
fn indexing_by_character_ranges() {
    let f = file("hello");
    assert_eq!(f.index_range(1, 3), "el");
    assert_eq!(f.index_range(2, 100), "llo\n");
    assert_eq!(f.index_range(10, 12), "");
    assert_eq!(f.index_from(3), "lo\n");
    assert_eq!(f.index_to(2), "he");
    assert_eq!(f.index_to(6), "");
    assert_eq!(f.get_char(0), Some('h'));
    assert_eq!(f.get_char(99), None);
}

#[test]
fn positions_display_counting_from_one() {
    let p = FilePosition { current_char_index: 5, current_line: 0, current_column: 4 };
    assert_eq!(p.display(), "line 1, col. 5");
    let q = FilePosition { current_char_index: 120, current_line: 11, current_column: 9 };
    assert_eq!(q.display(), "line 12, col. 10");
}

#[test]
fn restoring_a_position_replays_the_same_characters() {
    let mut f = file("ab\nc");
    f.next();
    let saved = *f.get_pos();
    let first: Vec<Option<char>> = (0..5).map(|_| f.next()).collect();
    assert_eq!(first, vec![Some('b'), Some('\n'), Some('c'), Some('\n'), None]);
    f.set_pos(saved);
    let again: Vec<Option<char>> = (0..5).map(|_| f.next()).collect();
    assert_eq!(again, first);
}
