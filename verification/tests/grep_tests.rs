use colored::Colorize;

use grep::config::GrepConfig;
use grep::error::GrepError;
use grep::format::format_line;
use grep::pattern::Matcher;
use grep::search::{find_in_lines, search_input};
use grep::text::{join_lines, pad_left, pad_right, split_lines, to_decimal};

#[test]
fn format_line_should_work() {
    let line: Vec<u8> = b"Hello, Cae".to_vec();
    let result = format_line(&line, 1000, 7, 10);
    let expected = format!(
        "{0: >6}:{1: <3} Hello, {2}",
        "1000".blue(),
        "8".cyan(),
        "Cae".red()
    );
    assert_eq!(String::from_utf8(result).unwrap(), expected);
}

#[test]
fn default_strategy_should_work() {
    let matcher = Matcher::compile(r"wo\w+").unwrap();
    let path: Vec<u8> = b"src/main.rs".to_vec();
    let input: Vec<u8> = b"hello world!\nbye world!".to_vec();
    let result = search_input(&matcher, &path, &input);
    let expected = [
        String::from("src/main.rs"),
        String::from_utf8(format_line(&b"hello world!".to_vec(), 1, 6, 11)).unwrap(),
        String::from_utf8(format_line(&b"bye world!\n".to_vec(), 2, 4, 9)).unwrap(),
    ];
    assert_eq!(String::from_utf8(result).unwrap(), expected.join("\n"));
}

#[test]
fn default_async_strategy_should_work() {
    let matcher = Matcher::compile(r"wo\w+").unwrap();
    let path: Vec<u8> = b"src/main.rs".to_vec();
    let input: Vec<u8> = b"hello world!\nbye world!".to_vec();
    let result = search_input(&matcher, &path, &input);
    let expected = [
        String::from("src/main.rs"),
        String::from_utf8(format_line(&b"hello world!".to_vec(), 1, 6, 11)).unwrap(),
        String::from_utf8(format_line(&b"bye world!\n".to_vec(), 2, 4, 9)).unwrap(),
    ];
    assert_eq!(String::from_utf8(result).unwrap(), expected.join("\n"));
}

#[test]
fn column_counts_characters_not_bytes() {
    // "héllo " holds 7 bytes but 6 characters before the match, so the
    // displayed column is 7, not 8.
    let line: Vec<u8> = "héllo world".as_bytes().to_vec();
    let result = format_line(&line, 1, 7, 12);
    let expected = format!(
        "{0: >6}:{1: <3} héllo {2}",
        "1".blue(),
        "7".cyan(),
        "world".red()
    );
    assert_eq!(String::from_utf8(result).unwrap(), expected);
}

#[test]
fn no_match_emits_nothing() {
    let matcher = Matcher::compile(r"xyz+").unwrap();
    let path: Vec<u8> = b"some/file".to_vec();
    let input: Vec<u8> = b"hello world!\nbye world!".to_vec();
    let result = search_input(&matcher, &path, &input);
    assert!(result.is_empty());
}

#[test]
fn empty_input_emits_nothing() {
    let matcher = Matcher::compile(r"wo\w+").unwrap();
    let path: Vec<u8> = b"some/file".to_vec();
    let input: Vec<u8> = Vec::new();
    let result = search_input(&matcher, &path, &input);
    assert!(result.is_empty());
}

#[test]
fn match_records_carry_positions_and_line_numbers() {
    let matcher = Matcher::compile(r"wo\w+").unwrap();
    let lines: Vec<Vec<u8>> = vec![
        b"hello world!".to_vec(),
        b"nothing here".to_vec(),
        b"bye world!".to_vec(),
    ];
    let hits = find_in_lines(&matcher, &lines);
    assert_eq!(hits.len(), 2);
    assert_eq!(hits[0].lineno, 1);
    assert_eq!(hits[0].start, 6);
    assert_eq!(hits[0].end, 11);
    assert_eq!(hits[1].lineno, 3);
    assert_eq!(hits[1].start, 4);
    assert_eq!(hits[1].end, 9);
}

#[test]
fn duplicate_matcher_matches_alike() {
    let matcher = Matcher::compile(r"wo\w+").unwrap();
    let copy = matcher.duplicate();
    let line: Vec<u8> = b"hello world!".to_vec();
    assert_eq!(matcher.find_first(&line), Some((6, 11)));
    assert_eq!(copy.find_first(&line), Some((6, 11)));
    assert_eq!(copy.find_first(&b"no match".to_vec()), None);
}

#[test]
fn invalid_pattern_is_fatal() {
    let config = GrepConfig::new(String::from("wo["), String::from("*.rs"));
    match config.matcher() {
        Ok(_) => panic!("an unbalanced bracket must not compile"),
        Err(err) => {
            assert_eq!(err, GrepError::Pattern);
            assert!(err.is_fatal());
        }
    }
    assert!(Matcher::compile("wo[").is_err());
}

#[test]
fn error_kinds() {
    assert!(GrepError::Pattern.is_fatal());
    assert!(GrepError::Glob.is_fatal());
    assert!(!GrepError::Io.is_fatal());
}

#[test]
fn split_lines_handles_terminators() {
    let lines = split_lines(&b"a\r\nb\nc".to_vec());
    assert_eq!(lines.len(), 3);
    assert_eq!(lines[0], b"a".to_vec());
    assert_eq!(lines[1], b"b".to_vec());
    assert_eq!(lines[2], b"c".to_vec());

    let trailing = split_lines(&b"one\ntwo\n".to_vec());
    assert_eq!(trailing.len(), 2);
    assert_eq!(trailing[0], b"one".to_vec());
    assert_eq!(trailing[1], b"two".to_vec());

    assert_eq!(split_lines(&Vec::new()).len(), 0);
    let empties = split_lines(&b"\n\n".to_vec());
    assert_eq!(empties.len(), 2);
    assert_eq!(empties[0], b"".to_vec());
    assert_eq!(empties[1], b"".to_vec());
}

#[test]
fn decimal_and_padding() {
    assert_eq!(to_decimal(0), b"0".to_vec());
    assert_eq!(to_decimal(8), b"8".to_vec());
    assert_eq!(to_decimal(1000), b"1000".to_vec());
    assert_eq!(to_decimal(usize::MAX), usize::MAX.to_string().into_bytes());
    assert_eq!(pad_left(&b"1000".to_vec(), 6), b"  1000".to_vec());
    assert_eq!(pad_left(&b"1234567".to_vec(), 6), b"1234567".to_vec());
    assert_eq!(pad_right(&b"8".to_vec(), 3), b"8  ".to_vec());
    assert_eq!(pad_right(&b"123".to_vec(), 3), b"123".to_vec());
}

#[test]
fn join_with_newlines() {
    let pieces: Vec<Vec<u8>> = vec![b"a".to_vec(), b"bc".to_vec(), b"".to_vec()];
    assert_eq!(join_lines(&pieces), b"a\nbc\n".to_vec());
    assert_eq!(join_lines(&vec![b"solo".to_vec()]), b"solo".to_vec());
    assert_eq!(join_lines(&Vec::new()), Vec::<u8>::new());
}
