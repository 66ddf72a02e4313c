use rake::reader::split_lines;
use rake::reader::Reader;
use rake::reader::ReaderArgs;
use rake::reader::ReaderBuilder;
use rake::reader::ReaderBuilderError;
use rake::reader::ReaderError;

fn reader(content: &str, threads: u8) -> Reader {
    match ReaderBuilder::new().with_path(String::from("words.txt")).with_threads(threads).build(Some(content)) {
        Ok(reader) => reader,
        Err(e) => panic!("{}", e.as_str()),
    }
}

fn numbered(count: usize) -> String {
    let mut text = String::new();
    for i in 0..count {
        text.push_str(&format!("w{}\n", i));
    }
    text
}

#[test]
fn lines_are_split_at_line_feeds() {
    assert_eq!(split_lines("admin\nlogin\nsecret\n"), vec!["admin", "login", "secret"]);
}

#[test]
fn trailing_line_feed_is_optional() {
    assert_eq!(split_lines("admin\nlogin\nsecret"), vec!["admin", "login", "secret"]);
    assert_eq!(split_lines("one"), vec!["one"]);
    assert_eq!(split_lines("one\n"), vec!["one"]);
}

#[test]
fn empty_lines_are_payloads() {
    assert_eq!(split_lines("a\n\nb\n"), vec!["a", "", "b"]);
    assert_eq!(split_lines("\n"), vec![""]);
    assert_eq!(split_lines("\n\n"), vec!["", ""]);
    assert_eq!(split_lines("a\n\n"), vec!["a", ""]);
}

#[test]
fn empty_text_has_no_lines() {
    assert_eq!(split_lines(""), Vec::<String>::new());
}

#[test]
fn carriage_returns_and_blanks_stay_in_the_line() {
    assert_eq!(split_lines("a\r\nb c \n"), vec!["a\r", "b c "]);
}

#[test]
fn lines_keep_non_ascii_text() {
    assert_eq!(split_lines("café\nnaïve"), vec!["café", "naïve"]);
}

#[test]
fn builder_defaults() {
    let builder = ReaderBuilder::new();
    assert!(builder.path.is_none());
    assert_eq!(builder.threads, 40);
    let builder = ReaderBuilder::default();
    assert!(builder.path.is_none());
    assert_eq!(builder.threads, 40);
}

#[test]
fn builder_setters_keep_the_other_field() {
    let builder = ReaderBuilder::new().with_threads(7).with_path(String::from("a.txt"));
    assert_eq!(builder.path.as_deref(), Some("a.txt"));
    assert_eq!(builder.threads, 7);
    let builder = builder.with_threads(9);
    assert_eq!(builder.path.as_deref(), Some("a.txt"));
    assert_eq!(builder.threads, 9);
}

#[test]
fn build_without_path_fails() {
    let result = ReaderBuilder::new().build(Some("a\n"));
    assert!(matches!(result, Err(ReaderBuilderError::FileNotSpecified)));
    let result = ReaderBuilder::new().build(None);
    assert!(matches!(result, Err(ReaderBuilderError::FileNotSpecified)));
}

#[test]
fn build_without_file_fails() {
    let result = ReaderBuilder::new().with_path(String::from("missing.txt")).build(None);
    assert!(matches!(result, Err(ReaderBuilderError::FileNotFound)));
}

#[test]
fn builder_error_messages() {
    assert_eq!(ReaderBuilderError::FileNotSpecified.as_str(), "No wordlist file is specified");
    assert_eq!(ReaderBuilderError::FileNotFound.as_str(), "Specified file not found");
    assert_eq!(ReaderError::EmptyChunk.as_str(), "Empty chunk");
}

#[test]
fn chunk_size_is_an_equal_share() {
    let r = reader(&numbered(100), 40);
    assert_eq!(r.line_count(), 100);
    assert_eq!(r.chunk_size(), 2);
    let r = reader(&numbered(100), 1);
    assert_eq!(r.chunk_size(), 100);
    let r = reader(&numbered(120), 120);
    assert_eq!(r.chunk_size(), 1);
    let r = reader(&numbered(7), 2);
    assert_eq!(r.chunk_size(), 3);
}

#[test]
fn chunk_size_is_at_least_one() {
    let r = reader(&numbered(3), 40);
    assert_eq!(r.line_count(), 3);
    assert_eq!(r.chunk_size(), 1);
    let r = reader("", 40);
    assert_eq!(r.line_count(), 0);
    assert_eq!(r.chunk_size(), 1);
}

#[test]
fn chunks_come_in_order_and_are_disjoint() {
    let mut r = reader("a\nb\nc\nd\ne\n", 2);
    assert_eq!(r.chunk_size(), 2);
    assert_eq!(r.get_next_chunk().ok(), Some(vec![String::from("a"), String::from("b")]));
    assert_eq!(r.get_next_chunk().ok(), Some(vec![String::from("c"), String::from("d")]));
    assert_eq!(r.get_next_chunk().ok(), Some(vec![String::from("e")]));
    assert!(matches!(r.get_next_chunk(), Err(ReaderError::EmptyChunk)));
}

#[test]
fn exhausted_is_permanent() {
    let mut r = reader("a\n", 1);
    assert!(r.get_next_chunk().is_ok());
    for _ in 0..5 {
        assert!(matches!(r.get_next_chunk(), Err(ReaderError::EmptyChunk)));
    }
    assert_eq!(r.line_count(), 1);
    assert_eq!(r.chunk_size(), 1);
}

#[test]
fn empty_wordlist_is_exhausted_at_once() {
    let mut r = reader("", 4);
    assert!(matches!(r.get_next_chunk(), Err(ReaderError::EmptyChunk)));
}

#[test]
fn chunks_cover_the_wordlist_once_for_any_worker_count() {
    for lines in [0usize, 1, 2, 3, 10, 41, 100, 257] {
        let text = numbered(lines);
        let expected = split_lines(&text);
        for threads in [1u8, 2, 3, 7, 40, 120, 255] {
            let mut r = reader(&text, threads);
            let size = r.chunk_size();
            let mut seen: Vec<String> = Vec::new();
            loop {
                match r.get_next_chunk() {
                    Ok(chunk) => {
                        assert!(!chunk.is_empty());
                        assert!(chunk.len() <= size);
                        seen.extend(chunk);
                    }
                    Err(_) => break,
                }
            }
            assert_eq!(seen, expected);
        }
    }
}

#[test]
fn drain_takes_every_chunk_that_is_left() {
    let mut r = reader("a\nb\nc\nd\ne\n", 2);
    assert!(r.get_next_chunk().is_ok());
    let rest = r.drain();
    assert_eq!(rest, vec![vec![String::from("c"), String::from("d")], vec![String::from("e")]]);
    assert!(r.get_next_chunk().is_err());
    assert!(r.drain().is_empty());
}

#[test]
fn reader_args_hold_path_and_threads() {
    let args = ReaderArgs { path: String::from("w.txt"), threads: 3 };
    assert_eq!(args.path, "w.txt");
    assert_eq!(args.threads, 3);
}
