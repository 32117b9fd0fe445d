use elapsed::lines::{ByteLines, NextLine, READ_BUFFER_SIZE};
use elapsed::source::{ChildOutput, Delivery, ReadOutcome};

/// A source that hands out its chunks one read at a time, cut to what the
/// reader asks for, and then reports the end of the stream.
struct Source {
    chunks: Vec<Vec<u8>>,
    reads: usize,
}

impl Source {
    fn new(chunks: &[&[u8]]) -> Source {
        Source {
            chunks: chunks.iter().rev().map(|c| c.to_vec()).collect(),
            reads: 0,
        }
    }

    fn read(&mut self, max: usize) -> Vec<u8> {
        self.reads += 1;
        match self.chunks.pop() {
            Some(mut chunk) => {
                if chunk.len() > max {
                    let rest = chunk.split_off(max);
                    self.chunks.push(rest);
                }
                chunk
            }
            None => Vec::new(),
        }
    }
}

/// The next line, or `None` where it will never come.
fn next_line(lines: &mut ByteLines, source: &mut Source) -> Option<Vec<u8>> {
    loop {
        match lines.next_line() {
            NextLine::Line(line) => return Some(line),
            NextLine::Never => return None,
            NextLine::Read(max) => {
                let chunk = source.read(max);
                lines.accept_read(&chunk);
            }
        }
    }
}

fn all_lines(chunks: &[&[u8]]) -> Vec<Vec<u8>> {
    let mut source = Source::new(chunks);
    let mut lines = ByteLines::new();
    let mut out = Vec::new();
    while let Some(line) = next_line(&mut lines, &mut source) {
        out.push(line);
    }
    out
}

#[test]
fn many_short_lines() {
    let mut reader = Source::new(&[b"Hello!\nI like your code.\nGoodbye!\n"]);
    let mut lines = ByteLines::new();
    assert_eq!(next_line(&mut lines, &mut reader).unwrap(), b"Hello!\n");
    assert_eq!(
        next_line(&mut lines, &mut reader).unwrap(),
        b"I like your code.\n"
    );
    assert_eq!(next_line(&mut lines, &mut reader).unwrap(), b"Goodbye!\n");
    assert_eq!(next_line(&mut lines, &mut reader), None);
}

#[test]
fn many_short_lines_no_final_newline() {
    let mut reader = Source::new(&[b"Hello!\nI like your code.\nGoodbye!"]);
    let mut lines = ByteLines::new();
    assert_eq!(next_line(&mut lines, &mut reader).unwrap(), b"Hello!\n");
    assert_eq!(
        next_line(&mut lines, &mut reader).unwrap(),
        b"I like your code.\n"
    );
    assert_eq!(next_line(&mut lines, &mut reader).unwrap(), b"Goodbye!");
    assert_eq!(next_line(&mut lines, &mut reader), None);
}

#[test]
fn split_line() {
    let mut reader = Source::new(&[b"Hello, ", b"World!\n", b"Bye now!\n"]);
    let mut lines = ByteLines::new();
    assert_eq!(
        next_line(&mut lines, &mut reader).unwrap(),
        b"Hello, World!\n"
    );
    assert_eq!(next_line(&mut lines, &mut reader).unwrap(), b"Bye now!\n");
    assert_eq!(next_line(&mut lines, &mut reader), None);
}

#[test]
fn non_utf8() {
    let mut reader = Source::new(&[b"Hell\xF6!\nI like your code.\nGoodbye!\n"]);
    let mut lines = ByteLines::new();
    assert_eq!(next_line(&mut lines, &mut reader).unwrap(), b"Hell\xF6!\n");
    assert_eq!(
        next_line(&mut lines, &mut reader).unwrap(),
        b"I like your code.\n"
    );
    assert_eq!(next_line(&mut lines, &mut reader).unwrap(), b"Goodbye!\n");
    assert_eq!(next_line(&mut lines, &mut reader), None);
}

#[test]
fn line_in_buffer_needs_no_read() {
    let mut reader = Source::new(&[b"one\ntwo\n"]);
    let mut lines = ByteLines::new();
    assert_eq!(next_line(&mut lines, &mut reader).unwrap(), b"one\n");
    assert_eq!(reader.reads, 1);
    assert_eq!(next_line(&mut lines, &mut reader).unwrap(), b"two\n");
    assert_eq!(reader.reads, 1);
}

#[test]
fn never_stays_never() {
    let mut lines = ByteLines::new();
    lines.accept_read(b"rest");
    lines.accept_read(b"");
    assert!(lines.is_eof());
    assert_eq!(lines.next_line(), NextLine::Line(b"rest".to_vec()));
    assert_eq!(lines.next_line(), NextLine::Never);
    assert_eq!(lines.next_line(), NextLine::Never);
    assert_eq!(lines.buffered(), 0);
}

#[test]
fn empty_stream_has_no_lines() {
    assert_eq!(all_lines(&[]), Vec::<Vec<u8>>::new());
    let mut lines = ByteLines::new();
    assert_eq!(lines.next_line(), NextLine::Read(READ_BUFFER_SIZE));
    lines.accept_read(b"");
    assert_eq!(lines.next_line(), NextLine::Never);
}

#[test]
fn reader_asks_for_a_chunk_of_2048() {
    assert_eq!(READ_BUFFER_SIZE, 2048);
    let mut lines = ByteLines::new();
    lines.accept_read(b"no newline yet");
    assert_eq!(lines.next_line(), NextLine::Read(2048));
}

#[test]
fn get_line_takes_shortest_terminated_prefix() {
    let mut lines = ByteLines::new();
    lines.accept_read(b"a\n\nbc");
    assert_eq!(lines.get_line(), Some(b"a\n".to_vec()));
    assert_eq!(lines.get_line(), Some(b"\n".to_vec()));
    assert_eq!(lines.get_line(), None);
    assert_eq!(lines.buffered(), 2);
    lines.accept_read(b"d\n");
    assert_eq!(lines.get_line(), Some(b"bcd\n".to_vec()));
    assert_eq!(lines.get_line(), None);
    assert_eq!(lines.buffered(), 0);
}

#[test]
fn get_line_at_end_of_stream() {
    let mut lines = ByteLines::new();
    lines.accept_read(b"x\ntail");
    lines.accept_read(b"");
    assert_eq!(lines.get_line(), Some(b"x\n".to_vec()));
    assert_eq!(lines.get_line(), Some(b"tail".to_vec()));
    assert_eq!(lines.get_line(), None);
    assert_eq!(lines.get_line(), None);
}

#[test]
fn chunking_is_invisible() {
    let text: &[u8] = b"alpha\nbeta\n\ngamma delta\nlast";
    let whole = all_lines(&[text]);
    assert_eq!(
        whole,
        vec![
            b"alpha\n".to_vec(),
            b"beta\n".to_vec(),
            b"\n".to_vec(),
            b"gamma delta\n".to_vec(),
            b"last".to_vec(),
        ]
    );
    for cut in 1..text.len() {
        assert_eq!(all_lines(&[&text[..cut], &text[cut..]]), whole);
    }
    let bytes: Vec<&[u8]> = text.chunks(1).collect();
    assert_eq!(all_lines(&bytes), whole);
}

#[test]
fn long_line_spans_many_reads() {
    let mut text = vec![b'x'; 5000];
    text.push(b'\n');
    let mut source = Source::new(&[&text]);
    let mut lines = ByteLines::new();
    assert_eq!(next_line(&mut lines, &mut source).unwrap(), text);
    assert_eq!(source.reads, 3);
    assert_eq!(next_line(&mut lines, &mut source), None);
}

#[test]
fn failed_read_disables_reader() {
    let mut lines = ByteLines::new();
    lines.accept_read(b"ready\n");
    assert!(!lines.has_failed());
    lines.accept_failure();
    assert!(lines.has_failed());
    assert_eq!(lines.next_line(), NextLine::Never);
    assert_eq!(lines.next_line(), NextLine::Never);
}

#[test]
fn chunk_after_end_of_stream_is_ignored() {
    let mut lines = ByteLines::new();
    lines.accept_read(b"tail");
    lines.accept_read(b"");
    lines.accept_read(b"late\n");
    assert_eq!(lines.buffered(), 4);
    assert_eq!(lines.next_line(), NextLine::Line(b"tail".to_vec()));
    assert_eq!(lines.next_line(), NextLine::Never);
    lines.accept_read(b"later\n");
    assert_eq!(lines.buffered(), 0);
    assert_eq!(lines.get_line(), None);
    assert_eq!(lines.next_line(), NextLine::Never);
}

#[test]
fn chunk_after_failure_is_ignored() {
    let mut lines = ByteLines::new();
    lines.accept_read(b"half");
    lines.accept_failure();
    lines.accept_read(b" line\n");
    assert_eq!(lines.buffered(), 4);
    lines.accept_read(b"");
    assert!(!lines.is_eof());
    assert!(lines.has_failed());
    assert_eq!(lines.next_line(), NextLine::Never);
}

#[test]
fn accept_takes_a_source_at_its_word() {
    let mut lines = ByteLines::new();
    lines.accept(Delivery::Chunk(b"a\nb".to_vec()));
    assert_eq!(lines.next_line(), NextLine::Line(b"a\n".to_vec()));
    assert_eq!(lines.next_line(), NextLine::Read(READ_BUFFER_SIZE));
    lines.accept(Delivery::Chunk(Vec::new()));
    assert!(lines.is_eof());
    assert_eq!(lines.next_line(), NextLine::Line(b"b".to_vec()));
    assert_eq!(lines.next_line(), NextLine::Never);

    let mut lines = ByteLines::new();
    lines.accept(Delivery::Failure);
    assert!(lines.has_failed());
    assert!(!lines.is_eof());
    assert_eq!(lines.next_line(), NextLine::Never);
}

#[test]
fn reader_on_null_source_never_ends() {
    let mut lines = ByteLines::new();
    for _ in 0..3 {
        assert_eq!(lines.next_line(), NextLine::Read(READ_BUFFER_SIZE));
        lines.accept(ChildOutput::Null.poll_read(ReadOutcome::Data(Vec::new())));
        assert!(!lines.is_eof());
        assert!(!lines.has_failed());
        assert_eq!(lines.buffered(), 0);
    }
}

#[test]
fn reader_on_pty_ends_on_eio() {
    let mut lines = ByteLines::new();
    lines.accept(ChildOutput::Pty.poll_read(ReadOutcome::Data(b"bye".to_vec())));
    lines.accept(ChildOutput::Pty.poll_read(ReadOutcome::Failed(Some(5))));
    assert!(lines.is_eof());
    assert!(!lines.has_failed());
    assert_eq!(lines.next_line(), NextLine::Line(b"bye".to_vec()));
    assert_eq!(lines.next_line(), NextLine::Never);
}
