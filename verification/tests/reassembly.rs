//! Tests of the line reassembler: chunk boundaries never change what lines
//! come out.

use namekit::lines::{is_blank, LineBuffer};

fn feed_all(chunks: &[&[u8]]) -> (Vec<Vec<u8>>, Option<Vec<u8>>) {
    let mut buffer = LineBuffer::new();
    let mut lines: Vec<Vec<u8>> = Vec::new();
    for chunk in chunks {
        lines.extend(buffer.feed(chunk));
    }
    (lines, buffer.flush())
}

#[test]
fn single_chunk_splits_lines() {
    let (lines, rest) = feed_all(&[b"alpha\nbeta\ngamma"]);
    assert_eq!(lines, vec![b"alpha".to_vec(), b"beta".to_vec()]);
    assert_eq!(rest, Some(b"gamma".to_vec()));
}

#[test]
fn mid_record_split_yields_one_line() {
    let (lines, rest) = feed_all(&[b"alpha", b"bet", b"a-omega\n"]);
    assert_eq!(lines, vec![b"alphabeta-omega".to_vec()]);
    assert_eq!(rest, None);
}

#[test]
fn split_exactly_on_newline_boundary() {
    let (lines, rest) = feed_all(&[b"one\n", b"two\n"]);
    assert_eq!(lines, vec![b"one".to_vec(), b"two".to_vec()]);
    assert_eq!(rest, None);
}

#[test]
fn chunking_matches_single_chunk() {
    let data: &[u8] = b"{\"a\":1}\n{\"b\":2}\nrest";
    let (whole_lines, whole_rest) = feed_all(&[data]);
    // Every possible two-way split.
    for cut in 0..=data.len() {
        let (a, b) = data.split_at(cut);
        let (lines, rest) = feed_all(&[a, b]);
        assert_eq!(lines, whole_lines);
        assert_eq!(rest, whole_rest);
    }
    // Byte-by-byte.
    let singles: Vec<&[u8]> = data.chunks(1).collect();
    let (lines, rest) = feed_all(&singles);
    assert_eq!(lines, whole_lines);
    assert_eq!(rest, whole_rest);
}

#[test]
fn empty_lines_are_emitted_as_segments() {
    let (lines, rest) = feed_all(&[b"\n\na\n"]);
    assert_eq!(lines, vec![b"".to_vec(), b"".to_vec(), b"a".to_vec()]);
    assert_eq!(rest, None);
}

#[test]
fn flush_discards_blank_remainder() {
    let (_, rest) = feed_all(&[b"a\n \t "]);
    assert_eq!(rest, None);
    let (_, rest) = feed_all(&[b"a\n"]);
    assert_eq!(rest, None);
}

#[test]
fn flush_returns_unterminated_final_line() {
    let (lines, rest) = feed_all(&[b"a\nfinal record"]);
    assert_eq!(lines, vec![b"a".to_vec()]);
    assert_eq!(rest, Some(b"final record".to_vec()));
}

#[test]
fn blank_detection() {
    assert!(is_blank(b""));
    assert!(is_blank(b"   \t\r"));
    assert!(!is_blank(b" x "));
}
