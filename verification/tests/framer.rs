use korasho::framer::LineFramer;

fn feed(f: &mut LineFramer, s: &[u8]) -> Vec<Vec<u8>> {
    f.feed(&s.to_vec())
}

#[test]
fn one_chunk_yields_all_lines() {
    let mut f = LineFramer::new();
    let lines = feed(&mut f, b"abc\r\ndef\r\n");
    assert_eq!(lines, vec![b"abc\r\n".to_vec(), b"def\r\n".to_vec()]);
    assert_eq!(f.buf, Vec::<u8>::new());
}

#[test]
fn chunk_boundaries_do_not_matter() {
    let input: &[u8] = b"abc\r\ndef\r\nghi\r\nrest";
    let mut whole = LineFramer::new();
    let whole_lines = feed(&mut whole, input);

    let mut pieces = LineFramer::new();
    let mut piece_lines: Vec<Vec<u8>> = Vec::new();
    for chunk in [&input[0..1], &input[1..7], &input[7..8], &input[8..]] {
        piece_lines.extend(feed(&mut pieces, chunk));
    }
    assert_eq!(whole_lines, piece_lines);
    assert_eq!(whole.buf, pieces.buf);
    assert_eq!(whole.buf, b"rest".to_vec());
}

#[test]
fn partial_line_is_retained_not_dropped() {
    let mut f = LineFramer::new();
    assert_eq!(feed(&mut f, b"PING"), Vec::<Vec<u8>>::new());
    assert_eq!(f.buf, b"PING".to_vec());
    let lines = feed(&mut f, b" :abc\r\n");
    assert_eq!(lines, vec![b"PING :abc\r\n".to_vec()]);
    assert_eq!(f.buf, Vec::<u8>::new());
}

#[test]
fn empty_chunk_changes_nothing() {
    let mut f = LineFramer::new();
    feed(&mut f, b"half");
    assert_eq!(feed(&mut f, b""), Vec::<Vec<u8>>::new());
    assert_eq!(f.buf, b"half".to_vec());
}

#[test]
fn bare_linefeed_ends_a_line() {
    let mut f = LineFramer::new();
    let lines = feed(&mut f, b"a\nb\n");
    assert_eq!(lines, vec![b"a\n".to_vec(), b"b\n".to_vec()]);
}
