//! Line splitting: chunks cut anywhere reassemble into the written lines.

use deployer::lines::LineSplitter;

#[test]
fn feed_returns_nothing_without_terminator() {
    let mut sp = LineSplitter::new();
    let out = sp.feed(b"partial");
    assert!(out.is_empty());
    assert_eq!(sp.pending, b"partial".to_vec());
}

#[test]
fn feed_splits_on_terminator() {
    let mut sp = LineSplitter::new();
    let out = sp.feed(b"line1\nline2\n");
    assert_eq!(out, vec![b"line1".to_vec(), b"line2".to_vec()]);
    assert!(sp.pending.is_empty());
}

#[test]
fn feed_across_chunk_boundaries() {
    let mut sp = LineSplitter::new();
    assert!(sp.feed(b"li").is_empty());
    let out = sp.feed(b"ne1\nli");
    assert_eq!(out, vec![b"line1".to_vec()]);
    let out = sp.feed(b"ne2\n");
    assert_eq!(out, vec![b"line2".to_vec()]);
    assert!(sp.pending.is_empty());
}

#[test]
fn feed_empty_chunk_changes_nothing() {
    let mut sp = LineSplitter::new();
    sp.feed(b"abc");
    let out = sp.feed(b"");
    assert!(out.is_empty());
    assert_eq!(sp.pending, b"abc".to_vec());
}

#[test]
fn feed_keeps_blank_lines() {
    let mut sp = LineSplitter::new();
    let out = sp.feed(b"\n\n");
    assert_eq!(out, vec![Vec::new(), Vec::new()]);
}

#[test]
fn feed_one_byte_at_a_time() {
    let mut sp = LineSplitter::new();
    let mut seen: Vec<Vec<u8>> = Vec::new();
    for b in b"ab\ncd\n" {
        seen.extend(sp.feed(&[*b]));
    }
    assert_eq!(seen, vec![b"ab".to_vec(), b"cd".to_vec()]);
}
