//! Tests of the in-memory code writer.

use baproto::generate2::{StringWriter, Writer};

#[test]
fn test_string_writer_basic() {
    let mut w = StringWriter::default();
    assert!(w.is_empty());
    assert_eq!(w.len(), 0);

    w.write("hello").unwrap();
    assert!(!w.is_empty());
    assert_eq!(w.len(), 5);
    assert_eq!(w.as_str(), "hello");

    w.write(" world").unwrap();
    assert_eq!(w.len(), 11);
    assert_eq!(w.as_str(), "hello world");

    assert_eq!(w.finish().unwrap(), "hello world");
}
#[test]
fn test_string_writer_empty() {
    let w = StringWriter::default();
    assert_eq!(w.finish().unwrap(), "");
}
#[test]
fn test_string_writer_multiline() {
    let mut w = StringWriter::default();
    w.write("line 1\n").unwrap();
    w.write("line 2\n").unwrap();
    assert_eq!(w.finish().unwrap(), "line 1\nline 2\n");
}

