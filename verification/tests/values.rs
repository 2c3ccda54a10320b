//! Traces, metadata, errors and the framing of import sources.

use agentsmith::history::generation_outcome;
use agentsmith::text::{chars_of, decimal};
use agentsmith::{import_records, Error, MetaEntry, MetaValue, Metadata, Timestamp, Trace};

fn fresh() -> Trace {
    Trace::new("s".to_string(), "user".to_string(), "hello".to_string())
}

#[test]
fn a_new_trace_is_bare() {
    let t = fresh();
    assert_eq!(t.id.len(), 36);
    assert_eq!(t.session_id, "s");
    assert_eq!(t.role, "user");
    assert_eq!(t.content, "hello");
    assert_eq!(t.metadata.len(), 0);
    assert_eq!(t.embedding, None);
    assert!(t.created_at.secs > 1_600_000_000);
    assert_ne!(t.id, fresh().id);
}

#[test]
fn success_is_the_default() {
    let mut t = fresh();
    assert!(t.is_success());
    t.add_metadata("success".to_string(), MetaValue::Bool(false));
    assert!(!t.is_success());
    t.add_metadata("success".to_string(), MetaValue::Bool(true));
    assert!(t.is_success());
    t.add_metadata("success".to_string(), MetaValue::Text("false".to_string()));
    assert!(t.is_success());
    t.add_metadata("success".to_string(), MetaValue::Null);
    assert!(t.is_success());
}

#[test]
fn metadata_keys_are_held_once() {
    let mut t = fresh();
    t.add_metadata("k".to_string(), MetaValue::Int(1));
    t.add_metadata("other".to_string(), MetaValue::Int(2));
    t.add_metadata("k".to_string(), MetaValue::Int(3));
    assert_eq!(t.metadata.len(), 2);
    assert_eq!(t.get_metadata("k"), Some(&MetaValue::Int(3)));
    assert_eq!(t.get_metadata("other"), Some(&MetaValue::Int(2)));
    assert_eq!(t.get_metadata("absent"), None);
}

#[test]
fn with_metadata_replaces_the_whole() {
    let mut t = fresh();
    t.add_metadata("old".to_string(), MetaValue::Null);
    let id = t.id.clone();
    let mut m = Metadata::new();
    m.insert("new".to_string(), MetaValue::Bool(true));
    let t = t.with_metadata(m);
    assert_eq!(t.id, id);
    assert_eq!(t.get_metadata("old"), None);
    assert_eq!(t.get_metadata("new"), Some(&MetaValue::Bool(true)));
}

#[test]
fn entries_with_a_repeated_key_are_no_metadata() {
    let entry = |k: &str, v: i64| MetaEntry { key: k.to_string(), value: MetaValue::Int(v) };
    assert!(Metadata::from_entries(vec![entry("a", 1), entry("b", 2), entry("a", 3)]).is_none());
    let m = Metadata::from_entries(vec![entry("a", 1), entry("b", 2)]).unwrap();
    assert_eq!(m.get("b"), Some(&MetaValue::Int(2)));
    assert_eq!(m.entries().len(), 2);
}

#[test]
fn times_are_ordered_by_second_then_nanosecond() {
    let a = Timestamp { secs: 5, nanos: 9 };
    let b = Timestamp { secs: 6, nanos: 0 };
    let c = Timestamp { secs: 6, nanos: 1 };
    assert!(a.is_not_after(&b));
    assert!(b.is_not_after(&c));
    assert!(c.is_not_after(&c));
    assert!(!c.is_not_after(&b));
    assert!(!b.is_not_after(&a));
}

#[test]
fn errors_read_as_one_line() {
    assert_eq!(Error::Database("locked".to_string()).message(), "Database error: locked");
    assert_eq!(Error::Io("not found".to_string()).message(), "IO error: not found");
    assert_eq!(Error::Json("eof".to_string()).message(), "JSON error: eof");
    assert_eq!(Error::Migration("v2".to_string()).message(), "Migration error: v2");
    assert_eq!(Error::Rig("timeout".to_string()).message(), "Rig error: timeout");
    assert_eq!(Error::Other("plain".to_string()).message(), "plain");
}

#[test]
fn a_generator_failure_becomes_an_error() {
    assert!(matches!(generation_outcome(Ok("fine".to_string())), Ok(s) if s == "fine"));
    assert!(matches!(generation_outcome(Err("down".to_string())), Err(Error::Rig(m)) if m == "down"));
}

#[test]
fn records_are_the_lines_that_are_not_blank() {
    assert_eq!(import_records(""), Vec::<String>::new());
    assert_eq!(import_records("\n\n  \n\t\n"), Vec::<String>::new());
    assert_eq!(import_records("a\nb"), vec!["a".to_string(), "b".to_string()]);
    assert_eq!(import_records("a\n\n b \n"), vec!["a".to_string(), " b ".to_string()]);
    assert_eq!(import_records("{\"x\": 1}\r\n\r\nlast"), vec!["{\"x\": 1}\r".to_string(), "last".to_string()]);
}

#[test]
fn numbers_are_written_in_decimal() {
    assert_eq!(decimal(0), "0");
    assert_eq!(decimal(7), "7");
    assert_eq!(decimal(10), "10");
    assert_eq!(decimal(1234567890), "1234567890");
    assert_eq!(decimal(usize::MAX), usize::MAX.to_string());
}

#[test]
fn a_text_is_its_characters() {
    assert_eq!(chars_of(""), Vec::<char>::new());
    assert_eq!(chars_of("a\u{e9}\n"), vec!['a', '\u{e9}', '\n']);
}
