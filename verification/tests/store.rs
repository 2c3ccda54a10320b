//! The log driven against a small store that lives in the test.

use agentsmith::{
    import_records, AgentHistory, ChatAction, ChatEvent, Error, Message, MetaValue, Metadata, Query,
    SmartAgent, Timestamp, Trace, TraceRow, Write,
};

/// A store of rows that answers queries as the engine is asked to: rows are
/// kept in the order of their insertion, which is their order in time.
struct Store {
    rows: Vec<TraceRow>,
    /// Each session with its summary and the number of times it was touched.
    sessions: Vec<(String, Option<String>, usize)>,
}

fn tokens(text: &str) -> Vec<String> {
    text.split(|c: char| !c.is_alphanumeric())
        .filter(|t| !t.is_empty())
        .map(|t| t.to_lowercase())
        .collect()
}

fn capped(rows: Vec<TraceRow>, limit: i64) -> Vec<TraceRow> {
    if limit < 0 {
        rows
    } else {
        rows.into_iter().take(limit as usize).collect()
    }
}

impl Store {
    fn new() -> Store {
        Store { rows: Vec::new(), sessions: Vec::new() }
    }

    fn insert(&mut self, row: TraceRow) {
        self.rows.push(row);
    }

    fn apply(&mut self, write: Write) {
        match write {
            Write::EnsureSession { session_id } => {
                if !self.sessions.iter().any(|s| s.0 == session_id) {
                    self.sessions.push((session_id, None, 0));
                }
            }
            Write::InsertTrace { row } => self.insert(row),
            Write::TouchSession { session_id } => {
                for s in self.sessions.iter_mut().filter(|s| s.0 == session_id) {
                    s.2 += 1;
                }
            }
            Write::SetSummary { session_id, summary } => {
                for s in self.sessions.iter_mut().filter(|s| s.0 == session_id) {
                    s.1 = Some(summary.clone());
                    s.2 += 1;
                }
            }
        }
    }

    fn fetch(&self, query: &Query) -> Vec<TraceRow> {
        match query {
            Query::Recent { session_id, limit } => capped(
                self.rows.iter().rev().filter(|r| &r.session_id == session_id).cloned().collect(),
                *limit,
            ),
            Query::Matching { query, limit } => {
                let wanted = tokens(query);
                capped(
                    self.rows
                        .iter()
                        .rev()
                        .filter(|r| {
                            let have = tokens(&r.content);
                            wanted.iter().all(|w| have.contains(w))
                        })
                        .cloned()
                        .collect(),
                    *limit,
                )
            }
            Query::Session { session_id } => {
                self.rows.iter().filter(|r| &r.session_id == session_id).cloned().collect()
            }
        }
    }
}

fn message(role: &str, content: &str) -> Message {
    Message { role: role.to_string(), content: content.to_string() }
}

fn log(store: &mut Store, history: &AgentHistory, m: &Message, metadata: Metadata) -> Trace {
    store.apply(history.open());
    let trace = history.log_turn(m, metadata);
    for write in history.store_turn(&trace).unwrap() {
        store.apply(write);
    }
    trace
}

fn recent(store: &Store, history: &AgentHistory, n: usize) -> Vec<Trace> {
    history.recent(store.fetch(&history.recent_query(n))).unwrap()
}

fn search(store: &Store, history: &AgentHistory, query: &str, limit: usize, success_only: bool) -> Vec<Trace> {
    history.search(query, store.fetch(&history.search_query(query, limit)), success_only).unwrap()
}

fn flag(success: bool) -> Metadata {
    let mut m = Metadata::new();
    m.insert("success".to_string(), MetaValue::Bool(success));
    m
}

#[test]
fn test_create_history_in_memory() {
    let history = AgentHistory::new(":memory:", Some("test-session"));
    assert_eq!(history.session_id(), "test-session");
    assert_eq!(history.database_url(), "sqlite::memory:");
}

#[test]
fn test_create_history_auto_session_id() {
    let history = AgentHistory::new(":memory:", None);
    assert!(!history.session_id().is_empty());
    assert_eq!(history.session_id().len(), 36);
}

#[test]
fn database_url_of_a_file() {
    let history = AgentHistory::new("agent.db", Some("s"));
    assert_eq!(history.database_url(), "sqlite://agent.db");
}

#[test]
fn fresh_sessions_differ() {
    let a = AgentHistory::new(":memory:", None);
    let b = AgentHistory::new(":memory:", None);
    assert_ne!(a.session_id(), b.session_id());
}

#[test]
fn test_log_and_retrieve_messages() {
    let mut store = Store::new();
    let history = AgentHistory::new(":memory:", Some("test"));

    let user_msg = message("user", "Hello, agent!");
    let mut metadata = Metadata::new();
    metadata.insert("test_key".to_string(), MetaValue::Text("test_value".to_string()));
    let trace = log(&mut store, &history, &user_msg, metadata);

    assert_eq!(trace.role, "user");
    assert_eq!(trace.content, "Hello, agent!");
    assert_eq!(trace.session_id, "test");

    let assistant_msg = message("assistant", "Hello, human!");
    log(&mut store, &history, &assistant_msg, Metadata::new());

    let recent = recent(&store, &history, 10);
    assert_eq!(recent.len(), 2);
    assert_eq!(recent[0].content, "Hello, agent!");
    assert_eq!(recent[1].content, "Hello, human!");
    assert_eq!(recent[0].id, trace.id);
    assert_eq!(recent[0].created_at, trace.created_at);
    assert_eq!(
        recent[0].get_metadata("test_key"),
        Some(&MetaValue::Text("test_value".to_string()))
    );
}

#[test]
fn test_recent_messages_limit() {
    let mut store = Store::new();
    let history = AgentHistory::new(":memory:", Some("test"));
    for i in 0..10 {
        log(&mut store, &history, &message("user", &format!("Message {}", i)), Metadata::new());
    }
    let recent = recent(&store, &history, 5);
    assert_eq!(recent.len(), 5);
    assert_eq!(recent[0].content, "Message 5");
    assert_eq!(recent[4].content, "Message 9");
}

#[test]
fn recent_returns_all_in_order_and_the_end_for_fewer() {
    let mut store = Store::new();
    let history = AgentHistory::new(":memory:", Some("s"));
    let mut ids = Vec::new();
    for i in 0..6 {
        ids.push(log(&mut store, &history, &message("user", &format!("m{}", i)), Metadata::new()).id);
    }
    let all = recent(&store, &history, 6);
    assert_eq!(all.iter().map(|t| t.id.clone()).collect::<Vec<_>>(), ids);
    for pair in all.windows(2) {
        assert!(pair[0].created_at.is_not_after(&pair[1].created_at));
    }
    let last = recent(&store, &history, 2);
    assert_eq!(last.iter().map(|t| t.id.clone()).collect::<Vec<_>>(), ids[4..].to_vec());
}

#[test]
fn recent_of_zero_is_empty() {
    let mut store = Store::new();
    let history = AgentHistory::new(":memory:", Some("s"));
    assert!(recent(&store, &history, 0).is_empty());
    log(&mut store, &history, &message("user", "x"), Metadata::new());
    assert!(recent(&store, &history, 0).is_empty());
    match history.recent_query(0) {
        Query::Recent { session_id, limit } => {
            assert_eq!(session_id, "s");
            assert_eq!(limit, 0);
        }
        other => panic!("unexpected query {:?}", other),
    }
}

#[test]
fn test_fts_search() {
    let mut store = Store::new();
    let history = AgentHistory::new(":memory:", Some("test"));
    let messages = vec![
        "How do I parse JSON in Rust?",
        "Use serde_json crate for parsing",
        "What about XML parsing?",
        "Try quick-xml crate",
        "JSON is better than XML",
    ];
    for content in messages {
        log(&mut store, &history, &message("user", content), Metadata::new());
    }
    let results = search(&store, &history, "JSON", 10, false);
    assert!(results.len() >= 2);
    assert!(results.iter().any(|t| t.content.contains("JSON")));

    let results = search(&store, &history, "parsing", 10, false);
    assert!(results.len() >= 2);
}

#[test]
fn test_search_with_limit() {
    let mut store = Store::new();
    let history = AgentHistory::new(":memory:", Some("test"));
    for i in 0..10 {
        log(
            &mut store,
            &history,
            &message("user", &format!("Testing message number {}", i)),
            Metadata::new(),
        );
    }
    let results = search(&store, &history, "Testing", 3, false);
    assert!(results.len() <= 3);
    assert_eq!(results.len(), 3);
    match history.search_query("Testing", 3) {
        Query::Matching { query, limit } => {
            assert_eq!(query, "Testing");
            assert_eq!(limit, 3);
        }
        other => panic!("unexpected query {:?}", other),
    }
}

#[test]
fn test_trace_metadata() {
    let mut store = Store::new();
    let history = AgentHistory::new(":memory:", Some("test"));
    let msg = message("assistant", "Response");

    let mut metadata = Metadata::new();
    metadata.insert("duration_ms".to_string(), MetaValue::Int(150));
    metadata.insert("success".to_string(), MetaValue::Bool(true));
    metadata.insert("tokens_used".to_string(), MetaValue::Int(42));

    let trace = log(&mut store, &history, &msg, metadata);

    assert_eq!(trace.get_metadata("duration_ms"), Some(&MetaValue::Int(150)));
    assert_eq!(trace.get_metadata("success"), Some(&MetaValue::Bool(true)));
    assert!(trace.is_success());
    assert_eq!(
        store.rows[0].metadata,
        "{\"duration_ms\":150,\"success\":true,\"tokens_used\":42}"
    );
}

#[test]
fn test_trace_success_filtering() {
    let mut store = Store::new();
    let history = AgentHistory::new(":memory:", Some("test"));

    log(&mut store, &history, &message("user", "successful query"), flag(true));
    log(&mut store, &history, &message("user", "failed query"), flag(false));

    let all_results = search(&store, &history, "query", 10, false);
    assert_eq!(all_results.len(), 2);

    let success_results = search(&store, &history, "query", 10, true);
    assert_eq!(success_results.len(), 1);
    assert!(success_results[0].content.contains("successful"));
}

#[test]
fn filter_comes_after_the_limit() {
    let mut store = Store::new();
    let history = AgentHistory::new(":memory:", Some("test"));
    log(&mut store, &history, &message("user", "good term"), flag(true));
    log(&mut store, &history, &message("user", "bad term"), flag(false));

    let unfiltered = search(&store, &history, "term", 1, false);
    assert_eq!(unfiltered.len(), 1);
    assert_eq!(unfiltered[0].content, "bad term");
    let filtered = search(&store, &history, "term", 1, true);
    assert!(filtered.is_empty());
}

#[test]
fn filtered_search_is_part_of_the_unfiltered() {
    let mut store = Store::new();
    let history = AgentHistory::new(":memory:", Some("test"));
    for i in 0..6 {
        log(&mut store, &history, &message("user", &format!("term {}", i)), flag(i % 2 == 0));
    }
    let all = search(&store, &history, "term", 4, false);
    let good = search(&store, &history, "term", 4, true);
    assert_eq!(all.len(), 4);
    assert_eq!(good.len(), 2);
    for t in &good {
        assert!(t.is_success());
        assert!(all.iter().any(|a| a.id == t.id));
    }
}

#[test]
fn empty_query_falls_back_to_recent() {
    let mut store = Store::new();
    let history = AgentHistory::new(":memory:", Some("mine"));
    let other = AgentHistory::new(":memory:", Some("other"));
    log(&mut store, &history, &message("user", "one"), flag(false));
    log(&mut store, &other, &message("user", "foreign"), flag(true));
    log(&mut store, &history, &message("user", "two"), flag(true));
    log(&mut store, &history, &message("user", "three"), flag(false));

    for success_only in [false, true] {
        let found = search(&store, &history, "", 2, success_only);
        let latest = recent(&store, &history, 2);
        assert_eq!(found.len(), 2);
        assert_eq!(found[0].id, latest[0].id);
        assert_eq!(found[1].id, latest[1].id);
        assert_eq!(found[0].content, "two");
        assert_eq!(found[1].content, "three");
    }
}

fn record_of(trace: &Trace, created_at: &str) -> String {
    let mut object = serde_json::Map::new();
    object.insert("id".to_string(), serde_json::Value::String(trace.id.clone()));
    object.insert("session_id".to_string(), serde_json::Value::String(trace.session_id.clone()));
    object.insert("role".to_string(), serde_json::Value::String(trace.role.clone()));
    object.insert("content".to_string(), serde_json::Value::String(trace.content.clone()));
    object.insert("metadata".to_string(), serde_json::Value::Object(serde_json::Map::new()));
    object.insert("created_at".to_string(), serde_json::Value::String(created_at.to_string()));
    serde_json::Value::Object(object).to_string()
}

fn text_field(object: &serde_json::Map<String, serde_json::Value>, key: &str) -> Result<String, String> {
    match object.get(key) {
        Some(serde_json::Value::String(s)) => Ok(s.clone()),
        _ => Err(format!("missing field `{}`", key)),
    }
}

fn read_record(line: &str) -> Result<Trace, String> {
    let value: serde_json::Value = serde_json::from_str(line).map_err(|e| e.to_string())?;
    let object = value.as_object().ok_or("not an object".to_string())?;
    let mut trace = Trace::new(
        text_field(object, "session_id")?,
        text_field(object, "role")?,
        text_field(object, "content")?,
    );
    trace.id = text_field(object, "id")?;
    let at = chrono::DateTime::parse_from_rfc3339(&text_field(object, "created_at")?)
        .map_err(|e| e.to_string())?;
    trace.created_at = Timestamp { secs: at.timestamp(), nanos: at.timestamp_subsec_nanos() };
    Ok(trace)
}

fn import(store: &mut Store, history: &AgentHistory, content: &str) -> Result<usize, Error> {
    let parsed: Vec<Result<Trace, String>> =
        import_records(content).iter().map(|r| read_record(r)).collect();
    let plan = history.import_jsonl(&parsed);
    for row in plan.rows {
        store.insert(row);
    }
    plan.outcome
}

#[test]
fn test_import_jsonl() {
    let mut store = Store::new();
    let history = AgentHistory::new(":memory:", Some("test"));

    let trace1 = Trace::new("test".to_string(), "user".to_string(), "First message".to_string());
    let trace2 =
        Trace::new("test".to_string(), "assistant".to_string(), "Second message".to_string());
    let content = format!(
        "{}\n{}\n",
        record_of(&trace1, "2024-03-01T10:00:00+00:00"),
        record_of(&trace2, "2024-03-01T10:00:01+00:00")
    );

    let count = import(&mut store, &history, &content).unwrap();
    assert_eq!(count, 2);

    let recent = recent(&store, &history, 10);
    assert_eq!(recent.len(), 2);
    assert_eq!(recent[0].content, "First message");
    assert_eq!(recent[1].content, "Second message");
    assert_eq!(recent[0].id, trace1.id);
    assert_eq!(recent[1].created_at, Timestamp { secs: 1709287201, nanos: 0 });
}

#[test]
fn import_stops_at_a_malformed_line_and_keeps_what_came_before() {
    let mut store = Store::new();
    let history = AgentHistory::new(":memory:", Some("test"));
    let trace1 = Trace::new("test".to_string(), "user".to_string(), "First".to_string());
    let trace2 = Trace::new("test".to_string(), "assistant".to_string(), "Second".to_string());
    let trace3 = Trace::new("test".to_string(), "user".to_string(), "Third".to_string());
    let content = format!(
        "{}\n\n   \n{}\r\nthis is no record\n{}\n",
        record_of(&trace1, "2024-03-01T10:00:00+00:00"),
        record_of(&trace2, "2024-03-01T10:00:01+00:00"),
        record_of(&trace3, "2024-03-01T10:00:02+00:00")
    );

    let outcome = import(&mut store, &history, &content);
    assert!(matches!(outcome, Err(Error::Json(_))));
    let recent = recent(&store, &history, 10);
    assert_eq!(recent.len(), 2);
    assert_eq!(recent[0].content, "First");
    assert_eq!(recent[1].content, "Second");
}

#[test]
fn test_multiple_sessions() {
    let mut store1 = Store::new();
    let store2 = Store::new();
    let history1 = AgentHistory::new(":memory:", Some("session-1"));
    let history2 = AgentHistory::new(":memory:", Some("session-2"));

    log(&mut store1, &history1, &message("user", "Test"), Metadata::new());

    let recent1 = recent(&store1, &history1, 10);
    let recent2 = recent(&store2, &history2, 10);
    assert_eq!(recent1.len(), 1);
    assert_eq!(recent2.len(), 0);
}

#[test]
fn sessions_share_a_store_for_search_only() {
    let mut store = Store::new();
    let one = AgentHistory::new("shared.db", Some("one"));
    let two = AgentHistory::new("shared.db", Some("two"));
    log(&mut store, &one, &message("user", "apples are red"), Metadata::new());
    log(&mut store, &two, &message("user", "pears are green"), Metadata::new());

    let recent_one = recent(&store, &one, 10);
    let recent_two = recent(&store, &two, 10);
    assert_eq!(recent_one.len(), 1);
    assert_eq!(recent_one[0].content, "apples are red");
    assert_eq!(recent_two.len(), 1);
    assert_eq!(recent_two[0].content, "pears are green");

    let found = search(&store, &one, "pears", 10, false);
    assert_eq!(found.len(), 1);
    assert_eq!(found[0].session_id, "two");
    let found = search(&store, &two, "apples", 10, false);
    assert_eq!(found.len(), 1);
    assert_eq!(found[0].session_id, "one");
}

#[test]
fn test_trace_serialization() {
    let history = AgentHistory::new(":memory:", Some("session-123"));
    let mut trace =
        Trace::new("session-123".to_string(), "user".to_string(), "Hello".to_string());
    trace.add_metadata("b".to_string(), MetaValue::Int(-7));
    trace.add_metadata("a".to_string(), MetaValue::Text("x".to_string()));
    trace.add_metadata("c".to_string(), MetaValue::Null);

    let row = history.log_trace(&trace).unwrap();
    assert!(row.session_id.contains("session-123"));
    assert!(row.content.contains("Hello"));
    assert_eq!(row.metadata, "{\"a\":\"x\",\"b\":-7,\"c\":null}");
    assert_eq!(row.embedding, None);

    let deserialized = history.row_to_trace(&row).unwrap();
    assert_eq!(deserialized.session_id, "session-123");
    assert_eq!(deserialized.content, "Hello");
    assert_eq!(deserialized.id, trace.id);
    assert_eq!(deserialized.role, trace.role);
    assert_eq!(deserialized.created_at, trace.created_at);
    assert_eq!(deserialized.embedding, None);
    assert_eq!(deserialized.metadata.len(), 3);
    for key in ["a", "b", "c"] {
        assert_eq!(deserialized.get_metadata(key), trace.get_metadata(key));
    }
}

#[test]
fn test_empty_search() {
    let store = Store::new();
    let history = AgentHistory::new(":memory:", Some("test"));
    let results = search(&store, &history, "anything", 10, false);
    assert_eq!(results.len(), 0);
}

#[test]
fn test_recent_messages_conversion() {
    let mut store = Store::new();
    let history = AgentHistory::new(":memory:", Some("test"));
    log(&mut store, &history, &message("user", "Question"), Metadata::new());
    log(&mut store, &history, &message("assistant", "Answer"), Metadata::new());

    let messages = history.recent_messages(store.fetch(&history.recent_query(10))).unwrap();
    assert_eq!(messages.len(), 2);
    assert_eq!(messages[0].role, "user");
    assert_eq!(messages[0].content, "Question");
    assert_eq!(messages[1].role, "assistant");
    assert_eq!(messages[1].content, "Answer");
}

#[test]
fn json_question_scenario() {
    let mut store = Store::new();
    let history = AgentHistory::new(":memory:", Some("s1"));
    log(&mut store, &history, &message("user", "How do I parse JSON?"), Metadata::new());
    log(&mut store, &history, &message("assistant", "Use a JSON library"), Metadata::new());

    let found = search(&store, &history, "JSON", 10, false);
    assert_eq!(found.len(), 2);
    assert_eq!(found[0].content, "Use a JSON library");
    assert_eq!(found[1].content, "How do I parse JSON?");

    let last = recent(&store, &history, 1);
    assert_eq!(last.len(), 1);
    assert_eq!(last[0].role, "assistant");
    assert_eq!(last[0].content, "Use a JSON library");
}

fn row(id: &str, role: &str, content: &str, metadata: &str, created_at: &str) -> TraceRow {
    TraceRow {
        id: id.to_string(),
        session_id: "s".to_string(),
        role: role.to_string(),
        content: content.to_string(),
        metadata: metadata.to_string(),
        created_at: created_at.to_string(),
        embedding: None,
    }
}

#[test]
fn rows_that_cannot_be_read_are_reported() {
    let history = AgentHistory::new(":memory:", Some("s"));
    let good = row("1", "user", "x", "{}", "1996-12-19T16:39:57-08:00");
    let trace = history.row_to_trace(&good).unwrap();
    assert_eq!(trace.created_at, Timestamp { secs: 851042397, nanos: 0 });

    let bad_metadata = row("2", "user", "x", "[1,2]", "not a time");
    assert!(matches!(history.row_to_trace(&bad_metadata), Err(Error::Json(_))));

    let bad_time = row("3", "user", "x", "{}", "yesterday");
    match history.row_to_trace(&bad_time) {
        Err(Error::Other(m)) => assert!(m.starts_with("Invalid datetime: ")),
        other => panic!("unexpected {:?}", other),
    }
    assert!(matches!(history.recent(vec![good.clone(), bad_time.clone()]), Err(Error::Other(_))));
    assert!(matches!(
        history.search("x", vec![bad_metadata, bad_time], true),
        Err(Error::Json(_))
    ));
}

#[test]
fn a_time_beyond_the_calendar_has_no_row() {
    let history = AgentHistory::new(":memory:", Some("s"));
    let mut trace = Trace::new("s".to_string(), "user".to_string(), "x".to_string());
    trace.created_at = Timestamp { secs: i64::MAX, nanos: 0 };
    match history.log_trace(&trace) {
        Err(Error::Other(m)) => assert!(m.starts_with("Invalid datetime: ")),
        other => panic!("unexpected {:?}", other),
    }
}

#[test]
fn metadata_of_many_kinds_survives_storage() {
    let history = AgentHistory::new(":memory:", Some("s"));
    let stored = row(
        "1",
        "user",
        "x",
        "{\"n\":null,\"t\":\"text\",\"i\":-3,\"f\":1.5,\"l\":[1,2],\"b\":false}",
        "2024-03-01T10:00:00.5+00:00",
    );
    let trace = history.row_to_trace(&stored).unwrap();
    assert_eq!(trace.get_metadata("n"), Some(&MetaValue::Null));
    assert_eq!(trace.get_metadata("t"), Some(&MetaValue::Text("text".to_string())));
    assert_eq!(trace.get_metadata("i"), Some(&MetaValue::Int(-3)));
    assert_eq!(trace.get_metadata("b"), Some(&MetaValue::Bool(false)));
    assert_eq!(
        trace.get_metadata("l"),
        Some(&MetaValue::Json(serde_json::Value::Array(vec![
            serde_json::Value::from(1),
            serde_json::Value::from(2)
        ])))
    );
    assert!(matches!(trace.get_metadata("f"), Some(MetaValue::Json(_))));
    assert_eq!(trace.get_metadata("missing"), None);
    assert_eq!(trace.created_at, Timestamp { secs: 1709287200, nanos: 500_000_000 });
    let again = history.log_trace(&trace).unwrap();
    assert_eq!(
        again.metadata,
        "{\"b\":false,\"f\":1.5,\"i\":-3,\"l\":[1,2],\"n\":null,\"t\":\"text\"}"
    );
    assert_eq!(again.created_at, "2024-03-01T10:00:00.500+00:00");
}

#[test]
fn summary_request_holds_the_whole_transcript() {
    let mut store = Store::new();
    let history = AgentHistory::new(":memory:", Some("s"));
    let other = AgentHistory::new(":memory:", Some("t"));
    log(&mut store, &history, &message("user", "Hi"), Metadata::new());
    log(&mut store, &other, &message("user", "elsewhere"), Metadata::new());
    log(&mut store, &history, &message("assistant", "Hello"), Metadata::new());

    let prompt = history.summarize_session(store.fetch(&history.summary_query())).unwrap();
    assert_eq!(
        prompt,
        "Please provide a concise summary of the following conversation:\n\nuser: Hi\nassistant: Hello\n"
    );
    let empty = history.summarize_session(Vec::new()).unwrap();
    assert_eq!(empty, "Please provide a concise summary of the following conversation:\n\n");
}

#[test]
fn a_chat_turn_recalls_logs_and_counts() {
    let mut store = Store::new();
    let history = AgentHistory::new(":memory:", Some("s"));
    let mut rows = Vec::new();
    for i in 0..11 {
        let mut r = row(
            &format!("id{}", i),
            if i % 2 == 0 { "user" } else { "assistant" },
            &format!("note {}", i),
            "{}",
            "2015-05-15T00:00:00+00:00",
        );
        r.created_at = format!("2015-05-15T00:{:02}:30+00:00", i);
        rows.push(r.clone());
        store.insert(r);
    }
    let mut agent = SmartAgent::new(history).with_recall_top_k(11).with_summarize_every(2);
    assert_eq!(agent.turn_count(), 0);

    let fetched = store.fetch(&agent.recall_query("note"));
    assert_eq!(fetched.len(), 11);
    let action = agent
        .chat(ChatEvent::Asked { user_input: "note".to_string(), rows: fetched })
        .unwrap();
    let (user_trace, context) = match action {
        ChatAction::Generate { user_trace, context } => (user_trace, context),
        other => panic!("unexpected {:?}", other),
    };
    assert_eq!(user_trace.role, "user");
    assert_eq!(user_trace.content, "note");
    assert_eq!(user_trace.session_id, "s");
    assert_eq!(user_trace.get_metadata("recalled_traces"), Some(&MetaValue::Int(11)));
    assert_eq!(context.len(), 1);
    assert_eq!(context[0].role, "system");
    let mut expected = String::from("Relevant past experiences:\n\n");
    for (n, i) in (0..11).rev().enumerate() {
        expected.push_str(&format!(
            "{}. [2015-05-15 00:{:02}] {}: note {}\n",
            n + 1,
            i,
            if i % 2 == 0 { "user" } else { "assistant" },
            i
        ));
    }
    assert_eq!(context[0].content, expected);
    assert_eq!(agent.turn_count(), 0);

    let action = agent
        .chat(ChatEvent::Replied { reply: Ok("the answer".to_string()), duration_ms: 12 })
        .unwrap();
    let (assistant_trace, reply) = match action {
        ChatAction::Record { assistant_trace, reply } => (assistant_trace, reply),
        other => panic!("unexpected {:?}", other),
    };
    assert_eq!(reply, "the answer");
    assert_eq!(assistant_trace.role, "assistant");
    assert_eq!(assistant_trace.content, "the answer");
    assert_eq!(assistant_trace.get_metadata("duration_ms"), Some(&MetaValue::Int(12)));
    assert_eq!(assistant_trace.get_metadata("success"), Some(&MetaValue::Bool(true)));
    assert_eq!(assistant_trace.get_metadata("tokens_used"), Some(&MetaValue::Null));
    assert!(assistant_trace.is_success());
    assert_eq!(agent.turn_count(), 0);

    assert!(matches!(agent.chat(ChatEvent::Stored), Ok(ChatAction::Done { summarize: false })));
    assert_eq!(agent.turn_count(), 1);
    assert!(matches!(agent.chat(ChatEvent::Stored), Ok(ChatAction::Done { summarize: true })));
    assert_eq!(agent.turn_count(), 2);
    assert!(matches!(agent.chat(ChatEvent::Stored), Ok(ChatAction::Done { summarize: false })));
    assert_eq!(agent.history().session_id(), "s");
}

#[test]
fn a_turn_without_recall_sends_no_context() {
    let history = AgentHistory::new(":memory:", Some("s"));
    let mut agent = SmartAgent::new(history);
    match agent.recall_query("anything") {
        Query::Matching { query, limit } => {
            assert_eq!(query, "anything");
            assert_eq!(limit, 4);
        }
        other => panic!("unexpected {:?}", other),
    }
    let action = agent
        .chat(ChatEvent::Asked { user_input: "anything".to_string(), rows: Vec::new() })
        .unwrap();
    match action {
        ChatAction::Generate { user_trace, context } => {
            assert!(context.is_empty());
            assert_eq!(user_trace.get_metadata("recalled_traces"), Some(&MetaValue::Int(0)));
        }
        other => panic!("unexpected {:?}", other),
    }
}

#[test]
fn a_failed_generation_ends_the_turn() {
    let history = AgentHistory::new(":memory:", Some("s"));
    let mut agent = SmartAgent::new(history);
    let r = agent.chat(ChatEvent::Replied { reply: Err("no network".to_string()), duration_ms: 3 });
    match r {
        Err(Error::Rig(m)) => assert_eq!(m, "no network"),
        other => panic!("unexpected {:?}", other),
    }
    assert_eq!(agent.turn_count(), 0);
}

#[test]
fn summaries_fall_due_every_twenty_turns_by_default() {
    let history = AgentHistory::new(":memory:", Some("s"));
    let mut agent = SmartAgent::new(history);
    for turn in 1..=40 {
        let due = matches!(agent.chat(ChatEvent::Stored), Ok(ChatAction::Done { summarize: true }));
        assert_eq!(due, turn % 20 == 0);
    }
    let mut never = SmartAgent::new(AgentHistory::new(":memory:", Some("s"))).with_summarize_every(0);
    for _ in 0..3 {
        assert!(matches!(never.chat(ChatEvent::Stored), Ok(ChatAction::Done { summarize: false })));
    }
}

#[test]
fn the_agent_summarizes_through_its_log() {
    let history = AgentHistory::new(":memory:", Some("s"));
    let agent = SmartAgent::new(history);
    let rows = vec![row("1", "user", "Hi", "{}", "2015-05-15T00:00:00+00:00")];
    assert_eq!(
        agent.summarize(rows).unwrap(),
        "Please provide a concise summary of the following conversation:\n\nuser: Hi\n"
    );
}

#[test]
fn a_turn_is_stored_and_its_session_touched() {
    let history = AgentHistory::new(":memory:", Some("s"));
    let trace = history.log_turn(&message("user", "hi"), Metadata::new());
    let writes = history.store_turn(&trace).unwrap();
    assert_eq!(writes.len(), 2);
    match &writes[0] {
        Write::InsertTrace { row } => {
            assert_eq!(row.id, trace.id);
            assert_eq!(row.session_id, "s");
            assert_eq!(row.role, "user");
            assert_eq!(row.content, "hi");
            assert_eq!(row.metadata, "{}");
            assert_eq!(row.embedding, None);
        }
        other => panic!("unexpected {:?}", other),
    }
    assert!(matches!(&writes[1], Write::TouchSession { session_id } if session_id == "s"));

    let mut late = trace.clone();
    late.created_at = Timestamp { secs: i64::MIN, nanos: 0 };
    assert!(matches!(history.store_turn(&late), Err(Error::Other(_))));
}

#[test]
fn sessions_are_made_once_and_summaries_replaced() {
    let mut store = Store::new();
    let history = AgentHistory::new(":memory:", Some("s"));
    assert!(matches!(history.open(), Write::EnsureSession { session_id } if session_id == "s"));
    store.apply(history.open());
    store.apply(history.open());
    assert_eq!(store.sessions.len(), 1);
    log(&mut store, &history, &message("user", "hi"), Metadata::new());
    assert_eq!(store.sessions[0], ("s".to_string(), None, 1));

    match history.store_summary("first".to_string()) {
        Write::SetSummary { session_id, summary } => {
            assert_eq!(session_id, "s");
            assert_eq!(summary, "first");
        }
        other => panic!("unexpected {:?}", other),
    }
    store.apply(history.store_summary("first".to_string()));
    store.apply(history.store_summary("second".to_string()));
    assert_eq!(store.sessions[0], ("s".to_string(), Some("second".to_string()), 3));
}
