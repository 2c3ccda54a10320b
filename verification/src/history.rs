//! The interaction log of one session: what to ask of the storage engine, and
//! what to make of its answers.
use vstd::prelude::*;
use vstd::string::StringExecFns;
use crate::clock::{parse_error_text, parse_rfc3339, rfc3339_point, rfc3339_text, to_rfc3339};
use crate::error::Error;
use crate::json::{decode_metadata, encode_metadata, metadata_entries, metadata_text};
use crate::trace::{entries_map, text_view, Metadata, Trace, TraceView};

verus! {

/// One message of a conversation.
#[derive(Clone, Debug)]
pub struct Message {
    /// "system", "user" or "assistant".
    pub role: String,
    pub content: String,
}

/// A trace as the store keeps it: every column a text.
#[derive(Clone, Debug)]
pub struct TraceRow {
    pub id: String,
    pub session_id: String,
    pub role: String,
    pub content: String,
    /// The metadata as the text of a JSON object.
    pub metadata: String,
    /// The creation time as RFC 3339 text.
    pub created_at: String,
    pub embedding: Option<String>,
}

/// What a stored row holds, as mathematical values.
pub struct RowView {
    pub id: Seq<char>,
    pub session_id: Seq<char>,
    pub role: Seq<char>,
    pub content: Seq<char>,
    pub metadata: Seq<char>,
    pub created_at: Seq<char>,
    pub embedding: Option<Seq<char>>,
}

impl View for TraceRow {
    type V = RowView;

    open spec fn view(&self) -> RowView {
        RowView {
            id: self.id@,
            session_id: self.session_id@,
            role: self.role@,
            content: self.content@,
            metadata: self.metadata@,
            created_at: self.created_at@,
            embedding: text_view(self.embedding),
        }
    }
}

/// A request to the storage engine for rows of traces.
#[derive(Clone, Debug)]
pub enum Query {
    /// The rows of one session, latest first, at most `limit` of them.
    Recent { session_id: String, limit: i64 },
    /// The rows of any session whose content matches `query`, best match
    /// first and latest first among equals, at most `limit` of them.
    Matching { query: String, limit: i64 },
    /// All rows of one session, earliest first.
    Session { session_id: String },
}

/// A change to ask of the storage engine.
#[derive(Clone, Debug)]
pub enum Write {
    /// Create the session unless it exists.
    EnsureSession { session_id: String },
    /// Add a row of a trace.
    InsertTrace { row: TraceRow },
    /// Set the session's time of last change to the present.
    TouchSession { session_id: String },
    /// Replace the session's summary, and set its time of last change to the
    /// present.
    SetSummary { session_id: String, summary: String },
}

/// Why a stored row cannot be read back.
pub enum Fault {
    /// The metadata column is not the text of a JSON object.
    Metadata,
    /// The creation time is not RFC 3339 text.
    Timestamp,
}

/// The number of rows to ask the engine for; a negative number asks for all.
pub open spec fn fetch_limit(n: usize) -> i64 {
    if n <= i64::MAX {
        n as i64
    } else {
        -1i64
    }
}

/// The address at which the engine opens a store: the token ":memory:" stands
/// for a store that lives in memory, anything else is the path of a file.
pub open spec fn url_of(path: Seq<char>) -> Seq<char> {
    if path == ":memory:"@ {
        "sqlite::memory:"@
    } else {
        "sqlite://"@ + path
    }
}

/// The row under which a trace is stored.
pub open spec fn row_of(t: Trace) -> Result<RowView, Fault> {
    match metadata_text(t.metadata.stored()) {
        None => Err(Fault::Metadata),
        Some(m) => match rfc3339_text(t.created_at.secs, t.created_at.nanos) {
            None => Err(Fault::Timestamp),
            Some(c) => Ok(
                RowView {
                    id: t.id@,
                    session_id: t.session_id@,
                    role: t.role@,
                    content: t.content@,
                    metadata: m,
                    created_at: c,
                    embedding: text_view(t.embedding),
                },
            ),
        },
    }
}

/// The trace that a stored row holds.
pub open spec fn trace_of(row: RowView) -> Result<TraceView, Fault> {
    match metadata_entries(row.metadata) {
        None => Err(Fault::Metadata),
        Some(es) => match rfc3339_point(row.created_at) {
            None => Err(Fault::Timestamp),
            Some(t) => Ok(
                TraceView {
                    id: row.id,
                    session_id: row.session_id,
                    role: row.role,
                    content: row.content,
                    metadata: entries_map(es),
                    created_at: t,
                    embedding: row.embedding,
                },
            ),
        },
    }
}

/// The traces that a list of rows holds, in the rows' order; where a row
/// cannot be read, the fault of the first such row.
pub open spec fn traces_of(rows: Seq<TraceRow>) -> Result<Seq<TraceView>, Fault>
    decreases rows.len(),
{
    if rows.len() == 0 {
        Ok(Seq::empty())
    } else {
        match traces_of(rows.drop_last()) {
            Err(f) => Err(f),
            Ok(ts) => match trace_of(rows.last()@) {
                Err(f) => Err(f),
                Ok(t) => Ok(ts.push(t)),
            },
        }
    }
}

/// The successful ones among `ts`, in their order.
pub open spec fn successes(ts: Seq<TraceView>) -> Seq<TraceView>
    decreases ts.len(),
{
    if ts.len() == 0 {
        Seq::empty()
    } else if ts.last().succeeded() {
        successes(ts.drop_last()).push(ts.last())
    } else {
        successes(ts.drop_last())
    }
}

/// The views of a list of traces.
pub open spec fn views(ts: Seq<Trace>) -> Seq<TraceView> {
    ts.map_values(|t: Trace| t@)
}

/// Every trace of the list is well formed.
pub open spec fn all_wf(ts: Seq<Trace>) -> bool {
    forall|i: int| 0 <= i < ts.len() ==> (#[trigger] ts[i]).wf()
}

/// The error that reports a fault: a JSON error for unreadable metadata, and
/// for an unreadable time a text that begins with "Invalid datetime: ".
pub open spec fn reports(e: Error, f: Fault) -> bool {
    match f {
        Fault::Metadata => e is Json,
        Fault::Timestamp => e matches Error::Other(m) && exists|d: Seq<char>|
            m@ == "Invalid datetime: "@ + d,
    }
}

/// One line of a transcript: the role, a colon and a space, the content, and
/// a line feed.
pub open spec fn transcript_line(t: TraceView) -> Seq<char> {
    t.role + ": "@ + t.content + "\n"@
}

/// The transcript of a list of traces: their lines one after another.
pub open spec fn transcript(ts: Seq<TraceView>) -> Seq<char>
    decreases ts.len(),
{
    if ts.len() == 0 {
        Seq::empty()
    } else {
        transcript(ts.drop_last()) + transcript_line(ts.last())
    }
}

/// The instruction that precedes the transcript in a request for a summary.
pub open spec fn summary_preamble() -> Seq<char> {
    "Please provide a concise summary of the following conversation:\n\n"@
}

/// The messages that a list of traces stands for: role and content of each.
pub open spec fn is_projection(ms: Seq<Message>, ts: Seq<TraceView>) -> bool {
    ms.len() == ts.len() && forall|i: int|
        0 <= i < ms.len() ==> (#[trigger] ms[i]).role@ == ts[i].role && ms[i].content@
            == ts[i].content
}

/// The elements of `v` in the opposite order.
pub fn reversed(v: Vec<Trace>) -> (r: Vec<Trace>)
    ensures
        r@ == v@.reverse(),
{
    let mut v = v;
    let ghost all = v@;
    let mut r: Vec<Trace> = Vec::new();
    while v.len() > 0
        invariant
            v@.len() + r@.len() == all.len(),
            forall|j: int| 0 <= j < v@.len() ==> v@[j] == all[j],
            forall|j: int| 0 <= j < r@.len() ==> r@[j] == all[all.len() - 1 - j],
        decreases v.len(),
    {
        let t = v.pop().unwrap();
        r.push(t);
    }
    assert(r@ =~= all.reverse());
    r
}

/// What a failed call of the text generator becomes: an error that holds the
/// generator's own account; a reply is handed on as it is.
pub fn generation_outcome(reply: Result<String, String>) -> (r: Result<String, Error>)
    ensures
        match reply {
            Ok(text) => r == Ok::<String, Error>(text),
            Err(why) => r == Err::<String, Error>(Error::Rig(why)),
        },
{
    match reply {
        Ok(text) => Ok(text),
        Err(why) => Err(Error::Rig(why)),
    }
}

/// The log of one session in a store.
#[derive(Clone, Debug)]
pub struct AgentHistory {
    database_url: String,
    session_id: String,
}

impl AgentHistory {
    /// The address of the store, as the engine takes it.
    pub closed spec fn spec_database_url(&self) -> Seq<char> {
        self.database_url@
    }

    /// The identifier of the session that this log is bound to.
    pub closed spec fn spec_session_id(&self) -> Seq<char> {
        self.session_id@
    }

    /// A log bound to the store at `path` and to the given session, or to a
    /// fresh session where none is given.
    pub fn new(path: &str, session_id: Option<&str>) -> (h: AgentHistory)
        ensures
            h.spec_database_url() == url_of(path@),
            session_id matches Some(s) ==> h.spec_session_id() == s@,
            session_id.is_none() ==> h.spec_session_id().len() == 36,
    {
        let database_url = if String::from_str(path) == String::from_str(":memory:") {
            String::from_str("sqlite::memory:")
        } else {
            String::from_str("sqlite://").concat(path)
        };
        let session_id = match session_id {
            Some(s) => String::from_str(s),
            None => crate::trace::fresh_id(),
        };
        AgentHistory { database_url, session_id }
    }

    /// The address of the store, as the engine takes it.
    pub fn database_url(&self) -> (r: &str)
        ensures
            r@ == self.spec_database_url(),
    {
        self.database_url.as_str()
    }

    /// The identifier of the session that this log is bound to.
    pub fn session_id(&self) -> (r: &str)
        ensures
            r@ == self.spec_session_id(),
    {
        self.session_id.as_str()
    }

    /// The trace that records a message in this session: a fresh trace of
    /// the message's role and content that carries the metadata.
    pub fn log_turn(&self, message: &Message, metadata: Metadata) -> (t: Trace)
        requires
            metadata.wf(),
        ensures
            t.wf(),
            t.id@.len() == 36,
            t.session_id@ == self.spec_session_id(),
            t.role@ == message.role@,
            t.content@ == message.content@,
            t.metadata == metadata,
            t.embedding.is_none(),
    {
        Trace::new(
            self.session_id.clone(),
            message.role.clone(),
            message.content.clone(),
        ).with_metadata(metadata)
    }

    /// The row under which a trace is stored, its identifier, session and
    /// time kept as they are.
    pub fn log_trace(&self, trace: &Trace) -> (r: Result<TraceRow, Error>)
        ensures
            match r {
                Ok(row) => row_of(*trace) == Ok::<RowView, Fault>(row@),
                Err(e) => row_of(*trace) matches Err(f) && reports(e, f),
            },
    {
        let metadata = match encode_metadata(trace.metadata.entries()) {
            Ok(text) => text,
            Err(why) => {
                return Err(Error::Json(why));
            },
        };
        let created_at = match to_rfc3339(&trace.created_at) {
            Some(text) => text,
            None => {
                let m = String::from_str("Invalid datetime: ").concat("out of range");
                assert(m@ == "Invalid datetime: "@ + "out of range"@);
                return Err(Error::Other(m));
            },
        };
        let embedding = match &trace.embedding {
            Some(e) => Some(e.clone()),
            None => None,
        };
        Ok(
            TraceRow {
                id: trace.id.clone(),
                session_id: trace.session_id.clone(),
                role: trace.role.clone(),
                content: trace.content.clone(),
                metadata,
                created_at,
                embedding,
            },
        )
    }

    /// The change that opens this log: its session is there from then on.
    pub fn open(&self) -> (w: Write)
        ensures
            w matches Write::EnsureSession { session_id } && session_id@ == self.spec_session_id(),
    {
        Write::EnsureSession { session_id: self.session_id.clone() }
    }

    /// The changes that persist a turn of this session: the trace's row is
    /// added, then the session is marked as changed.
    pub fn store_turn(&self, trace: &Trace) -> (r: Result<Vec<Write>, Error>)
        ensures
            match r {
                Ok(ws) => ws@.len() == 2 && (ws@[0] matches Write::InsertTrace { row } && row_of(*trace)
                    == Ok::<RowView, Fault>(row@)) && (ws@[1] matches Write::TouchSession {
                    session_id,
                } && session_id@ == self.spec_session_id()),
                Err(e) => row_of(*trace) matches Err(f) && reports(e, f),
            },
    {
        let row = match self.log_trace(trace) {
            Ok(row) => row,
            Err(e) => {
                return Err(e);
            },
        };
        let mut ws: Vec<Write> = Vec::new();
        ws.push(Write::InsertTrace { row });
        ws.push(Write::TouchSession { session_id: self.session_id.clone() });
        Ok(ws)
    }

    /// The change that keeps a summary with this session, in place of any
    /// earlier one.
    pub fn store_summary(&self, summary: String) -> (w: Write)
        ensures
            w matches Write::SetSummary { session_id, summary: text } && session_id@
                == self.spec_session_id() && text == summary,
    {
        Write::SetSummary { session_id: self.session_id.clone(), summary }
    }

    /// The trace that a stored row holds.
    pub fn row_to_trace(&self, row: &TraceRow) -> (r: Result<Trace, Error>)
        ensures
            match r {
                Ok(t) => t.wf() && trace_of(row@) == Ok::<TraceView, Fault>(t@),
                Err(e) => trace_of(row@) matches Err(f) && reports(e, f),
            },
    {
        let entries = match decode_metadata(row.metadata.as_str()) {
            Ok(entries) => entries,
            Err(why) => {
                return Err(Error::Json(why));
            },
        };
        let created_at = match parse_rfc3339(row.created_at.as_str()) {
            Ok(t) => t,
            Err(e) => {
                let why = parse_error_text(&e);
                let m = String::from_str("Invalid datetime: ").concat(why.as_str());
                assert(m@ == "Invalid datetime: "@ + why@);
                return Err(Error::Other(m));
            },
        };
        let metadata = Metadata::from_entries(entries).unwrap();
        let embedding = match &row.embedding {
            Some(e) => Some(e.clone()),
            None => None,
        };
        Ok(
            Trace {
                id: row.id.clone(),
                session_id: row.session_id.clone(),
                role: row.role.clone(),
                content: row.content.clone(),
                metadata,
                created_at,
                embedding,
            },
        )
    }

    /// Reads rows back in their order, keeping all traces or only the
    /// successful ones; stops at the first row that cannot be read.
    fn read_rows(&self, rows: &Vec<TraceRow>, success_only: bool) -> (r: Result<Vec<Trace>, Error>)
        ensures
            match r {
                Ok(ts) => all_wf(ts@) && (traces_of(rows@) matches Ok(all) && views(ts@) == if success_only {
                    successes(all)
                } else {
                    all
                }),
                Err(e) => traces_of(rows@) matches Err(f) && reports(e, f),
            },
    {
        let mut out: Vec<Trace> = Vec::new();
        let mut i: usize = 0;
        assert(views(out@) =~= Seq::<TraceView>::empty());
        while i < rows.len()
            invariant
                0 <= i <= rows.len(),
                all_wf(out@),
                traces_of(rows@.take(i as int)) matches Ok(all) && views(out@) == if success_only {
                    successes(all)
                } else {
                    all
                },
            decreases rows.len() - i,
        {
            let ghost before = traces_of(rows@.take(i as int))->Ok_0;
            proof {
                assert(rows@.take(i + 1).drop_last() =~= rows@.take(i as int));
                assert(rows@.take(i + 1).last() == rows@[i as int]);
            }
            match self.row_to_trace(&rows[i]) {
                Ok(t) => {
                    proof {
                        assert(before.push(t@).drop_last() =~= before);
                    }
                    if !success_only || t.is_success() {
                        let ghost old_out = out@;
                        out.push(t);
                        assert(views(out@) =~= views(old_out).push(t@));
                    }
                },
                Err(e) => {
                    proof {
                        lemma_fault_stays(rows@, i as int + 1);
                    }
                    return Err(e);
                },
            }
            i += 1;
        }
        assert(rows@.take(i as int) =~= rows@);
        Ok(out)
    }

    /// What to ask the engine for to recall the last `n` traces of this
    /// session.
    pub fn recent_query(&self, n: usize) -> (q: Query)
        ensures
            q matches Query::Recent { session_id, limit } && session_id@ == self.spec_session_id()
                && limit == fetch_limit(n),
    {
        Query::Recent { session_id: self.session_id.clone(), limit: limit_of(n) }
    }

    /// The traces of the rows that the engine gave for `recent_query`, turned
    /// round: the rows come latest first, the traces earliest first.
    pub fn recent(&self, rows: Vec<TraceRow>) -> (r: Result<Vec<Trace>, Error>)
        ensures
            match r {
                Ok(ts) => all_wf(ts@) && (traces_of(rows@) matches Ok(all) && views(ts@)
                    == all.reverse()),
                Err(e) => traces_of(rows@) matches Err(f) && reports(e, f),
            },
            rows@.len() == 0 ==> (r matches Ok(ts) && ts@.len() == 0),
    {
        match self.read_rows(&rows, false) {
            Ok(ts) => {
                let r = reversed(ts);
                assert(views(r@) =~= views(ts@).reverse());
                Ok(r)
            },
            Err(e) => Err(e),
        }
    }

    /// What to ask the engine for to search for `query`: with an empty query
    /// the last `limit` traces of this session, else the `limit` best matches
    /// over all sessions.
    pub fn search_query(&self, query: &str, limit: usize) -> (q: Query)
        ensures
            query@.len() == 0 ==> (q matches Query::Recent { session_id, limit: l } && session_id@
                == self.spec_session_id() && l == fetch_limit(limit)),
            query@.len() != 0 ==> (q matches Query::Matching { query: text, limit: l } && text@
                == query@ && l == fetch_limit(limit)),
    {
        if query.is_empty() {
            self.recent_query(limit)
        } else {
            Query::Matching { query: String::from_str(query), limit: limit_of(limit) }
        }
    }

    /// The traces of the rows that the engine gave for `search_query`. With
    /// an empty query they are returned as `recent` returns them, whatever
    /// `success_only` says. Else they come in the rows' order, and with
    /// `success_only` only the successful ones among the rows that were
    /// fetched.
    pub fn search(&self, query: &str, rows: Vec<TraceRow>, success_only: bool) -> (r: Result<
        Vec<Trace>,
        Error,
    >)
        ensures
            match r {
                Ok(ts) => all_wf(ts@) && (traces_of(rows@) matches Ok(all) && views(ts@) == if query@.len()
                    == 0 {
                    all.reverse()
                } else if success_only {
                    successes(all)
                } else {
                    all
                }),
                Err(e) => traces_of(rows@) matches Err(f) && reports(e, f),
            },
    {
        if query.is_empty() {
            self.recent(rows)
        } else {
            self.read_rows(&rows, success_only)
        }
    }

    /// Role and content of the traces that `recent` gives for the rows.
    pub fn recent_messages(&self, rows: Vec<TraceRow>) -> (r: Result<Vec<Message>, Error>)
        ensures
            match r {
                Ok(ms) => traces_of(rows@) matches Ok(all) && is_projection(ms@, all.reverse()),
                Err(e) => traces_of(rows@) matches Err(f) && reports(e, f),
            },
    {
        let traces = match self.recent(rows) {
            Ok(ts) => ts,
            Err(e) => {
                return Err(e);
            },
        };
        let mut out: Vec<Message> = Vec::new();
        let mut i: usize = 0;
        while i < traces.len()
            invariant
                0 <= i <= traces.len(),
                out@.len() == i,
                forall|j: int|
                    0 <= j < i ==> (#[trigger] out@[j]).role@ == traces@[j].role@ && out@[j].content@
                        == traces@[j].content@,
            decreases traces.len() - i,
        {
            out.push(trace_to_message(&traces[i]));
            i += 1;
        }
        Ok(out)
    }

    /// What to ask the engine for to summarise this session: all its rows.
    pub fn summary_query(&self) -> (q: Query)
        ensures
            q matches Query::Session { session_id } && session_id@ == self.spec_session_id(),
    {
        Query::Session { session_id: self.session_id.clone() }
    }

    /// The request to put to the text generator for a summary of the session
    /// whose rows the engine gave for `summary_query`: the preamble, then the
    /// transcript of the rows in their order.
    pub fn summarize_session(&self, rows: Vec<TraceRow>) -> (r: Result<String, Error>)
        ensures
            match r {
                Ok(prompt) => traces_of(rows@) matches Ok(all) && prompt@ == summary_preamble()
                    + transcript(all),
                Err(e) => traces_of(rows@) matches Err(f) && reports(e, f),
            },
    {
        let traces = match self.read_rows(&rows, false) {
            Ok(ts) => ts,
            Err(e) => {
                return Err(e);
            },
        };
        let mut conversation = String::new();
        let mut i: usize = 0;
        assert(views(traces@).take(0) =~= Seq::<TraceView>::empty());
        while i < traces.len()
            invariant
                0 <= i <= traces.len(),
                conversation@ == transcript(views(traces@).take(i as int)),
            decreases traces.len() - i,
        {
            proof {
                assert(views(traces@).take(i + 1).drop_last() =~= views(traces@).take(i as int));
                assert(views(traces@).take(i + 1).last() == traces@[i as int]@);
            }
            let ghost before = conversation@;
            conversation.append(traces[i].role.as_str());
            conversation.append(": ");
            conversation.append(traces[i].content.as_str());
            conversation.append("\n");
            assert(conversation@ =~= before + transcript_line(traces@[i as int]@));
            i += 1;
        }
        assert(views(traces@).take(i as int) =~= views(traces@));
        let prompt = String::from_str(
            "Please provide a concise summary of the following conversation:\n\n",
        ).concat(conversation.as_str());
        Ok(prompt)
    }
}

/// Once a prefix of the rows cannot be read, no longer prefix can, and the
/// fault stays that of the first unreadable row.
pub proof fn lemma_fault_stays(rows: Seq<TraceRow>, n: int)
    requires
        0 <= n <= rows.len(),
        traces_of(rows.take(n)) is Err,
    ensures
        traces_of(rows) == traces_of(rows.take(n)),
    decreases rows.len(),
{
    if n == rows.len() {
        assert(rows.take(n) =~= rows);
    } else {
        assert(rows.drop_last().take(n) =~= rows.take(n));
        lemma_fault_stays(rows.drop_last(), n);
    }
}

/// The number of rows to ask the engine for.
fn limit_of(n: usize) -> (l: i64)
    ensures
        l == fetch_limit(n),
{
    let wide: u64 = n as u64;
    if wide <= 0x7fff_ffff_ffff_ffff {
        wide as i64
    } else {
        -1
    }
}

/// Role and content of a trace as a message.
pub fn trace_to_message(trace: &Trace) -> (m: Message)
    ensures
        m.role@ == trace.role@,
        m.content@ == trace.content@,
{
    Message { role: trace.role.clone(), content: trace.content.clone() }
}

} // verus!
