//! One chat turn around a text generator: recall, generation, logging, and
//! the summary that falls due every so many turns.
use vstd::prelude::*;
use vstd::string::StringExecFns;
use crate::clock::{minute_text, to_minute_text};
use crate::error::Error;
use crate::history::{reports, traces_of, AgentHistory, Fault, Message, Query, TraceRow, fetch_limit};
use crate::text::{decimal, digits};
use crate::trace::{MetaValue, Metadata, Trace, TraceView};

verus! {

/// What happened since the last step of a chat turn.
#[derive(Debug)]
pub enum ChatEvent {
    /// The user said `user_input`, and the engine gave `rows` for the
    /// turn's recall query.
    Asked { user_input: String, rows: Vec<TraceRow> },
    /// The generator answered, or failed with its own account of why, after
    /// `duration_ms` milliseconds since the turn began.
    Replied { reply: Result<String, String>, duration_ms: u64 },
    /// The assistant's trace was stored.
    Stored,
}

/// What to do next in a chat turn.
#[derive(Debug)]
pub enum ChatAction {
    /// Store `user_trace`, then put the user's input to the generator with
    /// `context` as the conversation so far.
    Generate { user_trace: Trace, context: Vec<Message> },
    /// Store `assistant_trace`; `reply` is the turn's answer.
    Record { assistant_trace: Trace, reply: String },
    /// The turn is over; where `summarize` holds, a summary of the session
    /// is due, whose failure is of no consequence to the turn.
    Done { summarize: bool },
}

/// A count as a metadata integer, the largest integer standing for all counts
/// beyond it.
pub open spec fn count_value(n: u64) -> i64 {
    if n <= i64::MAX {
        n as i64
    } else {
        i64::MAX
    }
}

/// The line that presents the `number`-th recalled trace.
pub open spec fn recall_line(number: nat, minute: Seq<char>, t: TraceView) -> Seq<char> {
    digits(number) + ". ["@ + minute + "] "@ + t.role + ": "@ + t.content + "\n"@
}

/// The lines that present the recalled traces, numbered from one; `None`
/// where the time of one of them cannot be written.
pub open spec fn recall_lines(ts: Seq<TraceView>) -> Option<Seq<char>>
    decreases ts.len(),
{
    if ts.len() == 0 {
        Some(Seq::empty())
    } else {
        match recall_lines(ts.drop_last()) {
            None => None,
            Some(before) => match minute_text(ts.last().created_at.secs, ts.last().created_at.nanos) {
                None => None,
                Some(minute) => Some(before + recall_line(ts.len(), minute, ts.last())),
            },
        }
    }
}

/// The heading of the recalled traces.
pub open spec fn recall_heading() -> Seq<char> {
    "Relevant past experiences:\n\n"@
}

/// The context handed to the generator: nothing where nothing was recalled,
/// else one system message that holds the heading and the lines.
pub open spec fn is_context(context: Seq<Message>, recalled: Seq<TraceView>, lines: Seq<char>) -> bool {
    if recalled.len() == 0 {
        context.len() == 0
    } else {
        context.len() == 1 && context[0].role@ == "system"@ && context[0].content@
            == recall_heading() + lines
    }
}

/// The traces that a turn recalls from what the engine gave: as a search
/// without the success filter returns them.
pub open spec fn recalled_of(user_input: Seq<char>, all: Seq<TraceView>) -> Seq<TraceView> {
    if user_input.len() == 0 {
        all.reverse()
    } else {
        all
    }
}

/// The metadata of a user's trace: how many traces were recalled.
pub open spec fn user_metadata(recalled: nat) -> Map<Seq<char>, MetaValue> {
    Map::<Seq<char>, MetaValue>::empty().insert(
        "recalled_traces"@,
        MetaValue::Int(count_value(recalled as u64)),
    )
}

/// The metadata of an assistant's trace: the latency, the success flag, and
/// the place kept for the tokens used.
pub open spec fn assistant_metadata(duration_ms: u64) -> Map<Seq<char>, MetaValue> {
    Map::<Seq<char>, MetaValue>::empty().insert(
        "duration_ms"@,
        MetaValue::Int(count_value(duration_ms)),
    ).insert("success"@, MetaValue::Bool(true)).insert("tokens_used"@, MetaValue::Null)
}

/// A count as a metadata integer.
fn count_of(n: u64) -> (v: i64)
    ensures
        v == count_value(n),
{
    if n <= 0x7fff_ffff_ffff_ffff {
        n as i64
    } else {
        0x7fff_ffff_ffff_ffff
    }
}

/// The text that presents recalled traces to the generator: the heading and
/// one numbered line for each trace; an error where the time of one of them
/// cannot be written.
pub fn recall_context(traces: &Vec<Trace>) -> (r: Result<String, Error>)
    ensures
        match r {
            Ok(text) => recall_lines(crate::history::views(traces@)) matches Some(lines) && text@
                == recall_heading() + lines,
            Err(e) => recall_lines(crate::history::views(traces@)).is_none() && reports(
                e,
                Fault::Timestamp,
            ),
        },
{
    let ghost vs = crate::history::views(traces@);
    let mut lines = String::new();
    let mut i: usize = 0;
    assert(vs.take(0) =~= Seq::<TraceView>::empty());
    while i < traces.len()
        invariant
            0 <= i <= traces.len(),
            vs == crate::history::views(traces@),
            recall_lines(vs.take(i as int)) == Some(lines@),
        decreases traces.len() - i,
    {
        proof {
            assert(vs.take(i + 1).drop_last() =~= vs.take(i as int));
            assert(vs.take(i + 1).last() == traces@[i as int]@);
        }
        let minute = match to_minute_text(&traces[i].created_at) {
            Some(m) => m,
            None => {
                proof {
                    lemma_unwritable_stays(vs, i as int + 1);
                }
                let m = String::from_str("Invalid datetime: ").concat("out of range");
                assert(m@ == "Invalid datetime: "@ + "out of range"@);
                return Err(Error::Other(m));
            },
        };
        let ghost before = lines@;
        let number = decimal(i + 1);
        lines.append(number.as_str());
        lines.append(". [");
        lines.append(minute.as_str());
        lines.append("] ");
        lines.append(traces[i].role.as_str());
        lines.append(": ");
        lines.append(traces[i].content.as_str());
        lines.append("\n");
        assert(lines@ =~= before + recall_line((i + 1) as nat, minute@, traces@[i as int]@));
        i += 1;
    }
    assert(vs.take(i as int) =~= vs);
    Ok(String::from_str("Relevant past experiences:\n\n").concat(lines.as_str()))
}

/// Once the lines of a prefix cannot be written, those of the whole cannot.
pub proof fn lemma_unwritable_stays(ts: Seq<TraceView>, n: int)
    requires
        0 <= n <= ts.len(),
        recall_lines(ts.take(n)).is_none(),
    ensures
        recall_lines(ts).is_none(),
    decreases ts.len(),
{
    if n == ts.len() {
        assert(ts.take(n) =~= ts);
    } else {
        assert(ts.drop_last().take(n) =~= ts.take(n));
        lemma_unwritable_stays(ts.drop_last(), n);
    }
}

/// A chat partner with a memory: it recalls what bears on a turn, logs both
/// sides of the turn, and has the session summarised every so many turns.
#[derive(Clone, Debug)]
pub struct SmartAgent {
    history: AgentHistory,
    recall_top_k: usize,
    summarize_every: usize,
    turn_count: usize,
}

impl SmartAgent {
    /// The log that the agent writes to.
    pub closed spec fn spec_history(&self) -> AgentHistory {
        self.history
    }

    /// How many traces a turn recalls at most.
    pub closed spec fn spec_recall_top_k(&self) -> usize {
        self.recall_top_k
    }

    /// After how many turns a summary falls due.
    pub closed spec fn spec_summarize_every(&self) -> usize {
        self.summarize_every
    }

    /// How many turns have been completed.
    pub closed spec fn spec_turn_count(&self) -> usize {
        self.turn_count
    }

    /// Whether a summary falls due when the given number of turns have been
    /// completed: at every multiple of the interval.
    pub open spec fn summary_due(&self, turns: usize) -> bool {
        self.spec_summarize_every() != 0 && turns % self.spec_summarize_every() == 0
    }

    /// An agent on the given log that recalls four traces a turn and has
    /// the session summarised every twenty turns.
    pub fn new(history: AgentHistory) -> (a: SmartAgent)
        ensures
            a.spec_history() == history,
            a.spec_recall_top_k() == 4,
            a.spec_summarize_every() == 20,
            a.spec_turn_count() == 0,
    {
        SmartAgent { history, recall_top_k: 4, summarize_every: 20, turn_count: 0 }
    }

    /// The agent with `k` as the number of traces that a turn recalls.
    pub fn with_recall_top_k(self, k: usize) -> (a: SmartAgent)
        ensures
            a.spec_history() == self.spec_history(),
            a.spec_recall_top_k() == k,
            a.spec_summarize_every() == self.spec_summarize_every(),
            a.spec_turn_count() == self.spec_turn_count(),
    {
        let mut a = self;
        a.recall_top_k = k;
        a
    }

    /// The agent with `n` as the number of turns between summaries.
    pub fn with_summarize_every(self, n: usize) -> (a: SmartAgent)
        ensures
            a.spec_history() == self.spec_history(),
            a.spec_recall_top_k() == self.spec_recall_top_k(),
            a.spec_summarize_every() == n,
            a.spec_turn_count() == self.spec_turn_count(),
    {
        let mut a = self;
        a.summarize_every = n;
        a
    }

    /// The log that the agent writes to.
    pub fn history(&self) -> (h: &AgentHistory)
        ensures
            *h == self.spec_history(),
    {
        &self.history
    }

    /// How many turns have been completed.
    pub fn turn_count(&self) -> (n: usize)
        ensures
            n == self.spec_turn_count(),
    {
        self.turn_count
    }

    /// What to ask the engine for at the start of a turn: a search for the
    /// user's input, for as many traces as a turn recalls.
    pub fn recall_query(&self, user_input: &str) -> (q: Query)
        ensures
            user_input@.len() == 0 ==> (q matches Query::Recent { session_id, limit } && session_id@
                == self.spec_history().spec_session_id() && limit == fetch_limit(
                self.spec_recall_top_k(),
            )),
            user_input@.len() != 0 ==> (q matches Query::Matching { query, limit } && query@
                == user_input@ && limit == fetch_limit(self.spec_recall_top_k())),
    {
        self.history.search_query(user_input, self.recall_top_k)
    }

    /// The first step of a turn: reads the recalled rows, presents them as
    /// context, and makes the user's trace, which records how many traces
    /// were recalled.
    pub fn recall_step(&self, user_input: String, rows: Vec<TraceRow>) -> (r: Result<
        ChatAction,
        Error,
    >)
        ensures
            match r {
                Ok(a) => a matches ChatAction::Generate { user_trace, context } && (traces_of(
                    rows@,
                ) matches Ok(all) && (recall_lines(recalled_of(user_input@, all)) matches Some(lines)
                    && is_context(context@, recalled_of(user_input@, all), lines)
                    && user_trace.metadata@ == user_metadata(all.len())))
                    && user_trace.wf()
                    && user_trace.id@.len() == 36
                    && user_trace.session_id@ == self.spec_history().spec_session_id()
                    && user_trace.role@ == "user"@
                    && user_trace.content@ == user_input@
                    && user_trace.embedding.is_none(),
                Err(e) => match traces_of(rows@) {
                    Err(f) => reports(e, f),
                    Ok(all) => recall_lines(recalled_of(user_input@, all)).is_none() && reports(
                        e,
                        Fault::Timestamp,
                    ),
                },
            },
    {
        let relevant = match self.history.search(user_input.as_str(), rows, false) {
            Ok(ts) => ts,
            Err(e) => {
                return Err(e);
            },
        };
        let mut context: Vec<Message> = Vec::new();
        if relevant.len() > 0 {
            let text = match recall_context(&relevant) {
                Ok(text) => text,
                Err(e) => {
                    return Err(e);
                },
            };
            context.push(Message { role: String::from_str("system"), content: text });
        }
        let message = Message { role: String::from_str("user"), content: user_input };
        let mut metadata = Metadata::new();
        metadata.insert(
            String::from_str("recalled_traces"),
            MetaValue::Int(count_of(relevant.len() as u64)),
        );
        let user_trace = self.history.log_turn(&message, metadata);
        Ok(ChatAction::Generate { user_trace, context })
    }

    /// The second step of a turn: makes the assistant's trace for a reply,
    /// which records the latency, success, and no token count; a failure of
    /// the generator ends the turn with the generator's account.
    pub fn reply_step(&self, reply: Result<String, String>, duration_ms: u64) -> (r: Result<
        ChatAction,
        Error,
    >)
        ensures
            match reply {
                Err(why) => r == Err::<ChatAction, Error>(Error::Rig(why)),
                Ok(text) => r matches Ok(ChatAction::Record { assistant_trace, reply: answer })
                    && answer@ == text@
                    && assistant_trace.wf()
                    && assistant_trace.id@.len() == 36
                    && assistant_trace.session_id@ == self.spec_history().spec_session_id()
                    && assistant_trace.role@ == "assistant"@
                    && assistant_trace.content@ == text@
                    && assistant_trace.metadata@ == assistant_metadata(duration_ms)
                    && assistant_trace.embedding.is_none(),
            },
    {
        let response = match crate::history::generation_outcome(reply) {
            Ok(text) => text,
            Err(e) => {
                return Err(e);
            },
        };
        let message = Message { role: String::from_str("assistant"), content: response.clone() };
        let mut metadata = Metadata::new();
        metadata.insert(String::from_str("duration_ms"), MetaValue::Int(count_of(duration_ms)));
        metadata.insert(String::from_str("success"), MetaValue::Bool(true));
        metadata.insert(String::from_str("tokens_used"), MetaValue::Null);
        let assistant_trace = self.history.log_turn(&message, metadata);
        Ok(ChatAction::Record { assistant_trace, reply: response })
    }

    /// The last step of a turn: counts the turn and says whether a summary
    /// is due.
    pub fn finish_step(&mut self) -> (summarize: bool)
        requires
            old(self).spec_turn_count() < usize::MAX,
        ensures
            final(self).spec_turn_count() == old(self).spec_turn_count() + 1,
            final(self).spec_history() == old(self).spec_history(),
            final(self).spec_recall_top_k() == old(self).spec_recall_top_k(),
            final(self).spec_summarize_every() == old(self).spec_summarize_every(),
            summarize == final(self).summary_due(final(self).spec_turn_count()),
    {
        self.turn_count = self.turn_count + 1;
        self.summarize_every != 0 && self.turn_count % self.summarize_every == 0
    }

    /// One step of a chat turn: what to do next, given what happened. A turn
    /// runs through `Asked`, `Replied` and `Stored` in this order; only the
    /// last changes the agent, by counting the turn.
    pub fn chat(&mut self, event: ChatEvent) -> (r: Result<ChatAction, Error>)
        requires
            event is Stored ==> old(self).spec_turn_count() < usize::MAX,
        ensures
            final(self).spec_history() == old(self).spec_history(),
            final(self).spec_recall_top_k() == old(self).spec_recall_top_k(),
            final(self).spec_summarize_every() == old(self).spec_summarize_every(),
            !(event is Stored) ==> final(self).spec_turn_count() == old(self).spec_turn_count(),
            match event {
                ChatEvent::Asked { user_input, rows } => match r {
                    Ok(a) => a matches ChatAction::Generate { user_trace, context } && (traces_of(
                        rows@,
                    ) matches Ok(all) && (recall_lines(recalled_of(user_input@, all)) matches Some(
                        lines,
                    ) && is_context(context@, recalled_of(user_input@, all), lines)
                        && user_trace.metadata@ == user_metadata(all.len())))
                        && user_trace.wf()
                        && user_trace.id@.len() == 36
                        && user_trace.session_id@ == old(self).spec_history().spec_session_id()
                        && user_trace.role@ == "user"@
                        && user_trace.content@ == user_input@
                        && user_trace.embedding.is_none(),
                    Err(e) => match traces_of(rows@) {
                        Err(f) => reports(e, f),
                        Ok(all) => recall_lines(recalled_of(user_input@, all)).is_none() && reports(
                            e,
                            Fault::Timestamp,
                        ),
                    },
                },
                ChatEvent::Replied { reply, duration_ms } => match reply {
                    Err(why) => r == Err::<ChatAction, Error>(Error::Rig(why)),
                    Ok(text) => r matches Ok(ChatAction::Record { assistant_trace, reply: answer })
                        && answer@ == text@
                        && assistant_trace.wf()
                        && assistant_trace.id@.len() == 36
                        && assistant_trace.session_id@ == old(self).spec_history().spec_session_id()
                        && assistant_trace.role@ == "assistant"@
                        && assistant_trace.content@ == text@
                        && assistant_trace.metadata@ == assistant_metadata(duration_ms)
                        && assistant_trace.embedding.is_none(),
                },
                ChatEvent::Stored => final(self).spec_turn_count() == old(self).spec_turn_count() + 1
                    && (r matches Ok(ChatAction::Done { summarize }) && summarize
                    == final(self).summary_due(final(self).spec_turn_count())),
            },
    {
        match event {
            ChatEvent::Asked { user_input, rows } => self.recall_step(user_input, rows),
            ChatEvent::Replied { reply, duration_ms } => self.reply_step(reply, duration_ms),
            ChatEvent::Stored => {
                let summarize = self.finish_step();
                Ok(ChatAction::Done { summarize })
            },
        }
    }

    /// The request to put to the generator for a summary of the session,
    /// from the rows that the engine gave for the log's summary query.
    pub fn summarize(&self, rows: Vec<TraceRow>) -> (r: Result<String, Error>)
        ensures
            match r {
                Ok(prompt) => traces_of(rows@) matches Ok(all) && prompt@
                    == crate::history::summary_preamble() + crate::history::transcript(all),
                Err(e) => traces_of(rows@) matches Err(f) && reports(e, f),
            },
    {
        self.history.summarize_session(rows)
    }
}

} // verus!
