//! Bulk import of traces from a text of one record a line.
use vstd::prelude::*;
use crate::error::Error;
use crate::history::{reports, row_of, AgentHistory, Fault, RowView, TraceRow};
use crate::text::{chars_of, push_char};
use crate::trace::Trace;

verus! {

/// Whether a character is white space in the sense of Unicode.
pub uninterp spec fn is_space(c: char) -> bool;

/// `char::is_whitespace`.
#[verifier::external_body]
fn is_whitespace(c: char) -> (r: bool)
    ensures
        r == is_space(c),
{
    c.is_whitespace()
}

/// A line is blank where it holds nothing but white space.
pub open spec fn is_blank(line: Seq<char>) -> bool {
    forall|i: int| 0 <= i < line.len() ==> is_space(#[trigger] line[i])
}

/// The state of a scan over a text: the records that lines completed so far
/// gave, and the line that is being read.
pub struct Scan {
    pub records: Seq<Seq<char>>,
    pub line: Seq<char>,
}

/// The records with the line being read added, unless it is blank.
pub open spec fn close_line(s: Scan) -> Seq<Seq<char>> {
    if is_blank(s.line) {
        s.records
    } else {
        s.records.push(s.line)
    }
}

/// The scan after the whole of `text`: a line feed ends a line, any other
/// character belongs to the line being read.
pub open spec fn scan(text: Seq<char>) -> Scan
    decreases text.len(),
{
    if text.len() == 0 {
        Scan { records: Seq::empty(), line: Seq::empty() }
    } else {
        let before = scan(text.drop_last());
        if text.last() == '\n' {
            Scan { records: close_line(before), line: Seq::empty() }
        } else {
            Scan { records: before.records, line: before.line.push(text.last()) }
        }
    }
}

/// The records of a text: its lines, as separated by line feeds, without the
/// blank ones.
pub open spec fn records_of(text: Seq<char>) -> Seq<Seq<char>> {
    close_line(scan(text))
}

/// The views of a list of texts.
pub open spec fn texts(v: Seq<String>) -> Seq<Seq<char>> {
    v.map_values(|s: String| s@)
}

/// The records of an import source, in their order: each line that is not
/// blank.
pub fn import_records(content: &str) -> (records: Vec<String>)
    ensures
        texts(records@) == records_of(content@),
{
    let chars = chars_of(content);
    let mut records: Vec<String> = Vec::new();
    let mut line = String::new();
    let mut blank = true;
    let mut i: usize = 0;
    assert(texts(records@) =~= Seq::<Seq<char>>::empty());
    assert(chars@.take(0) =~= Seq::<char>::empty());
    while i < chars.len()
        invariant
            0 <= i <= chars.len(),
            scan(chars@.take(i as int)) == (Scan { records: texts(records@), line: line@ }),
            blank == is_blank(line@),
        decreases chars.len() - i,
    {
        let c = chars[i];
        proof {
            assert(chars@.take(i + 1).drop_last() =~= chars@.take(i as int));
            assert(chars@.take(i + 1).last() == c);
        }
        if c == '\n' {
            if !blank {
                let ghost before = records@;
                records.push(line);
                assert(texts(records@) =~= texts(before).push(line@));
            }
            line = String::new();
            blank = true;
        } else {
            let ghost before = line@;
            push_char(&mut line, c);
            let space = is_whitespace(c);
            proof {
                if blank && space {
                    assert(is_blank(line@));
                } else if !space {
                    assert(line@[before.len() as int] == c);
                } else {
                    let j = choose|j: int| 0 <= j < before.len() && !is_space(#[trigger] before[j]);
                    assert(line@[j] == before[j]);
                }
            }
            blank = blank && space;
        }
        i += 1;
    }
    assert(chars@.take(i as int) =~= chars@);
    if !blank {
        let ghost before = records@;
        records.push(line);
        assert(texts(records@) =~= texts(before).push(line@));
    }
    records
}

/// A record, read or not, can be imported: it was read as a trace, and the
/// trace has a row.
pub open spec fn importable(record: Result<Trace, String>) -> bool {
    record matches Ok(t) && row_of(t) is Ok
}

/// `row` is the row under which the trace of a record is stored.
pub open spec fn stores(record: Result<Trace, String>, row: TraceRow) -> bool {
    record matches Ok(t) && row_of(t) == Ok::<RowView, Fault>(row@)
}

/// The number of records that an import stores: those before the first one
/// that cannot be imported.
pub open spec fn imported(parsed: Seq<Result<Trace, String>>) -> int
    decreases parsed.len(),
{
    if parsed.len() == 0 {
        0
    } else {
        let before = imported(parsed.drop_last());
        if before == parsed.len() - 1 && importable(parsed.last()) {
            before + 1
        } else {
            before
        }
    }
}

/// Where an import stops within a prefix of the records, it stops there for
/// all of them.
pub proof fn lemma_imported_stops(parsed: Seq<Result<Trace, String>>, n: int)
    requires
        0 <= n <= parsed.len(),
        imported(parsed.take(n)) < n,
    ensures
        imported(parsed) == imported(parsed.take(n)),
    decreases parsed.len(),
{
    if n == parsed.len() {
        assert(parsed.take(n) =~= parsed);
    } else {
        assert(parsed.drop_last().take(n) =~= parsed.take(n));
        lemma_imported_stops(parsed.drop_last(), n);
    }
}

/// What an import amounts to.
#[derive(Debug)]
pub struct ImportPlan {
    /// The rows to store, in this order.
    pub rows: Vec<TraceRow>,
    /// The number of records imported, where all of them were; else the
    /// error of the first record that was not.
    pub outcome: Result<usize, Error>,
}

impl AgentHistory {
    /// Plans the import of records that were read one by one, each as a
    /// trace or with an account of why it is none. The records before the
    /// first that cannot be imported are stored as they are, whatever follows
    /// them; the call as a whole succeeds only where every record can be
    /// imported.
    pub fn import_jsonl(&self, parsed: &Vec<Result<Trace, String>>) -> (plan: ImportPlan)
        ensures
            plan.rows@.len() == imported(parsed@),
            forall|i: int| 0 <= i < plan.rows@.len() ==> stores(parsed@[i], #[trigger] plan.rows@[i]),
            match plan.outcome {
                Ok(count) => count == parsed@.len() && imported(parsed@) == parsed@.len(),
                Err(e) => imported(parsed@) < parsed@.len() && match parsed@[imported(parsed@)] {
                    Err(why) => e == Error::Json(why),
                    Ok(t) => row_of(t) matches Err(f) && reports(e, f),
                },
            },
    {
        let mut rows: Vec<TraceRow> = Vec::new();
        let mut i: usize = 0;
        assert(parsed@.take(0) =~= Seq::<Result<Trace, String>>::empty());
        while i < parsed.len()
            invariant
                0 <= i <= parsed.len(),
                rows@.len() == i,
                imported(parsed@.take(i as int)) == i,
                forall|j: int| 0 <= j < i ==> stores(parsed@[j], #[trigger] rows@[j]),
            decreases parsed.len() - i,
        {
            proof {
                assert(parsed@.take(i + 1).drop_last() =~= parsed@.take(i as int));
                assert(parsed@.take(i + 1).last() == parsed@[i as int]);
            }
            let stored = match &parsed[i] {
                Ok(t) => self.log_trace(t),
                Err(why) => Err(Error::Json(why.clone())),
            };
            match stored {
                Ok(row) => {
                    rows.push(row);
                },
                Err(e) => {
                    proof {
                        lemma_imported_stops(parsed@, i as int + 1);
                    }
                    return ImportPlan { rows, outcome: Err(e) };
                },
            }
            i += 1;
        }
        assert(parsed@.take(i as int) =~= parsed@);
        ImportPlan { rows, outcome: Ok(i) }
    }
}

} // verus!
