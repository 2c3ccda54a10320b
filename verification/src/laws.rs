//! What holds of the log's operations taken together.
use vstd::prelude::*;
use crate::history::{fetch_limit, successes, trace_of, traces_of, Fault, TraceRow};
use crate::trace::{MetaValue, TraceView};

verus! {

/// The traces come latest first: none is later than one before it.
pub open spec fn latest_first(ts: Seq<TraceView>) -> bool {
    forall|i: int, j: int|
        0 <= i <= j < ts.len() ==> (#[trigger] ts[j]).created_at.not_after(
            &(#[trigger] ts[i]).created_at,
        )
}

/// The traces come earliest first: none is later than one after it.
pub open spec fn earliest_first(ts: Seq<TraceView>) -> bool {
    forall|i: int, j: int|
        0 <= i <= j < ts.len() ==> (#[trigger] ts[i]).created_at.not_after(
            &(#[trigger] ts[j]).created_at,
        )
}

/// Rows that can all be read hold as many traces as there are rows, and the
/// first `k` rows hold the first `k` of these traces.
pub proof fn lemma_traces_of_prefix(rows: Seq<TraceRow>, k: int)
    requires
        0 <= k <= rows.len(),
        traces_of(rows) is Ok,
    ensures
        traces_of(rows)->Ok_0.len() == rows.len(),
        traces_of(rows.take(k)) == Ok::<Seq<TraceView>, crate::history::Fault>(
            traces_of(rows)->Ok_0.take(k),
        ),
    decreases rows.len(),
{
    let all = traces_of(rows)->Ok_0;
    if rows.len() == 0 {
        assert(rows.take(k) =~= rows);
        assert(all.take(k) =~= all);
    } else {
        lemma_traces_of_prefix(rows.drop_last(), if k < rows.len() {
            k
        } else {
            k - 1
        });
        let before = traces_of(rows.drop_last())->Ok_0;
        if k == rows.len() {
            assert(rows.take(k) =~= rows);
            assert(all.take(k) =~= all);
        } else {
            assert(rows.drop_last().take(k) =~= rows.take(k));
            assert(before.take(k) =~= all.take(k));
        }
    }
}

/// Recall is chronological: where the engine gives the rows of a session
/// latest first, as a recall asks it to, the traces that `recent` makes of
/// them come earliest first.
pub proof fn recent_is_chronological(rows: Seq<TraceRow>)
    requires
        traces_of(rows) is Ok,
        latest_first(traces_of(rows)->Ok_0),
    ensures
        earliest_first(traces_of(rows)->Ok_0.reverse()),
{
    let all = traces_of(rows)->Ok_0;
    let back = all.reverse();
    assert forall|i: int, j: int| 0 <= i <= j < back.len() implies (#[trigger] back[i]).created_at.not_after(
        &(#[trigger] back[j]).created_at,
    ) by {
        let a = all.len() - 1 - j;
        let b = all.len() - 1 - i;
        assert(back[i] == all[b]);
        assert(back[j] == all[a]);
        assert(all[b].created_at.not_after(&all[a].created_at));
    }
}

/// A shorter recall gives the end of a longer one: where the engine gives,
/// for a smaller limit, the first `k` of the rows that it gives for a larger
/// one, `recent` makes of them the last `k` traces of what it makes of all
/// the rows, in the same order.
pub proof fn recent_of_fewer_is_the_end(rows: Seq<TraceRow>, k: int)
    requires
        0 <= k <= rows.len(),
        traces_of(rows) is Ok,
    ensures
        traces_of(rows.take(k)) is Ok,
        traces_of(rows.take(k))->Ok_0.reverse() == traces_of(rows)->Ok_0.reverse().skip(
            rows.len() - k,
        ),
{
    lemma_traces_of_prefix(rows, k);
    let all = traces_of(rows)->Ok_0;
    assert(all.take(k).reverse() =~= all.reverse().skip(rows.len() - k));
}

/// A recall of nothing gives nothing: no rows hold no traces.
pub proof fn recent_of_nothing_is_empty(rows: Seq<TraceRow>)
    requires
        rows.len() == 0,
    ensures
        traces_of(rows) == Ok::<Seq<TraceView>, crate::history::Fault>(Seq::empty()),
        traces_of(rows)->Ok_0.reverse().len() == 0,
{
}

/// The rows of one session among the rows of a store, in the store's order.
pub open spec fn session_rows(table: Seq<TraceRow>, session: Seq<char>) -> Seq<TraceRow>
    decreases table.len(),
{
    if table.len() == 0 {
        Seq::empty()
    } else if table.last().session_id@ == session {
        session_rows(table.drop_last(), session).push(table.last())
    } else {
        session_rows(table.drop_last(), session)
    }
}

/// What a recall of a session is answered with by an engine whose store
/// holds its rows in the order of their times: the session's rows from the
/// last backwards, `limit` of them at most; all of them where the limit is
/// negative.
pub open spec fn recent_rows(table: Seq<TraceRow>, session: Seq<char>, limit: i64) -> Seq<TraceRow> {
    let back = session_rows(table, session).reverse();
    if 0 <= limit < back.len() {
        back.take(limit as int)
    } else {
        back
    }
}

/// Rows that can all be read hold, place by place, the trace of each row.
pub proof fn lemma_traces_of_each(rows: Seq<TraceRow>)
    requires
        traces_of(rows) is Ok,
    ensures
        traces_of(rows)->Ok_0.len() == rows.len(),
        forall|i: int|
            0 <= i < rows.len() ==> trace_of(#[trigger] rows[i]@) == Ok::<TraceView, Fault>(
                traces_of(rows)->Ok_0[i],
            ),
    decreases rows.len(),
{
    if rows.len() > 0 {
        lemma_traces_of_each(rows.drop_last());
        assert forall|i: int| 0 <= i < rows.len() implies trace_of(#[trigger] rows[i]@) == Ok::<
            TraceView,
            Fault,
        >(traces_of(rows)->Ok_0[i]) by {
            if i < rows.len() - 1 {
                assert(rows.drop_last()[i] == rows[i]);
            }
        }
    }
}

/// Rows of which each can be read can all be read.
pub proof fn lemma_traces_of_all(rows: Seq<TraceRow>)
    requires
        forall|i: int| 0 <= i < rows.len() ==> trace_of(#[trigger] rows[i]@) is Ok,
    ensures
        traces_of(rows) is Ok,
    decreases rows.len(),
{
    if rows.len() > 0 {
        assert forall|i: int| 0 <= i < rows.drop_last().len() implies trace_of(
            #[trigger] rows.drop_last()[i]@,
        ) is Ok by {
            assert(rows.drop_last()[i] == rows[i]);
        }
        lemma_traces_of_all(rows.drop_last());
        assert(trace_of(rows[rows.len() - 1]@) is Ok);
    }
}

/// The rows of a session are rows of that session.
pub proof fn lemma_session_rows_own(table: Seq<TraceRow>, session: Seq<char>)
    ensures
        forall|i: int|
            0 <= i < session_rows(table, session).len() ==> (#[trigger] session_rows(
                table,
                session,
            )[i]).session_id@ == session,
    decreases table.len(),
{
    if table.len() > 0 {
        lemma_session_rows_own(table.drop_last(), session);
    }
}

/// Rows of a session that are added to a store are added to the session's
/// rows.
pub proof fn lemma_session_rows_append(table: Seq<TraceRow>, logged: Seq<TraceRow>, session: Seq<char>)
    requires
        forall|i: int| 0 <= i < logged.len() ==> (#[trigger] logged[i]).session_id@ == session,
    ensures
        session_rows(table + logged, session) == session_rows(table, session) + logged,
    decreases logged.len(),
{
    if logged.len() == 0 {
        assert(table + logged =~= table);
        assert(session_rows(table, session) + logged =~= session_rows(table, session));
    } else {
        let front = logged.drop_last();
        assert((table + logged).drop_last() =~= table + front);
        assert((table + logged).last() == logged.last());
        assert(logged[logged.len() - 1].session_id@ == session);
        assert forall|i: int| 0 <= i < front.len() implies (#[trigger] front[i]).session_id@
            == session by {
            assert(front[i] == logged[i]);
        }
        lemma_session_rows_append(table, front, session);
        assert((session_rows(table, session) + front).push(logged.last()) =~= session_rows(
            table,
            session,
        ) + logged);
    }
}

/// A recall gives the end of the session: for a store whose rows of the
/// session can all be read, `recent` makes of the engine's answer to a recall
/// of `n` traces the last `n` traces of the session in the order of the
/// store, and all of them where the session has no more than `n`.
pub proof fn recall_gives_the_latest(table: Seq<TraceRow>, session: Seq<char>, n: usize)
    requires
        traces_of(session_rows(table, session)) is Ok,
    ensures
        traces_of(recent_rows(table, session, fetch_limit(n))) is Ok,
        traces_of(recent_rows(table, session, fetch_limit(n)))->Ok_0.reverse() == ({
            let mine = traces_of(session_rows(table, session))->Ok_0;
            if 0 <= fetch_limit(n) < mine.len() {
                mine.skip(mine.len() - n)
            } else {
                mine
            }
        }),
{
    let own = session_rows(table, session);
    let mine = traces_of(own)->Ok_0;
    let rows = recent_rows(table, session, fetch_limit(n));
    lemma_traces_of_each(own);
    assert forall|i: int| 0 <= i < rows.len() implies trace_of(#[trigger] rows[i]@) is Ok by {
        assert(rows[i] == own[own.len() - 1 - i]);
    }
    lemma_traces_of_all(rows);
    lemma_traces_of_each(rows);
    let got = traces_of(rows)->Ok_0;
    if 0 <= fetch_limit(n) < mine.len() {
        assert(rows.len() == n);
        assert forall|i: int| 0 <= i < n implies got.reverse()[i] == mine.skip(mine.len() - n)[i] by {
            let j = n - 1 - i;
            let k = own.len() - n + i;
            assert(got.reverse()[i] == got[j]);
            assert(rows[j] == own[k]);
            assert(trace_of(rows[j]@) == Ok::<TraceView, Fault>(got[j]));
            assert(trace_of(own[k]@) == Ok::<TraceView, Fault>(mine[k]));
        }
        assert(got.reverse() =~= mine.skip(mine.len() - n));
    } else {
        assert(rows.len() == own.len());
        assert forall|i: int| 0 <= i < mine.len() implies got.reverse()[i] == mine[i] by {
            let j = own.len() - 1 - i;
            assert(got.reverse()[i] == got[j]);
            assert(rows[j] == own[i]);
            assert(trace_of(rows[j]@) == Ok::<TraceView, Fault>(got[j]));
            assert(trace_of(own[i]@) == Ok::<TraceView, Fault>(mine[i]));
        }
        assert(got.reverse() =~= mine);
    }
}

/// After logging, a recall gives what was logged: where `n` rows of a
/// session have been added to a store, `recent` makes of the engine's answer
/// to a recall of `n` traces exactly the traces of those rows, in the order
/// in which they were added.
pub proof fn recall_after_logging(
    table: Seq<TraceRow>,
    logged: Seq<TraceRow>,
    session: Seq<char>,
    n: usize,
)
    requires
        n == logged.len(),
        n <= i64::MAX,
        forall|i: int| 0 <= i < logged.len() ==> (#[trigger] logged[i]).session_id@ == session,
        traces_of(session_rows(table + logged, session)) is Ok,
    ensures
        traces_of(logged) is Ok,
        traces_of(recent_rows(table + logged, session, fetch_limit(n))) is Ok,
        traces_of(recent_rows(table + logged, session, fetch_limit(n)))->Ok_0.reverse()
            == traces_of(logged)->Ok_0,
{
    let before = session_rows(table, session);
    let own = session_rows(table + logged, session);
    lemma_session_rows_append(table, logged, session);
    recall_gives_the_latest(table + logged, session, n);
    lemma_traces_of_each(own);
    assert forall|i: int| 0 <= i < logged.len() implies trace_of(#[trigger] logged[i]@) is Ok by {
        assert(own[before.len() + i] == logged[i]);
    }
    lemma_traces_of_all(logged);
    lemma_traces_of_each(logged);
    let mine = traces_of(own)->Ok_0;
    let last = if 0 <= fetch_limit(n) < mine.len() {
        mine.skip(mine.len() - n)
    } else {
        mine
    };
    assert(own.len() == before.len() + n);
    assert(last.len() == n);
    assert forall|i: int| 0 <= i < n implies last[i] == traces_of(logged)->Ok_0[i] by {
        let k = before.len() + i;
        assert(own[k] == logged[i]);
        assert(last[i] == mine[k]);
        assert(trace_of(own[k]@) == Ok::<TraceView, Fault>(mine[k]));
        assert(trace_of(logged[i]@) == Ok::<TraceView, Fault>(traces_of(logged)->Ok_0[i]));
    }
    assert(last =~= traces_of(logged)->Ok_0);
}

/// Sessions do not see each other's turns in a recall: every trace that
/// `recent` makes of the engine's answer to a recall belongs to the session
/// that was asked for.
pub proof fn recall_stays_in_its_session(table: Seq<TraceRow>, session: Seq<char>, limit: i64)
    requires
        traces_of(recent_rows(table, session, limit)) is Ok,
    ensures
        forall|i: int|
            0 <= i < traces_of(recent_rows(table, session, limit))->Ok_0.len() ==> (
            #[trigger] traces_of(recent_rows(table, session, limit))->Ok_0.reverse()[i]).session_id
                == session,
{
    let own = session_rows(table, session);
    let rows = recent_rows(table, session, limit);
    let got = traces_of(rows)->Ok_0;
    lemma_session_rows_own(table, session);
    lemma_traces_of_each(rows);
    assert forall|i: int| 0 <= i < got.len() implies (#[trigger] got.reverse()[i]).session_id
        == session by {
        let j = got.len() - 1 - i;
        assert(got.reverse()[i] == got[j]);
        assert(trace_of(rows[j]@) == Ok::<TraceView, Fault>(got[j]));
        assert(rows[j] == own[own.len() - 1 - j]);
        assert(own[own.len() - 1 - j].session_id@ == session);
    }
}

/// Filtering loses nothing else: the successful traces among those fetched
/// are no more than those fetched, each of them was fetched, and each is
/// successful; and every successful trace that was fetched is among them.
pub proof fn successes_are_fetched(all: Seq<TraceView>)
    ensures
        successes(all).len() <= all.len(),
        forall|t: TraceView| #[trigger] successes(all).contains(t) <==> all.contains(t) && t.succeeded(),
    decreases all.len(),
{
    if all.len() > 0 {
        let front = all.drop_last();
        let last = all.last();
        successes_are_fetched(front);
        assert forall|t: TraceView| #[trigger] successes(all).contains(t) <==> all.contains(t)
            && t.succeeded() by {
            if successes(all).contains(t) {
                let i = choose|i: int| 0 <= i < successes(all).len() && successes(all)[i] == t;
                if last.succeeded() && i == successes(front).len() {
                    assert(t == last);
                    assert(all[all.len() - 1] == t);
                } else {
                    assert(successes(front)[i] == t);
                    assert(successes(front).contains(t));
                    let j = choose|j: int| 0 <= j < front.len() && front[j] == t;
                    assert(all[j] == t);
                }
            }
            if all.contains(t) && t.succeeded() {
                let j = choose|j: int| 0 <= j < all.len() && all[j] == t;
                if j == all.len() - 1 {
                    assert(successes(all).last() == t);
                } else {
                    assert(front[j] == t);
                    assert(front.contains(t));
                    assert(successes(front).contains(t));
                    let i = choose|i: int| 0 <= i < successes(front).len() && successes(front)[i] == t;
                    assert(successes(all)[i] == t);
                }
            }
        }
    }
}

/// Success is the default: metadata with no "success" key counts as
/// successful, and so does any value under that key but the boolean `false`.
pub proof fn success_unless_false(t: TraceView)
    ensures
        !t.metadata.contains_key("success"@) ==> t.succeeded(),
        t.metadata.contains_key("success"@) && t.metadata["success"@] == MetaValue::Bool(true)
            ==> t.succeeded(),
        t.metadata.contains_key("success"@) && t.metadata["success"@] == MetaValue::Bool(false)
            ==> !t.succeeded(),
{
}

} // verus!
