//! What holds of every run of a stage, and of two stages joined into a
//! pipeline (fetch, then extraction), stated over the abstract stage state.
use crate::stage::{Event, Plan, StageView};
use vstd::prelude::*;

verus! {

/// The state after the events `es`, taken in order from `s`.
pub open spec fn run(s: StageView, es: Seq<Event>) -> StageView
    decreases es.len(),
{
    if es.len() == 0 {
        s
    } else {
        run(s.after(es[0]), es.drop_first())
    }
}

/// Whether each of the events `es` can be observed in turn, starting from `s`.
pub open spec fn feasible(s: StageView, es: Seq<Event>) -> bool
    decreases es.len(),
{
    es.len() == 0 || (s.accepts(es[0]) && feasible(s.after(es[0]), es.drop_first()))
}

/// The work a stage still has before it can finish once upstream is closed:
/// two for each operation in flight, one for a result waiting to be sent.
pub open spec fn work_left(s: StageView) -> nat {
    if s.halted {
        0
    } else {
        2 * s.in_flight.len() + if s.sending is Some { 1nat } else { 0nat }
    }
}

/// A fresh stage is in a valid state.
pub proof fn lemma_initial_valid(limit: nat)
    requires
        limit > 0,
    ensures
        StageView::initial(limit).valid(),
{
}

/// Every event that a valid stage accepts leads to a valid state.
pub proof fn lemma_step_valid(s: StageView, e: Event)
    requires
        s.valid(),
        s.accepts(e),
    ensures
        s.after(e).valid(),
{
    match e {
        Event::Received => {
            assert(!s.in_flight.contains(s.received as u64));
        },
        Event::Completed { slot, .. } => {
            assert(s.in_flight.contains(slot));
        },
        _ => {},
    }
}

/// A run of accepted events from a valid state stays valid.
pub proof fn lemma_run_valid(s: StageView, es: Seq<Event>)
    requires
        s.valid(),
        feasible(s, es),
    ensures
        run(s, es).valid(),
        run(s, es).limit == s.limit,
    decreases es.len(),
{
    if es.len() > 0 {
        lemma_step_valid(s, es[0]);
        lemma_run_valid(s.after(es[0]), es.drop_first());
    }
}

/// The first events of a run that can be observed can be observed too.
pub proof fn lemma_prefix_feasible(s: StageView, es: Seq<Event>, k: nat)
    requires
        feasible(s, es),
        k <= es.len(),
    ensures
        feasible(s, es.take(k as int)),
    decreases k,
{
    if k > 0 {
        let t = es.take(k as int);
        assert(t[0] == es[0]);
        assert(t.drop_first() =~= es.drop_first().take(k - 1));
        lemma_prefix_feasible(s.after(es[0]), es.drop_first(), (k - 1) as nat);
    }
}

/// Concurrency bound: at no point of any run of a stage with limit `limit`
/// (at least one) are more than `limit` operations in flight.
pub proof fn lemma_in_flight_bounded(limit: nat, es: Seq<Event>, k: nat)
    requires
        limit >= 1,
        feasible(StageView::initial(limit), es),
        k <= es.len(),
    ensures
        run(StageView::initial(limit), es.take(k as int)).in_flight.len() <= limit,
{
    lemma_initial_valid(limit);
    lemma_prefix_feasible(StageView::initial(limit), es, k);
    lemma_run_valid(StageView::initial(limit), es.take(k as int));
}

/// A valid stage that has not finished waits on an event that can come: it
/// never waits on nothing.
pub proof fn lemma_no_idle_wait(s: StageView)
    requires
        s.valid(),
        s.plan() != Plan::Finished,
    ensures
        exists|e: Event| #[trigger] s.accepts(e),
{
    if s.plan() is Send {
        assert(s.accepts(Event::Forwarded));
    } else if s.admitting() {
        assert(s.accepts(Event::UpstreamClosed));
    } else {
        let slot = s.in_flight.choose();
        assert(s.accepts(Event::Completed { slot, succeeded: true }));
    }
}

/// Once upstream is closed, each event strictly lessens the work left, and a
/// stage with none left has finished: a closed stage terminates.
pub proof fn lemma_drains_after_close(s: StageView, e: Event)
    requires
        s.valid(),
        s.upstream_closed,
        s.accepts(e),
    ensures
        work_left(s.after(e)) < work_left(s),
        s.after(e).upstream_closed,
{
    if let Event::Completed { slot, .. } = e {
        assert(s.in_flight.contains(slot));
    }
}

/// A closed stage with no work left has finished.
pub proof fn lemma_finished_when_no_work(s: StageView)
    requires
        s.valid(),
        s.upstream_closed,
        work_left(s) == 0,
    ensures
        s.plan() == Plan::Finished,
{
}

/// A stage finishes, short of downstream going away, only once upstream is
/// closed and every received item has been forwarded or has failed.
pub proof fn lemma_finished_accounts_all(s: StageView)
    requires
        s.valid(),
        s.plan() == Plan::Finished,
        !s.halted,
    ensures
        s.upstream_closed,
        s.in_flight.len() == 0,
        s.sending is None,
        s.forwarded + s.failed == s.received,
{
}

/// A batch of `n` records through a fetch stage and an extraction stage that
/// both finished, with the consumer never gone: the output holds `n` minus
/// the records that a fetch or an extraction failed on.
pub proof fn lemma_batch_output(fetch: StageView, extract: StageView, n: nat)
    requires
        fetch.valid(),
        extract.valid(),
        fetch.plan() == Plan::Finished,
        extract.plan() == Plan::Finished,
        !fetch.halted,
        !extract.halted,
        fetch.received == n,
        extract.received == fetch.forwarded,
    ensures
        extract.forwarded + fetch.failed + extract.failed == n,
{
    lemma_finished_accounts_all(fetch);
    lemma_finished_accounts_all(extract);
}

/// Where every fetch and every extraction of a batch of `n` records succeeds,
/// the output holds exactly `n` resources.
pub proof fn lemma_batch_all_succeed(fetch: StageView, extract: StageView, n: nat)
    requires
        fetch.valid(),
        extract.valid(),
        fetch.plan() == Plan::Finished,
        extract.plan() == Plan::Finished,
        !fetch.halted,
        !extract.halted,
        fetch.received == n,
        extract.received == fetch.forwarded,
        fetch.failed == 0,
        extract.failed == 0,
    ensures
        extract.forwarded == n,
{
    lemma_batch_output(fetch, extract, n);
}

/// Where one fetch of a batch of `n` records fails and everything else
/// succeeds, the output holds exactly `n - 1` resources.
pub proof fn lemma_batch_one_fetch_fails(fetch: StageView, extract: StageView, n: nat)
    requires
        fetch.valid(),
        extract.valid(),
        fetch.plan() == Plan::Finished,
        extract.plan() == Plan::Finished,
        !fetch.halted,
        !extract.halted,
        fetch.received == n,
        extract.received == fetch.forwarded,
        fetch.failed == 1,
        extract.failed == 0,
    ensures
        n >= 1,
        extract.forwarded == n - 1,
{
    lemma_batch_output(fetch, extract, n);
}

/// Closing upstream before anything was sent: the stage finishes at once
/// with nothing forwarded. The stage downstream of it then receives nothing
/// and, once closed in turn, finishes the same way.
pub proof fn lemma_close_without_input(limit: nat)
    requires
        limit >= 1,
    ensures
        StageView::initial(limit).accepts(Event::UpstreamClosed),
        StageView::initial(limit).after(Event::UpstreamClosed).plan() == Plan::Finished,
        StageView::initial(limit).after(Event::UpstreamClosed).forwarded == 0,
{
}

/// Backpressure: a stage with `limit` operations in flight, or with a result
/// that downstream has not yet accepted, takes no further item from
/// upstream; while the result waits, only downstream's answer moves it.
pub proof fn lemma_backpressure(s: StageView, e: Event)
    requires
        s.valid(),
        s.in_flight.len() == s.limit || s.sending is Some,
    ensures
        !s.accepts(Event::Received),
        s.sending is Some && s.accepts(e) ==> e == Event::Forwarded || e == Event::ForwardFailed,
{
}

} // verus!
