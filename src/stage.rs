//! The bounded concurrent stage: the scheduling rules of one pipeline phase.
//!
//! A stage pulls items from an upstream queue, runs a unit operation on each,
//! and forwards the successful results downstream, with at most `limit`
//! operations in flight. The stage decides; whoever drives it waits on what
//! [`Stage::plan`] names, reports what happened as an [`Event`] and performs
//! the [`Action`] that [`Stage::step`] returns. Each admitted item is tagged
//! with a slot number, drawn from a counter, which its completion reports.
use vstd::prelude::*;

verus! {

/// What the driver of a stage waits for next.
#[derive(Clone, Copy, Debug, PartialEq, Eq, Structural)]
pub enum Plan {
    /// Wait for an upstream item (if `receive`) or for an in-flight operation to
    /// complete (if `collect`), whichever comes first; when both are ready,
    /// admission goes first.
    Await { receive: bool, collect: bool },
    /// Wait until the pending result is accepted downstream, or the
    /// downstream queue turns out to be closed.
    Send,
    /// The stage has terminated.
    Finished,
}

/// What the driver of a stage observed.
#[derive(Clone, Copy, Debug, PartialEq, Eq, Structural)]
pub enum Event {
    /// The upstream queue handed over an item.
    Received,
    /// The upstream queue is closed and drained.
    UpstreamClosed,
    /// The operation admitted under `slot` completed, with or without success.
    Completed { slot: u64, succeeded: bool },
    /// The pending result was accepted downstream.
    Forwarded,
    /// The downstream queue is closed: the pending result cannot be sent.
    ForwardFailed,
}

/// What the driver of a stage is to do.
#[derive(Clone, Copy, Debug, PartialEq, Eq, Structural)]
pub enum Action {
    /// Start the unit operation on the item just received, under `slot`.
    Start { slot: u64 },
    /// Send the result of the operation of `slot` downstream.
    Forward { slot: u64 },
    /// The operation of `slot` failed: its item is dropped.
    Discard { slot: u64 },
    /// Nothing to do but to ask for the next plan.
    Proceed,
    /// The downstream consumer is gone: stop.
    Halt,
}

/// The abstract state of a stage.
pub struct StageView {
    /// The most operations that may be in flight at once.
    pub limit: nat,
    /// The slots of the operations in flight.
    pub in_flight: Set<u64>,
    /// How many items were received from upstream; the next slot number.
    pub received: nat,
    /// Whether upstream is known to be closed and drained.
    pub upstream_closed: bool,
    /// The slot whose result waits to be accepted downstream, if any.
    pub sending: Option<u64>,
    /// Whether the stage stopped because downstream is gone.
    pub halted: bool,
    /// How many results were accepted downstream.
    pub forwarded: nat,
    /// How many operations failed.
    pub failed: nat,
}

impl StageView {
    /// The state of a stage that has seen nothing yet.
    pub open spec fn initial(limit: nat) -> StageView {
        StageView {
            limit,
            in_flight: Set::empty(),
            received: 0,
            upstream_closed: false,
            sending: None,
            halted: false,
            forwarded: 0,
            failed: 0,
        }
    }

    /// The states that a stage can be in: never more than `limit` operations
    /// in flight, slots drawn from the counter, and every received item
    /// accounted for exactly once (in flight, waiting to be sent, forwarded,
    /// failed, or lost with the downstream queue).
    pub open spec fn valid(self) -> bool {
        &&& self.limit > 0
        &&& self.in_flight.finite()
        &&& self.in_flight.len() <= self.limit
        &&& forall|s: u64| #[trigger] self.in_flight.contains(s) ==> s < self.received
        &&& self.sending matches Some(s) ==> s < self.received && !self.in_flight.contains(s)
        &&& self.received == self.in_flight.len() + self.forwarded + self.failed + (if self.sending
            is Some { 1nat } else { 0nat }) + (if self.halted { 1nat } else { 0nat })
        &&& self.received <= u64::MAX
    }

    /// What the stage waits for in this state.
    pub open spec fn plan(self) -> Plan {
        if self.halted {
            Plan::Finished
        } else if self.sending is Some {
            Plan::Send
        } else {
            let receive = !self.upstream_closed && self.in_flight.len() < self.limit;
            let collect = self.in_flight.len() > 0;
            if receive || collect {
                Plan::Await { receive, collect }
            } else {
                Plan::Finished
            }
        }
    }

    /// Whether the stage admits a new item in this state.
    pub open spec fn admitting(self) -> bool {
        self.plan() matches Plan::Await { receive, .. } && receive
    }

    /// The events that the driver can observe while waiting on the plan.
    pub open spec fn accepts(self, e: Event) -> bool {
        match e {
            Event::Received => self.admitting() && self.received < u64::MAX,
            Event::UpstreamClosed => self.admitting(),
            Event::Completed { slot, .. } => self.plan() is Await && self.in_flight.contains(
                slot,
            ),
            Event::Forwarded | Event::ForwardFailed => self.plan() is Send,
        }
    }

    /// The state after event `e`.
    pub open spec fn after(self, e: Event) -> StageView {
        match e {
            Event::Received => StageView {
                in_flight: self.in_flight.insert(self.received as u64),
                received: self.received + 1,
                ..self
            },
            Event::UpstreamClosed => StageView { upstream_closed: true, ..self },
            Event::Completed { slot, succeeded } => if succeeded {
                StageView { in_flight: self.in_flight.remove(slot), sending: Some(slot), ..self }
            } else {
                StageView {
                    in_flight: self.in_flight.remove(slot),
                    failed: self.failed + 1,
                    ..self
                }
            },
            Event::Forwarded => StageView {
                sending: None,
                forwarded: self.forwarded + 1,
                ..self
            },
            Event::ForwardFailed => StageView { sending: None, halted: true, ..self },
        }
    }

    /// What the driver is to do on event `e`.
    pub open spec fn action(self, e: Event) -> Action {
        match e {
            Event::Received => Action::Start { slot: self.received as u64 },
            Event::Completed { slot, succeeded } => if succeeded {
                Action::Forward { slot }
            } else {
                Action::Discard { slot }
            },
            Event::ForwardFailed => Action::Halt,
            _ => Action::Proceed,
        }
    }
}

/// One stage's scheduling state.
pub struct Stage {
    limit: usize,
    in_flight: Vec<u64>,
    received: u64,
    upstream_closed: bool,
    sending: Option<u64>,
    halted: bool,
    forwarded: u64,
    failed: u64,
}

impl View for Stage {
    type V = StageView;

    closed spec fn view(&self) -> StageView {
        StageView {
            limit: self.limit as nat,
            in_flight: self.in_flight@.to_set(),
            received: self.received as nat,
            upstream_closed: self.upstream_closed,
            sending: self.sending,
            halted: self.halted,
            forwarded: self.forwarded as nat,
            failed: self.failed as nat,
        }
    }
}

impl Stage {
    /// The stage's own bookkeeping agrees with its abstract state, and that
    /// state is valid.
    pub closed spec fn wf(&self) -> bool {
        &&& self.in_flight@.no_duplicates()
        &&& self.in_flight@.len() == self@.in_flight.len()
        &&& self@.valid()
    }

    /// A stage with nothing received, allowing `limit` operations in flight.
    pub fn new(limit: usize) -> (r: Stage)
        requires
            limit > 0,
        ensures
            r.wf(),
            r@ == StageView::initial(limit as nat),
    {
        let r = Stage {
            limit,
            in_flight: Vec::new(),
            received: 0,
            upstream_closed: false,
            sending: None,
            halted: false,
            forwarded: 0,
            failed: 0,
        };
        proof {
            assert(r.in_flight@.to_set() =~= Set::empty());
        }
        r
    }

    /// How many operations are in flight.
    pub fn in_flight(&self) -> (r: usize)
        requires
            self.wf(),
        ensures
            r == self@.in_flight.len(),
    {
        self.in_flight.len()
    }

    /// How many items were received from upstream.
    pub fn received(&self) -> (r: u64)
        ensures
            r == self@.received,
    {
        self.received
    }

    /// How many results were accepted downstream.
    pub fn forwarded(&self) -> (r: u64)
        ensures
            r == self@.forwarded,
    {
        self.forwarded
    }

    /// How many operations failed.
    pub fn failed(&self) -> (r: u64)
        ensures
            r == self@.failed,
    {
        self.failed
    }

    /// What to wait for next.
    pub fn plan(&self) -> (r: Plan)
        requires
            self.wf(),
        ensures
            r == self@.plan(),
    {
        if self.halted {
            Plan::Finished
        } else if self.sending.is_some() {
            Plan::Send
        } else {
            let receive = !self.upstream_closed && self.in_flight.len() < self.limit;
            let collect = self.in_flight.len() > 0;
            if receive || collect {
                Plan::Await { receive, collect }
            } else {
                Plan::Finished
            }
        }
    }

    /// Where `slot` stands among the operations in flight, if it is there.
    fn position(&self, slot: u64) -> (r: Option<usize>)
        requires
            self.wf(),
        ensures
            r matches Some(i) ==> i < self.in_flight@.len() && self.in_flight@[i as int] == slot,
            r is None ==> !self@.in_flight.contains(slot),
    {
        let mut i: usize = 0;
        while i < self.in_flight.len()
            invariant
                i <= self.in_flight@.len(),
                forall|j: int| 0 <= j < i ==> self.in_flight@[j] != slot,
            decreases self.in_flight@.len() - i,
        {
            if self.in_flight[i] == slot {
                return Some(i);
            }
            i = i + 1;
        }
        None
    }

    /// Whether the driver can observe `event` now, waiting on the plan.
    pub fn accepts(&self, event: Event) -> (r: bool)
        requires
            self.wf(),
        ensures
            r == self@.accepts(event),
    {
        let plan = self.plan();
        let receiving = match plan {
            Plan::Await { receive, .. } => receive,
            _ => false,
        };
        match event {
            Event::Received => receiving && self.received < u64::MAX,
            Event::UpstreamClosed => receiving,
            Event::Completed { slot, .. } => {
                let waiting = match plan {
                    Plan::Await { .. } => true,
                    _ => false,
                };
                waiting && self.position(slot).is_some()
            },
            Event::Forwarded | Event::ForwardFailed => match plan {
                Plan::Send => true,
                _ => false,
            },
        }
    }

    /// Takes `event` into account, and says what to do about it.
    pub fn step(&mut self, event: Event) -> (action: Action)
        requires
            old(self).wf(),
            old(self)@.accepts(event),
        ensures
            final(self).wf(),
            final(self)@ == old(self)@.after(event),
            action == old(self)@.action(event),
    {
        let ghost before = self@;
        match event {
            Event::Received => {
                let slot = self.received;
                proof {
                    assert(!self.in_flight@.contains(slot)) by {
                        if self.in_flight@.contains(slot) {
                            assert(self@.in_flight.contains(slot));
                        }
                    }
                }
                let ghost old_seq = self.in_flight@;
                self.in_flight.push(slot);
                self.received = self.received + 1;
                proof {
                    assert(old_seq.push(slot) == self.in_flight@);
                    old_seq.lemma_push_to_set_commute(slot);
                    assert(self@.in_flight =~= before.in_flight.insert(slot));
                    assert(self.in_flight@.no_duplicates()) by {
                        assert forall|a: int, b: int|
                            0 <= a < b < self.in_flight@.len() implies self.in_flight@[a]
                            != self.in_flight@[b] by {
                            if b == self.in_flight@.len() - 1 {
                                assert(old_seq.contains(old_seq[a]));
                            }
                        }
                    }
                }
                Action::Start { slot }
            },
            Event::UpstreamClosed => {
                self.upstream_closed = true;
                proof {
                    assert(self@ == before.after(event));
                }
                Action::Proceed
            },
            Event::Completed { slot, succeeded } => {
                let found = self.position(slot);
                let i = match found {
                    Some(i) => i,
                    None => {
                        proof {
                            assert(false);
                        }
                        0
                    },
                };
                let ghost old_seq = self.in_flight@;
                self.in_flight.remove(i);
                proof {
                    let new_seq = self.in_flight@;
                    assert(new_seq == old_seq.remove(i as int));
                    assert(forall|j: int| 0 <= j < i ==> new_seq[j] == old_seq[j]);
                    assert(forall|j: int| i <= j < new_seq.len() ==> new_seq[j] == old_seq[j + 1]);
                    assert(new_seq.no_duplicates()) by {
                        assert forall|a: int, b: int| 0 <= a < b < new_seq.len() implies new_seq[a]
                            != new_seq[b] by {
                            let oa = if a < i { a } else { a + 1 };
                            let ob = if b < i { b } else { b + 1 };
                            assert(old_seq[oa] != old_seq[ob]);
                        }
                    }
                    assert(new_seq.to_set() =~= old_seq.to_set().remove(slot)) by {
                        assert forall|x: u64| new_seq.to_set().contains(x) implies old_seq.to_set().remove(
                            slot,
                        ).contains(x) by {
                            let j = choose|j: int| 0 <= j < new_seq.len() && new_seq[j] == x;
                            let oj = if j < i { j } else { j + 1 };
                            assert(old_seq[oj] == x);
                            assert(old_seq.contains(x));
                            assert(oj != i);
                        }
                        assert forall|x: u64| old_seq.to_set().remove(slot).contains(x) implies new_seq.to_set().contains(
                            x,
                        ) by {
                            let j = choose|j: int| 0 <= j < old_seq.len() && old_seq[j] == x;
                            assert(j != i);
                            let nj = if j < i { j } else { j - 1 };
                            assert(new_seq[nj] == x);
                            assert(new_seq.contains(x));
                        }
                    }
                    assert(old_seq.to_set().contains(slot)) by {
                        assert(old_seq.contains(slot));
                    }
                }
                if succeeded {
                    self.sending = Some(slot);
                    proof {
                        assert(self@.in_flight =~= before.in_flight.remove(slot));
                    }
                    Action::Forward { slot }
                } else {
                    self.failed = self.failed + 1;
                    proof {
                        assert(self@.in_flight =~= before.in_flight.remove(slot));
                    }
                    Action::Discard { slot }
                }
            },
            Event::Forwarded => {
                self.sending = None;
                self.forwarded = self.forwarded + 1;
                proof {
                    assert(self@ == before.after(event));
                }
                Action::Proceed
            },
            Event::ForwardFailed => {
                self.sending = None;
                self.halted = true;
                proof {
                    assert(self@ == before.after(event));
                }
                Action::Halt
            },
        }
    }
}

} // verus!
