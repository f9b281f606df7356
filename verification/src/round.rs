//! One round of probes: every target once, then quick rechecks for as long as nothing answers.

use vstd::prelude::*;

verus! {

/// The HTTP status that counts as a success: No Content.
pub const NO_CONTENT: u16 = 204;

/// What a round wants done next.
#[derive(Debug, Clone, Copy, PartialEq, Eq, Structural)]
pub enum Action {
    /// Send a request to the target with this index.
    Probe { target: usize },
    /// Wait for the pause between rechecks.
    Pause,
    /// Nothing: the round is over.
    Finish,
}

/// What has happened.
#[derive(Debug, Clone, Copy, PartialEq, Eq, Structural)]
pub enum Event {
    /// The target answered with this HTTP status after this many milliseconds.
    Reply { status: u16, elapsed_ms: u128 },
    /// The request failed or timed out.
    Failure,
    /// The pause is over.
    Rested,
}

/// The state of a round.
pub struct RoundView {
    /// How many targets there are.
    pub targets: nat,
    /// How many rechecks follow a first pass in which nothing answered.
    pub bursts: nat,
    /// The pass that is running: the first is 0, the rechecks follow.
    pub pass: nat,
    /// The target that is next in this pass.
    pub next: nat,
    /// Whether any probe has succeeded.
    pub any_ok: bool,
    /// The latency of the last probe that succeeded.
    pub last_latency: Option<u128>,
}

/// What the round wants next, seen abstractly.
pub enum Step {
    Probe(nat),
    Pause,
    Finish,
}

/// The latency of a successful answer; nothing for any other event.
pub open spec fn success(e: Event) -> Option<u128> {
    match e {
        Event::Reply { status, elapsed_ms } => if status == NO_CONTENT {
            Some(elapsed_ms)
        } else {
            None
        },
        _ => None,
    }
}

impl RoundView {
    pub open spec fn start(targets: nat, bursts: nat) -> RoundView {
        RoundView { targets, bursts, pass: 0, next: 0, any_ok: false, last_latency: None }
    }

    pub open spec fn wf(self) -> bool {
        &&& self.next <= self.targets
        &&& self.pass <= self.bursts
    }

    /// A pass goes through all targets. After it, another follows a pause only while nothing
    /// has answered and rechecks are left.
    pub open spec fn step(self) -> Step {
        if self.next < self.targets {
            Step::Probe(self.next)
        } else if !self.any_ok && self.pass < self.bursts {
            Step::Pause
        } else {
            Step::Finish
        }
    }

    /// The event is an answer to what the round wants.
    pub open spec fn expects(self, e: Event) -> bool {
        match self.step() {
            Step::Probe(_) => e is Reply || e is Failure,
            Step::Pause => e is Rested,
            Step::Finish => false,
        }
    }

    /// The state after an event. One that the round does not expect changes nothing.
    pub open spec fn after(self, e: Event) -> RoundView {
        if !self.expects(e) {
            self
        } else if e is Rested {
            RoundView { pass: self.pass + 1, next: 0, ..self }
        } else {
            match success(e) {
                Some(ms) => RoundView {
                    next: self.next + 1,
                    any_ok: true,
                    last_latency: Some(ms),
                    ..self
                },
                None => RoundView { next: self.next + 1, ..self },
            }
        }
    }

    /// The latencies that an event adds to the link's history.
    pub open spec fn measured(self, e: Event) -> Seq<u128> {
        if self.expects(e) && success(e) is Some {
            seq![success(e)->0]
        } else {
            Seq::empty()
        }
    }

    /// The state after some events.
    pub open spec fn after_all(self, events: Seq<Event>) -> RoundView
        decreases events.len(),
    {
        if events.len() == 0 {
            self
        } else {
            self.after_all(events.drop_last()).after(events.last())
        }
    }

    /// The latencies that some events add to the link's history.
    pub open spec fn measured_all(self, events: Seq<Event>) -> Seq<u128>
        decreases events.len(),
    {
        if events.len() == 0 {
            Seq::empty()
        } else {
            self.measured_all(events.drop_last()) + self.after_all(events.drop_last()).measured(
                events.last(),
            )
        }
    }

    /// Every event is one that the round expects when it comes.
    pub open spec fn expects_all(self, events: Seq<Event>) -> bool
        decreases events.len(),
    {
        events.len() == 0 || (self.expects_all(events.drop_last()) && self.after_all(
            events.drop_last(),
        ).expects(events.last()))
    }

    /// How many probes some events answer.
    pub open spec fn probes_all(self, events: Seq<Event>) -> nat
        decreases events.len(),
    {
        if events.len() == 0 {
            0
        } else {
            let last = self.after_all(events.drop_last());
            self.probes_all(events.drop_last()) + if last.expects(events.last()) && last.step()
                is Probe {
                1nat
            } else {
                0nat
            }
        }
    }

    /// How many events the round can still take at most.
    pub open spec fn budget(self) -> int {
        self.targets - self.next + (self.bursts - self.pass) * (self.targets + 1)
    }
}

#[derive(Debug)]
pub struct Round {
    targets: usize,
    burst_count: usize,
    pass: usize,
    next: usize,
    any_ok: bool,
    last_latency: Option<u128>,
}

impl View for Round {
    type V = RoundView;

    closed spec fn view(&self) -> RoundView {
        RoundView {
            targets: self.targets as nat,
            bursts: self.burst_count as nat,
            pass: self.pass as nat,
            next: self.next as nat,
            any_ok: self.any_ok,
            last_latency: self.last_latency,
        }
    }
}

impl Round {
    /// A round over this many targets, with this many rechecks where nothing answers.
    pub fn new(targets: usize, burst_count: usize) -> (r: Self)
        ensures
            r@ == RoundView::start(targets as nat, burst_count as nat),
            r@.wf(),
    {
        Round { targets, burst_count, pass: 0, next: 0, any_ok: false, last_latency: None }
    }

    /// What the round wants done next.
    pub fn action(&self) -> (r: Action)
        ensures
            match r {
                Action::Probe { target } => self@.step() == Step::Probe(target as nat) && target
                    < self@.targets,
                Action::Pause => self@.step() == Step::Pause,
                Action::Finish => self@.step() == Step::Finish,
            },
    {
        if self.next < self.targets {
            Action::Probe { target: self.next }
        } else if !self.any_ok && self.pass < self.burst_count {
            Action::Pause
        } else {
            Action::Finish
        }
    }

    /// Takes in an event. A success is added to the history of latencies.
    pub fn observe(&mut self, event: Event, history: &mut Vec<u128>)
        ensures
            final(self)@ == old(self)@.after(event),
            final(history)@ == old(history)@ + old(self)@.measured(event),
            old(self)@.wf() ==> final(self)@.wf(),
    {
        match event {
            Event::Reply { status, elapsed_ms } => {
                if self.next < self.targets {
                    self.next = self.next + 1;
                    if status == NO_CONTENT {
                        self.any_ok = true;
                        self.last_latency = Some(elapsed_ms);
                        history.push(elapsed_ms);
                    }
                }
            },
            Event::Failure => {
                if self.next < self.targets {
                    self.next = self.next + 1;
                }
            },
            Event::Rested => {
                if self.next >= self.targets && !self.any_ok && self.pass < self.burst_count {
                    self.pass = self.pass + 1;
                    self.next = 0;
                }
            },
        }
        assert(final(history)@ =~= old(history)@ + old(self)@.measured(event));
    }

    /// Whether the round is still in its first pass.
    pub fn in_first_pass(&self) -> (r: bool)
        ensures
            r == (self@.pass == 0),
    {
        self.pass == 0
    }

    /// Whether any probe has succeeded, and the latency of the last that has.
    pub fn outcome(&self) -> (r: (bool, Option<u128>))
        ensures
            r == (self@.any_ok, self@.last_latency),
    {
        (self.any_ok, self.last_latency)
    }
}

/// Only status 204 counts as a success: any other answer does what a failed request does.
pub proof fn law_only_no_content_succeeds(r: RoundView, status: u16, elapsed_ms: u128)
    requires
        status != 204,
    ensures
        r.after(Event::Reply { status, elapsed_ms }) == r.after(Event::Failure),
        r.measured(Event::Reply { status, elapsed_ms }) == Seq::<u128>::empty(),
{
}

/// What a round reports is what was measured: it is a success exactly when some probe
/// succeeded, and it carries the latency that was measured last.
pub proof fn law_outcome_is_what_was_measured(targets: nat, bursts: nat, events: Seq<Event>)
    ensures
        ({
            let start = RoundView::start(targets, bursts);
            let end = start.after_all(events);
            let found = start.measured_all(events);
            &&& end.any_ok <==> found.len() > 0
            &&& end.last_latency == if found.len() > 0 {
                Some(found.last())
            } else {
                None
            }
        }),
    decreases events.len(),
{
    if events.len() > 0 {
        law_outcome_is_what_was_measured(targets, bursts, events.drop_last());
    }
}

proof fn lemma_run_keeps(targets: nat, bursts: nat, events: Seq<Event>)
    ensures
        RoundView::start(targets, bursts).after_all(events).wf(),
        RoundView::start(targets, bursts).after_all(events).targets == targets,
        RoundView::start(targets, bursts).after_all(events).bursts == bursts,
    decreases events.len(),
{
    if events.len() > 0 {
        lemma_run_keeps(targets, bursts, events.drop_last());
    }
}

proof fn lemma_budget_shrinks(r: RoundView, e: Event)
    requires
        r.wf(),
        r.expects(e),
    ensures
        0 <= r.after(e).budget() < r.budget(),
{
    let n = r.targets + 1;
    let left = r.bursts - r.pass;
    assert(left * n >= 0) by (nonlinear_arith)
        requires
            left >= 0,
            n >= 0,
    ;
    if e is Rested {
        assert((left - 1) * n == left * n - n) by (nonlinear_arith);
        assert((left - 1) * n >= 0) by (nonlinear_arith)
            requires
                left >= 1,
                n >= 0,
        ;
    }
}

/// A round ends: it takes at most one probe per target in each of its passes and one pause
/// before each recheck.
pub proof fn law_round_is_bounded(targets: nat, bursts: nat, events: Seq<Event>)
    requires
        RoundView::start(targets, bursts).expects_all(events),
    ensures
        events.len() <= (bursts + 1) * targets + bursts,
{
    lemma_bounded_by_budget(targets, bursts, events);
    lemma_run_keeps(targets, bursts, events);
    let end = RoundView::start(targets, bursts).after_all(events);
    assert((end.bursts - end.pass) * (end.targets + 1) >= 0) by (nonlinear_arith)
        requires
            end.wf(),
    ;
    assert((bursts + 1) * targets + bursts == targets + bursts * (targets + 1))
        by (nonlinear_arith);
}

proof fn lemma_bounded_by_budget(targets: nat, bursts: nat, events: Seq<Event>)
    requires
        RoundView::start(targets, bursts).expects_all(events),
    ensures
        events.len() + RoundView::start(targets, bursts).after_all(events).budget() <= targets
            + bursts * (targets + 1),
    decreases events.len(),
{
    let start = RoundView::start(targets, bursts);
    if events.len() > 0 {
        lemma_bounded_by_budget(targets, bursts, events.drop_last());
        lemma_run_keeps(targets, bursts, events.drop_last());
        lemma_budget_shrinks(start.after_all(events.drop_last()), events.last());
    }
}

/// Once a probe has succeeded, no pause follows: whatever comes in, the round only completes
/// the pass that it is in.
pub proof fn law_no_recheck_after_success(r: RoundView, events: Seq<Event>)
    requires
        r.any_ok,
    ensures
        r.after_all(events).any_ok,
        r.after_all(events).pass == r.pass,
        r.after_all(events).step() != Step::Pause,
    decreases events.len(),
{
    if events.len() > 0 {
        law_no_recheck_after_success(r, events.drop_last());
    }
}

proof fn lemma_probes_counted(targets: nat, bursts: nat, events: Seq<Event>)
    ensures
        ({
            let start = RoundView::start(targets, bursts);
            let end = start.after_all(events);
            start.probes_all(events) == end.pass * targets + end.next
        }),
    decreases events.len(),
{
    let start = RoundView::start(targets, bursts);
    if events.len() > 0 {
        lemma_probes_counted(targets, bursts, events.drop_last());
        lemma_run_keeps(targets, bursts, events.drop_last());
        let last = start.after_all(events.drop_last());
        assert((last.pass + 1) * targets == last.pass * targets + targets) by (nonlinear_arith);
    }
}

/// A round that is over has probed every target in each of its passes. Without a success these
/// are the first pass and all rechecks.
pub proof fn law_finished_round_probed_every_target(targets: nat, bursts: nat, events: Seq<Event>)
    requires
        RoundView::start(targets, bursts).after_all(events).step() == Step::Finish,
    ensures
        ({
            let start = RoundView::start(targets, bursts);
            let end = start.after_all(events);
            &&& start.probes_all(events) == (end.pass + 1) * targets
            &&& !end.any_ok ==> start.probes_all(events) == (bursts + 1) * targets
        }),
{
    let start = RoundView::start(targets, bursts);
    let end = start.after_all(events);
    lemma_run_keeps(targets, bursts, events);
    lemma_probes_counted(targets, bursts, events);
    assert((end.pass + 1) * targets == end.pass * targets + targets) by (nonlinear_arith);
}

/// Every answer with status 204 to a probe is a success, however long it took: the round has its
/// success and its latency, and the history grows by exactly that latency.
pub proof fn law_no_content_always_succeeds(r: RoundView, elapsed_ms: u128)
    requires
        r.next < r.targets,
    ensures
        ({
            let e = Event::Reply { status: 204, elapsed_ms };
            &&& r.after(e).any_ok
            &&& r.after(e).last_latency == Some(elapsed_ms)
            &&& r.measured(e) == seq![elapsed_ms]
        }),
{
}

/// A probe that does not succeed leaves the success so far, the latency and the history alone.
pub proof fn law_failed_probe_forgets_nothing(r: RoundView, status: u16, elapsed_ms: u128)
    requires
        status != 204,
    ensures
        r.after(Event::Failure).any_ok == r.any_ok,
        r.after(Event::Failure).last_latency == r.last_latency,
        r.measured(Event::Failure).len() == 0,
        r.after(Event::Reply { status, elapsed_ms }).any_ok == r.any_ok,
        r.after(Event::Reply { status, elapsed_ms }).last_latency == r.last_latency,
        r.measured(Event::Reply { status, elapsed_ms }).len() == 0,
{
}

/// While targets are left in a pass, the next one is probed, and any answer to the probe, a failure
/// too, moves on to the one after it in the same pass.
pub proof fn law_pass_probes_targets_in_order(r: RoundView, status: u16, elapsed_ms: u128)
    requires
        r.next < r.targets,
    ensures
        r.step() == Step::Probe(r.next),
        r.expects(Event::Reply { status, elapsed_ms }),
        r.expects(Event::Failure),
        !r.expects(Event::Rested),
        r.after(Event::Reply { status, elapsed_ms }).next == r.next + 1,
        r.after(Event::Failure).next == r.next + 1,
        r.after(Event::Reply { status, elapsed_ms }).pass == r.pass,
        r.after(Event::Failure).pass == r.pass,
        r.after(Event::Reply { status, elapsed_ms }).targets == r.targets,
        r.after(Event::Reply { status, elapsed_ms }).bursts == r.bursts,
        r.after(Event::Failure).targets == r.targets,
        r.after(Event::Failure).bursts == r.bursts,
        r.after(Event::Rested) == r,
{
}

/// After a pass the round pauses where nothing has answered and rechecks are left, and is over
/// otherwise. After the pause the next pass begins with the first target, and nothing else changes.
pub proof fn law_recheck_follows_a_pass_without_success(r: RoundView)
    requires
        r.next == r.targets,
    ensures
        !r.any_ok && r.pass < r.bursts ==> {
            &&& r.step() == Step::Pause
            &&& r.expects(Event::Rested)
            &&& r.after(Event::Rested).next == 0
            &&& r.after(Event::Rested).pass == r.pass + 1
            &&& r.after(Event::Rested).targets == r.targets
            &&& r.after(Event::Rested).bursts == r.bursts
            &&& !r.after(Event::Rested).any_ok
            &&& r.after(Event::Rested).last_latency == r.last_latency
        },
        r.any_ok || r.pass >= r.bursts ==> {
            &&& r.step() == Step::Finish
            &&& r.after(Event::Rested) == r
        },
        r.measured(Event::Rested).len() == 0,
        r.after(Event::Failure) == r,
{
}

/// A round begins with the first target in its first pass, without a success or a latency.
pub proof fn law_round_begins_at_the_first_target(targets: nat, bursts: nat)
    ensures
        ({
            let r = RoundView::start(targets, bursts);
            &&& r.targets == targets
            &&& r.bursts == bursts
            &&& r.pass == 0
            &&& r.next == 0
            &&& !r.any_ok
            &&& r.last_latency is None
            &&& targets > 0 ==> r.step() == Step::Probe(0)
        }),
{
}

/// Events come in one by one: one more event acts on the state that those before it left, and adds
/// its own measurement behind theirs.
pub proof fn law_events_act_in_order(r: RoundView, events: Seq<Event>, e: Event)
    ensures
        r.after_all(Seq::empty()) == r,
        r.measured_all(Seq::empty()).len() == 0,
        r.after_all(events.push(e)) == r.after_all(events).after(e),
        r.measured_all(events.push(e)) == r.measured_all(events) + r.after_all(events).measured(e),
{
    assert(events.push(e).drop_last() =~= events);
}

} // verus!
