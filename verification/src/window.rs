//! The outcomes of the latest probe rounds of one link.

use std::collections::VecDeque;
use vstd::prelude::*;

verus! {

/// One round: whether any probe succeeded, and the latency of the last that did.
pub type Outcome = (bool, Option<u128>);

/// What a window that holds `held` holds after one more outcome: at its bound it lets the
/// oldest outcome go first.
pub open spec fn pushed(held: Seq<Outcome>, bound: nat, o: Outcome) -> Seq<Outcome> {
    if held.len() == bound && held.len() > 0 {
        held.drop_first().push(o)
    } else {
        held.push(o)
    }
}

/// What a window that holds `held` holds after the outcomes `news`, one after the other.
pub open spec fn pushed_all(held: Seq<Outcome>, bound: nat, news: Seq<Outcome>) -> Seq<Outcome>
    decreases news.len(),
{
    if news.len() == 0 {
        held
    } else {
        pushed(pushed_all(held, bound, news.drop_last()), bound, news.last())
    }
}

/// How many of the outcomes were successes.
pub open spec fn successes(held: Seq<Outcome>) -> nat
    decreases held.len(),
{
    if held.len() == 0 {
        0
    } else {
        successes(held.drop_last()) + if held.last().0 {
            1nat
        } else {
            0nat
        }
    }
}

/// The latency that the latest outcome carries.
pub open spec fn latest_latency(held: Seq<Outcome>) -> Option<u128> {
    if held.len() == 0 {
        None
    } else {
        held.last().1
    }
}

/// A share of a whole, as an exact fraction.
#[derive(Debug, Clone, Copy, PartialEq, Eq, Structural)]
pub struct Ratio {
    pub num: u128,
    pub den: u128,
}

impl Ratio {
    /// The fraction has a value, and it lies between none and all.
    pub open spec fn wf(self) -> bool {
        &&& self.den > 0
        &&& self.num <= self.den
    }

    /// The value of this fraction is at least that of the other.
    pub open spec fn at_least(self, other: Ratio) -> bool {
        self.num * other.den >= other.num * self.den
    }
}

/// The share of successes among some outcomes: none where there are no outcomes.
pub open spec fn availability_of(held: Seq<Outcome>) -> Ratio {
    if held.len() == 0 {
        Ratio { num: 0, den: 1 }
    } else {
        Ratio { num: successes(held) as u128, den: held.len() as u128 }
    }
}

#[derive(Debug, Clone)]
pub struct ProbeWindow {
    outcomes: VecDeque<(bool, Option<u128>)>,
    capacity: usize,
}

impl View for ProbeWindow {
    type V = Seq<Outcome>;

    closed spec fn view(&self) -> Seq<Outcome> {
        self.outcomes@
    }
}

impl ProbeWindow {
    /// How many outcomes the window is meant to hold.
    pub closed spec fn bound(&self) -> nat {
        self.capacity as nat
    }

    /// A window with a positive bound never holds more than that many outcomes.
    pub open spec fn wf(&self) -> bool {
        self.bound() > 0 ==> self@.len() <= self.bound()
    }

    /// An empty window for this many outcomes.
    pub fn new(capacity: usize) -> (r: Self)
        ensures
            r@ == Seq::<Outcome>::empty(),
            r.bound() == capacity,
            r.wf(),
    {
        ProbeWindow { outcomes: VecDeque::new(), capacity }
    }

    /// Takes in the outcome of a round.
    pub fn push(&mut self, ok: bool, latency_ms: Option<u128>)
        ensures
            final(self)@ == pushed(old(self)@, old(self).bound(), (ok, latency_ms)),
            final(self).bound() == old(self).bound(),
            old(self).wf() ==> final(self).wf(),
    {
        if self.outcomes.len() == self.capacity {
            let _ = self.outcomes.pop_front();
        }
        self.outcomes.push_back((ok, latency_ms));
    }

    /// The number of successes.
    pub fn ok_count(&self) -> (r: usize)
        ensures
            r == successes(self@),
            r <= self@.len(),
    {
        let mut count: usize = 0;
        let len: usize = self.outcomes.len();
        for i in 0..len
            invariant
                len == self@.len(),
                self@ == self.outcomes@,
                count == successes(self@.take(i as int)),
                count <= i,
        {
            proof {
                assert(self@.take(i + 1).drop_last() =~= self@.take(i as int));
            }
            if self.outcomes[i].0 {
                count = count + 1;
            }
        }
        proof {
            assert(self@.take(len as int) =~= self@);
        }
        count
    }

    /// The share of successes.
    pub fn ok_ratio(&self) -> (r: Ratio)
        ensures
            r == availability_of(self@),
            r.wf(),
            self@.len() > 0 ==> r.den == self@.len(),
            r.num == self@.filter(|o: Outcome| o.0).len(),
    {
        let len: usize = self.outcomes.len();
        proof {
            law_successes_count(self@);
        }
        if len == 0 {
            Ratio { num: 0, den: 1 }
        } else {
            let ok: usize = self.ok_count();
            Ratio { num: ok as u128, den: len as u128 }
        }
    }

    /// The latency that the latest outcome carries.
    pub fn last_latency(&self) -> (r: Option<u128>)
        ensures
            r == latest_latency(self@),
    {
        let len: usize = self.outcomes.len();
        if len == 0 {
            None
        } else {
            self.outcomes[len - 1].1
        }
    }

    /// The number of outcomes held.
    pub fn len(&self) -> (r: usize)
        ensures
            r == self@.len(),
    {
        self.outcomes.len()
    }
}

impl Default for ProbeWindow {
    fn default() -> (r: Self)
        ensures
            r@ == Seq::<Outcome>::empty(),
            r.bound() == 0,
            r.wf(),
    {
        ProbeWindow::new(0)
    }
}

/// The successes among some outcomes are no more than the outcomes.
pub proof fn law_successes_at_most_all(held: Seq<Outcome>)
    ensures
        successes(held) <= held.len(),
        successes(held) > 0 <==> exists|i: int| 0 <= i < held.len() && (#[trigger] held[i]).0,
        successes(held) == held.len() <==> forall|i: int|
            0 <= i < held.len() ==> (#[trigger] held[i]).0,
    decreases held.len(),
{
    if held.len() > 0 {
        let rest = held.drop_last();
        law_successes_at_most_all(rest);
        assert(forall|i: int| 0 <= i < rest.len() ==> rest[i] == held[i]);
        if successes(held) > 0 {
            if held.last().0 {
                assert(held[held.len() - 1].0);
            } else {
                let i = choose|i: int| 0 <= i < rest.len() && (#[trigger] rest[i]).0;
                assert(held[i].0);
            }
        }
        if exists|i: int| 0 <= i < held.len() && (#[trigger] held[i]).0 {
            let i = choose|i: int| 0 <= i < held.len() && (#[trigger] held[i]).0;
            if i < held.len() - 1 {
                assert(rest[i].0);
            }
        }
        if forall|i: int| 0 <= i < held.len() ==> (#[trigger] held[i]).0 {
            assert(held[held.len() - 1].0);
            assert forall|i: int| 0 <= i < rest.len() implies (#[trigger] rest[i]).0 by {
                assert(held[i].0);
            }
        }
        if successes(held) == held.len() {
            assert forall|i: int| 0 <= i < held.len() implies (#[trigger] held[i]).0 by {
                if i < rest.len() {
                    assert(rest[i].0);
                }
            }
        }
    }
}

/// The availability is none exactly when no outcome was a success, and full exactly when there
/// are outcomes and all were successes.
pub proof fn law_availability_extremes(held: Seq<Outcome>)
    requires
        held.len() <= usize::MAX,
    ensures
        availability_of(held).wf(),
        availability_of(held).num == 0 <==> forall|i: int|
            0 <= i < held.len() ==> !(#[trigger] held[i]).0,
        availability_of(held).num == availability_of(held).den <==> held.len() > 0 && forall|i: int|
            0 <= i < held.len() ==> (#[trigger] held[i]).0,
{
    law_successes_at_most_all(held);
}

/// However many outcomes come in, a window with a positive bound that started out empty holds
/// exactly the latest of them, oldest first, up to its bound.
pub proof fn law_window_holds_the_latest(bound: nat, news: Seq<Outcome>)
    requires
        bound > 0,
    ensures
        pushed_all(Seq::empty(), bound, news) == if news.len() <= bound {
            news
        } else {
            news.skip(news.len() - bound)
        },
    decreases news.len(),
{
    let held = pushed_all(Seq::empty(), bound, news);
    if news.len() == 0 {
        assert(held =~= news);
    } else {
        law_window_holds_the_latest(bound, news.drop_last());
        if news.len() <= bound {
            assert(held =~= news);
        } else {
            assert(held =~= news.skip(news.len() - bound));
        }
    }
}

proof fn lemma_one_more_success(held: Seq<Outcome>, i: int, latency_ms: Option<u128>)
    requires
        0 <= i < held.len(),
        !held[i].0,
    ensures
        successes(held.update(i, (true, latency_ms))) == successes(held) + 1,
    decreases held.len(),
{
    let more = held.update(i, (true, latency_ms));
    if i == held.len() - 1 {
        assert(more.drop_last() =~= held.drop_last());
    } else {
        assert(more.drop_last() =~= held.drop_last().update(i, (true, latency_ms)));
        lemma_one_more_success(held.drop_last(), i, latency_ms);
    }
}

/// The ratio of a window is the number of its successes over the number of its outcomes.
pub proof fn law_ratio_counts_successes(held: Seq<Outcome>)
    requires
        0 < held.len() <= usize::MAX,
    ensures
        availability_of(held).den == held.len(),
        availability_of(held).num == held.filter(|o: Outcome| o.0).len(),
{
    law_successes_count(held);
    law_successes_at_most_all(held);
}

/// Without outcomes the ratio is none of one, and there is no latency.
pub proof fn law_empty_window_has_nothing(held: Seq<Outcome>)
    requires
        held.len() == 0,
    ensures
        availability_of(held).num == 0,
        availability_of(held).den == 1,
        latest_latency(held) is None,
{
}

/// Turning one failure into a success raises the ratio by exactly one outcome.
pub proof fn law_one_more_success_counts(held: Seq<Outcome>, i: int, latency_ms: Option<u128>)
    requires
        0 <= i < held.len() <= usize::MAX,
        !held[i].0,
    ensures
        availability_of(held.update(i, (true, latency_ms))).num == availability_of(held).num + 1,
        availability_of(held.update(i, (true, latency_ms))).den == availability_of(held).den,
{
    law_successes_at_most_all(held);
    law_successes_at_most_all(held.update(i, (true, latency_ms)));
    lemma_one_more_success(held, i, latency_ms);
}

/// The success count is the number of outcomes that are successes.
pub proof fn law_successes_count(held: Seq<Outcome>)
    ensures
        successes(held) == held.filter(|o: Outcome| o.0).len(),
    decreases held.len(),
{
    reveal(Seq::filter);
    if held.len() > 0 {
        law_successes_count(held.drop_last());
    }
}

/// The latency of a window is that of its last outcome, whatever came before.
pub proof fn law_latest_latency_is_of_the_last(held: Seq<Outcome>)
    requires
        held.len() > 0,
    ensures
        latest_latency(held) == held[held.len() - 1].1,
{
}

/// A new outcome comes last. Only at a positive bound does the oldest one go; all others stay, in
/// their order.
pub proof fn law_push_keeps_the_rest(held: Seq<Outcome>, bound: nat, o: Outcome)
    ensures
        pushed(held, bound, o).len() > 0,
        pushed(held, bound, o)[pushed(held, bound, o).len() - 1] == o,
        held.len() != bound || bound == 0 ==> {
            &&& pushed(held, bound, o).len() == held.len() + 1
            &&& forall|i: int|
                0 <= i < held.len() ==> #[trigger] pushed(held, bound, o)[i] == held[i]
        },
        held.len() == bound && bound > 0 ==> {
            &&& pushed(held, bound, o).len() == bound
            &&& forall|i: int|
                0 <= i < bound - 1 ==> #[trigger] pushed(held, bound, o)[i] == held[i + 1]
        },
{
}

} // verus!
