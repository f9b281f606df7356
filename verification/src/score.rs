//! What a link's score is made of.

use crate::config::{Config, LinkConfig, Weights};
use crate::latency::p95;
use crate::single::is_below_80_percent;
use crate::status::{clamp_score, status_for_score, InternetStatus};
use crate::window::{ProbeWindow, Ratio};
use vstd::prelude::*;

verus! {

/// How good a latency is: full up to the baseline, the share that the baseline has of it above,
/// none where there is no latency.
pub open spec fn latency_ratio_of(p95_ms: Option<u128>, baseline_ms: u128) -> Ratio {
    match p95_ms {
        Some(p) => if p <= baseline_ms {
            Ratio { num: 1, den: 1 }
        } else {
            Ratio { num: baseline_ms, den: p }
        },
        None => Ratio { num: 0, den: 1 },
    }
}

/// The latency up to which a link gets full marks: its own, or else the general one.
pub open spec fn baseline_of(cfg: &Config, link: &LinkConfig) -> u128 {
    match link.latency_baseline_ms {
        Some(b) => b,
        None => cfg.degraded_latency_ms,
    }
}

/// The bits of the single-precision number 60.
pub const DEFAULT_AVAILABILITY_WEIGHT: u32 = 0x4270_0000;

/// The bits of the single-precision number 30.
pub const DEFAULT_LATENCY_WEIGHT: u32 = 0x41f0_0000;

/// The bits of the single-precision number 10.
pub const DEFAULT_JITTER_WEIGHT: u32 = 0x4120_0000;

/// How much each part of a score counts, each weight as the bits of a single-precision number.
#[derive(Debug, Clone, Copy, PartialEq, Eq, Structural)]
pub struct WeightBits {
    pub availability: u32,
    pub latency: u32,
    pub jitter: u32,
}

pub open spec fn bits_or(bits: Option<u32>, default: u32) -> u32 {
    match bits {
        Some(b) => b,
        None => default,
    }
}

/// The weights of a link: its own, each with its default where the link has none.
pub open spec fn weights_of(weights: Option<Weights>) -> WeightBits {
    match weights {
        Some(w) => WeightBits {
            availability: bits_or(w.availability, DEFAULT_AVAILABILITY_WEIGHT),
            latency: bits_or(w.latency, DEFAULT_LATENCY_WEIGHT),
            jitter: bits_or(w.jitter, DEFAULT_JITTER_WEIGHT),
        },
        None => WeightBits {
            availability: DEFAULT_AVAILABILITY_WEIGHT,
            latency: DEFAULT_LATENCY_WEIGHT,
            jitter: DEFAULT_JITTER_WEIGHT,
        },
    }
}

/// The measurements that a score is worked out from.
#[derive(Debug, Clone, Copy, PartialEq, Eq, Structural)]
pub struct ScoreInputs {
    pub availability: Ratio,
    pub latency: Ratio,
    pub p95_ms: Option<u128>,
    pub weights: WeightBits,
}

impl ScoreInputs {
    /// These are the measurements of a link with these outcomes and latencies.
    pub open spec fn measure(
        self,
        cfg: &Config,
        link: &LinkConfig,
        held: Seq<crate::window::Outcome>,
        history: Seq<u128>,
    ) -> bool {
        &&& self.availability == crate::window::availability_of(held)
        &&& crate::latency::p95_of(history, self.p95_ms)
        &&& self.latency == latency_ratio_of(self.p95_ms, baseline_of(cfg, link))
        &&& self.weights == weights_of(link.weights)
    }
}

/// How good a latency is against a baseline.
pub fn latency_ratio(p95_ms: Option<u128>, baseline_ms: u128) -> (r: Ratio)
    ensures
        r == latency_ratio_of(p95_ms, baseline_ms),
        r.wf(),
{
    match p95_ms {
        Some(p) => if p <= baseline_ms {
            Ratio { num: 1, den: 1 }
        } else {
            Ratio { num: baseline_ms, den: p }
        },
        None => Ratio { num: 0, den: 1 },
    }
}

/// The weights that a link is scored with.
pub fn effective_weights(weights: &Option<Weights>) -> (r: WeightBits)
    ensures
        r == weights_of(*weights),
{
    match weights {
        Some(w) => WeightBits {
            availability: w.availability.unwrap_or(DEFAULT_AVAILABILITY_WEIGHT),
            latency: w.latency.unwrap_or(DEFAULT_LATENCY_WEIGHT),
            jitter: w.jitter.unwrap_or(DEFAULT_JITTER_WEIGHT),
        },
        None => WeightBits {
            availability: DEFAULT_AVAILABILITY_WEIGHT,
            latency: DEFAULT_LATENCY_WEIGHT,
            jitter: DEFAULT_JITTER_WEIGHT,
        },
    }
}

/// The measurements that the score of a link is worked out from.
pub fn score_inputs(
    cfg: &Config,
    link: &LinkConfig,
    window: &ProbeWindow,
    history: &[u128],
) -> (r: ScoreInputs)
    ensures
        r.measure(cfg, link, window@, history@),
        r.availability.wf(),
        r.latency.wf(),
{
    let p95_ms: Option<u128> = p95(history);
    let baseline: u128 = match link.latency_baseline_ms {
        Some(b) => b,
        None => cfg.degraded_latency_ms,
    };
    ScoreInputs {
        availability: window.ok_ratio(),
        latency: latency_ratio(p95_ms, baseline),
        p95_ms,
        weights: effective_weights(&link.weights),
    }
}

/// The score, the status and the percentile that a link gets, where its composite is `percent`
/// percent.
pub fn score_link(percent: i64, inputs: &ScoreInputs) -> (r: (u8, InternetStatus, Option<u128>))
    ensures
        r.0 == crate::status::score_of(percent as int),
        r.1 == crate::status::status_of(r.0),
        r.2 == inputs.p95_ms,
{
    let score: u8 = clamp_score(percent);
    (score, status_for_score(score), inputs.p95_ms)
}

/// The status that a window stands for by itself: failed without a success, degraded where the
/// share of successes is, in single precision, below 80 percent or where the latest latency is above the threshold.
pub open spec fn window_status(
    held: Seq<crate::window::Outcome>,
    threshold_ms: u128,
) -> InternetStatus {
    if crate::window::successes(held) == 0 {
        InternetStatus::Failed
    } else if crate::single::share_below_80_percent(crate::window::successes(held), held.len()) {
        InternetStatus::Degraded
    } else {
        match crate::window::latest_latency(held) {
            Some(l) => if l > threshold_ms {
                InternetStatus::Degraded
            } else {
                InternetStatus::Normal
            },
            None => InternetStatus::Normal,
        }
    }
}

/// The status that a window stands for by itself.
pub fn eval_status(cfg: &Config, window: &ProbeWindow) -> (r: InternetStatus)
    ensures
        r == window_status(window@, cfg.degraded_latency_ms),
{
    let ok: usize = window.ok_count();
    if ok == 0 {
        return InternetStatus::Failed;
    }
    if is_below_80_percent(ok, window.len()) {
        return InternetStatus::Degraded;
    }
    if let Some(latency) = window.last_latency() {
        if latency > cfg.degraded_latency_ms {
            return InternetStatus::Degraded;
        }
    }
    InternetStatus::Normal
}

/// A latency gets full marks exactly up to the baseline.
pub proof fn law_full_marks_up_to_the_baseline(p95_ms: u128, baseline_ms: u128)
    ensures
        latency_ratio_of(Some(p95_ms), baseline_ms).wf(),
        latency_ratio_of(Some(p95_ms), baseline_ms).num == latency_ratio_of(
            Some(p95_ms),
            baseline_ms,
        ).den <==> p95_ms <= baseline_ms,
{
}

/// A higher percentile never gets better marks, and a missing one gets the worst.
pub proof fn law_latency_marks_fall(a: u128, b: u128, baseline_ms: u128)
    requires
        a <= b,
    ensures
        latency_ratio_of(Some(a), baseline_ms).at_least(latency_ratio_of(Some(b), baseline_ms)),
        latency_ratio_of(Some(b), baseline_ms).at_least(latency_ratio_of(None, baseline_ms)),
{
    assert(baseline_ms * b >= baseline_ms * a) by (nonlinear_arith)
        requires
            a <= b,
    ;
}

/// By itself a window fails exactly when it holds no success. Up to 11184810 outcomes, where
/// rounding has no influence, it is normal exactly when at least four outcomes in five are
/// successes and the latest latency, if any, is within the threshold.
pub proof fn law_window_status(held: Seq<crate::window::Outcome>, threshold_ms: u128)
    ensures
        window_status(held, threshold_ms) == InternetStatus::Failed <==> forall|i: int|
            0 <= i < held.len() ==> !(#[trigger] held[i]).0,
        held.len() <= 11_184_810 ==> (window_status(held, threshold_ms) == InternetStatus::Normal <==> {
            &&& crate::window::successes(held) > 0
            &&& 100 * crate::window::successes(held) >= 80 * held.len()
            &&& (crate::window::latest_latency(held) matches Some(l) ==> l <= threshold_ms)
        }),
{
    crate::window::law_successes_at_most_all(held);
    if 0 < held.len() <= 11_184_810 {
        crate::single::law_small_shares_are_exact(crate::window::successes(held), held.len());
    }
}

/// Above the baseline the marks are exactly the share that the baseline has of the percentile: they
/// times the percentile are the baseline. Up to the baseline they are full, and without a percentile
/// there are none.
pub proof fn law_latency_marks_are_the_baseline_share(p95_ms: u128, baseline_ms: u128)
    ensures
        ({
            let marks = latency_ratio_of(Some(p95_ms), baseline_ms);
            &&& marks.den > 0
            &&& p95_ms > baseline_ms ==> marks.num * p95_ms == baseline_ms * marks.den
            &&& p95_ms <= baseline_ms ==> marks.num == marks.den
            &&& baseline_ms > 0 ==> marks.num > 0
        }),
        latency_ratio_of(None, baseline_ms).num == 0,
        latency_ratio_of(None, baseline_ms).den > 0,
{
}

/// The measurements of a link: the ratio of its successes, the marks of its percentile against its
/// own baseline or else the general one, and its own weights, each with its default.
pub proof fn law_measurements_are_of_the_link(
    inputs: ScoreInputs,
    cfg: &Config,
    link: &LinkConfig,
    held: Seq<crate::window::Outcome>,
    history: Seq<u128>,
)
    requires
        inputs.measure(cfg, link, held, history),
        held.len() <= usize::MAX,
    ensures
        held.len() > 0 ==> inputs.availability.den == held.len(),
        inputs.availability.num == held.filter(|o: crate::window::Outcome| o.0).len(),
        inputs.availability.den > 0,
        inputs.p95_ms is None <==> history.len() == 0,
        inputs.p95_ms matches Some(p) ==> crate::latency::is_p95(history, p),
        inputs.latency.den > 0,
        inputs.p95_ms is None ==> inputs.latency.num == 0,
        inputs.p95_ms matches Some(p) ==> {
            let baseline = if link.latency_baseline_ms is Some {
                link.latency_baseline_ms->0
            } else {
                cfg.degraded_latency_ms
            };
            &&& p <= baseline ==> inputs.latency.num == inputs.latency.den
            &&& p > baseline ==> inputs.latency.num * p == baseline * inputs.latency.den
        },
{
    crate::window::law_successes_at_most_all(held);
    crate::window::law_successes_count(held);
}

/// Each weight is the link's own where it has one, and else 60, 30 and 10 for availability, latency
/// and jitter. No weight has an influence on another.
pub proof fn law_weights_are_the_links_own(weights: Option<Weights>)
    ensures
        ({
            let w = weights_of(weights);
            let own = if weights is Some {
                weights->0
            } else {
                Weights { availability: None, latency: None, jitter: None }
            };
            &&& own.availability is Some ==> w.availability == own.availability->0
            &&& own.latency is Some ==> w.latency == own.latency->0
            &&& own.jitter is Some ==> w.jitter == own.jitter->0
            &&& own.availability is None ==> w.availability == 0x4270_0000
            &&& own.latency is None ==> w.latency == 0x41f0_0000
            &&& own.jitter is None ==> w.jitter == 0x4120_0000
        }),
{
}

/// The weights are part of a link's measurements as they are.
pub proof fn law_measurements_carry_the_weights(
    inputs: ScoreInputs,
    cfg: &Config,
    link: &LinkConfig,
    held: Seq<crate::window::Outcome>,
    history: Seq<u128>,
)
    requires
        inputs.measure(cfg, link, held, history),
    ensures
        link.weights matches Some(w) ==> {
            &&& w.availability is Some ==> inputs.weights.availability == w.availability->0
            &&& w.latency is Some ==> inputs.weights.latency == w.latency->0
            &&& w.jitter is Some ==> inputs.weights.jitter == w.jitter->0
            &&& w.availability is None ==> inputs.weights.availability == 0x4270_0000
            &&& w.latency is None ==> inputs.weights.latency == 0x41f0_0000
            &&& w.jitter is None ==> inputs.weights.jitter == 0x4120_0000
        },
        link.weights is None ==> {
            &&& inputs.weights.availability == 0x4270_0000
            &&& inputs.weights.latency == 0x41f0_0000
            &&& inputs.weights.jitter == 0x4120_0000
        },
{
}

/// At any length a window with a success is normal exactly where the share of successes is, in
/// single precision, not below 80 percent and the latest latency, if any, is within the threshold.
/// Otherwise it is degraded.
pub proof fn law_window_with_a_success(held: Seq<crate::window::Outcome>, threshold_ms: u128)
    requires
        exists|i: int| 0 <= i < held.len() && (#[trigger] held[i]).0,
    ensures
        ({
            let ok = held.filter(|o: crate::window::Outcome| o.0).len();
            let last = held[held.len() - 1].1;
            let good = !crate::single::share_below_80_percent(ok, held.len()) && (last is Some
                ==> last->0 <= threshold_ms);
            &&& good ==> window_status(held, threshold_ms) == InternetStatus::Normal
            &&& !good ==> window_status(held, threshold_ms) == InternetStatus::Degraded
        }),
{
    crate::window::law_successes_at_most_all(held);
    crate::window::law_successes_count(held);
}

} // verus!
