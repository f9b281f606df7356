//! The health of a link: its score and the status that the score stands for.

use vstd::prelude::*;

verus! {

#[derive(Debug, Clone, Copy, PartialEq, Eq, Structural)]
pub enum InternetStatus {
    Normal,
    Degraded,
    Failed,
}

impl Default for InternetStatus {
    /// A link counts as failed until a probe says otherwise.
    fn default() -> (r: Self)
        ensures
            r == InternetStatus::Failed,
    {
        InternetStatus::Failed
    }
}

/// The lowest score of a link in normal health.
pub const NORMAL_SCORE: u8 = 80;

/// The lowest score of a link that is not failed.
pub const DEGRADED_SCORE: u8 = 40;

/// The highest score.
pub const MAX_SCORE: u8 = 100;

/// The status that a score stands for.
pub open spec fn status_of(score: u8) -> InternetStatus {
    if score >= NORMAL_SCORE {
        InternetStatus::Normal
    } else if score >= DEGRADED_SCORE {
        InternetStatus::Degraded
    } else {
        InternetStatus::Failed
    }
}

/// A percentage, cut off at both ends of the scale.
pub open spec fn score_of(percent: int) -> u8 {
    if percent < 0 {
        0
    } else if percent > MAX_SCORE {
        MAX_SCORE
    } else {
        percent as u8
    }
}

/// The status that a score stands for.
pub fn status_for_score(score: u8) -> (r: InternetStatus)
    ensures
        r == status_of(score),
{
    if score >= NORMAL_SCORE {
        InternetStatus::Normal
    } else if score >= DEGRADED_SCORE {
        InternetStatus::Degraded
    } else {
        InternetStatus::Failed
    }
}

/// The score for a percentage.
pub fn clamp_score(percent: i64) -> (r: u8)
    ensures
        r == score_of(percent as int),
{
    if percent < 0 {
        0
    } else if percent > MAX_SCORE as i64 {
        MAX_SCORE
    } else {
        percent as u8
    }
}

/// How good a status is: the higher the better.
pub open spec fn goodness(status: InternetStatus) -> int {
    match status {
        InternetStatus::Normal => 2,
        InternetStatus::Degraded => 1,
        InternetStatus::Failed => 0,
    }
}

/// Every score lies between 0 and 100.
pub proof fn law_score_is_on_the_scale(percent: int)
    ensures
        0 <= score_of(percent) <= 100,
        0 <= percent <= 100 ==> score_of(percent) == percent,
{
}

/// 80 and above is normal, 40 to 79 is degraded, below 40 is failed.
pub proof fn law_status_bands(score: u8)
    ensures
        status_of(score) == InternetStatus::Normal <==> score >= 80,
        status_of(score) == InternetStatus::Degraded <==> 40 <= score <= 79,
        status_of(score) == InternetStatus::Failed <==> score < 40,
{
}

/// A better percentage never gives a lower score, nor a worse status.
pub proof fn law_status_follows_percent(a: int, b: int)
    requires
        a <= b,
    ensures
        score_of(a) <= score_of(b),
        goodness(status_of(score_of(a))) <= goodness(status_of(score_of(b))),
{
}

} // verus!
