//! Classification of a fetched stream record against operator-configured
//! thresholds into a scene-switching decision.

use vstd::prelude::*;

use crate::stats::{opt_stream_view, NginxRtmpStream, StreamView};

verus! {

/// Operator-configured cutoffs in kilobits per second. A missing value
/// disables that branch of the classifier. Owned by the caller and passed
/// by reference on every decision.
#[derive(Clone, Copy, Debug)]
pub struct Thresholds {
    /// A nonzero bitrate at or under this value classifies as `Offline`.
    pub offline: Option<u32>,
    /// A nonzero bitrate at or under this value classifies as `Low`.
    pub low: Option<u32>,
}

/// The scene-switching outcome of one probe.
#[derive(Clone, Copy, Debug, PartialEq, Eq, Structural)]
pub enum Decision {
    /// The stream is unreachable, absent, or its bitrate is degraded below
    /// the offline threshold.
    Offline,
    /// The stream reports a bitrate of zero: it has just started and its
    /// statistics have not accumulated yet, so the current scene is held.
    Previous,
    /// The stream is live but its bitrate is at or under the low threshold.
    Low,
    /// The stream is healthy.
    Normal,
}

/// The record's bitrate in kilobits per second: the server-native
/// bits-per-second reading divided by 1024, truncated.
pub open spec fn spec_kbps(rec: StreamView) -> u32 {
    rec.bw_video / 1024
}

/// The classification, evaluated as a priority chain:
/// an absent record is `Offline`; a nonzero bitrate at or under a configured
/// offline threshold is `Offline`; a zero bitrate is `Previous`; a bitrate
/// at or under a configured low threshold is `Low`; anything else is
/// `Normal`.
pub open spec fn spec_decide(stats: Option<StreamView>, t: Thresholds) -> Decision {
    match stats {
        None => Decision::Offline,
        Some(rec) => {
            let b = spec_kbps(rec);
            if (match t.offline {
                Some(off) => b > 0 && b <= off,
                None => false,
            }) {
                Decision::Offline
            } else if b == 0 {
                Decision::Previous
            } else if (match t.low {
                Some(low) => b <= low,
                None => false,
            }) {
                Decision::Low
            } else {
                Decision::Normal
            }
        },
    }
}

/// Which scene to switch to, given the outcome of the latest stats fetch
/// and the operator's thresholds. Pure and stateless: the result depends on
/// the arguments alone.
pub fn decide(stats: &Option<NginxRtmpStream>, thresholds: &Thresholds) -> (d: Decision)
    ensures
        d == spec_decide(opt_stream_view(*stats), *thresholds),
{
    let rec = match stats {
        Some(rec) => rec,
        None => {
            return Decision::Offline;
        },
    };

    let bitrate = rec.bw_video / 1024;

    if let Some(offline) = thresholds.offline {
        if bitrate > 0 && bitrate <= offline {
            return Decision::Offline;
        }
    }

    if bitrate == 0 {
        return Decision::Previous;
    }

    if let Some(low) = thresholds.low {
        if bitrate <= low {
            return Decision::Low;
        }
    }

    Decision::Normal
}

/// A missing stats record always classifies as `Offline`, whatever the
/// configured thresholds are.
pub proof fn lemma_absent_is_offline(t: Thresholds, off: u32, low: u32)
    requires
        t.offline == Some(off),
        t.low == Some(low),
        off >= low,
    ensures
        spec_decide(None, t) == Decision::Offline,
{
}

/// A record reporting zero kilobits classifies as `Previous`, never as
/// `Offline`, whatever the thresholds are: the offline-threshold branch
/// only fires on a strictly positive bitrate.
pub proof fn lemma_zero_bitrate_is_previous(rec: StreamView, t: Thresholds)
    requires
        spec_kbps(rec) == 0,
    ensures
        spec_decide(Some(rec), t) == Decision::Previous,
{
}

/// With an offline threshold configured, any strictly positive bitrate at
/// or under it classifies as `Offline`.
pub proof fn lemma_offline_threshold(rec: StreamView, t: Thresholds, off: u32)
    requires
        t.offline == Some(off),
        spec_kbps(rec) > 0,
        spec_kbps(rec) <= off,
    ensures
        spec_decide(Some(rec), t) == Decision::Offline,
{
}

/// With no offline threshold and a low threshold configured, a strictly
/// positive bitrate at or under the low threshold classifies as `Low`, and
/// one above it as `Normal`.
pub proof fn lemma_low_threshold(rec: StreamView, t: Thresholds, low: u32)
    requires
        t.offline is None,
        t.low == Some(low),
        spec_kbps(rec) > 0,
    ensures
        spec_kbps(rec) <= low ==> spec_decide(Some(rec), t) == Decision::Low,
        spec_kbps(rec) > low ==> spec_decide(Some(rec), t) == Decision::Normal,
{
}

/// The classifier is a pure function of its inputs: two decisions taken
/// from the same record and the same thresholds are equal.
pub proof fn lemma_decide_idempotent(
    stats: Option<StreamView>,
    t: Thresholds,
    d1: Decision,
    d2: Decision,
)
    requires
        d1 == spec_decide(stats, t),
        d2 == spec_decide(stats, t),
    ensures
        d1 == d2,
{
}

} // verus!
