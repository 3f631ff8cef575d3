//! Comparing the metrics of two passes.

use vstd::prelude::*;
use crate::cdg::types::{CdgMetrics, CdgSnapshot, PassDiff};

verus! {

/// The current value less the earlier one.
pub fn delta(current: u64, previous: u64) -> (d: i128)
    ensures
        d == current - previous,
{
    current as i128 - previous as i128
}

/// Records the metrics of a pass under `pass_id`, taken at `timestamp`.
pub fn take_snapshot(pass_id: String, metrics: CdgMetrics, timestamp: i64) -> (snapshot: CdgSnapshot)
    ensures
        snapshot.pass_id == pass_id,
        snapshot.metrics == metrics,
        snapshot.timestamp == timestamp,
{
    CdgSnapshot { pass_id, metrics, timestamp }
}

/// Compares the current metrics with those of an earlier pass.
///
/// Each delta is the current score less the score of the snapshot, exactly:
/// no pair of metrics makes a subtraction overflow.
pub fn compute_pass_diff(current: &CdgMetrics, snapshot: &CdgSnapshot) -> (diff: PassDiff)
    ensures
        diff.previous_pass_id@ == snapshot.pass_id@,
        diff.current == *current,
        diff.previous == snapshot.metrics,
        diff.delta_sdd == current.sdd - snapshot.metrics.sdd,
        diff.delta_orphan_ratio == current.orphan_ratio - snapshot.metrics.orphan_ratio,
        diff.delta_core_reachability == current.core_reachability - snapshot.metrics.core_reachability,
        diff.delta_trr == current.trr - snapshot.metrics.trr,
        diff.delta_lbr == current.lbr - snapshot.metrics.lbr,
        diff.delta_coherence == current.coherence - snapshot.metrics.coherence,
{
    let previous = snapshot.metrics;
    PassDiff {
        previous_pass_id: snapshot.pass_id.clone(),
        current: *current,
        previous,
        delta_sdd: delta(current.sdd, previous.sdd),
        delta_orphan_ratio: delta(current.orphan_ratio, previous.orphan_ratio),
        delta_core_reachability: delta(current.core_reachability, previous.core_reachability),
        delta_trr: delta(current.trr, previous.trr),
        delta_lbr: delta(current.lbr, previous.lbr),
        delta_coherence: delta(current.coherence, previous.coherence),
    }
}

/// Compares the current metrics with those of the latest snapshot; nothing
/// where no snapshot has been taken.
pub fn diff_against_latest(current: &CdgMetrics, snapshots: &[CdgSnapshot]) -> (diff: Option<PassDiff>)
    ensures
        snapshots.len() == 0 <==> diff is None,
        diff matches Some(d) ==> {
            let latest = snapshots[snapshots.len() - 1];
            &&& d.previous_pass_id@ == latest.pass_id@
            &&& d.current == *current
            &&& d.previous == latest.metrics
            &&& d.delta_sdd == current.sdd - latest.metrics.sdd
            &&& d.delta_orphan_ratio == current.orphan_ratio - latest.metrics.orphan_ratio
            &&& d.delta_core_reachability == current.core_reachability
                - latest.metrics.core_reachability
            &&& d.delta_trr == current.trr - latest.metrics.trr
            &&& d.delta_lbr == current.lbr - latest.metrics.lbr
            &&& d.delta_coherence == current.coherence - latest.metrics.coherence
        },
{
    if snapshots.len() == 0 {
        None
    } else {
        Some(compute_pass_diff(current, &snapshots[snapshots.len() - 1]))
    }
}

} // verus!
