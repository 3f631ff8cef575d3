//! The data of a claim dependency graph and its mathematical model.

use vstd::prelude::*;
use crate::session::Claim;

verus! {

/// The relation that an edge states between its source and its target.
#[derive(Debug, Clone, Copy, PartialEq, Eq, Structural)]
pub enum EdgeType {
    Support,
    Require,
    Tension,
    Derive,
    Qualify,
}

/// The structural role of a claim.
#[derive(Debug, Clone, Copy, PartialEq, Eq, Structural)]
pub enum ClaimStratum {
    Core,
    /// Requires the core claim, directly or through other claims.
    Structure,
    Evidential,
    Peripheral,
}

/// How far a tension between two claims has been dealt with.
#[derive(Debug, Clone, Copy, PartialEq, Eq, Structural)]
pub enum ResolutionStatus {
    Unresolved,
    Resolved,
    Accepted,
}

/// A directed edge: the source depends on, or relates to, the target.
///
/// `weight` is the confidence that the user gave the edge, in millionths;
/// callers keep it at or below one whole. `resolution` belongs to tension
/// edges only. `created_at` is a time in milliseconds since the Unix epoch.
#[derive(Debug, Clone)]
pub struct CdgEdge {
    pub source_claim_id: String,
    pub target_claim_id: String,
    pub edge_type: EdgeType,
    pub weight: u32,
    pub resolution: Option<ResolutionStatus>,
    pub created_at: i64,
}

/// What the graph computations read of an edge.
pub struct EdgeModel {
    pub source: Seq<char>,
    pub target: Seq<char>,
    pub edge_type: EdgeType,
    pub weight: nat,
    pub resolution: Option<ResolutionStatus>,
}

impl View for CdgEdge {
    type V = EdgeModel;

    open spec fn view(&self) -> EdgeModel {
        EdgeModel {
            source: self.source_claim_id@,
            target: self.target_claim_id@,
            edge_type: self.edge_type,
            weight: self.weight as nat,
            resolution: self.resolution,
        }
    }
}

/// The ids of a list of claims, in order.
pub open spec fn claim_ids(claims: Seq<Claim>) -> Seq<Seq<char>> {
    Seq::new(claims.len(), |i: int| claims[i].id@)
}

/// The models of a list of edges, in order.
pub open spec fn edge_models(edges: Seq<CdgEdge>) -> Seq<EdgeModel> {
    Seq::new(edges.len(), |i: int| edges[i]@)
}

/// The structural metrics of a graph at one point in time.
///
/// The six scores are fixed-point numbers in millionths. Only the four
/// ratios lie between zero and one whole: the density `sdd` grows with every
/// edge that is entered again, and `coherence` with it.
#[derive(Debug, Clone, Copy, PartialEq, Eq, Structural)]
pub struct CdgMetrics {
    /// Structural dependence density.
    pub sdd: u64,
    pub orphan_ratio: u64,
    pub core_reachability: u64,
    /// Tension resolution rate.
    pub trr: u64,
    /// Load-bearing ratio.
    pub lbr: u64,
    pub coherence: u64,
    pub claim_count: usize,
    /// The number of valid edges.
    pub edge_count: usize,
    pub tension_count: usize,
    pub resolved_count: usize,
    pub accepted_count: usize,
    pub unresolved_count: usize,
}

/// The metrics as plain numbers.
pub struct MetricsModel {
    pub sdd: nat,
    pub orphan_ratio: nat,
    pub core_reachability: nat,
    pub trr: nat,
    pub lbr: nat,
    pub coherence: nat,
    pub claim_count: nat,
    pub edge_count: nat,
    pub tension_count: nat,
    pub resolved_count: nat,
    pub accepted_count: nat,
    pub unresolved_count: nat,
}

impl View for CdgMetrics {
    type V = MetricsModel;

    open spec fn view(&self) -> MetricsModel {
        MetricsModel {
            sdd: self.sdd as nat,
            orphan_ratio: self.orphan_ratio as nat,
            core_reachability: self.core_reachability as nat,
            trr: self.trr as nat,
            lbr: self.lbr as nat,
            coherence: self.coherence as nat,
            claim_count: self.claim_count as nat,
            edge_count: self.edge_count as nat,
            tension_count: self.tension_count as nat,
            resolved_count: self.resolved_count as nat,
            accepted_count: self.accepted_count as nat,
            unresolved_count: self.unresolved_count as nat,
        }
    }
}

/// The metrics of one pass, kept for later comparison.
///
/// `timestamp` is a time in milliseconds since the Unix epoch.
#[derive(Debug, Clone)]
pub struct CdgSnapshot {
    pub pass_id: String,
    pub metrics: CdgMetrics,
    pub timestamp: i64,
}

/// The difference between the current metrics and those of an earlier pass.
///
/// Each delta is the current score less the earlier one, in millionths.
#[derive(Debug, Clone)]
pub struct PassDiff {
    pub previous_pass_id: String,
    pub current: CdgMetrics,
    pub previous: CdgMetrics,
    pub delta_sdd: i128,
    pub delta_orphan_ratio: i128,
    pub delta_core_reachability: i128,
    pub delta_trr: i128,
    pub delta_lbr: i128,
    pub delta_coherence: i128,
}

} // verus!
