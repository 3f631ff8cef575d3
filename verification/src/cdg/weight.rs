//! Edge weighting: how much an edge counts towards the density of a graph.
//!
//! All weights are fixed-point numbers in millionths. The tables below are
//! fixed; they are not configuration.

use vstd::prelude::*;
use crate::fixed::UNIT;
use crate::cdg::types::{CdgEdge, EdgeModel, EdgeType, ResolutionStatus};

verus! {

/// Weight of a `Require` edge: 1.0.
pub const TYPE_WEIGHT_REQUIRE: u32 = 1_000_000;

/// Weight of a `Derive` edge: 0.9.
pub const TYPE_WEIGHT_DERIVE: u32 = 900_000;

/// Weight of a `Support` edge: 0.7.
pub const TYPE_WEIGHT_SUPPORT: u32 = 700_000;

/// Base weight of a `Tension` edge: 0.5, before the resolution bonus.
pub const TYPE_WEIGHT_TENSION: u32 = 500_000;

/// Weight of a `Qualify` edge: 0.3.
pub const TYPE_WEIGHT_QUALIFY: u32 = 300_000;

/// Bonus of a resolved tension: 1.5.
pub const BONUS_RESOLVED: u32 = 1_500_000;

/// Bonus of an accepted tension: 1.0.
pub const BONUS_ACCEPTED: u32 = 1_000_000;

/// Bonus of a tension that is unresolved or has no resolution: 0.3.
pub const BONUS_UNRESOLVED: u32 = 300_000;

/// Bonus of every edge that is not a tension: 1.0.
pub const BONUS_NEUTRAL: u32 = 1_000_000;

/// The weight of an edge type, in millionths.
pub open spec fn type_weight_of(edge_type: EdgeType) -> nat {
    match edge_type {
        EdgeType::Require => TYPE_WEIGHT_REQUIRE as nat,
        EdgeType::Derive => TYPE_WEIGHT_DERIVE as nat,
        EdgeType::Support => TYPE_WEIGHT_SUPPORT as nat,
        EdgeType::Tension => TYPE_WEIGHT_TENSION as nat,
        EdgeType::Qualify => TYPE_WEIGHT_QUALIFY as nat,
    }
}

/// The resolution bonus of an edge, in millionths. Only a tension edge has
/// one that differs from 1.0, and only its resolution decides it.
pub open spec fn resolution_bonus_of(edge: EdgeModel) -> nat {
    if edge.edge_type == EdgeType::Tension {
        match edge.resolution {
            Some(ResolutionStatus::Resolved) => BONUS_RESOLVED as nat,
            Some(ResolutionStatus::Accepted) => BONUS_ACCEPTED as nat,
            Some(ResolutionStatus::Unresolved) | None => BONUS_UNRESOLVED as nat,
        }
    } else {
        BONUS_NEUTRAL as nat
    }
}

/// The effective weight of an edge, in millionths: the product of its own
/// weight, the weight of its type and its resolution bonus, rounded down.
///
/// The engine does not clamp an edge's own weight, so the product is above
/// 1.0 where a caller passes a weight above 1.0.
pub open spec fn edge_weight_of(edge: EdgeModel) -> nat {
    edge.weight * type_weight_of(edge.edge_type) * resolution_bonus_of(edge) / (
    (UNIT as nat) * (UNIT as nat))
}

/// The effective weight of an edge is at most its own weight: no product of a
/// type weight and a bonus exceeds 1.0.
pub proof fn lemma_edge_weight_bound(edge: EdgeModel)
    ensures
        edge_weight_of(edge) <= edge.weight,
{
    let tw = type_weight_of(edge.edge_type);
    let rb = resolution_bonus_of(edge);
    let w = edge.weight;
    let uu = (UNIT as nat) * (UNIT as nat);
    assert(uu == 1_000_000_000_000nat);
    assert(tw * rb <= uu) by {
        if edge.edge_type == EdgeType::Tension {
            assert(tw == 500_000);
            assert(rb <= 1_500_000);
            assert(tw * rb <= 500_000 * 1_500_000) by (nonlinear_arith)
                requires
                    tw == 500_000,
                    rb <= 1_500_000,
            ;
        } else {
            assert(rb == 1_000_000);
            assert(tw <= 1_000_000);
            assert(tw * rb <= 1_000_000 * 1_000_000) by (nonlinear_arith)
                requires
                    tw <= 1_000_000,
                    rb == 1_000_000,
            ;
        }
    }
    assert(w * tw * rb / uu <= w) by (nonlinear_arith)
        requires
            tw * rb <= uu,
            uu > 0,
    ;
}

/// The weight of an edge type.
pub fn type_weight(edge_type: EdgeType) -> (w: u32)
    ensures
        w == type_weight_of(edge_type),
{
    match edge_type {
        EdgeType::Require => TYPE_WEIGHT_REQUIRE,
        EdgeType::Derive => TYPE_WEIGHT_DERIVE,
        EdgeType::Support => TYPE_WEIGHT_SUPPORT,
        EdgeType::Tension => TYPE_WEIGHT_TENSION,
        EdgeType::Qualify => TYPE_WEIGHT_QUALIFY,
    }
}

/// The resolution bonus of an edge.
pub fn resolution_bonus(edge: &CdgEdge) -> (b: u32)
    ensures
        b == resolution_bonus_of(edge@),
{
    match edge.edge_type {
        EdgeType::Tension => match edge.resolution {
            Some(ResolutionStatus::Resolved) => BONUS_RESOLVED,
            Some(ResolutionStatus::Accepted) => BONUS_ACCEPTED,
            Some(ResolutionStatus::Unresolved) => BONUS_UNRESOLVED,
            None => BONUS_UNRESOLVED,
        },
        _ => BONUS_NEUTRAL,
    }
}

/// The effective weight of an edge.
pub fn edge_weight(edge: &CdgEdge) -> (w: u64)
    ensures
        w == edge_weight_of(edge@),
        w <= edge.weight,
{
    let tw: u128 = type_weight(edge.edge_type) as u128;
    let rb: u128 = resolution_bonus(edge) as u128;
    let own: u128 = edge.weight as u128;
    proof {
        lemma_edge_weight_bound(edge@);
        assert(own * tw <= 0xffff_ffff * 1_000_000) by (nonlinear_arith)
            requires
                own <= 0xffff_ffff,
                tw <= 1_000_000,
        ;
        assert(own * tw * rb <= 0xffff_ffff * 1_000_000 * 1_500_000) by (nonlinear_arith)
            requires
                own * tw <= 0xffff_ffff * 1_000_000,
                rb <= 1_500_000,
        ;
    }
    let product: u128 = own * tw * rb;
    let scale: u128 = (UNIT as u128) * (UNIT as u128);
    let scaled: u128 = product / scale;
    scaled as u64
}

} // verus!
