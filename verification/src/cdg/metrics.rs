//! The metrics of a claim dependency graph.

use vstd::prelude::*;
use crate::session::Claim;
use crate::fixed::{UNIT, share, share_of};
use crate::seqs::{
    lemma_filter_push, lemma_filter_take_none, lemma_filter_take_step, lemma_take_all,
};
use crate::cdg::types::{
    CdgEdge, CdgMetrics, ClaimStratum, EdgeModel, EdgeType, MetricsModel, ResolutionStatus,
    claim_ids, edge_models,
};
use crate::cdg::weight::{edge_weight, edge_weight_of, lemma_edge_weight_bound};
use crate::cdg::model::{core_of, is_first_at, is_valid_edge, leads_to, stratum_of};
use crate::cdg::orphans::{find_orphans, orphans_of};
use crate::cdg::resolve::{
    ends_resolve, first_positions, firsts_resolve, lemma_followed_by_ends, resolve_ends, resolves,
};
use crate::cdg::centre::lemma_core_is_first;
use crate::cdg::strata::{mark_leading_to, marks_lead_to, stratify};

verus! {

/// Share of the density in the coherence score, in hundredths.
pub const COHERENCE_WEIGHT_SDD: u64 = 35;

/// Share of the core reachability in the coherence score, in hundredths.
pub const COHERENCE_WEIGHT_REACHABILITY: u64 = 25;

/// Share of the tension resolution rate in the coherence score, in
/// hundredths.
pub const COHERENCE_WEIGHT_TRR: u64 = 25;

/// Share of the connected claims (those that are no orphans) in the coherence
/// score, in hundredths.
pub const COHERENCE_WEIGHT_CONNECTED: u64 = 15;

/// The sum of the four shares.
pub const COHERENCE_WEIGHT_TOTAL: u64 = 100;

/// The valid edges, in order.
pub open spec fn valid_edges(ids: Seq<Seq<char>>, edges: Seq<EdgeModel>) -> Seq<EdgeModel> {
    edges.filter(|edge: EdgeModel| is_valid_edge(ids, edge))
}

/// The tension edges among `edges`, in order.
pub open spec fn tensions(edges: Seq<EdgeModel>) -> Seq<EdgeModel> {
    edges.filter(|edge: EdgeModel| edge.edge_type == EdgeType::Tension)
}

/// The edges among `edges` whose resolution is `status`, in order.
pub open spec fn with_resolution(edges: Seq<EdgeModel>, status: ResolutionStatus) -> Seq<EdgeModel> {
    edges.filter(|edge: EdgeModel| edge.resolution == Some(status))
}

/// The sum of the effective weights of `edges`.
pub open spec fn total_weight(edges: Seq<EdgeModel>) -> nat
    decreases edges.len(),
{
    if edges.len() == 0 {
        0
    } else {
        total_weight(edges.drop_last()) + edge_weight_of(edges.last())
    }
}

/// The density before it is fitted into a `u64`: the total weight of the
/// valid edges over the number of ordered pairs of claims; zero where there
/// is no such pair.
pub open spec fn density_of(ids: Seq<Seq<char>>, edges: Seq<EdgeModel>) -> nat {
    let pairs = ids.len() * (ids.len() - 1);
    if pairs <= 0 {
        0
    } else {
        (total_weight(valid_edges(ids, edges)) / (pairs as nat)) as nat
    }
}

/// The claim ids from which a chain of valid edges, of any type, leads to
/// `core`. The core claim is among them.
pub open spec fn reaching(ids: Seq<Seq<char>>, edges: Seq<EdgeModel>, core: Seq<char>) -> Seq<Seq<char>> {
    ids.filter(|id: Seq<char>| leads_to(ids, edges, false, id, core))
}

/// How many claims reach the core claim; zero where there is none.
pub open spec fn reaching_count(ids: Seq<Seq<char>>, edges: Seq<EdgeModel>) -> nat {
    match core_of(ids, edges) {
        Some(core) => reaching(ids, edges, core).len(),
        None => 0,
    }
}

/// The stratum is `Core` or `Structure`.
pub open spec fn is_load_bearing(stratum: ClaimStratum) -> bool {
    stratum == ClaimStratum::Core || stratum == ClaimStratum::Structure
}

/// The ids of the claims that are `Core` or `Structure`.
pub open spec fn load_bearing(ids: Seq<Seq<char>>, edges: Seq<EdgeModel>) -> Seq<Seq<char>> {
    ids.filter(|id: Seq<char>| is_load_bearing(stratum_of(ids, edges, id)))
}

/// The tension resolution rate: the share of the tensions that are resolved
/// or accepted, and one whole where there is no tension.
pub open spec fn resolution_rate_of(settled: nat, tension_count: nat) -> nat {
    if tension_count == 0 {
        UNIT as nat
    } else {
        share_of(settled, tension_count)
    }
}

/// The coherence score: the weighted mean of density, core reachability,
/// tension resolution rate and the share of connected claims, rounded down.
pub open spec fn coherence_of(sdd: nat, core_reachability: nat, trr: nat, orphan_ratio: nat) -> nat {
    ((COHERENCE_WEIGHT_SDD as nat) * sdd + (COHERENCE_WEIGHT_REACHABILITY as nat) * core_reachability
        + (COHERENCE_WEIGHT_TRR as nat) * trr + (COHERENCE_WEIGHT_CONNECTED as nat) * ((UNIT as nat)
        - orphan_ratio) as nat) / (COHERENCE_WEIGHT_TOTAL as nat)
}

/// The metrics in which every score and every count is zero.
pub open spec fn zero_metrics() -> MetricsModel {
    MetricsModel {
        sdd: 0,
        orphan_ratio: 0,
        core_reachability: 0,
        trr: 0,
        lbr: 0,
        coherence: 0,
        claim_count: 0,
        edge_count: 0,
        tension_count: 0,
        resolved_count: 0,
        accepted_count: 0,
        unresolved_count: 0,
    }
}

/// The least of a number and the greatest `u64`.
pub open spec fn capped(value: nat) -> nat {
    if value > u64::MAX as nat {
        u64::MAX as nat
    } else {
        value
    }
}

/// The metrics of the claims with the ids `ids` under the edges `edges`.
///
/// Without claims every score and count is zero. Else the counts are taken
/// over the valid edges, the orphans over all edges, and the density is
/// capped at the greatest `u64`.
pub open spec fn metrics_of(ids: Seq<Seq<char>>, edges: Seq<EdgeModel>) -> MetricsModel {
    if ids.len() == 0 {
        zero_metrics()
    } else {
        let n = ids.len();
        let valid = valid_edges(ids, edges);
        let tension_count = tensions(valid).len();
        let resolved_count = with_resolution(tensions(valid), ResolutionStatus::Resolved).len();
        let accepted_count = with_resolution(tensions(valid), ResolutionStatus::Accepted).len();
        let sdd = capped(density_of(ids, edges));
        let orphan_ratio = share_of(orphans_of(ids, edges).len(), n);
        let core_reachability = share_of(reaching_count(ids, edges), n);
        let trr = resolution_rate_of(resolved_count + accepted_count, tension_count);
        MetricsModel {
            sdd,
            orphan_ratio,
            core_reachability,
            trr,
            lbr: share_of(load_bearing(ids, edges).len(), n),
            coherence: coherence_of(sdd, core_reachability, trr, orphan_ratio),
            claim_count: n,
            edge_count: valid.len(),
            tension_count,
            resolved_count,
            accepted_count,
            unresolved_count: (tension_count - resolved_count - accepted_count) as nat,
        }
    }
}

/// What one pass over the edges counts.
pub struct EdgeTally {
    pub edge_count: usize,
    pub weight: u128,
    pub tension_count: usize,
    pub resolved_count: usize,
    pub accepted_count: usize,
}

impl EdgeTally {
    /// The tally is that of the valid edges among `edges`.
    pub open spec fn is_of(&self, ids: Seq<Seq<char>>, edges: Seq<EdgeModel>) -> bool {
        let valid = valid_edges(ids, edges);
        &&& self.edge_count == valid.len()
        &&& self.weight == total_weight(valid)
        &&& self.tension_count == tensions(valid).len()
        &&& self.resolved_count == with_resolution(tensions(valid), ResolutionStatus::Resolved).len()
        &&& self.accepted_count == with_resolution(tensions(valid), ResolutionStatus::Accepted).len()
        &&& self.resolved_count + self.accepted_count <= self.tension_count
        &&& self.tension_count <= self.edge_count
    }
}

/// The tally of the edges before the next one, extended by that edge.
proof fn lemma_tally_step(ids: Seq<Seq<char>>, edges: Seq<EdgeModel>, k: int, before: EdgeTally, after: EdgeTally)
    requires
        0 <= k < edges.len(),
        before.is_of(ids, edges.take(k)),
        before.edge_count <= k,
        before.weight <= k * 0xffff_ffff,
        edges[k].weight <= 0xffff_ffff,
        ({
            let edge = edges[k];
            let valid = is_valid_edge(ids, edge);
            let tension = valid && edge.edge_type == EdgeType::Tension;
            &&& after.edge_count == before.edge_count + if valid {
                1int
            } else {
                0int
            }
            &&& after.weight == before.weight + if valid {
                edge_weight_of(edge) as int
            } else {
                0int
            }
            &&& after.tension_count == before.tension_count + if tension {
                1int
            } else {
                0int
            }
            &&& after.resolved_count == before.resolved_count + if tension && edge.resolution == Some(
                ResolutionStatus::Resolved,
            ) {
                1int
            } else {
                0int
            }
            &&& after.accepted_count == before.accepted_count + if tension && edge.resolution == Some(
                ResolutionStatus::Accepted,
            ) {
                1int
            } else {
                0int
            }
        }),
    ensures
        after.is_of(ids, edges.take(k + 1)),
        after.edge_count <= k + 1,
        after.weight <= (k + 1) * 0xffff_ffff,
{
    let edge = edges[k];
    let shorter = valid_edges(ids, edges.take(k));
    let longer = valid_edges(ids, edges.take(k + 1));
    lemma_filter_take_step(edges, |edge: EdgeModel| is_valid_edge(ids, edge), k);
    lemma_edge_weight_bound(edge);
    assert(k * 0xffff_ffff + 0xffff_ffff == (k + 1) * 0xffff_ffff) by (nonlinear_arith);
    if is_valid_edge(ids, edge) {
        assert(longer == shorter.push(edge));
        assert(longer.drop_last() =~= shorter);
        lemma_filter_push(shorter, |edge: EdgeModel| edge.edge_type == EdgeType::Tension, edge);
        if edge.edge_type == EdgeType::Tension {
            lemma_filter_push(
                tensions(shorter),
                |edge: EdgeModel| edge.resolution == Some(ResolutionStatus::Resolved),
                edge,
            );
            lemma_filter_push(
                tensions(shorter),
                |edge: EdgeModel| edge.resolution == Some(ResolutionStatus::Accepted),
                edge,
            );
        }
    }
}

/// Counts the valid edges, their total weight and their tensions.
pub fn tally_edges(claims: &[Claim], edges: &[CdgEdge], ends: &Vec<(Option<usize>, Option<usize>)>) -> (tally:
    EdgeTally)
    requires
        ends_resolve(claim_ids(claims@), edge_models(edges@), ends@),
    ensures
        tally.is_of(claim_ids(claims@), edge_models(edges@)),
{
    let ghost ids = claim_ids(claims@);
    let ghost models = edge_models(edges@);
    let mut tally = EdgeTally {
        edge_count: 0,
        weight: 0,
        tension_count: 0,
        resolved_count: 0,
        accepted_count: 0,
    };
    let mut k: usize = 0;
    proof {
        reveal(Seq::filter);
        assert(models.take(0) =~= Seq::<EdgeModel>::empty());
        assert(valid_edges(ids, models.take(0)) =~= Seq::<EdgeModel>::empty());
        assert(tensions(Seq::<EdgeModel>::empty()) =~= Seq::<EdgeModel>::empty());
    }
    while k < edges.len()
        invariant
            k <= edges.len(),
            ids == claim_ids(claims@),
            models == edge_models(edges@),
            ends_resolve(ids, models, ends@),
            tally.is_of(ids, models.take(k as int)),
            tally.edge_count <= k,
            tally.weight <= k * 0xffff_ffff,
        decreases edges.len() - k,
    {
        let pair = ends[k];
        let ghost before = tally;
        proof {
            assert(resolves(ids, models[k as int].source, ends[k as int].0));
            lemma_followed_by_ends(ids, models[k as int], pair, false);
            lemma_edge_weight_bound(models[k as int]);
            assert(k * 0xffff_ffff + 0xffff_ffff <= 0xffff_ffff_ffff_ffff * 0xffff_ffff + 0xffff_ffff)
                by (nonlinear_arith)
                requires
                    k <= 0xffff_ffff_ffff_ffff,
            ;
        }
        if pair.0.is_some() && pair.1.is_some() {
            let edge = &edges[k];
            tally.edge_count = tally.edge_count + 1;
            tally.weight = tally.weight + edge_weight(edge) as u128;
            if edge.edge_type == EdgeType::Tension {
                tally.tension_count = tally.tension_count + 1;
                match edge.resolution {
                    Some(ResolutionStatus::Resolved) => {
                        tally.resolved_count = tally.resolved_count + 1;
                    },
                    Some(ResolutionStatus::Accepted) => {
                        tally.accepted_count = tally.accepted_count + 1;
                    },
                    _ => {},
                }
            }
        }
        proof {
            lemma_tally_step(ids, models, k as int, before, tally);
        }
        k += 1;
    }
    proof {
        lemma_take_all(models);
    }
    tally
}

/// Counts the claims that are `Core` or `Structure`.
pub fn count_load_bearing(claims: &[Claim], edges: &[CdgEdge], strata: &Vec<ClaimStratum>) -> (count: usize)
    requires
        strata.len() == claims.len(),
        forall|i: int|
            0 <= i < claims.len() ==> #[trigger] strata[i] == stratum_of(
                claim_ids(claims@),
                edge_models(edges@),
                claim_ids(claims@)[i],
            ),
    ensures
        count == load_bearing(claim_ids(claims@), edge_models(edges@)).len(),
        count <= claims.len(),
{
    let ghost ids = claim_ids(claims@);
    let ghost models = edge_models(edges@);
    let ghost pred = |id: Seq<char>| is_load_bearing(stratum_of(ids, models, id));
    let mut count: usize = 0;
    let mut i: usize = 0;
    proof {
        lemma_filter_take_none(ids, pred);
    }
    while i < claims.len()
        invariant
            i <= claims.len(),
            ids == claim_ids(claims@),
            models == edge_models(edges@),
            pred == (|id: Seq<char>| is_load_bearing(stratum_of(ids, models, id))),
            strata.len() == claims.len(),
            forall|j: int|
                0 <= j < claims.len() ==> #[trigger] strata[j] == stratum_of(ids, models, ids[j]),
            count == ids.take(i as int).filter(pred).len(),
            count <= i,
        decreases claims.len() - i,
    {
        proof {
            lemma_filter_take_step(ids, pred, i as int);
        }
        match strata[i] {
            ClaimStratum::Core => {
                count += 1;
            },
            ClaimStratum::Structure => {
                count += 1;
            },
            _ => {},
        }
        i += 1;
    }
    proof {
        lemma_take_all(ids);
    }
    count
}

/// Counts the claims from which a chain of valid edges, of any type, leads to
/// the core claim.
pub fn count_reaching(
    claims: &[Claim],
    edges: &[CdgEdge],
    ends: &Vec<(Option<usize>, Option<usize>)>,
    firsts: &Vec<usize>,
    core: usize,
) -> (count: usize)
    requires
        ends_resolve(claim_ids(claims@), edge_models(edges@), ends@),
        firsts_resolve(claim_ids(claims@), firsts@),
        is_first_at(claim_ids(claims@), claim_ids(claims@)[core as int], core as int),
    ensures
        count == reaching(
            claim_ids(claims@),
            edge_models(edges@),
            claim_ids(claims@)[core as int],
        ).len(),
        count <= claims.len(),
{
    let ghost ids = claim_ids(claims@);
    let ghost models = edge_models(edges@);
    let ghost target = ids[core as int];
    let ghost pred = |id: Seq<char>| leads_to(ids, models, false, id, target);
    let marks = mark_leading_to(claims, edges, ends, false, core);
    let mut count: usize = 0;
    let mut i: usize = 0;
    proof {
        lemma_filter_take_none(ids, pred);
    }
    while i < claims.len()
        invariant
            i <= claims.len(),
            ids == claim_ids(claims@),
            models == edge_models(edges@),
            target == ids[core as int],
            pred == (|id: Seq<char>| leads_to(ids, models, false, id, target)),
            firsts_resolve(ids, firsts@),
            marks_lead_to(ids, models, false, core as int, marks@),
            count == ids.take(i as int).filter(pred).len(),
            count <= i,
        decreases claims.len() - i,
    {
        let first: usize = firsts[i];
        proof {
            lemma_filter_take_step(ids, pred, i as int);
            assert(is_first_at(ids, ids[i as int], first as int));
            assert(ids[first as int] == ids[i as int]);
        }
        if marks[first] {
            count += 1;
        }
        i += 1;
    }
    proof {
        lemma_take_all(ids);
    }
    count
}

/// The weighted mean of the four scores that make up coherence.
pub fn coherence(sdd: u64, core_reachability: u64, trr: u64, orphan_ratio: u64) -> (score: u64)
    requires
        core_reachability <= UNIT,
        trr <= UNIT,
        orphan_ratio <= UNIT,
    ensures
        score == coherence_of(sdd as nat, core_reachability as nat, trr as nat, orphan_ratio as nat),
{
    let connected: u64 = UNIT - orphan_ratio;
    assert((COHERENCE_WEIGHT_SDD as int) * (sdd as int) <= 35 * 0xffff_ffff_ffff_ffff
        && (COHERENCE_WEIGHT_REACHABILITY as int) * (core_reachability as int) <= 25 * 1_000_000
        && (COHERENCE_WEIGHT_TRR as int) * (trr as int) <= 25 * 1_000_000
        && (COHERENCE_WEIGHT_CONNECTED as int) * (connected as int) <= 15 * 1_000_000)
        by (nonlinear_arith)
        requires
            COHERENCE_WEIGHT_SDD == 35,
            COHERENCE_WEIGHT_REACHABILITY == 25,
            COHERENCE_WEIGHT_TRR == 25,
            COHERENCE_WEIGHT_CONNECTED == 15,
            sdd <= 0xffff_ffff_ffff_ffff,
            core_reachability <= 1_000_000,
            trr <= 1_000_000,
            connected <= 1_000_000,
    ;
    assert(((COHERENCE_WEIGHT_SDD as int) * (sdd as int) + (COHERENCE_WEIGHT_REACHABILITY as int) * (
    core_reachability as int) + (COHERENCE_WEIGHT_TRR as int) * (trr as int) + (
    COHERENCE_WEIGHT_CONNECTED as int) * (connected as int)) / (COHERENCE_WEIGHT_TOTAL as int)
        <= 0xffff_ffff_ffff_ffff) by (nonlinear_arith)
        requires
            COHERENCE_WEIGHT_TOTAL == 100,
            0 <= (COHERENCE_WEIGHT_SDD as int) * (sdd as int) <= 35 * 0xffff_ffff_ffff_ffff,
            0 <= (COHERENCE_WEIGHT_REACHABILITY as int) * (core_reachability as int) <= 25 * 1_000_000,
            0 <= (COHERENCE_WEIGHT_TRR as int) * (trr as int) <= 25 * 1_000_000,
            0 <= (COHERENCE_WEIGHT_CONNECTED as int) * (connected as int) <= 15 * 1_000_000,
    ;
    let density_part: u128 = (COHERENCE_WEIGHT_SDD as u128) * (sdd as u128);
    let reachability_part: u128 = (COHERENCE_WEIGHT_REACHABILITY as u128) * (core_reachability as u128);
    let resolution_part: u128 = (COHERENCE_WEIGHT_TRR as u128) * (trr as u128);
    let connected_part: u128 = (COHERENCE_WEIGHT_CONNECTED as u128) * (connected as u128);
    let sum: u128 = density_part + reachability_part + resolution_part + connected_part;
    let mean: u128 = sum / (COHERENCE_WEIGHT_TOTAL as u128);
    mean as u64
}

/// The density: the total weight over the number of ordered pairs of
/// `claim_count` claims, capped at the greatest `u64`.
pub fn density(weight: u128, claim_count: usize) -> (sdd: u64)
    ensures
        sdd == capped(
            if claim_count * (claim_count - 1) <= 0 {
                0nat
            } else {
                (weight as nat / ((claim_count * (claim_count - 1)) as nat)) as nat
            },
        ),
{
    if claim_count < 2 {
        assert(claim_count * (claim_count - 1) <= 0) by (nonlinear_arith)
            requires
                0 <= claim_count < 2,
        ;
        return 0;
    }
    assert(0 < claim_count * (claim_count - 1) <= 0xffff_ffff_ffff_ffff * 0xffff_ffff_ffff_ffff)
        by (nonlinear_arith)
        requires
            2 <= claim_count <= 0xffff_ffff_ffff_ffff,
    ;
    let pairs: u128 = (claim_count as u128) * ((claim_count - 1) as u128);
    let quotient: u128 = weight / pairs;
    if quotient > u64::MAX as u128 {
        u64::MAX
    } else {
        quotient as u64
    }
}

/// Computes the metrics of a graph.
///
/// Without claims every score and every count is zero. Else the tension
/// resolution rate is one whole wherever no valid tension edge exists.
///
/// Every tension is resolved, accepted or unresolved, and every tension is a
/// valid edge. The four ratios lie between nothing and one whole; the
/// density and the coherence score need not.
pub fn compute_metrics(claims: &[Claim], edges: &[CdgEdge]) -> (metrics: CdgMetrics)
    ensures
        metrics@ == metrics_of(claim_ids(claims@), edge_models(edges@)),
        claims.len() == 0 ==> metrics@ == zero_metrics(),
        claims.len() > 0 && metrics.tension_count == 0 ==> metrics.trr == UNIT,
        metrics.claim_count == claims.len(),
        metrics.edge_count <= edges.len(),
        metrics.tension_count <= metrics.edge_count,
        metrics.resolved_count + metrics.accepted_count + metrics.unresolved_count
            == metrics.tension_count,
        metrics.orphan_ratio <= UNIT,
        metrics.core_reachability <= UNIT,
        metrics.trr <= UNIT,
        metrics.lbr <= UNIT,
{
    let ghost ids = claim_ids(claims@);
    let ghost models = edge_models(edges@);
    let n = claims.len();
    if n == 0 {
        return CdgMetrics {
            sdd: 0,
            orphan_ratio: 0,
            core_reachability: 0,
            trr: 0,
            lbr: 0,
            coherence: 0,
            claim_count: 0,
            edge_count: 0,
            tension_count: 0,
            resolved_count: 0,
            accepted_count: 0,
            unresolved_count: 0,
        };
    }
    let ends = resolve_ends(claims, edges);
    let firsts = first_positions(claims);
    let tally = tally_edges(claims, edges, &ends);
    let sdd = density(tally.weight, n);
    let orphans = find_orphans(claims, edges);
    let orphan_ratio = share(orphans.len(), n);
    let found = stratify(claims, edges, &ends, &firsts);
    let reaching_claims: usize = match found.core {
        Some(c) => {
            proof {
                lemma_core_is_first(ids, models, c as int);
            }
            count_reaching(claims, edges, &ends, &firsts, c)
        },
        None => 0,
    };
    let core_reachability = share(reaching_claims, n);
    let settled: usize = tally.resolved_count + tally.accepted_count;
    let trr = if tally.tension_count > 0 {
        share(settled, tally.tension_count)
    } else {
        UNIT
    };
    let load_bearing_claims = count_load_bearing(claims, edges, &found.strata);
    let lbr = share(load_bearing_claims, n);
    let score = coherence(sdd, core_reachability, trr, orphan_ratio);
    CdgMetrics {
        sdd,
        orphan_ratio,
        core_reachability,
        trr,
        lbr,
        coherence: score,
        claim_count: n,
        edge_count: tally.edge_count,
        tension_count: tally.tension_count,
        resolved_count: tally.resolved_count,
        accepted_count: tally.accepted_count,
        unresolved_count: tally.tension_count - tally.resolved_count - tally.accepted_count,
    }
}

} // verus!
