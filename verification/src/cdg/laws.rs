//! Laws of the graph engine: what holds of every graph.

use vstd::prelude::*;
use crate::fixed::{UNIT, lemma_share_at_most_unit};
use crate::seqs::{lemma_filter_agree, lemma_filter_push, lemma_filters_apart};
use crate::cdg::types::{CdgMetrics, EdgeModel, EdgeType, ResolutionStatus};
use crate::cdg::model::{
    core_of, has_incoming_require, has_outgoing_require, incoming_requires, is_chain, is_chain_step,
    is_core_at, is_core_candidate, is_followed, is_linked, is_require_into, is_support_of_structure,
    is_valid_edge, leads_to, lemma_chain_starts_in_claim, lemma_core_of_position, strata_of,
    stratum_of, supports_structure,
};
use crate::cdg::orphans::{is_connected, is_orphan, orphans_of};
use crate::cdg::metrics::{
    density_of, is_load_bearing, load_bearing, metrics_of, reaching, reaching_count, tensions,
    valid_edges, zero_metrics,
};

verus! {

/// Without claims every score and every count is zero, whatever the edges.
pub proof fn lemma_empty_graph_scores_zero(ids: Seq<Seq<char>>, edges: Seq<EdgeModel>)
    requires
        ids.len() == 0,
    ensures
        metrics_of(ids, edges) == zero_metrics(),
{
}

/// Where there are claims and no valid tension edge, the tension resolution
/// rate is one whole.
pub proof fn lemma_no_tension_full_rate(ids: Seq<Seq<char>>, edges: Seq<EdgeModel>)
    requires
        ids.len() > 0,
        metrics_of(ids, edges).tension_count == 0,
    ensures
        metrics_of(ids, edges).trr == UNIT,
{
}

/// The metrics are a function of the claims and the edges: two computations
/// on the same graph agree in every score and every count.
pub proof fn lemma_metrics_repeatable(
    first: CdgMetrics,
    second: CdgMetrics,
    ids: Seq<Seq<char>>,
    edges: Seq<EdgeModel>,
)
    requires
        first@ == metrics_of(ids, edges),
        second@ == metrics_of(ids, edges),
    ensures
        first == second,
{
    assert(first@.sdd == second@.sdd);
    assert(first@.orphan_ratio == second@.orphan_ratio);
    assert(first@.core_reachability == second@.core_reachability);
    assert(first@.trr == second@.trr);
    assert(first@.lbr == second@.lbr);
    assert(first@.coherence == second@.coherence);
    assert(first@.claim_count == second@.claim_count);
    assert(first@.edge_count == second@.edge_count);
    assert(first@.tension_count == second@.tension_count);
    assert(first@.resolved_count == second@.resolved_count);
    assert(first@.accepted_count == second@.accepted_count);
    assert(first@.unresolved_count == second@.unresolved_count);
}

/// An edge with an end that is no claim links nothing.
proof fn lemma_invalid_edge_links_nothing(
    ids: Seq<Seq<char>>,
    edges: Seq<EdgeModel>,
    edge: EdgeModel,
    require_only: bool,
    from: Seq<char>,
    to: Seq<char>,
)
    requires
        !is_valid_edge(ids, edge),
    ensures
        is_linked(ids, edges.push(edge), require_only, from, to) == is_linked(
            ids,
            edges,
            require_only,
            from,
            to,
        ),
{
    let longer = edges.push(edge);
    if is_linked(ids, longer, require_only, from, to) {
        let k = choose|k: int|
            0 <= k < longer.len() && is_followed(ids, #[trigger] longer[k], require_only)
                && longer[k].source == from && longer[k].target == to;
        assert(k < edges.len());
        assert(edges[k] == longer[k]);
    }
    if is_linked(ids, edges, require_only, from, to) {
        let k = choose|k: int|
            0 <= k < edges.len() && is_followed(ids, #[trigger] edges[k], require_only)
                && edges[k].source == from && edges[k].target == to;
        assert(longer[k] == edges[k]);
    }
}

/// An edge with an end that is no claim opens no chain.
proof fn lemma_invalid_edge_leads_nowhere(
    ids: Seq<Seq<char>>,
    edges: Seq<EdgeModel>,
    edge: EdgeModel,
    require_only: bool,
    from: Seq<char>,
    to: Seq<char>,
)
    requires
        !is_valid_edge(ids, edge),
    ensures
        leads_to(ids, edges.push(edge), require_only, from, to) == leads_to(
            ids,
            edges,
            require_only,
            from,
            to,
        ),
{
    let longer = edges.push(edge);
    assert forall|path: Seq<Seq<char>>|
        #[trigger] is_chain(ids, longer, require_only, path) == is_chain(
            ids,
            edges,
            require_only,
            path,
        ) by {
        if is_chain(ids, longer, require_only, path) {
            assert forall|i: int| 0 <= i && i + 1 < path.len() implies #[trigger] is_chain_step(
                ids,
                edges,
                require_only,
                path,
                i,
            ) by {
                assert(is_chain_step(ids, longer, require_only, path, i));
                lemma_invalid_edge_links_nothing(ids, edges, edge, require_only, path[i], path[i + 1]);
            }
        }
        if is_chain(ids, edges, require_only, path) {
            assert forall|i: int| 0 <= i && i + 1 < path.len() implies #[trigger] is_chain_step(
                ids,
                longer,
                require_only,
                path,
                i,
            ) by {
                assert(is_chain_step(ids, edges, require_only, path, i));
                lemma_invalid_edge_links_nothing(ids, edges, edge, require_only, path[i], path[i + 1]);
            }
        }
    }
    if leads_to(ids, longer, require_only, from, to) {
        let path = choose|path: Seq<Seq<char>>|
            #[trigger] is_chain(ids, longer, require_only, path) && path.len() > 0 && path[0] == from
                && path[path.len() - 1] == to;
        assert(is_chain(ids, edges, require_only, path));
    }
    if leads_to(ids, edges, require_only, from, to) {
        let path = choose|path: Seq<Seq<char>>|
            #[trigger] is_chain(ids, edges, require_only, path) && path.len() > 0 && path[0] == from
                && path[path.len() - 1] == to;
        assert(is_chain(ids, longer, require_only, path));
    }
}

/// An edge with an end that is no claim makes no claim a core candidate,
/// takes that from none, and counts for none.
proof fn lemma_invalid_edge_keeps_candidates(
    ids: Seq<Seq<char>>,
    edges: Seq<EdgeModel>,
    edge: EdgeModel,
    id: Seq<char>,
)
    requires
        !is_valid_edge(ids, edge),
    ensures
        has_incoming_require(ids, edges.push(edge), id) == has_incoming_require(ids, edges, id),
        has_outgoing_require(ids, edges.push(edge), id) == has_outgoing_require(ids, edges, id),
        is_core_candidate(ids, edges.push(edge), id) == is_core_candidate(ids, edges, id),
        incoming_requires(ids, edges.push(edge), id) == incoming_requires(ids, edges, id),
{
    let longer = edges.push(edge);
    if has_incoming_require(ids, longer, id) {
        let k = choose|k: int|
            0 <= k < longer.len() && is_followed(ids, #[trigger] longer[k], true) && longer[k].target
                == id;
        assert(edges[k] == longer[k]);
    }
    if has_incoming_require(ids, edges, id) {
        let k = choose|k: int|
            0 <= k < edges.len() && is_followed(ids, #[trigger] edges[k], true) && edges[k].target == id;
        assert(longer[k] == edges[k]);
    }
    if has_outgoing_require(ids, longer, id) {
        let k = choose|k: int|
            0 <= k < longer.len() && is_followed(ids, #[trigger] longer[k], true) && longer[k].source
                == id;
        assert(edges[k] == longer[k]);
    }
    if has_outgoing_require(ids, edges, id) {
        let k = choose|k: int|
            0 <= k < edges.len() && is_followed(ids, #[trigger] edges[k], true) && edges[k].source == id;
        assert(longer[k] == edges[k]);
    }
    lemma_filter_push(edges, |e: EdgeModel| is_require_into(ids, id, e), edge);
}

/// An edge with an end that is no claim leaves the core claim what it was.
proof fn lemma_invalid_edge_keeps_core(ids: Seq<Seq<char>>, edges: Seq<EdgeModel>, edge: EdgeModel)
    requires
        !is_valid_edge(ids, edge),
    ensures
        core_of(ids, edges.push(edge)) == core_of(ids, edges),
{
    let longer = edges.push(edge);
    assert forall|i: int| is_core_at(ids, longer, i) == is_core_at(ids, edges, i) by {
        assert forall|j: int| 0 <= j < ids.len() implies is_core_candidate(ids, longer, #[trigger] ids[j])
            == is_core_candidate(ids, edges, ids[j]) && incoming_requires(ids, longer, ids[j])
            == incoming_requires(ids, edges, ids[j]) by {
            lemma_invalid_edge_keeps_candidates(ids, edges, edge, ids[j]);
        }
    }
    if exists|i: int| is_core_at(ids, edges, i) {
        let i = choose|i: int| is_core_at(ids, edges, i);
        assert(is_core_at(ids, longer, i));
        lemma_core_of_position(ids, edges, i);
        lemma_core_of_position(ids, longer, i);
    } else {
        assert forall|i: int| !is_core_at(ids, longer, i) by {
            assert(!is_core_at(ids, edges, i));
        }
    }
}

/// An edge with an end that is no claim leaves every claim its stratum.
pub proof fn lemma_invalid_edge_keeps_stratum(
    ids: Seq<Seq<char>>,
    edges: Seq<EdgeModel>,
    edge: EdgeModel,
    id: Seq<char>,
)
    requires
        !is_valid_edge(ids, edge),
    ensures
        stratum_of(ids, edges.push(edge), id) == stratum_of(ids, edges, id),
{
    let longer = edges.push(edge);
    lemma_invalid_edge_keeps_core(ids, edges, edge);
    match core_of(ids, edges) {
        None => {},
        Some(core) => {
            lemma_invalid_edge_leads_nowhere(ids, edges, edge, true, id, core);
            assert forall|e: EdgeModel|
                #[trigger] is_support_of_structure(ids, longer, core, id, e) == is_support_of_structure(
                    ids,
                    edges,
                    core,
                    id,
                    e,
                ) by {
                lemma_invalid_edge_leads_nowhere(ids, edges, edge, true, e.target, core);
            }
            if supports_structure(ids, longer, core, id) {
                let k = choose|k: int|
                    0 <= k < longer.len() && is_support_of_structure(
                        ids,
                        longer,
                        core,
                        id,
                        #[trigger] longer[k],
                    );
                if k == edges.len() {
                    lemma_chain_starts_in_claim(ids, longer, true, edge.target, core);
                    assert(false);
                }
                assert(edges[k] == longer[k]);
                assert(is_support_of_structure(ids, edges, core, id, edges[k]));
            }
            if supports_structure(ids, edges, core, id) {
                let k = choose|k: int|
                    0 <= k < edges.len() && is_support_of_structure(
                        ids,
                        edges,
                        core,
                        id,
                        #[trigger] edges[k],
                    );
                assert(longer[k] == edges[k]);
                assert(is_support_of_structure(ids, longer, core, id, longer[k]));
            }
        },
    }
}

/// An edge with an end that is no claim is left out of the metrics: the edge
/// count, the tension counts, the density, the tension resolution rate, the
/// core reachability and the load-bearing ratio are what they were without
/// it, and so is every stratum.
///
/// Orphan detection does not leave it out: the edge connects the claim at its
/// other end, if that is one. So the orphan ratio may fall, and the coherence
/// score rise with it.
pub proof fn lemma_invalid_edge_is_left_out(ids: Seq<Seq<char>>, edges: Seq<EdgeModel>, edge: EdgeModel)
    requires
        !is_valid_edge(ids, edge),
    ensures
        valid_edges(ids, edges.push(edge)) == valid_edges(ids, edges),
        strata_of(ids, edges.push(edge)) == strata_of(ids, edges),
        ({
            let with = metrics_of(ids, edges.push(edge));
            let without = metrics_of(ids, edges);
            &&& with.claim_count == without.claim_count
            &&& with.edge_count == without.edge_count
            &&& with.tension_count == without.tension_count
            &&& with.resolved_count == without.resolved_count
            &&& with.accepted_count == without.accepted_count
            &&& with.unresolved_count == without.unresolved_count
            &&& with.sdd == without.sdd
            &&& with.trr == without.trr
            &&& with.core_reachability == without.core_reachability
            &&& with.lbr == without.lbr
        }),
        forall|id: Seq<char>|
            #[trigger] is_connected(edges.push(edge), id) == (is_connected(edges, id) || id
                == edge.source || id == edge.target),
{
    let longer = edges.push(edge);
    lemma_filter_push(edges, |e: EdgeModel| is_valid_edge(ids, e), edge);
    assert(valid_edges(ids, longer) == valid_edges(ids, edges));
    assert forall|id: Seq<char>| stratum_of(ids, longer, id) == stratum_of(ids, edges, id) by {
        lemma_invalid_edge_keeps_stratum(ids, edges, edge, id);
    }
    assert(strata_of(ids, longer) =~= strata_of(ids, edges));
    assert(density_of(ids, longer) == density_of(ids, edges));
    lemma_filter_agree(
        ids,
        |id: Seq<char>| is_load_bearing(stratum_of(ids, longer, id)),
        |id: Seq<char>| is_load_bearing(stratum_of(ids, edges, id)),
    );
    assert(load_bearing(ids, longer) == load_bearing(ids, edges));
    lemma_invalid_edge_keeps_core(ids, edges, edge);
    match core_of(ids, edges) {
        None => {},
        Some(core) => {
            assert forall|i: int| 0 <= i < ids.len() implies leads_to(
                ids,
                longer,
                false,
                #[trigger] ids[i],
                core,
            ) == leads_to(ids, edges, false, ids[i], core) by {
                lemma_invalid_edge_leads_nowhere(ids, edges, edge, false, ids[i], core);
            }
            lemma_filter_agree(
                ids,
                |id: Seq<char>| leads_to(ids, longer, false, id, core),
                |id: Seq<char>| leads_to(ids, edges, false, id, core),
            );
            assert(reaching(ids, longer, core) == reaching(ids, edges, core));
        },
    }
    assert(reaching_count(ids, longer) == reaching_count(ids, edges));
    assert forall|id: Seq<char>|
        #[trigger] is_connected(longer, id) == (is_connected(edges, id) || id == edge.source || id
            == edge.target) by {
        if is_connected(longer, id) {
            let k = choose|k: int|
                0 <= k < longer.len() && ((#[trigger] longer[k]).source == id || longer[k].target == id);
            if k < edges.len() {
                assert(edges[k] == longer[k]);
            }
        }
        if is_connected(edges, id) {
            let k = choose|k: int|
                0 <= k < edges.len() && ((#[trigger] edges[k]).source == id || edges[k].target == id);
            assert(longer[k] == edges[k]);
        }
        if id == edge.source || id == edge.target {
            assert(longer[edges.len() as int] == edge);
        }
    }
}

/// The counts and the ratios of every graph are in range: every tension is
/// resolved, accepted or unresolved; every tension is a valid edge and every
/// valid edge an edge; and the orphan ratio, the core reachability, the
/// tension resolution rate and the load-bearing ratio are at most one whole.
pub proof fn lemma_metrics_in_range(ids: Seq<Seq<char>>, edges: Seq<EdgeModel>)
    ensures
        ({
            let metrics = metrics_of(ids, edges);
            &&& metrics.claim_count == ids.len()
            &&& metrics.edge_count <= edges.len()
            &&& metrics.tension_count <= metrics.edge_count
            &&& metrics.resolved_count + metrics.accepted_count + metrics.unresolved_count
                == metrics.tension_count
            &&& metrics.orphan_ratio <= UNIT
            &&& metrics.core_reachability <= UNIT
            &&& metrics.trr <= UNIT
            &&& metrics.lbr <= UNIT
        }),
{
    if ids.len() > 0 {
        let n = ids.len();
        let valid = valid_edges(ids, edges);
        let tense = tensions(valid);
        let resolved = |edge: EdgeModel| edge.resolution == Some(ResolutionStatus::Resolved);
        let accepted = |edge: EdgeModel| edge.resolution == Some(ResolutionStatus::Accepted);
        edges.lemma_filter_len(|edge: EdgeModel| is_valid_edge(ids, edge));
        valid.lemma_filter_len(|edge: EdgeModel| edge.edge_type == EdgeType::Tension);
        lemma_filters_apart(tense, resolved, accepted);
        let settled = tense.filter(resolved).len() + tense.filter(accepted).len();
        assert(settled <= tense.len());
        if tense.len() > 0 {
            lemma_share_at_most_unit(settled, tense.len());
        }
        ids.lemma_filter_len(|id: Seq<char>| is_orphan(edges, id));
        lemma_share_at_most_unit(orphans_of(ids, edges).len(), n);
        ids.lemma_filter_len(|id: Seq<char>| is_load_bearing(stratum_of(ids, edges, id)));
        lemma_share_at_most_unit(load_bearing(ids, edges).len(), n);
        match core_of(ids, edges) {
            Some(core) => {
                ids.lemma_filter_len(|id: Seq<char>| leads_to(ids, edges, false, id, core));
            },
            None => {},
        }
        lemma_share_at_most_unit(reaching_count(ids, edges), n);
    }
}

} // verus!
