//! Orphan detection: the claims that no edge touches.

use vstd::prelude::*;
use crate::session::Claim;
use crate::seqs::{
    lemma_filter_take_none, lemma_filter_take_step, lemma_take_all, lemma_text_views_push,
    text_views,
};
use crate::cdg::types::{CdgEdge, EdgeModel, claim_ids, edge_models};

verus! {

/// Some edge starts or ends in `id`. Every edge counts here, whatever its
/// type, and whether or not its other end is a claim.
pub open spec fn is_connected(edges: Seq<EdgeModel>, id: Seq<char>) -> bool {
    exists|k: int| 0 <= k < edges.len() && ((#[trigger] edges[k]).source == id || edges[k].target == id)
}

/// No edge starts or ends in `id`.
pub open spec fn is_orphan(edges: Seq<EdgeModel>, id: Seq<char>) -> bool {
    !is_connected(edges, id)
}

/// The ids of the orphans among the claims, in the order of the claims.
pub open spec fn orphans_of(ids: Seq<Seq<char>>, edges: Seq<EdgeModel>) -> Seq<Seq<char>> {
    ids.filter(|id: Seq<char>| is_orphan(edges, id))
}

/// Whether some edge starts or ends in `id`.
pub fn is_touched(edges: &[CdgEdge], id: &String) -> (touched: bool)
    ensures
        touched == is_connected(edge_models(edges@), id@),
{
    let ghost models = edge_models(edges@);
    let mut k: usize = 0;
    while k < edges.len()
        invariant
            k <= edges.len(),
            models == edge_models(edges@),
            forall|m: int| 0 <= m < k ==> (#[trigger] models[m]).source != id@ && models[m].target != id@,
        decreases edges.len() - k,
    {
        if edges[k].source_claim_id == *id || edges[k].target_claim_id == *id {
            assert(models[k as int].source == id@ || models[k as int].target == id@);
            return true;
        }
        k += 1;
    }
    false
}

/// The ids of the claims that no edge touches, in the order of the claims.
///
/// Unlike the metrics, which count valid edges only, this looks at every
/// edge: an edge whose other end is no claim still connects the claim at this
/// end.
pub fn find_orphans(claims: &[Claim], edges: &[CdgEdge]) -> (orphans: Vec<String>)
    ensures
        text_views(orphans@) == orphans_of(claim_ids(claims@), edge_models(edges@)),
        orphans.len() <= claims.len(),
{
    let ghost ids = claim_ids(claims@);
    let ghost models = edge_models(edges@);
    let ghost pred = |id: Seq<char>| is_orphan(models, id);
    let mut orphans: Vec<String> = Vec::new();
    let mut i: usize = 0;
    proof {
        lemma_filter_take_none(ids, pred);
        assert(text_views(orphans@) =~= Seq::<Seq<char>>::empty());
    }
    while i < claims.len()
        invariant
            i <= claims.len(),
            ids == claim_ids(claims@),
            models == edge_models(edges@),
            pred == (|id: Seq<char>| is_orphan(models, id)),
            text_views(orphans@) == ids.take(i as int).filter(pred),
            orphans.len() <= i,
        decreases claims.len() - i,
    {
        proof {
            lemma_filter_take_step(ids, pred, i as int);
            assert(ids[i as int] == claims[i as int].id@);
        }
        if !is_touched(edges, &claims[i].id) {
            let id = claims[i].id.clone();
            proof {
                lemma_text_views_push(orphans@, id);
            }
            orphans.push(id);
        }
        i += 1;
    }
    proof {
        lemma_take_all(ids);
    }
    orphans
}

} // verus!
