//! Choosing the core claim: the claim that others require and that requires
//! nothing itself.

use vstd::prelude::*;
use crate::session::Claim;
use crate::seqs::{lemma_filter_take_none, lemma_filter_take_step, lemma_take_all};
use crate::cdg::types::{CdgEdge, EdgeModel, claim_ids, edge_models};
use crate::cdg::model::{
    core_of, has_incoming_require, has_outgoing_require, incoming_requires, is_core_at,
    is_core_candidate, is_first_at, is_followed, is_require_into, lemma_core_of_position,
    lemma_first_exists, lemma_first_unique,
};
use crate::cdg::resolve::{ends_resolve, follows, lemma_followed_by_ends, resolves};

verus! {

/// The core claim stands at the first position of its id.
pub proof fn lemma_core_is_first(ids: Seq<Seq<char>>, edges: Seq<EdgeModel>, core: int)
    requires
        is_core_at(ids, edges, core),
    ensures
        is_first_at(ids, ids[core], core),
{
    assert forall|j: int| 0 <= j < core implies ids[j] != ids[core] by {
        if ids[j] == ids[core] {
            assert(is_core_candidate(ids, edges, ids[j]));
        }
    }
}

/// Without a core candidate there is no core claim.
pub proof fn lemma_no_candidate_no_core(ids: Seq<Seq<char>>, edges: Seq<EdgeModel>)
    requires
        forall|i: int| 0 <= i < ids.len() ==> !is_core_candidate(ids, edges, #[trigger] ids[i]),
    ensures
        core_of(ids, edges) is None,
{
    assert forall|i: int| !is_core_at(ids, edges, i) by {
        if is_core_at(ids, edges, i) {
            assert(is_core_candidate(ids, edges, ids[i]));
        }
    }
}

/// A core candidate with more incoming `Require` edges than every other
/// candidate is the core claim, wherever the candidates stand in the list.
pub proof fn lemma_strict_maximum_is_core(ids: Seq<Seq<char>>, edges: Seq<EdgeModel>, id: Seq<char>)
    requires
        is_core_candidate(ids, edges, id),
        forall|other: Seq<char>|
            other != id && #[trigger] is_core_candidate(ids, edges, other) ==> incoming_requires(
                ids,
                edges,
                other,
            ) < incoming_requires(ids, edges, id),
    ensures
        core_of(ids, edges) == Some(id),
{
    let k = choose|k: int|
        0 <= k < edges.len() && is_followed(ids, #[trigger] edges[k], true) && edges[k].target == id;
    assert(ids.contains(id));
    let p = choose|p: int| 0 <= p < ids.len() && ids[p] == id;
    let f = lemma_first_exists(ids, p);
    assert forall|j: int|
        0 <= j < ids.len() && is_core_candidate(ids, edges, #[trigger] ids[j]) implies incoming_requires(
        ids,
        edges,
        ids[j],
    ) <= incoming_requires(ids, edges, ids[f]) by {
        if ids[j] != id {
            assert(is_core_candidate(ids, edges, ids[j]));
        }
    }
    assert forall|j: int|
        0 <= j < f && is_core_candidate(ids, edges, #[trigger] ids[j]) implies incoming_requires(
        ids,
        edges,
        ids[j],
    ) < incoming_requires(ids, edges, ids[f]) by {
        assert(ids[j] != id);
        assert(is_core_candidate(ids, edges, ids[j]));
    }
    assert(is_core_at(ids, edges, f));
    lemma_core_of_position(ids, edges, f);
}

/// One edge more gives an incoming `Require` edge to its target, where it is
/// followed, and to no other id.
proof fn lemma_incoming_step(ids: Seq<Seq<char>>, edges: Seq<EdgeModel>, k: int, id: Seq<char>)
    requires
        0 <= k < edges.len(),
    ensures
        has_incoming_require(ids, edges.take(k + 1), id) <==> (has_incoming_require(
            ids,
            edges.take(k),
            id,
        ) || (is_followed(ids, edges[k], true) && edges[k].target == id)),
{
    let shorter = edges.take(k);
    let longer = edges.take(k + 1);
    if has_incoming_require(ids, longer, id) {
        let m = choose|m: int|
            0 <= m < longer.len() && is_followed(ids, #[trigger] longer[m], true) && longer[m].target
                == id;
        if m < k {
            assert(shorter[m] == longer[m]);
        }
    }
    if has_incoming_require(ids, shorter, id) {
        let m = choose|m: int|
            0 <= m < shorter.len() && is_followed(ids, #[trigger] shorter[m], true)
                && shorter[m].target == id;
        assert(longer[m] == shorter[m]);
    }
    if is_followed(ids, edges[k], true) && edges[k].target == id {
        assert(longer[k] == edges[k]);
    }
}

/// One edge more gives an outgoing `Require` edge to its source, where it is
/// followed, and to no other id.
proof fn lemma_outgoing_step(ids: Seq<Seq<char>>, edges: Seq<EdgeModel>, k: int, id: Seq<char>)
    requires
        0 <= k < edges.len(),
    ensures
        has_outgoing_require(ids, edges.take(k + 1), id) <==> (has_outgoing_require(
            ids,
            edges.take(k),
            id,
        ) || (is_followed(ids, edges[k], true) && edges[k].source == id)),
{
    let shorter = edges.take(k);
    let longer = edges.take(k + 1);
    if has_outgoing_require(ids, longer, id) {
        let m = choose|m: int|
            0 <= m < longer.len() && is_followed(ids, #[trigger] longer[m], true) && longer[m].source
                == id;
        if m < k {
            assert(shorter[m] == longer[m]);
        }
    }
    if has_outgoing_require(ids, shorter, id) {
        let m = choose|m: int|
            0 <= m < shorter.len() && is_followed(ids, #[trigger] shorter[m], true)
                && shorter[m].source == id;
        assert(longer[m] == shorter[m]);
    }
    if is_followed(ids, edges[k], true) && edges[k].source == id {
        assert(longer[k] == edges[k]);
    }
}

/// `flags` marks the first position of every id for which `incoming` (or,
/// else, outgoing) `Require` edges exist, and no other position.
pub open spec fn flags_mark_requires(
    ids: Seq<Seq<char>>,
    edges: Seq<EdgeModel>,
    incoming: bool,
    flags: Seq<bool>,
) -> bool {
    &&& flags.len() == ids.len()
    &&& forall|v: int|
        0 <= v < ids.len() ==> (#[trigger] flags[v] <==> is_first_at(ids, ids[v], v) && if incoming {
            has_incoming_require(ids, edges, ids[v])
        } else {
            has_outgoing_require(ids, edges, ids[v])
        })
}

/// Taking one edge more into account keeps the flags right, where the flag
/// at the first position of its end is set if the edge is followed.
proof fn lemma_flags_step(
    ids: Seq<Seq<char>>,
    edges: Seq<EdgeModel>,
    k: int,
    incoming: bool,
    before: Seq<bool>,
    after: Seq<bool>,
    hit: Option<int>,
)
    requires
        0 <= k < edges.len(),
        flags_mark_requires(ids, edges.take(k), incoming, before),
        match hit {
            Some(p) => is_followed(ids, edges[k], true) && is_first_at(
                ids,
                if incoming {
                    edges[k].target
                } else {
                    edges[k].source
                },
                p,
            ) && after == before.update(p, true),
            None => !is_followed(ids, edges[k], true) && after == before,
        },
    ensures
        flags_mark_requires(ids, edges.take(k + 1), incoming, after),
{
    let end = if incoming {
        edges[k].target
    } else {
        edges[k].source
    };
    assert forall|v: int| 0 <= v < ids.len() implies (#[trigger] after[v] <==> is_first_at(
        ids,
        ids[v],
        v,
    ) && if incoming {
        has_incoming_require(ids, edges.take(k + 1), ids[v])
    } else {
        has_outgoing_require(ids, edges.take(k + 1), ids[v])
    }) by {
        lemma_incoming_step(ids, edges, k, ids[v]);
        lemma_outgoing_step(ids, edges, k, ids[v]);
        assert(before[v] <==> is_first_at(ids, ids[v], v) && if incoming {
            has_incoming_require(ids, edges.take(k), ids[v])
        } else {
            has_outgoing_require(ids, edges.take(k), ids[v])
        });
        match hit {
            Some(p) => {
                if is_first_at(ids, ids[v], v) && end == ids[v] {
                    lemma_first_unique(ids, ids[v], v, p);
                }
            },
            None => {},
        }
    }
}

/// For each claim, whether a valid `Require` edge ends in it, and whether one
/// starts in it.
pub fn require_flags(
    claims: &[Claim],
    edges: &[CdgEdge],
    ends: &Vec<(Option<usize>, Option<usize>)>,
) -> (flags: (Vec<bool>, Vec<bool>))
    requires
        ends_resolve(claim_ids(claims@), edge_models(edges@), ends@),
    ensures
        flags_mark_requires(claim_ids(claims@), edge_models(edges@), true, flags.0@),
        flags_mark_requires(claim_ids(claims@), edge_models(edges@), false, flags.1@),
{
    let ghost ids = claim_ids(claims@);
    let ghost models = edge_models(edges@);
    let n = claims.len();
    let mut has_in: Vec<bool> = Vec::new();
    let mut has_out: Vec<bool> = Vec::new();
    let mut i: usize = 0;
    while i < n
        invariant
            i <= n,
            has_in.len() == i,
            has_out.len() == i,
            forall|v: int| 0 <= v < i ==> !has_in[v] && !has_out[v],
        decreases n - i,
    {
        has_in.push(false);
        has_out.push(false);
        i += 1;
    }
    let mut k: usize = 0;
    assert(models.take(0).len() == 0);
    while k < edges.len()
        invariant
            k <= edges.len(),
            n == claims.len(),
            ids == claim_ids(claims@),
            models == edge_models(edges@),
            ends_resolve(ids, models, ends@),
            flags_mark_requires(ids, models.take(k as int), true, has_in@),
            flags_mark_requires(ids, models.take(k as int), false, has_out@),
        decreases edges.len() - k,
    {
        let pair = ends[k];
        let ghost in_before = has_in@;
        let ghost out_before = has_out@;
        proof {
            assert(resolves(ids, models[k as int].source, ends[k as int].0));
            lemma_followed_by_ends(ids, models[k as int], pair, true);
        }
        if follows(&edges[k], &pair, true) {
            let source: usize = pair.0.unwrap();
            let target: usize = pair.1.unwrap();
            has_out.set(source, true);
            has_in.set(target, true);
            proof {
                lemma_flags_step(ids, models, k as int, true, in_before, has_in@, Some(target as int));
                lemma_flags_step(ids, models, k as int, false, out_before, has_out@, Some(source as int));
            }
        } else {
            proof {
                lemma_flags_step(ids, models, k as int, true, in_before, has_in@, None);
                lemma_flags_step(ids, models, k as int, false, out_before, has_out@, None);
            }
        }
        k += 1;
    }
    proof {
        lemma_take_all(models);
    }
    (has_in, has_out)
}

/// Counts the valid `Require` edges that end in the claim at `position`.
pub fn count_incoming(
    claims: &[Claim],
    edges: &[CdgEdge],
    ends: &Vec<(Option<usize>, Option<usize>)>,
    position: usize,
) -> (count: usize)
    requires
        ends_resolve(claim_ids(claims@), edge_models(edges@), ends@),
        is_first_at(claim_ids(claims@), claim_ids(claims@)[position as int], position as int),
    ensures
        count == incoming_requires(
            claim_ids(claims@),
            edge_models(edges@),
            claim_ids(claims@)[position as int],
        ),
{
    let ghost ids = claim_ids(claims@);
    let ghost models = edge_models(edges@);
    let ghost id = ids[position as int];
    let ghost pred = |edge: EdgeModel| is_require_into(ids, id, edge);
    let mut count: usize = 0;
    let mut k: usize = 0;
    proof {
        lemma_filter_take_none(models, pred);
    }
    while k < edges.len()
        invariant
            k <= edges.len(),
            ids == claim_ids(claims@),
            models == edge_models(edges@),
            id == ids[position as int],
            pred == (|edge: EdgeModel| is_require_into(ids, id, edge)),
            ends_resolve(ids, models, ends@),
            is_first_at(ids, id, position as int),
            count == models.take(k as int).filter(pred).len(),
            count <= k,
        decreases edges.len() - k,
    {
        let pair = ends[k];
        proof {
            assert(resolves(ids, models[k as int].source, ends[k as int].0));
            lemma_followed_by_ends(ids, models[k as int], pair, true);
            lemma_filter_take_step(models, pred, k as int);
            if pair.1 is Some {
                if models[k as int].target == id {
                    lemma_first_unique(ids, id, position as int, pair.1.unwrap() as int);
                }
            }
        }
        if follows(&edges[k], &pair, true) && pair.1.unwrap() == position {
            count += 1;
        }
        k += 1;
    }
    proof {
        lemma_take_all(models);
    }
    count
}

/// The position of the core claim.
///
/// Where several claims are core candidates, the one with the most incoming
/// valid `Require` edges is chosen, and among several with the most, the one
/// that stands first in the list.
pub fn find_core(claims: &[Claim], edges: &[CdgEdge], ends: &Vec<(Option<usize>, Option<usize>)>) -> (core:
    Option<usize>)
    requires
        ends_resolve(claim_ids(claims@), edge_models(edges@), ends@),
    ensures
        match core {
            Some(c) => is_core_at(claim_ids(claims@), edge_models(edges@), c as int),
            None => forall|i: int|
                0 <= i < claims.len() ==> !is_core_candidate(
                    claim_ids(claims@),
                    edge_models(edges@),
                    #[trigger] claim_ids(claims@)[i],
                ),
        },
{
    let ghost ids = claim_ids(claims@);
    let ghost models = edge_models(edges@);
    let flags = require_flags(claims, edges, ends);
    let has_in = flags.0;
    let has_out = flags.1;
    let mut best: Option<usize> = None;
    let mut best_count: usize = 0;
    let mut i: usize = 0;
    while i < claims.len()
        invariant
            i <= claims.len(),
            ids == claim_ids(claims@),
            models == edge_models(edges@),
            ends_resolve(ids, models, ends@),
            flags_mark_requires(ids, models, true, has_in@),
            flags_mark_requires(ids, models, false, has_out@),
            match best {
                Some(b) => {
                    &&& b < i
                    &&& is_core_candidate(ids, models, ids[b as int])
                    &&& best_count == incoming_requires(ids, models, ids[b as int])
                    &&& forall|j: int|
                        0 <= j < i && is_core_candidate(ids, models, #[trigger] ids[j])
                            ==> incoming_requires(ids, models, ids[j]) <= best_count
                    &&& forall|j: int|
                        0 <= j < b && is_core_candidate(ids, models, #[trigger] ids[j])
                            ==> incoming_requires(ids, models, ids[j]) < best_count
                },
                None => forall|j: int|
                    0 <= j < i ==> !is_core_candidate(ids, models, #[trigger] ids[j]),
            },
        decreases claims.len() - i,
    {
        let ghost first = lemma_first_exists(ids, i as int);
        if has_in[i] && !has_out[i] {
            assert(is_first_at(ids, ids[i as int], i as int));
            let count = count_incoming(claims, edges, ends, i);
            match best {
                None => {
                    best = Some(i);
                    best_count = count;
                },
                Some(_) => {
                    if count > best_count {
                        best = Some(i);
                        best_count = count;
                    }
                },
            }
        } else {
            proof {
                if first != i {
                    assert(ids[first] == ids[i as int]);
                    assert(is_core_candidate(ids, models, ids[first]) == is_core_candidate(
                        ids,
                        models,
                        ids[i as int],
                    ));
                }
            }
        }
        i += 1;
    }
    best
}

} // verus!
