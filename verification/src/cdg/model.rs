//! The mathematical model of a claim dependency graph.
//!
//! The functions here speak of the ids of the claims, in the order of the
//! claim list, and of the models of the edges. A claim is known by its id: an
//! id "is a claim" where some claim of the list carries it.

use vstd::prelude::*;
use crate::cdg::types::{ClaimStratum, EdgeModel, EdgeType};

verus! {

/// Both ends of the edge are claims. Only such an edge counts in
/// stratification and in the metrics.
pub open spec fn is_valid_edge(ids: Seq<Seq<char>>, edge: EdgeModel) -> bool {
    ids.contains(edge.source) && ids.contains(edge.target)
}

/// The edge is one that a traversal follows: a valid edge, and a `Require`
/// edge where only those are followed.
pub open spec fn is_followed(ids: Seq<Seq<char>>, edge: EdgeModel, require_only: bool) -> bool {
    is_valid_edge(ids, edge) && (require_only ==> edge.edge_type == EdgeType::Require)
}

/// A followed edge leads from `from` to `to`.
pub open spec fn is_linked(
    ids: Seq<Seq<char>>,
    edges: Seq<EdgeModel>,
    require_only: bool,
    from: Seq<char>,
    to: Seq<char>,
) -> bool {
    exists|k: int|
        0 <= k < edges.len() && is_followed(ids, #[trigger] edges[k], require_only)
            && edges[k].source == from && edges[k].target == to
}

/// The id at position `i` of `path` is linked to the id after it.
pub open spec fn is_chain_step(
    ids: Seq<Seq<char>>,
    edges: Seq<EdgeModel>,
    require_only: bool,
    path: Seq<Seq<char>>,
    i: int,
) -> bool {
    is_linked(ids, edges, require_only, path[i], path[i + 1])
}

/// Each id of `path` is linked to the id after it.
pub open spec fn is_chain(
    ids: Seq<Seq<char>>,
    edges: Seq<EdgeModel>,
    require_only: bool,
    path: Seq<Seq<char>>,
) -> bool {
    forall|i: int|
        0 <= i && i + 1 < path.len() ==> #[trigger] is_chain_step(ids, edges, require_only, path, i)
}

/// A chain of followed edges leads from `from` to `to`. The chain of one id
/// leads from an id to itself.
pub open spec fn leads_to(
    ids: Seq<Seq<char>>,
    edges: Seq<EdgeModel>,
    require_only: bool,
    from: Seq<char>,
    to: Seq<char>,
) -> bool {
    exists|path: Seq<Seq<char>>|
        #[trigger] is_chain(ids, edges, require_only, path) && path.len() > 0 && path[0] == from
            && path[path.len() - 1] == to
}

/// The position `i` is the first one in `ids` that holds `id`.
pub open spec fn is_first_at(ids: Seq<Seq<char>>, id: Seq<char>, i: int) -> bool {
    &&& 0 <= i < ids.len()
    &&& ids[i] == id
    &&& forall|j: int| 0 <= j < i ==> ids[j] != id
}

/// An id has at most one first position.
pub proof fn lemma_first_unique(ids: Seq<Seq<char>>, id: Seq<char>, i: int, j: int)
    requires
        is_first_at(ids, id, i),
        is_first_at(ids, id, j),
    ensures
        i == j,
{
}

/// The id at any position has a first position, at or before it.
pub proof fn lemma_first_exists(ids: Seq<Seq<char>>, i: int) -> (f: int)
    requires
        0 <= i < ids.len(),
    ensures
        is_first_at(ids, ids[i], f),
        f <= i,
    decreases i,
{
    if exists|j: int| 0 <= j < i && ids[j] == ids[i] {
        let j = choose|j: int| 0 <= j < i && ids[j] == ids[i];
        lemma_first_exists(ids, j)
    } else {
        i
    }
}

/// The ids of a list, each once, in the order in which they first occur.
pub open spec fn distinct_ids(ids: Seq<Seq<char>>) -> Seq<Seq<char>>
    decreases ids.len(),
{
    if ids.len() == 0 {
        Seq::empty()
    } else if ids.drop_last().contains(ids.last()) {
        distinct_ids(ids.drop_last())
    } else {
        distinct_ids(ids.drop_last()).push(ids.last())
    }
}

/// The distinct ids of a list are its ids, and no more of them than the list
/// is long.
pub proof fn lemma_distinct_ids(ids: Seq<Seq<char>>)
    ensures
        distinct_ids(ids).no_duplicates(),
        distinct_ids(ids).len() <= ids.len(),
        forall|id: Seq<char>| distinct_ids(ids).contains(id) <==> ids.contains(id),
    decreases ids.len(),
{
    if ids.len() > 0 {
        let shorter = ids.drop_last();
        let last = ids.last();
        lemma_distinct_ids(shorter);
        let found = distinct_ids(ids);
        assert forall|id: Seq<char>| found.contains(id) <==> ids.contains(id) by {
            if ids.contains(id) {
                let p = choose|p: int| 0 <= p < ids.len() && ids[p] == id;
                if p < ids.len() - 1 {
                    assert(shorter[p] == id);
                    assert(shorter.contains(id));
                    assert(distinct_ids(shorter).contains(id));
                    let q = choose|q: int|
                        0 <= q < distinct_ids(shorter).len() && distinct_ids(shorter)[q] == id;
                    assert(found[q] == id);
                } else if shorter.contains(last) {
                    assert(distinct_ids(shorter).contains(id));
                } else {
                    assert(found[found.len() - 1] == id);
                }
            }
            if found.contains(id) {
                let q = choose|q: int| 0 <= q < found.len() && found[q] == id;
                if q < distinct_ids(shorter).len() {
                    assert(distinct_ids(shorter)[q] == id);
                    assert(distinct_ids(shorter).contains(id));
                    assert(shorter.contains(id));
                    let p = choose|p: int| 0 <= p < shorter.len() && shorter[p] == id;
                    assert(ids[p] == id);
                } else {
                    assert(ids[ids.len() - 1] == id);
                }
            }
        }
        if !shorter.contains(last) {
            assert forall|i: int, j: int| 0 <= i < found.len() && 0 <= j < found.len() && i != j implies found[i]
                != found[j] by {
                let m = found.len() - 1;
                if i == m {
                    assert(distinct_ids(shorter)[j] == found[j]);
                    assert(distinct_ids(shorter).contains(found[j]));
                } else if j == m {
                    assert(distinct_ids(shorter)[i] == found[i]);
                    assert(distinct_ids(shorter).contains(found[i]));
                } else {
                    assert(distinct_ids(shorter)[i] == found[i]);
                    assert(distinct_ids(shorter)[j] == found[j]);
                }
            }
        }
    }
}

/// Where no id stands twice in a list, its distinct ids are the list.
pub proof fn lemma_distinct_ids_of_distinct(ids: Seq<Seq<char>>)
    requires
        ids.no_duplicates(),
    ensures
        distinct_ids(ids) == ids,
    decreases ids.len(),
{
    if ids.len() > 0 {
        let shorter = ids.drop_last();
        lemma_distinct_ids_of_distinct(shorter);
        if shorter.contains(ids.last()) {
            let p = choose|p: int| 0 <= p < shorter.len() && shorter[p] == ids.last();
            assert(ids[p] == ids[ids.len() - 1]);
        }
        assert(shorter.push(ids.last()) =~= ids);
    } else {
        assert(ids =~= Seq::empty());
    }
}

/// A valid `Require` edge ends in `id`.
pub open spec fn has_incoming_require(ids: Seq<Seq<char>>, edges: Seq<EdgeModel>, id: Seq<char>) -> bool {
    exists|k: int|
        0 <= k < edges.len() && is_followed(ids, #[trigger] edges[k], true) && edges[k].target == id
}

/// A valid `Require` edge starts in `id`.
pub open spec fn has_outgoing_require(ids: Seq<Seq<char>>, edges: Seq<EdgeModel>, id: Seq<char>) -> bool {
    exists|k: int|
        0 <= k < edges.len() && is_followed(ids, #[trigger] edges[k], true) && edges[k].source == id
}

/// A claim that others require and that requires nothing itself.
pub open spec fn is_core_candidate(ids: Seq<Seq<char>>, edges: Seq<EdgeModel>, id: Seq<char>) -> bool {
    has_incoming_require(ids, edges, id) && !has_outgoing_require(ids, edges, id)
}

/// The edge is a valid `Require` edge that ends in `id`.
pub open spec fn is_require_into(ids: Seq<Seq<char>>, id: Seq<char>, edge: EdgeModel) -> bool {
    is_followed(ids, edge, true) && edge.target == id
}

/// How many valid `Require` edges end in `id`. An edge that occurs twice
/// counts twice.
pub open spec fn incoming_requires(ids: Seq<Seq<char>>, edges: Seq<EdgeModel>, id: Seq<char>) -> nat {
    edges.filter(|edge: EdgeModel| is_require_into(ids, id, edge)).len()
}

/// The claim at position `i` is the core claim: a core candidate that no
/// other candidate exceeds in incoming `Require` edges, and the first claim
/// of the list among the candidates with that many.
pub open spec fn is_core_at(ids: Seq<Seq<char>>, edges: Seq<EdgeModel>, i: int) -> bool {
    &&& 0 <= i < ids.len()
    &&& is_core_candidate(ids, edges, ids[i])
    &&& forall|j: int|
        0 <= j < ids.len() && is_core_candidate(ids, edges, #[trigger] ids[j]) ==> incoming_requires(
            ids,
            edges,
            ids[j],
        ) <= incoming_requires(ids, edges, ids[i])
    &&& forall|j: int|
        0 <= j < i && is_core_candidate(ids, edges, #[trigger] ids[j]) ==> incoming_requires(
            ids,
            edges,
            ids[j],
        ) < incoming_requires(ids, edges, ids[i])
}

/// At most one position holds the core claim.
pub proof fn lemma_core_unique(ids: Seq<Seq<char>>, edges: Seq<EdgeModel>, i: int, j: int)
    requires
        is_core_at(ids, edges, i),
        is_core_at(ids, edges, j),
    ensures
        i == j,
{
    if i < j {
        assert(is_core_candidate(ids, edges, ids[i]));
    } else if j < i {
        assert(is_core_candidate(ids, edges, ids[j]));
    }
}

/// The id of the core claim, where there is one.
pub open spec fn core_of(ids: Seq<Seq<char>>, edges: Seq<EdgeModel>) -> Option<Seq<char>> {
    if exists|i: int| is_core_at(ids, edges, i) {
        Some(ids[choose|i: int| is_core_at(ids, edges, i)])
    } else {
        None
    }
}

/// The claim at the core position is the core claim.
pub proof fn lemma_core_of_position(ids: Seq<Seq<char>>, edges: Seq<EdgeModel>, i: int)
    requires
        is_core_at(ids, edges, i),
    ensures
        core_of(ids, edges) == Some(ids[i]),
{
    let c = choose|c: int| is_core_at(ids, edges, c);
    lemma_core_unique(ids, edges, i, c);
}

/// The claim `id` is not the core claim, and a chain of valid `Require` edges
/// leads from it to the core claim.
pub open spec fn requires_core(
    ids: Seq<Seq<char>>,
    edges: Seq<EdgeModel>,
    core: Seq<char>,
    id: Seq<char>,
) -> bool {
    id != core && leads_to(ids, edges, true, id, core)
}

/// The edge is a `Support` edge from the claim `id` to a claim that requires
/// the core claim.
pub open spec fn is_support_of_structure(
    ids: Seq<Seq<char>>,
    edges: Seq<EdgeModel>,
    core: Seq<char>,
    id: Seq<char>,
    edge: EdgeModel,
) -> bool {
    &&& edge.edge_type == EdgeType::Support
    &&& edge.source == id
    &&& ids.contains(id)
    &&& requires_core(ids, edges, core, edge.target)
}

/// The claim `id` has a `Support` edge to a claim that requires the core
/// claim.
pub open spec fn supports_structure(
    ids: Seq<Seq<char>>,
    edges: Seq<EdgeModel>,
    core: Seq<char>,
    id: Seq<char>,
) -> bool {
    exists|k: int|
        0 <= k < edges.len() && is_support_of_structure(ids, edges, core, id, #[trigger] edges[k])
}

/// A chain that leads from one id to another starts in a claim.
pub proof fn lemma_chain_starts_in_claim(
    ids: Seq<Seq<char>>,
    edges: Seq<EdgeModel>,
    require_only: bool,
    from: Seq<char>,
    to: Seq<char>,
)
    requires
        leads_to(ids, edges, require_only, from, to),
        from != to,
    ensures
        ids.contains(from),
{
    let path = choose|path: Seq<Seq<char>>|
        #[trigger] is_chain(ids, edges, require_only, path) && path.len() > 0 && path[0] == from
            && path[path.len() - 1] == to;
    assert(path.len() > 1);
    assert(is_chain_step(ids, edges, require_only, path, 0));
}

/// The stratum of the claim `id`.
///
/// The core claim is `Core`. A claim that requires it, directly or through
/// other claims, is `Structure`. A claim that is neither, and supports a
/// `Structure` claim, is `Evidential`. Every other claim is `Peripheral`, and
/// so is every claim where there is no core claim.
pub open spec fn stratum_of(ids: Seq<Seq<char>>, edges: Seq<EdgeModel>, id: Seq<char>) -> ClaimStratum {
    match core_of(ids, edges) {
        None => ClaimStratum::Peripheral,
        Some(core) => if id == core {
            ClaimStratum::Core
        } else if requires_core(ids, edges, core, id) {
            ClaimStratum::Structure
        } else if supports_structure(ids, edges, core, id) {
            ClaimStratum::Evidential
        } else {
            ClaimStratum::Peripheral
        },
    }
}

/// The stratum of every claim, by id.
pub open spec fn strata_of(ids: Seq<Seq<char>>, edges: Seq<EdgeModel>) -> Map<Seq<char>, ClaimStratum> {
    Map::new(|id: Seq<char>| ids.contains(id), |id: Seq<char>| stratum_of(ids, edges, id))
}

} // verus!
