//! From ids to positions: the claims of a list are numbered by their place
//! in it, and the ends of each edge are looked up once.
//!
//! An id stands for the first claim that carries it, so that a list in which
//! an id occurs twice still gives one node per id.

use vstd::prelude::*;
use crate::session::Claim;
use crate::cdg::types::{CdgEdge, EdgeModel, EdgeType, claim_ids, edge_models};
use crate::cdg::model::{
    is_chain, is_chain_step, is_first_at, is_followed, is_linked, leads_to, lemma_first_unique,
};
use crate::cdg::graph::{has_link, is_step, is_walk, walks_to};

verus! {

/// `found` is the first position of `id` in `ids`, or nothing where `id` is
/// not among them.
pub open spec fn resolves(ids: Seq<Seq<char>>, id: Seq<char>, found: Option<usize>) -> bool {
    match found {
        Some(i) => is_first_at(ids, id, i as int),
        None => !ids.contains(id),
    }
}

/// `ends` holds, for each edge, the resolved source and the resolved target.
pub open spec fn ends_resolve(
    ids: Seq<Seq<char>>,
    edges: Seq<EdgeModel>,
    ends: Seq<(Option<usize>, Option<usize>)>,
) -> bool {
    &&& ends.len() == edges.len()
    &&& forall|k: int|
        0 <= k < edges.len() ==> resolves(ids, edges[k].source, (#[trigger] ends[k]).0) && resolves(
            ids,
            edges[k].target,
            ends[k].1,
        )
}

/// The link joins the first positions of the two ends of the edge.
pub open spec fn is_link_of(ids: Seq<Seq<char>>, edge: EdgeModel, link: (usize, usize)) -> bool {
    is_first_at(ids, edge.source, link.0 as int) && is_first_at(ids, edge.target, link.1 as int)
}

/// The link is the link of some followed edge.
pub open spec fn link_has_edge(
    ids: Seq<Seq<char>>,
    edges: Seq<EdgeModel>,
    require_only: bool,
    link: (usize, usize),
) -> bool {
    exists|k: int|
        0 <= k < edges.len() && is_followed(ids, #[trigger] edges[k], require_only) && is_link_of(
            ids,
            edges[k],
            link,
        )
}

/// Some entry of `links` is the link of the edge.
pub open spec fn edge_has_link(ids: Seq<Seq<char>>, edge: EdgeModel, links: Seq<(usize, usize)>) -> bool {
    exists|j: int| 0 <= j < links.len() && is_link_of(ids, edge, #[trigger] links[j])
}

/// `links` holds a link of a followed edge in every entry, and a link of
/// every followed edge.
pub open spec fn links_cover(
    ids: Seq<Seq<char>>,
    edges: Seq<EdgeModel>,
    require_only: bool,
    links: Seq<(usize, usize)>,
) -> bool {
    &&& forall|j: int|
        0 <= j < links.len() ==> link_has_edge(ids, edges, require_only, #[trigger] links[j])
    &&& forall|k: int|
        0 <= k < edges.len() && is_followed(ids, #[trigger] edges[k], require_only) ==> edge_has_link(
            ids,
            edges[k],
            links,
        )
}

/// The position of the first claim that carries `id`.
pub fn find_claim(claims: &[Claim], id: &String) -> (found: Option<usize>)
    ensures
        resolves(claim_ids(claims@), id@, found),
{
    let ghost ids = claim_ids(claims@);
    let mut i: usize = 0;
    while i < claims.len()
        invariant
            i <= claims.len(),
            ids == claim_ids(claims@),
            forall|j: int| 0 <= j < i ==> ids[j] != id@,
        decreases claims.len() - i,
    {
        if claims[i].id == *id {
            assert(ids[i as int] == id@);
            return Some(i);
        }
        i += 1;
    }
    None
}

/// `firsts` holds, for each claim, the first position of its id.
pub open spec fn firsts_resolve(ids: Seq<Seq<char>>, firsts: Seq<usize>) -> bool {
    &&& firsts.len() == ids.len()
    &&& forall|i: int| 0 <= i < ids.len() ==> is_first_at(ids, ids[i], (#[trigger] firsts[i]) as int)
}

/// For each claim, the position of the first claim that carries its id.
pub fn first_positions(claims: &[Claim]) -> (firsts: Vec<usize>)
    ensures
        firsts_resolve(claim_ids(claims@), firsts@),
{
    let ghost ids = claim_ids(claims@);
    let mut firsts: Vec<usize> = Vec::new();
    let mut i: usize = 0;
    while i < claims.len()
        invariant
            i <= claims.len(),
            ids == claim_ids(claims@),
            firsts.len() == i,
            forall|j: int| 0 <= j < i ==> is_first_at(ids, ids[j], (#[trigger] firsts[j]) as int),
        decreases claims.len() - i,
    {
        let found = find_claim(claims, &claims[i].id);
        proof {
            assert(ids[i as int] == claims[i as int].id@);
            assert(ids.contains(ids[i as int]));
        }
        firsts.push(found.unwrap());
        i += 1;
    }
    firsts
}

/// Looks up both ends of every edge.
pub fn resolve_ends(claims: &[Claim], edges: &[CdgEdge]) -> (ends: Vec<(Option<usize>, Option<usize>)>)
    ensures
        ends_resolve(claim_ids(claims@), edge_models(edges@), ends@),
{
    let ghost ids = claim_ids(claims@);
    let ghost models = edge_models(edges@);
    let mut ends: Vec<(Option<usize>, Option<usize>)> = Vec::new();
    let mut k: usize = 0;
    while k < edges.len()
        invariant
            k <= edges.len(),
            ids == claim_ids(claims@),
            models == edge_models(edges@),
            ends.len() == k,
            forall|m: int|
                0 <= m < k ==> resolves(ids, models[m].source, (#[trigger] ends[m]).0) && resolves(
                    ids,
                    models[m].target,
                    ends[m].1,
                ),
        decreases edges.len() - k,
    {
        let source = find_claim(claims, &edges[k].source_claim_id);
        let target = find_claim(claims, &edges[k].target_claim_id);
        ends.push((source, target));
        k += 1;
    }
    ends
}

/// Whether a traversal follows the edge, told from its resolved ends.
pub fn follows(edge: &CdgEdge, ends: &(Option<usize>, Option<usize>), require_only: bool) -> (b: bool)
    ensures
        b == (ends.0.is_some() && ends.1.is_some() && (require_only ==> edge.edge_type
            == EdgeType::Require)),
{
    ends.0.is_some() && ends.1.is_some() && (!require_only || edge.edge_type == EdgeType::Require)
}

/// Resolved ends tell whether an edge is followed.
pub proof fn lemma_followed_by_ends(
    ids: Seq<Seq<char>>,
    edge: EdgeModel,
    ends: (Option<usize>, Option<usize>),
    require_only: bool,
)
    requires
        resolves(ids, edge.source, ends.0),
        resolves(ids, edge.target, ends.1),
    ensures
        is_followed(ids, edge, require_only) <==> (ends.0.is_some() && ends.1.is_some() && (require_only
            ==> edge.edge_type == EdgeType::Require)),
{
}

/// The links of the followed edges, in the order of the edges.
pub fn build_links(
    claims: &[Claim],
    edges: &[CdgEdge],
    ends: &Vec<(Option<usize>, Option<usize>)>,
    require_only: bool,
) -> (links: Vec<(usize, usize)>)
    requires
        ends_resolve(claim_ids(claims@), edge_models(edges@), ends@),
    ensures
        links_cover(claim_ids(claims@), edge_models(edges@), require_only, links@),
        forall|j: int|
            0 <= j < links.len() ==> (#[trigger] links[j]).0 < claims.len() && links[j].1 < claims.len(),
{
    let ghost ids = claim_ids(claims@);
    let ghost models = edge_models(edges@);
    let mut links: Vec<(usize, usize)> = Vec::new();
    let mut k: usize = 0;
    while k < edges.len()
        invariant
            k <= edges.len(),
            ids == claim_ids(claims@),
            models == edge_models(edges@),
            ends_resolve(ids, models, ends@),
            forall|j: int|
                0 <= j < links.len() ==> (#[trigger] links[j]).0 < claims.len() && links[j].1
                    < claims.len(),
            forall|j: int|
                0 <= j < links.len() ==> link_has_edge(ids, models, require_only, #[trigger] links[j]),
            forall|m: int|
                0 <= m < k && is_followed(ids, #[trigger] models[m], require_only) ==> edge_has_link(
                    ids,
                    models[m],
                    links@,
                ),
        decreases edges.len() - k,
    {
        let pair = ends[k];
        proof {
            assert(resolves(ids, models[k as int].source, ends[k as int].0));
            lemma_followed_by_ends(ids, models[k as int], pair, require_only);
        }
        if follows(&edges[k], &pair, require_only) {
            let source: usize = pair.0.unwrap();
            let target: usize = pair.1.unwrap();
            let ghost before = links@;
            links.push((source, target));
            proof {
                let last = links.len() - 1;
                assert(is_link_of(ids, models[k as int], links[last]));
                assert(link_has_edge(ids, models, require_only, links[last]));
                assert forall|m: int|
                    0 <= m < k + 1 && is_followed(ids, #[trigger] models[m], require_only) implies edge_has_link(
                    ids,
                    models[m],
                    links@,
                ) by {
                    if m < k {
                        assert(edge_has_link(ids, models[m], before));
                        let j = choose|j: int|
                            0 <= j < before.len() && is_link_of(ids, models[m], #[trigger] before[j]);
                        assert(links[j] == before[j]);
                    } else {
                        assert(is_link_of(ids, models[m], links[last]));
                    }
                }
            }
        }
        k += 1;
    }
    links
}

/// The two ends of a link of a followed edge are positions of claims, and the
/// edge links their ids.
proof fn lemma_link_is_edge(
    ids: Seq<Seq<char>>,
    edges: Seq<EdgeModel>,
    require_only: bool,
    links: Seq<(usize, usize)>,
    from: int,
    to: int,
)
    requires
        links_cover(ids, edges, require_only, links),
        has_link(links, from, to),
    ensures
        0 <= from < ids.len(),
        0 <= to < ids.len(),
        is_linked(ids, edges, require_only, ids[from], ids[to]),
{
    let j = choose|j: int|
        0 <= j < links.len() && (#[trigger] links[j]).0 == from && links[j].1 == to;
    assert(link_has_edge(ids, edges, require_only, links[j]));
    let k = choose|k: int|
        0 <= k < edges.len() && is_followed(ids, #[trigger] edges[k], require_only) && is_link_of(
            ids,
            edges[k],
            links[j],
        );
    assert(edges[k].source == ids[from] && edges[k].target == ids[to]);
}

/// Two linked ids have first positions, and a link joins these.
proof fn lemma_edge_is_link(
    ids: Seq<Seq<char>>,
    edges: Seq<EdgeModel>,
    require_only: bool,
    links: Seq<(usize, usize)>,
    from: Seq<char>,
    to: Seq<char>,
) -> (ends: (int, int))
    requires
        links_cover(ids, edges, require_only, links),
        is_linked(ids, edges, require_only, from, to),
    ensures
        is_first_at(ids, from, ends.0),
        is_first_at(ids, to, ends.1),
        has_link(links, ends.0, ends.1),
{
    let k = choose|k: int|
        0 <= k < edges.len() && is_followed(ids, #[trigger] edges[k], require_only) && edges[k].source
            == from && edges[k].target == to;
    assert(edge_has_link(ids, edges[k], links));
    let j = choose|j: int| 0 <= j < links.len() && is_link_of(ids, edges[k], #[trigger] links[j]);
    (links[j].0 as int, links[j].1 as int)
}

/// A walk along the links is a chain along the edges.
pub proof fn lemma_walk_gives_chain(
    ids: Seq<Seq<char>>,
    edges: Seq<EdgeModel>,
    require_only: bool,
    links: Seq<(usize, usize)>,
    from: int,
    to: int,
)
    requires
        links_cover(ids, edges, require_only, links),
        walks_to(links, from, to),
        0 <= to < ids.len(),
    ensures
        0 <= from < ids.len(),
        leads_to(ids, edges, require_only, ids[from], ids[to]),
{
    let path = choose|path: Seq<int>|
        #[trigger] is_walk(links, path) && path.len() > 0 && path[0] == from && path[path.len() - 1]
            == to;
    assert forall|i: int| 0 <= i < path.len() implies 0 <= #[trigger] path[i] < ids.len() by {
        if i + 1 < path.len() {
            assert(is_step(links, path, i));
            lemma_link_is_edge(ids, edges, require_only, links, path[i], path[i + 1]);
        }
    }
    let names = Seq::new(path.len(), |i: int| ids[path[i]]);
    assert forall|i: int| 0 <= i && i + 1 < names.len() implies #[trigger] is_chain_step(
        ids,
        edges,
        require_only,
        names,
        i,
    ) by {
        assert(is_step(links, path, i));
        lemma_link_is_edge(ids, edges, require_only, links, path[i], path[i + 1]);
    }
    assert(is_chain(ids, edges, require_only, names));
    assert(names[0] == ids[from]);
    assert(names[names.len() - 1] == ids[to]);
}

/// A chain along the edges is a walk along the links, between the first
/// positions of its ends.
pub proof fn lemma_chain_gives_walk(
    ids: Seq<Seq<char>>,
    edges: Seq<EdgeModel>,
    require_only: bool,
    links: Seq<(usize, usize)>,
    from: int,
    to: int,
)
    requires
        links_cover(ids, edges, require_only, links),
        is_first_at(ids, ids[from], from),
        is_first_at(ids, ids[to], to),
        leads_to(ids, edges, require_only, ids[from], ids[to]),
    ensures
        walks_to(links, from, to),
{
    let path = choose|path: Seq<Seq<char>>|
        #[trigger] is_chain(ids, edges, require_only, path) && path.len() > 0 && path[0] == ids[from]
            && path[path.len() - 1] == ids[to];
    let nodes = Seq::new(
        path.len(),
        |i: int|
            if i + 1 < path.len() {
                choose|f: int| is_first_at(ids, path[i], f)
            } else {
                to
            },
    );
    assert forall|i: int| 0 <= i < path.len() implies is_first_at(ids, path[i], #[trigger] nodes[i]) by {
        if i + 1 < path.len() {
            assert(is_chain_step(ids, edges, require_only, path, i));
            let ends = lemma_edge_is_link(ids, edges, require_only, links, path[i], path[i + 1]);
            assert(is_first_at(ids, path[i], ends.0));
        }
    }
    assert forall|i: int| 0 <= i && i + 1 < nodes.len() implies #[trigger] is_step(links, nodes, i) by {
        assert(is_chain_step(ids, edges, require_only, path, i));
        let ends = lemma_edge_is_link(ids, edges, require_only, links, path[i], path[i + 1]);
        assert(is_first_at(ids, path[i], nodes[i]));
        assert(is_first_at(ids, path[i + 1], nodes[i + 1]));
        lemma_first_unique(ids, path[i], nodes[i], ends.0);
        lemma_first_unique(ids, path[i + 1], nodes[i + 1], ends.1);
    }
    assert(is_walk(links, nodes));
    assert(is_first_at(ids, path[0], nodes[0]));
    lemma_first_unique(ids, path[0], nodes[0], from);
    assert(nodes[nodes.len() - 1] == to);
}

} // verus!
