//! Stratification: the structural role of every claim.

use vstd::prelude::*;
use crate::session::Claim;
use crate::cdg::types::{CdgEdge, ClaimStratum, EdgeModel, EdgeType, claim_ids, edge_models};
use crate::cdg::model::{
    core_of, distinct_ids, is_core_at, is_first_at, is_support_of_structure, leads_to,
    lemma_chain_starts_in_claim, lemma_core_of_position, lemma_distinct_ids,
    lemma_distinct_ids_of_distinct, lemma_first_unique, requires_core, strata_of, stratum_of,
    supports_structure,
};
use crate::cdg::graph::reverse_reachable;
use crate::cdg::resolve::{
    build_links, ends_resolve, find_claim, first_positions, firsts_resolve, lemma_chain_gives_walk,
    lemma_walk_gives_chain, resolve_ends, resolves,
};
use crate::cdg::centre::{find_core, lemma_core_is_first, lemma_no_candidate_no_core};
use crate::cdg::table::StratumTable;

verus! {

/// `marks` tells, at the first position of every id, whether a chain of
/// followed edges leads from that claim to the claim at `target`.
pub open spec fn marks_lead_to(
    ids: Seq<Seq<char>>,
    edges: Seq<EdgeModel>,
    require_only: bool,
    target: int,
    marks: Seq<bool>,
) -> bool {
    &&& marks.len() == ids.len()
    &&& forall|v: int|
        0 <= v < ids.len() && is_first_at(ids, ids[v], v) ==> (#[trigger] marks[v] <==> leads_to(
            ids,
            edges,
            require_only,
            ids[v],
            ids[target],
        ))
}

/// Marks the claims from which a chain of followed edges leads to the claim
/// at `target`, that claim included.
pub fn mark_leading_to(
    claims: &[Claim],
    edges: &[CdgEdge],
    ends: &Vec<(Option<usize>, Option<usize>)>,
    require_only: bool,
    target: usize,
) -> (marks: Vec<bool>)
    requires
        ends_resolve(claim_ids(claims@), edge_models(edges@), ends@),
        is_first_at(claim_ids(claims@), claim_ids(claims@)[target as int], target as int),
    ensures
        marks_lead_to(claim_ids(claims@), edge_models(edges@), require_only, target as int, marks@),
{
    let ghost ids = claim_ids(claims@);
    let ghost models = edge_models(edges@);
    let links = build_links(claims, edges, ends, require_only);
    let marks = reverse_reachable(claims.len(), &links, target);
    proof {
        assert forall|v: int| 0 <= v < ids.len() && is_first_at(ids, ids[v], v) implies (#[trigger] marks[v]
            <==> leads_to(ids, models, require_only, ids[v], ids[target as int])) by {
            if marks[v] {
                lemma_walk_gives_chain(ids, models, require_only, links@, v, target as int);
            }
            if leads_to(ids, models, require_only, ids[v], ids[target as int]) {
                lemma_chain_gives_walk(ids, models, require_only, links@, v, target as int);
            }
        }
    }
    marks
}

/// Some edge before position `bound` is a `Support` edge from the claim `id`
/// to a claim that requires the core claim.
spec fn supports_structure_before(
    ids: Seq<Seq<char>>,
    edges: Seq<EdgeModel>,
    core: Seq<char>,
    id: Seq<char>,
    bound: int,
) -> bool {
    exists|k: int|
        0 <= k < bound && k < edges.len() && is_support_of_structure(ids, edges, core, id, #[trigger] edges[k])
}

/// `flags` marks the first position of every claim that supports, by an edge
/// before position `bound`, a claim that requires the core claim.
spec fn flags_mark_support(
    ids: Seq<Seq<char>>,
    edges: Seq<EdgeModel>,
    core: int,
    bound: int,
    flags: Seq<bool>,
) -> bool {
    &&& flags.len() == ids.len()
    &&& forall|v: int|
        0 <= v < ids.len() ==> (#[trigger] flags[v] <==> is_first_at(ids, ids[v], v)
            && supports_structure_before(ids, edges, ids[core], ids[v], bound))
}

/// Taking one edge more into account keeps the support flags right, where
/// the flag of its source is set if it supports the structure.
proof fn lemma_support_step(
    ids: Seq<Seq<char>>,
    edges: Seq<EdgeModel>,
    core: int,
    k: int,
    before: Seq<bool>,
    after: Seq<bool>,
    hit: Option<int>,
)
    requires
        0 <= k < edges.len(),
        0 <= core < ids.len(),
        flags_mark_support(ids, edges, core, k, before),
        match hit {
            Some(p) => is_first_at(ids, edges[k].source, p) && is_support_of_structure(
                ids,
                edges,
                ids[core],
                edges[k].source,
                edges[k],
            ) && after == before.update(p, true),
            None => !is_support_of_structure(ids, edges, ids[core], edges[k].source, edges[k]) && after
                == before,
        },
    ensures
        flags_mark_support(ids, edges, core, k + 1, after),
{
    assert forall|v: int| 0 <= v < ids.len() implies (#[trigger] after[v] <==> is_first_at(
        ids,
        ids[v],
        v,
    ) && supports_structure_before(ids, edges, ids[core], ids[v], k + 1)) by {
        let id = ids[v];
        assert(before[v] <==> is_first_at(ids, id, v) && supports_structure_before(
            ids,
            edges,
            ids[core],
            id,
            k,
        ));
        if supports_structure_before(ids, edges, ids[core], id, k) {
            let m = choose|m: int|
                0 <= m < k && m < edges.len() && is_support_of_structure(
                    ids,
                    edges,
                    ids[core],
                    id,
                    #[trigger] edges[m],
                );
            assert(supports_structure_before(ids, edges, ids[core], id, k + 1));
        }
        if supports_structure_before(ids, edges, ids[core], id, k + 1) {
            let m = choose|m: int|
                0 <= m < k + 1 && m < edges.len() && is_support_of_structure(
                    ids,
                    edges,
                    ids[core],
                    id,
                    #[trigger] edges[m],
                );
            if m < k {
                assert(supports_structure_before(ids, edges, ids[core], id, k));
            } else {
                assert(edges[k].source == id);
            }
        }
        if is_support_of_structure(ids, edges, ids[core], id, edges[k]) {
            assert(supports_structure_before(ids, edges, ids[core], id, k + 1));
        }
        match hit {
            Some(p) => {
                if is_first_at(ids, id, v) && edges[k].source == id {
                    lemma_first_unique(ids, id, v, p);
                }
            },
            None => {},
        }
    }
}

/// Marks the claims that support a claim that requires the core claim.
fn mark_supporting(
    claims: &[Claim],
    edges: &[CdgEdge],
    ends: &Vec<(Option<usize>, Option<usize>)>,
    core: usize,
    marks: &Vec<bool>,
) -> (flags: Vec<bool>)
    requires
        ends_resolve(claim_ids(claims@), edge_models(edges@), ends@),
        is_first_at(claim_ids(claims@), claim_ids(claims@)[core as int], core as int),
        marks_lead_to(claim_ids(claims@), edge_models(edges@), true, core as int, marks@),
    ensures
        flags_mark_support(
            claim_ids(claims@),
            edge_models(edges@),
            core as int,
            edges.len() as int,
            flags@,
        ),
{
    let ghost ids = claim_ids(claims@);
    let ghost models = edge_models(edges@);
    let n = claims.len();
    let mut flags: Vec<bool> = Vec::new();
    let mut i: usize = 0;
    while i < n
        invariant
            i <= n,
            flags.len() == i,
            forall|v: int| 0 <= v < i ==> !flags[v],
        decreases n - i,
    {
        flags.push(false);
        i += 1;
    }
    let mut k: usize = 0;
    while k < edges.len()
        invariant
            k <= edges.len(),
            n == claims.len(),
            core < n,
            ids == claim_ids(claims@),
            models == edge_models(edges@),
            ends_resolve(ids, models, ends@),
            is_first_at(ids, ids[core as int], core as int),
            marks_lead_to(ids, models, true, core as int, marks@),
            flags_mark_support(ids, models, core as int, k as int, flags@),
        decreases edges.len() - k,
    {
        let pair = ends[k];
        let ghost before = flags@;
        let ghost edge = models[k as int];
        let mut hit: bool = false;
        proof {
            assert(resolves(ids, edge.source, ends[k as int].0));
            assert(resolves(ids, edge.target, ends[k as int].1));
        }
        if edges[k].edge_type == EdgeType::Support {
            if let (Some(source), Some(target)) = pair {
                if target != core && marks[target] {
                    hit = true;
                    flags.set(source, true);
                    proof {
                        assert(ids.contains(edge.source));
                        assert(requires_core(ids, models, ids[core as int], edge.target));
                        lemma_support_step(
                            ids,
                            models,
                            core as int,
                            k as int,
                            before,
                            flags@,
                            Some(source as int),
                        );
                    }
                }
            }
        }
        proof {
            if !hit {
                if is_support_of_structure(ids, models, ids[core as int], edge.source, edge) {
                    lemma_chain_starts_in_claim(ids, models, true, edge.target, ids[core as int]);
                    let target = pair.1.unwrap();
                    if target == core {
                        assert(edge.target == ids[core as int]);
                    }
                    assert(marks[target as int]);
                }
                lemma_support_step(ids, models, core as int, k as int, before, flags@, None);
            }
        }
        k += 1;
    }
    flags
}

/// What stratification finds: the position of the core claim, where there
/// is one, and the stratum of every claim, in the order of the claims.
pub struct Stratification {
    pub core: Option<usize>,
    pub strata: Vec<ClaimStratum>,
}

impl Stratification {
    /// The stratification is that of the claims with the ids `ids` under the
    /// edges `edges`.
    pub open spec fn is_of(&self, ids: Seq<Seq<char>>, edges: Seq<EdgeModel>) -> bool {
        &&& match self.core {
            Some(c) => is_core_at(ids, edges, c as int) && core_of(ids, edges) == Some(ids[c as int]),
            None => core_of(ids, edges) is None,
        }
        &&& self.strata.len() == ids.len()
        &&& forall|i: int|
            0 <= i < ids.len() ==> #[trigger] self.strata[i] == stratum_of(ids, edges, ids[i])
    }
}

/// Stratifies the claims, given the resolved ends of the edges and the first
/// position of every claim's id.
pub fn stratify(
    claims: &[Claim],
    edges: &[CdgEdge],
    ends: &Vec<(Option<usize>, Option<usize>)>,
    firsts: &Vec<usize>,
) -> (found: Stratification)
    requires
        ends_resolve(claim_ids(claims@), edge_models(edges@), ends@),
        firsts_resolve(claim_ids(claims@), firsts@),
    ensures
        found.is_of(claim_ids(claims@), edge_models(edges@)),
{
    let ghost ids = claim_ids(claims@);
    let ghost models = edge_models(edges@);
    let core = find_core(claims, edges, ends);
    let mut strata: Vec<ClaimStratum> = Vec::new();
    match core {
        None => {
            proof {
                lemma_no_candidate_no_core(ids, models);
            }
            let mut i: usize = 0;
            while i < claims.len()
                invariant
                    i <= claims.len(),
                    strata.len() == i,
                    forall|j: int| 0 <= j < i ==> #[trigger] strata[j] == ClaimStratum::Peripheral,
                decreases claims.len() - i,
            {
                strata.push(ClaimStratum::Peripheral);
                i += 1;
            }
        },
        Some(c) => {
            proof {
                lemma_core_is_first(ids, models, c as int);
                lemma_core_of_position(ids, models, c as int);
            }
            let marks = mark_leading_to(claims, edges, ends, true, c);
            let flags = mark_supporting(claims, edges, ends, c, &marks);
            let mut i: usize = 0;
            while i < claims.len()
                invariant
                    i <= claims.len(),
                    c < claims.len(),
                    strata.len() == i,
                    ids == claim_ids(claims@),
                    models == edge_models(edges@),
                    firsts_resolve(ids, firsts@),
                    is_first_at(ids, ids[c as int], c as int),
                    core_of(ids, models) == Some(ids[c as int]),
                    marks_lead_to(ids, models, true, c as int, marks@),
                    flags_mark_support(ids, models, c as int, edges.len() as int, flags@),
                    forall|j: int| 0 <= j < i ==> #[trigger] strata[j] == stratum_of(ids, models, ids[j]),
                decreases claims.len() - i,
            {
                let first: usize = firsts[i];
                let ghost id = ids[i as int];
                let stratum = if first == c {
                    ClaimStratum::Core
                } else if marks[first] {
                    ClaimStratum::Structure
                } else if flags[first] {
                    ClaimStratum::Evidential
                } else {
                    ClaimStratum::Peripheral
                };
                proof {
                    assert(is_first_at(ids, id, first as int));
                    assert(ids[first as int] == id);
                    if id == ids[c as int] {
                        lemma_first_unique(ids, id, first as int, c as int);
                    }
                    assert(marks[first as int] <==> leads_to(ids, models, true, id, ids[c as int]));
                    assert(flags[first as int] <==> supports_structure_before(
                        ids,
                        models,
                        ids[c as int],
                        id,
                        edges.len() as int,
                    ));
                    assert(supports_structure_before(ids, models, ids[c as int], id, edges.len() as int)
                        <==> supports_structure(ids, models, ids[c as int], id)) by {
                        if supports_structure(ids, models, ids[c as int], id) {
                            let m = choose|m: int|
                                0 <= m < models.len() && is_support_of_structure(
                                    ids,
                                    models,
                                    ids[c as int],
                                    id,
                                    #[trigger] models[m],
                                );
                            assert(supports_structure_before(
                                ids,
                                models,
                                ids[c as int],
                                id,
                                edges.len() as int,
                            ));
                        }
                    }
                    assert(stratum == stratum_of(ids, models, id));
                }
                strata.push(stratum);
                i += 1;
            }
        },
    }
    Stratification { core, strata }
}

/// The stratum of every claim, in the order of the claims.
pub fn claim_strata(claims: &[Claim], edges: &[CdgEdge]) -> (strata: Vec<ClaimStratum>)
    ensures
        strata.len() == claims.len(),
        forall|i: int|
            0 <= i < claims.len() ==> #[trigger] strata[i] == stratum_of(
                claim_ids(claims@),
                edge_models(edges@),
                claim_ids(claims@)[i],
            ),
{
    let ends = resolve_ends(claims, edges);
    let firsts = first_positions(claims);
    let found = stratify(claims, edges, &ends, &firsts);
    found.strata
}

/// The strata of the claims before position `bound`, by id.
spec fn strata_before(ids: Seq<Seq<char>>, edges: Seq<EdgeModel>, bound: int) -> Map<
    Seq<char>,
    ClaimStratum,
> {
    Map::new(
        |id: Seq<char>| ids.take(bound).contains(id),
        |id: Seq<char>| stratum_of(ids, edges, id),
    )
}

/// Assigns every claim its stratum.
///
/// The table holds one entry for each id among the claims, in the order in
/// which the ids first occur, and each entry holds the stratum of its id.
pub fn compute_strata(claims: &[Claim], edges: &[CdgEdge]) -> (table: StratumTable)
    ensures
        table@ == strata_of(claim_ids(claims@), edge_models(edges@)),
        table.ids() == distinct_ids(claim_ids(claims@)),
        claim_ids(claims@).no_duplicates() ==> table.ids() == claim_ids(claims@),
        table.ids().no_duplicates(),
        table.strata().len() == table.ids().len(),
        table.ids().len() <= claims.len(),
        forall|p: int|
            0 <= p < table.ids().len() ==> table.strata()[p] == stratum_of(
                claim_ids(claims@),
                edge_models(edges@),
                #[trigger] table.ids()[p],
            ),
{
    let ghost ids = claim_ids(claims@);
    let ghost models = edge_models(edges@);
    let strata = claim_strata(claims, edges);
    let mut table = StratumTable::new();
    let mut i: usize = 0;
    proof {
        assert(table@ =~= strata_before(ids, models, 0));
        assert(ids.take(0) =~= Seq::<Seq<char>>::empty());
    }
    while i < claims.len()
        invariant
            i <= claims.len(),
            ids == claim_ids(claims@),
            models == edge_models(edges@),
            strata.len() == claims.len(),
            forall|j: int|
                0 <= j < claims.len() ==> #[trigger] strata[j] == stratum_of(ids, models, ids[j]),
            table@ == strata_before(ids, models, i as int),
            table.ids() == distinct_ids(ids.take(i as int)),
            table.ids().no_duplicates(),
            table.strata().len() == table.ids().len(),
            forall|p: int|
                0 <= p < table.ids().len() ==> table.strata()[p] == stratum_of(
                    ids,
                    models,
                    #[trigger] table.ids()[p],
                ),
        decreases claims.len() - i,
    {
        let found = find_claim(claims, &claims[i].id);
        let ghost id = ids[i as int];
        let ghost before = table;
        proof {
            assert(id == claims[i as int].id@);
            assert(ids.contains(id));
            assert(ids.take(i + 1).drop_last() =~= ids.take(i as int));
            assert(ids.take(i + 1).last() == id);
            assert forall|other: Seq<char>| ids.take(i + 1).contains(other) <==> (other == id
                || ids.take(i as int).contains(other)) by {
                let shorter = ids.take(i as int);
                let longer = ids.take(i + 1);
                if shorter.contains(other) {
                    let p = choose|p: int| 0 <= p < shorter.len() && shorter[p] == other;
                    assert(longer[p] == other);
                }
                if other == id {
                    assert(longer[i as int] == other);
                }
                if longer.contains(other) {
                    let p = choose|p: int| 0 <= p < longer.len() && longer[p] == other;
                    if p < i {
                        assert(shorter[p] == other);
                    }
                }
            }
            lemma_distinct_ids(ids.take(i as int));
        }
        if found == Some(i) {
            proof {
                assert(!ids.take(i as int).contains(id));
                assert(!before@.contains_key(id));
                assert(!before.ids().contains(id));
            }
            table = table.with_entry(claims[i].id.clone(), strata[i]);
            proof {
                assert(table@ =~= strata_before(ids, models, i + 1));
                assert forall|p: int| 0 <= p < table.ids().len() implies table.strata()[p] == stratum_of(
                    ids,
                    models,
                    #[trigger] table.ids()[p],
                ) by {
                    if p < before.ids().len() {
                        assert(table.ids()[p] == before.ids()[p]);
                        assert(table.strata()[p] == before.strata()[p]);
                    }
                }
            }
        } else {
            proof {
                let first = found.unwrap() as int;
                assert(first < i);
                assert(ids.take(i as int)[first] == id);
                assert(table@ =~= strata_before(ids, models, i + 1));
            }
        }
        i += 1;
    }
    proof {
        assert(ids.take(claims.len() as int) =~= ids);
        assert(table@ =~= strata_of(ids, models));
        lemma_distinct_ids(ids);
        if ids.no_duplicates() {
            lemma_distinct_ids_of_distinct(ids);
        }
    }
    table
}

} // verus!
