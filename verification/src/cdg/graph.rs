//! Reverse reachability in a directed graph whose nodes are indices.
//!
//! A graph is a list of links `(from, to)`. A walk is a list of nodes in
//! which each node has a link to the next one.

use vstd::prelude::*;

verus! {

/// Some link leads from `from` to `to`.
pub open spec fn has_link(links: Seq<(usize, usize)>, from: int, to: int) -> bool {
    exists|k: int| 0 <= k < links.len() && (#[trigger] links[k]).0 == from && links[k].1 == to
}

/// The node at position `i` of `path` has a link to the node after it.
pub open spec fn is_step(links: Seq<(usize, usize)>, path: Seq<int>, i: int) -> bool {
    has_link(links, path[i], path[i + 1])
}

/// Each node of `path` has a link to the node after it.
pub open spec fn is_walk(links: Seq<(usize, usize)>, path: Seq<int>) -> bool {
    forall|i: int| 0 <= i && i + 1 < path.len() ==> #[trigger] is_step(links, path, i)
}

/// A walk leads from `from` to `to`. The walk of one node leads from a node
/// to itself.
pub open spec fn walks_to(links: Seq<(usize, usize)>, from: int, to: int) -> bool {
    exists|path: Seq<int>|
        #[trigger] is_walk(links, path) && path.len() > 0 && path[0] == from && path[path.len()
            - 1] == to
}

/// How many entries of `s` are `true`.
pub open spec fn count_true(s: Seq<bool>) -> nat
    decreases s.len(),
{
    if s.len() == 0 {
        0
    } else {
        count_true(s.drop_last()) + if s.last() {
            1nat
        } else {
            0nat
        }
    }
}

/// No more entries are `true` than there are entries.
pub proof fn lemma_count_true_bound(s: Seq<bool>)
    ensures
        count_true(s) <= s.len(),
    decreases s.len(),
{
    if s.len() > 0 {
        lemma_count_true_bound(s.drop_last());
    }
}

/// Setting a `false` entry to `true` raises the count by one.
pub proof fn lemma_count_true_set(s: Seq<bool>, i: int)
    requires
        0 <= i < s.len(),
        !s[i],
    ensures
        count_true(s.update(i, true)) == count_true(s) + 1,
    decreases s.len(),
{
    let t = s.update(i, true);
    if i == s.len() - 1 {
        assert(t.drop_last() =~= s.drop_last());
    } else {
        lemma_count_true_set(s.drop_last(), i);
        assert(t.drop_last() =~= s.drop_last().update(i, true));
    }
}

/// A sequence without a `true` entry counts zero.
pub proof fn lemma_count_true_none(s: Seq<bool>)
    requires
        forall|i: int| 0 <= i < s.len() ==> !s[i],
    ensures
        count_true(s) == 0,
    decreases s.len(),
{
    if s.len() > 0 {
        lemma_count_true_none(s.drop_last());
    }
}

/// A walk that ends in `to` can be entered one link earlier.
pub proof fn lemma_walk_extend(links: Seq<(usize, usize)>, from: int, mid: int, to: int)
    requires
        has_link(links, from, mid),
        walks_to(links, mid, to),
    ensures
        walks_to(links, from, to),
{
    let path = choose|path: Seq<int>|
        #[trigger] is_walk(links, path) && path.len() > 0 && path[0] == mid && path[path.len() - 1]
            == to;
    let longer = seq![from] + path;
    assert forall|i: int| 0 <= i && i + 1 < longer.len() implies #[trigger] is_step(
        links,
        longer,
        i,
    ) by {
        if i > 0 {
            assert(is_step(links, path, i - 1));
            assert(longer[i] == path[i - 1]);
            assert(longer[i + 1] == path[i - 1 + 1]);
        }
    }
    assert(is_walk(links, longer));
    assert(longer[longer.len() - 1] == to);
}

/// Every node walks to itself.
pub proof fn lemma_walk_trivial(links: Seq<(usize, usize)>, node: int)
    ensures
        walks_to(links, node, node),
{
    let path = seq![node];
    assert(is_walk(links, path));
    assert(path[0] == node && path[path.len() - 1] == node);
}

/// Where a set of marked nodes holds the end of a walk and, with the target
/// of a link, always its source, it holds the start of the walk.
pub proof fn lemma_closed_marks_hold_walk(
    links: Seq<(usize, usize)>,
    marks: Seq<bool>,
    path: Seq<int>,
)
    requires
        is_walk(links, path),
        path.len() > 0,
        0 <= path[path.len() - 1] < marks.len(),
        marks[path[path.len() - 1]],
        forall|k: int| 0 <= k < links.len() ==> (#[trigger] links[k]).0 < marks.len(),
        forall|k: int|
            0 <= k < links.len() && (#[trigger] links[k]).1 < marks.len() && marks[links[k].1 as int]
                ==> marks[links[k].0 as int],
    ensures
        0 <= path[0] < marks.len(),
        marks[path[0]],
    decreases path.len(),
{
    if path.len() > 1 {
        let rest = path.subrange(1, path.len() as int);
        assert forall|i: int| 0 <= i && i + 1 < rest.len() implies #[trigger] is_step(
            links,
            rest,
            i,
        ) by {
            assert(is_step(links, path, i + 1));
            assert(rest[i] == path[i + 1]);
            assert(rest[i + 1] == path[i + 1 + 1]);
        }
        lemma_closed_marks_hold_walk(links, marks, rest);
        assert(rest[0] == path[1]);
        assert(is_step(links, path, 0));
    }
}

/// Marks every node from which a walk leads to `start`, `start` included, by
/// a breadth-first traversal against the direction of the links.
pub fn reverse_reachable(n: usize, links: &Vec<(usize, usize)>, start: usize) -> (marks: Vec<bool>)
    requires
        start < n,
        forall|k: int| 0 <= k < links.len() ==> (#[trigger] links[k]).0 < n && links[k].1 < n,
    ensures
        marks.len() == n,
        forall|v: int| 0 <= v < n ==> (#[trigger] marks[v] <==> walks_to(links@, v, start as int)),
{
    let mut marks: Vec<bool> = Vec::new();
    let mut i: usize = 0;
    while i < n
        invariant
            i <= n,
            marks.len() == i,
            forall|v: int| 0 <= v < i ==> !marks[v],
        decreases n - i,
    {
        marks.push(false);
        i += 1;
    }
    proof {
        lemma_count_true_none(marks@);
        lemma_count_true_set(marks@, start as int);
        lemma_walk_trivial(links@, start as int);
    }
    marks.set(start, true);
    let mut queue: Vec<usize> = Vec::new();
    queue.push(start);
    assert(queue[0] == start);
    let mut head: usize = 0;
    while head < queue.len()
        invariant
            start < n,
            marks.len() == n,
            head <= queue.len(),
            queue.len() == count_true(marks@),
            forall|k: int| 0 <= k < links.len() ==> (#[trigger] links[k]).0 < n && links[k].1 < n,
            forall|j: int| 0 <= j < queue.len() ==> (#[trigger] queue[j]) < n && marks[queue[j] as int],
            forall|v: int| 0 <= v < n && #[trigger] marks[v] ==> walks_to(links@, v, start as int),
            forall|v: int| 0 <= v < n && #[trigger] marks[v] ==> queue@.contains(v as usize),
            forall|j: int, k: int|
                0 <= j < head && 0 <= k < links.len() && (#[trigger] links[k]).1 == #[trigger] queue[j]
                    ==> marks[links[k].0 as int],
            marks[start as int],
        decreases n - head,
    {
        proof {
            lemma_count_true_bound(marks@);
        }
        let target: usize = queue[head];
        let mut k: usize = 0;
        while k < links.len()
            invariant
                start < n,
                marks.len() == n,
                head < queue.len(),
                target == queue[head as int],
                k <= links.len(),
                queue.len() == count_true(marks@),
                forall|k: int| 0 <= k < links.len() ==> (#[trigger] links[k]).0 < n && links[k].1 < n,
                forall|j: int|
                    0 <= j < queue.len() ==> (#[trigger] queue[j]) < n && marks[queue[j] as int],
                forall|v: int|
                    0 <= v < n && #[trigger] marks[v] ==> walks_to(links@, v, start as int),
                forall|v: int| 0 <= v < n && #[trigger] marks[v] ==> queue@.contains(v as usize),
                forall|j: int, k: int|
                    0 <= j < head && 0 <= k < links.len() && (#[trigger] links[k]).1
                        == #[trigger] queue[j] ==> marks[links[k].0 as int],
                forall|m: int|
                    0 <= m < k && (#[trigger] links[m]).1 == target ==> marks[links[m].0 as int],
                marks[start as int],
            decreases links.len() - k,
        {
            let source: usize = links[k].0;
            let link_target: usize = links[k].1;
            if link_target == target && !marks[source] {
                proof {
                    lemma_count_true_set(marks@, source as int);
                    assert(has_link(links@, source as int, target as int));
                    lemma_walk_extend(links@, source as int, target as int, start as int);
                }
                let ghost old_queue = queue@;
                marks.set(source, true);
                queue.push(source);
                proof {
                    assert forall|v: int| 0 <= v < n && #[trigger] marks[v] implies queue@.contains(
                        v as usize,
                    ) by {
                        if v == source {
                            assert(queue[queue.len() - 1] == source);
                        } else {
                            let j = choose|j: int| 0 <= j < old_queue.len() && old_queue[j] == v as usize;
                            assert(queue[j] == v as usize);
                        }
                    }
                }
            }
            k += 1;
        }
        head += 1;
    }
    proof {
        assert forall|k: int|
            0 <= k < links.len() && (#[trigger] links[k]).1 < marks.len() && marks[links[k].1 as int]
            implies marks[links[k].0 as int] by {
            let t = links[k].1;
            assert(queue@.contains(t));
            let j = choose|j: int| 0 <= j < queue.len() && queue[j] == t;
            assert(links[k].1 == queue[j]);
        }
        assert forall|v: int| 0 <= v < n && walks_to(links@, v, start as int) implies marks[v] by {
            let path = choose|path: Seq<int>|
                #[trigger] is_walk(links@, path) && path.len() > 0 && path[0] == v && path[path.len()
                    - 1] == start as int;
            lemma_closed_marks_hold_walk(links@, marks@, path);
        }
    }
    marks
}

} // verus!
