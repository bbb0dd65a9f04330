//! Directed graphs as adjacency lists: ranking in dependency order, and cycles.

use vstd::prelude::*;

verus! {

/// The successors of every node of `g`, as sequences.
pub open spec fn links(g: Seq<Vec<usize>>) -> Seq<Seq<usize>> {
    g.map_values(|row: Vec<usize>| row@)
}

/// Every edge of the graph ends at one of its nodes.
pub open spec fn well_formed(g: Seq<Seq<usize>>) -> bool {
    forall|u: int, e: int| 0 <= u < g.len() && 0 <= e < g[u].len() ==> (#[trigger] g[u][e]) < g.len()
}

/// `path` is a cycle of `g`: a walk along edges whose last node has an edge to its first.
pub open spec fn is_cycle(g: Seq<Seq<usize>>, path: Seq<usize>) -> bool {
    &&& path.len() >= 1
    &&& forall|k: int| 0 <= k < path.len() ==> (#[trigger] path[k]) < g.len()
    &&& forall|k: int| 0 <= k < path.len() - 1 ==> g[path[k] as int].contains(#[trigger] path[k + 1])
    &&& g[path.last() as int].contains(path[0])
}

/// No walk along the edges of `g` returns to where it began.
pub open spec fn acyclic(g: Seq<Seq<usize>>) -> bool {
    forall|path: Seq<usize>| !is_cycle(g, path)
}

/// `ranks` gives every node a rank above the ranks of all its successors.
pub open spec fn ranked(g: Seq<Seq<usize>>, ranks: Seq<usize>) -> bool {
    &&& ranks.len() == g.len()
    &&& forall|u: int, e: int| 0 <= u < g.len() && 0 <= e < g[u].len() ==>
        (#[trigger] g[u][e]) < g.len() && ranks[g[u][e] as int] < ranks[u]
}

/// Along a cycle of a ranked graph the ranks fall with every step.
proof fn lemma_ranks_fall(g: Seq<Seq<usize>>, ranks: Seq<usize>, path: Seq<usize>, k: int)
    requires
        ranked(g, ranks),
        is_cycle(g, path),
        0 <= k < path.len(),
    ensures
        ranks[path[k] as int] + k <= ranks[path[0] as int],
    decreases k,
{
    if k > 0 {
        lemma_ranks_fall(g, ranks, path, k - 1);
        let a = path[k - 1] as int;
        assert(g[a].contains(path[k - 1 + 1]));
        let e = choose|e: int| 0 <= e < g[a].len() && g[a][e] == path[k];
        assert(ranks[g[a][e] as int] < ranks[a]);
    }
}

/// A graph that can be ranked has no cycle.
pub proof fn lemma_ranked_is_acyclic(g: Seq<Seq<usize>>, ranks: Seq<usize>)
    requires
        ranked(g, ranks),
    ensures
        acyclic(g),
{
    assert forall|path: Seq<usize>| !is_cycle(g, path) by {
        if is_cycle(g, path) {
            let last = path.len() - 1;
            lemma_ranks_fall(g, ranks, path, last);
            let a = path[last] as int;
            let e = choose|e: int| 0 <= e < g[a].len() && g[a][e] == path[0];
            assert(ranks[g[a][e] as int] < ranks[a]);
        }
    }
}

/// How far the search has come with a node.
#[derive(Debug, PartialEq, Eq, Structural, Clone, Copy)]
enum Mark {
    /// Not reached yet.
    Unvisited,
    /// Reached, with successors still to be searched.
    OnStack,
    /// Ranked, as are all nodes that it reaches.
    Done,
}

/// The number of nodes not reached yet.
spec fn pending(marks: Seq<Mark>) -> nat
    decreases marks.len(),
{
    if marks.len() == 0 {
        0
    } else {
        pending(marks.drop_last()) + if marks.last() == Mark::Unvisited {
            1nat
        } else {
            0nat
        }
    }
}

proof fn lemma_pending_update(marks: Seq<Mark>, i: int, m: Mark)
    requires
        0 <= i < marks.len(),
        m != Mark::Unvisited,
    ensures
        marks[i] == Mark::Unvisited ==> pending(marks.update(i, m)) + 1 == pending(marks),
        marks[i] != Mark::Unvisited ==> pending(marks.update(i, m)) == pending(marks),
    decreases marks.len(),
{
    let updated = marks.update(i, m);
    if i == marks.len() - 1 {
        assert(updated.drop_last() =~= marks.drop_last());
    } else {
        lemma_pending_update(marks.drop_last(), i, m);
        assert(updated.drop_last() =~= marks.drop_last().update(i, m));
    }
}

/// What holds of the search between any two of its steps.
spec fn search_state(
    g: Seq<Seq<usize>>,
    marks: Seq<Mark>,
    ranks: Seq<usize>,
    order: Seq<usize>,
    stack: Seq<usize>,
) -> bool {
    &&& well_formed(g)
    &&& marks.len() == g.len()
    &&& ranks.len() == g.len()
    &&& forall|v: int| 0 <= v < g.len() && marks[v] == Mark::Done ==> (#[trigger] ranks[v]) < order.len()
    &&& forall|v: int, e: int|
        0 <= v < g.len() && 0 <= e < g[v].len() && marks[v] == Mark::Done ==> marks[(#[trigger] g[v][e]) as int]
            == Mark::Done && ranks[g[v][e] as int] < ranks[v]
    &&& forall|k: int| 0 <= k < stack.len() ==> (#[trigger] stack[k]) < g.len() && marks[stack[k] as int] == Mark::OnStack
    &&& forall|k: int| 0 <= k < stack.len() - 1 ==> g[stack[k] as int].contains(#[trigger] stack[k + 1])
    &&& forall|v: int| 0 <= v < g.len() && #[trigger] marks[v] == Mark::OnStack ==> stack.contains(v as usize)
}

/// Nothing that the search has settled is unsettled again.
spec fn marks_advance(before: Seq<Mark>, after: Seq<Mark>, ranks_before: Seq<usize>, ranks_after: Seq<usize>) -> bool {
    &&& after.len() == before.len()
    &&& forall|v: int| 0 <= v < before.len() && before[v] == Mark::OnStack ==> #[trigger] after[v] == Mark::OnStack
    &&& forall|v: int| 0 <= v < before.len() && before[v] == Mark::Done ==> #[trigger] after[v] == Mark::Done && ranks_after[v] == ranks_before[v]
}

/// The part of the search stack from the node `v` on: a cycle once its top has an edge to `v`.
fn close_cycle(g: &Vec<Vec<usize>>, stack: &Vec<usize>, v: usize) -> (r: Vec<usize>)
    requires
        stack@.contains(v),
        stack.len() >= 1,
        forall|k: int| 0 <= k < stack.len() ==> (#[trigger] stack[k]) < g.len(),
        forall|k: int| 0 <= k < stack.len() - 1 ==> links(g@)[stack[k] as int].contains(#[trigger] stack[k + 1]),
        links(g@)[stack@.last() as int].contains(v),
    ensures
        is_cycle(links(g@), r@),
{
    let mut k: usize = 0;
    while stack[k] != v
        invariant
            k < stack.len(),
            stack@.contains(v),
            forall|j: int| 0 <= j < k ==> stack[j] != v,
        decreases stack.len() - k,
    {
        proof {
            let w = choose|w: int| 0 <= w < stack.len() && stack[w] == v;
            assert(w > k);
        }
        k += 1;
    }
    let mut cycle: Vec<usize> = Vec::new();
    let mut j: usize = k;
    while j < stack.len()
        invariant
            k <= j <= stack.len(),
            cycle@ == stack@.subrange(k as int, j as int),
        decreases stack.len() - j,
    {
        cycle.push(stack[j]);
        assert(cycle@ =~= stack@.subrange(k as int, j + 1));
        j += 1;
    }
    proof {
        let path = cycle@;
        assert(path == stack@.subrange(k as int, stack.len() as int));
        assert(path[0] == v);
        assert(path.last() == stack@.last());
        assert forall|i: int| 0 <= i < path.len() - 1 implies links(g@)[path[i] as int].contains(#[trigger] path[i + 1]) by {
            assert(path[i] == stack[k + i]);
            assert(path[i + 1] == stack[k + i + 1]);
        }
    }
    cycle
}

/// Searches from the unvisited node `u`. Where no cycle is met, `u` and all that it
/// reaches are ranked; else the cycle is returned.
fn visit(
    g: &Vec<Vec<usize>>,
    u: usize,
    marks: &mut Vec<Mark>,
    ranks: &mut Vec<usize>,
    order: &mut Vec<usize>,
    stack: &mut Vec<usize>,
) -> (r: Option<Vec<usize>>)
    requires
        search_state(links(g@), old(marks)@, old(ranks)@, old(order)@, old(stack)@),
        u < g.len(),
        old(marks)@[u as int] == Mark::Unvisited,
        old(stack).len() > 0 ==> links(g@)[old(stack)@.last() as int].contains(u),
    ensures
        match r {
            Some(cycle) => is_cycle(links(g@), cycle@),
            None => {
                &&& search_state(links(g@), final(marks)@, final(ranks)@, final(order)@, final(stack)@)
                &&& final(stack)@ == old(stack)@
                &&& final(marks)@[u as int] == Mark::Done
                &&& marks_advance(old(marks)@, final(marks)@, old(ranks)@, final(ranks)@)
                &&& pending(final(marks)@) < pending(old(marks)@)
            },
        },
    decreases pending(old(marks)@),
{
    let ghost gl = links(g@);
    let ghost marks0 = marks@;
    let ghost ranks0 = ranks@;
    let ghost stack0 = stack@;
    marks.set(u, Mark::OnStack);
    stack.push(u);
    proof {
        lemma_pending_update(marks0, u as int, Mark::OnStack);
        assert forall|k: int| 0 <= k < stack@.len() implies (#[trigger] stack@[k]) < gl.len() && marks@[stack@[k] as int]
            == Mark::OnStack by {
            if k < stack0.len() {
                assert(stack@[k] == stack0[k]);
            }
        }
        assert forall|k: int| 0 <= k < stack@.len() - 1 implies gl[stack@[k] as int].contains(#[trigger] stack@[k + 1]) by {
            if k < stack0.len() - 1 {
                assert(stack@[k] == stack0[k]);
                assert(stack@[k + 1] == stack0[k + 1]);
            } else {
                assert(stack@[k] == stack0.last());
            }
        }
        assert forall|v: int| 0 <= v < gl.len() && #[trigger] marks@[v] == Mark::OnStack implies stack@.contains(v as usize) by {
            if v == u {
                assert(stack@[stack0.len() as int] == u);
            } else {
                assert(marks0[v] == Mark::OnStack);
                let k = choose|k: int| 0 <= k < stack0.len() && stack0[k] == v as usize;
                assert(stack@[k] == v as usize);
            }
        }
        assert forall|v: int, e: int|
            0 <= v < gl.len() && 0 <= e < gl[v].len() && marks@[v] == Mark::Done implies marks@[(#[trigger] gl[v][e]) as int]
                == Mark::Done && ranks@[gl[v][e] as int] < ranks@[v] by {
            assert(marks0[v] == Mark::Done);
            assert(marks0[gl[v][e] as int] == Mark::Done);
        }
    }
    let ghost marks1 = marks@;
    let row_len = g[u].len();
    let mut e: usize = 0;
    while e < row_len
        invariant
            gl == links(g@),
            marks0 == old(marks)@,
            u < g.len(),
            row_len == g@[u as int].len(),
            e <= row_len,
            search_state(gl, marks@, ranks@, order@, stack@),
            stack@ == stack0.push(u),
            marks@[u as int] == Mark::OnStack,
            marks_advance(marks1, marks@, ranks0, ranks@),
            pending(marks@) <= pending(marks1),
            pending(marks1) < pending(marks0),
            forall|d: int| 0 <= d < e ==> marks@[(#[trigger] gl[u as int][d]) as int] == Mark::Done,
        decreases row_len - e,
    {
        let v = g[u][e];
        assert(gl[u as int][e as int] == v);
        assert(v < g.len());
        match marks[v] {
            Mark::Done => {},
            Mark::OnStack => {
                proof {
                    assert(gl[u as int].contains(v));
                    assert(stack@.last() == u);
                }
                let cycle = close_cycle(g, stack, v);
                return Some(cycle);
            },
            Mark::Unvisited => {
                let ghost marks_before = marks@;
                let ghost ranks_before = ranks@;
                proof {
                    assert(gl[u as int].contains(v));
                    assert(stack@.last() == u);
                }
                let found = visit(g, v, marks, ranks, order, stack);
                match found {
                    Some(cycle) => {
                        return Some(cycle);
                    },
                    None => {
                        proof {
                            assert forall|d: int| 0 <= d < e implies marks@[(#[trigger] gl[u as int][d]) as int]
                                == Mark::Done by {
                                assert(marks_before[gl[u as int][d] as int] == Mark::Done);
                            }
                            assert(marks_before[u as int] == Mark::OnStack);
                        }
                    },
                }
            },
        }
        e += 1;
    }
    let ghost marks2 = marks@;
    let ghost ranks2 = ranks@;
    let ghost order2 = order@;
    let rank = order.len();
    ranks.set(u, rank);
    order.push(u);
    marks.set(u, Mark::Done);
    stack.pop();
    proof {
        lemma_pending_update(marks2, u as int, Mark::Done);
        assert(stack@ =~= stack0);
        assert forall|k: int| 0 <= k < stack@.len() implies (#[trigger] stack@[k]) < gl.len() && marks@[stack@[k] as int]
            == Mark::OnStack by {
            assert(marks0[stack0[k] as int] == Mark::OnStack);
            assert(stack0[k] != u);
            assert(stack0.push(u)[k] == stack0[k]);
            assert(marks2[stack0[k] as int] == Mark::OnStack);
        }
        assert forall|k: int| 0 <= k < stack@.len() - 1 implies gl[stack@[k] as int].contains(#[trigger] stack@[k + 1]) by {
            assert(stack0.push(u)[k] == stack0[k]);
            assert(stack0.push(u)[k + 1] == stack0[k + 1]);
        }
        assert forall|v: int| 0 <= v < gl.len() && #[trigger] marks@[v] == Mark::OnStack implies stack@.contains(v as usize) by {
            assert(v != u);
            assert(marks2[v] == Mark::OnStack);
            let k = choose|k: int| 0 <= k < stack0.push(u).len() && stack0.push(u)[k] == v as usize;
            assert(k < stack0.len());
            assert(stack0[k] == v as usize);
        }
        assert forall|v: int| 0 <= v < gl.len() && marks@[v] == Mark::Done implies (#[trigger] ranks@[v]) < order@.len() by {
            if v != u {
                assert(marks2[v] == Mark::Done);
            }
        }
        assert forall|v: int, d: int|
            0 <= v < gl.len() && 0 <= d < gl[v].len() && marks@[v] == Mark::Done implies marks@[(#[trigger] gl[v][d]) as int]
                == Mark::Done && ranks@[gl[v][d] as int] < ranks@[v] by {
            let w = gl[v][d] as int;
            if v == u {
                assert(marks2[w] == Mark::Done);
                assert(w != u);
                assert(ranks2[w] < order2.len());
            } else {
                assert(marks2[v] == Mark::Done);
                assert(marks2[w] == Mark::Done);
                assert(w != u);
            }
        }
        assert forall|v: int| 0 <= v < marks0.len() && marks0[v] == Mark::OnStack implies #[trigger] marks@[v]
            == Mark::OnStack by {
            assert(v != u);
            assert(marks1[v] == Mark::OnStack);
            assert(marks2[v] == Mark::OnStack);
        }
        assert forall|v: int| 0 <= v < marks0.len() && marks0[v] == Mark::Done implies #[trigger] marks@[v] == Mark::Done
            && ranks@[v] == ranks0[v] by {
            assert(v != u);
            assert(marks1[v] == Mark::Done);
            assert(marks2[v] == Mark::Done);
        }
    }
    None
}

/// Ranks the nodes of `g` so that every node stands above all its successors,
/// or returns a cycle of `g`.
pub fn topological_ranks(g: &Vec<Vec<usize>>) -> (r: Result<Vec<usize>, Vec<usize>>)
    requires
        well_formed(links(g@)),
    ensures
        match r {
            Ok(ranks) => ranked(links(g@), ranks@) && acyclic(links(g@)),
            Err(cycle) => is_cycle(links(g@), cycle@) && !acyclic(links(g@)),
        },
{
    let n = g.len();
    let ghost gl = links(g@);
    let mut marks: Vec<Mark> = Vec::new();
    let mut ranks: Vec<usize> = Vec::new();
    let mut i: usize = 0;
    while i < n
        invariant
            i <= n,
            marks.len() == i,
            ranks.len() == i,
            forall|v: int| 0 <= v < i ==> marks@[v] == Mark::Unvisited,
        decreases n - i,
    {
        marks.push(Mark::Unvisited);
        ranks.push(0);
        i += 1;
    }
    let mut order: Vec<usize> = Vec::new();
    let mut stack: Vec<usize> = Vec::new();
    let mut u: usize = 0;
    while u < n
        invariant
            n == g.len(),
            gl == links(g@),
            u <= n,
            stack@.len() == 0,
            search_state(gl, marks@, ranks@, order@, stack@),
            forall|v: int| 0 <= v < u ==> marks@[v] == Mark::Done,
        decreases n - u,
    {
        match marks[u] {
            Mark::Unvisited => {
                let ghost marks_before = marks@;
                match visit(g, u, &mut marks, &mut ranks, &mut order, &mut stack) {
                    Some(cycle) => {
                        return Err(cycle);
                    },
                    None => {
                        proof {
                            assert forall|v: int| 0 <= v < u implies marks@[v] == Mark::Done by {
                                assert(marks_before[v] == Mark::Done);
                            }
                        }
                    },
                }
            },
            Mark::OnStack => {
                proof {
                    assert(stack@.contains(u));
                }
            },
            Mark::Done => {},
        }
        u += 1;
    }
    proof {
        assert(ranked(gl, ranks@));
        lemma_ranked_is_acyclic(gl, ranks@);
    }
    Ok(ranks)
}

/// Two nodes with an edge each to the other form a cycle.
pub proof fn lemma_mutual_edges_form_cycle(g: Seq<Seq<usize>>, a: usize, b: usize)
    requires
        a < g.len(),
        b < g.len(),
        g[a as int].contains(b),
        g[b as int].contains(a),
    ensures
        is_cycle(g, seq![a, b]),
        !acyclic(g),
{
    let path = seq![a, b];
    assert(path[0] == a && path[1] == b);
    assert forall|k: int| 0 <= k < path.len() - 1 implies g[path[k] as int].contains(#[trigger] path[k + 1]) by {
        assert(k == 0);
    }
    assert(path.last() == b);
    assert(is_cycle(g, path));
}

} // verus!
