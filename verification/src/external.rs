//! The graph of the targets as text for a graph drawing tool.

use vstd::prelude::*;
use vstd::string::*;
use crate::patterns::{debug_quoted, quoted};
use crate::registry::{degree_of, rank_of, TargetNode, TargetRegistry};

verus! {

/// One edge of the drawing: from the required target to the one that requires it.
pub open spec fn edge_line(required: Seq<char>, requiring: Seq<char>) -> Seq<char> {
    quoted(required) + " -> "@ + quoted(requiring) + "\n"@
}

/// The edges below the target `u`: for each of its requirements in turn the
/// edge to `u`, then the edges below the required target. A target that several
/// targets require has its edges listed once for each of them.
pub open spec fn edges_below(nodes: Seq<TargetNode>, ranks: Seq<usize>, u: int) -> Seq<char>
    decreases rank_of(ranks, u), degree_of(nodes, u) + 1,
{
    edges_from(nodes, ranks, u, 0)
}

/// The edges below the target `u` from its requirement number `e` on.
pub open spec fn edges_from(nodes: Seq<TargetNode>, ranks: Seq<usize>, u: int, e: int) -> Seq<char>
    decreases rank_of(ranks, u), degree_of(nodes, u) - e,
{
    if 0 <= u < nodes.len() && 0 <= e < nodes[u].internal.len() {
        let required = nodes[u].internal@[e];
        let below = if rank_of(ranks, required.key as int) < rank_of(ranks, u) {
            edges_below(nodes, ranks, required.key as int)
        } else {
            Seq::<char>::empty()
        };
        edge_line(required.name@, nodes[u].name@) + below + edges_from(nodes, ranks, u, e + 1)
    } else {
        Seq::empty()
    }
}

/// The drawing of what lies below the target `top`: the edges alone where
/// `recursive` is set, else the whole graph with its frame.
pub open spec fn drawing(nodes: Seq<TargetNode>, ranks: Seq<usize>, top: int, recursive: bool) -> Seq<char> {
    if recursive {
        edges_below(nodes, ranks, top)
    } else {
        "digraph G {\n"@ + edges_below(nodes, ranks, top) + "}"@
    }
}

/// Appends to `data` the edges below the target `top`.
fn append_edges(registry: &TargetRegistry, top: usize, data: &mut String)
    requires
        registry.wf(),
        top < registry.nodes().len(),
    ensures
        final(data)@ == old(data)@ + edges_below(registry.nodes(), registry.ranks(), top as int),
    decreases rank_of(registry.ranks(), top as int),
{
    proof {
        registry.lemma_wf();
    }
    let ghost nodes = registry.nodes();
    let ghost ranks = registry.ranks();
    let node = match registry.get(top) {
        Some(node) => node,
        None => {
            return ;
        },
    };
    let mut e: usize = 0;
    assert(data@ + edges_from(nodes, ranks, top as int, 0) =~= old(data)@ + edges_below(nodes, ranks, top as int));
    while e < node.internal.len()
        invariant
            e <= node.internal.len(),
            registry.wf(),
            nodes == registry.nodes(),
            ranks == registry.ranks(),
            top < nodes.len(),
            ranks.len() == nodes.len(),
            *node == nodes[top as int],
            forall|d: int| 0 <= d < node.internal.len() ==> (#[trigger] node.internal@[d]).key < nodes.len()
                && ranks[node.internal@[d].key as int] < ranks[top as int],
            data@ + edges_from(nodes, ranks, top as int, e as int) == old(data)@ + edges_below(nodes, ranks, top as int),
        decreases node.internal.len() - e,
    {
        let required = &node.internal[e];
        let ghost before = data@;
        data.append(debug_quoted(required.name.as_str()).as_str());
        data.append(" -> ");
        data.append(debug_quoted(node.name.as_str()).as_str());
        data.append("\n");
        append_edges(registry, required.key, data);
        proof {
            let line = edge_line(required.name@, node.name@);
            let below = edges_below(nodes, ranks, required.key as int);
            assert(data@ =~= before + line + below);
            assert(data@ + edges_from(nodes, ranks, top as int, e + 1) =~= before + edges_from(
                nodes,
                ranks,
                top as int,
                e as int,
            ));
        }
        e += 1;
    }
    assert(data@ + Seq::<char>::empty() =~= data@);
}

/// Appends to `data` the drawing of what lies below the target `top`.
pub fn dottie(top: usize, registry: &TargetRegistry, recursive: bool, data: &mut String)
    requires
        registry.wf(),
        top < registry.nodes().len(),
    ensures
        final(data)@ == old(data)@ + drawing(registry.nodes(), registry.ranks(), top as int, recursive),
{
    if recursive {
        append_edges(registry, top, data);
    } else {
        data.append("digraph G {\n");
        append_edges(registry, top, data);
        data.append("}");
        assert(data@ =~= old(data)@ + drawing(registry.nodes(), registry.ranks(), top as int, recursive));
    }
}

} // verus!
