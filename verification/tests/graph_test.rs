use mymake::graph::topological_ranks;

fn edge_ok(graph: &Vec<Vec<usize>>, ranks: &Vec<usize>) -> bool {
    graph.iter().enumerate().all(|(u, row)| row.iter().all(|v| ranks[*v] < ranks[u]))
}

fn is_cycle(graph: &Vec<Vec<usize>>, path: &Vec<usize>) -> bool {
    !path.is_empty()
        && path.windows(2).all(|w| graph[w[0]].contains(&w[1]))
        && graph[*path.last().unwrap()].contains(&path[0])
}

#[test]
fn a_chain_is_ranked_from_its_end() {
    let graph = vec![vec![1], vec![2], vec![]];
    let ranks = topological_ranks(&graph).unwrap();
    assert_eq!(ranks, vec![2, 1, 0]);
}

#[test]
fn a_diamond_is_ranked() {
    let graph = vec![vec![1, 2], vec![3], vec![3], vec![]];
    let ranks = topological_ranks(&graph).unwrap();
    assert_eq!(ranks.len(), 4);
    assert!(edge_ok(&graph, &ranks));
    assert_eq!(ranks, vec![3, 1, 2, 0]);
}

#[test]
fn the_empty_graph_is_ranked() {
    assert_eq!(topological_ranks(&Vec::new()), Ok(Vec::new()));
}

#[test]
fn two_nodes_that_require_each_other_are_a_cycle() {
    let graph = vec![vec![1], vec![0]];
    let cycle = topological_ranks(&graph).unwrap_err();
    assert!(is_cycle(&graph, &cycle));
    assert_eq!(cycle, vec![0, 1]);
}

#[test]
fn a_self_loop_is_a_cycle() {
    let graph = vec![vec![], vec![1]];
    assert_eq!(topological_ranks(&graph), Err(vec![1]));
}

#[test]
fn a_cycle_behind_a_tail_is_found_without_the_tail() {
    let graph = vec![vec![1], vec![2], vec![3], vec![1]];
    let cycle = topological_ranks(&graph).unwrap_err();
    assert!(is_cycle(&graph, &cycle));
    assert_eq!(cycle, vec![1, 2, 3]);
}
