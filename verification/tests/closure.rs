use std::collections::HashMap;

use fact_store::closure::DependencyWalk;

fn walk(graph: &HashMap<u128, Vec<u128>>, roots: &[u128], limit: usize) -> Vec<u128> {
    let mut walk = DependencyWalk::start(&roots.to_vec());
    loop {
        let batch = walk.next_batch(limit);
        if batch.is_empty() {
            break;
        }
        let dependencies: Vec<u128> = batch
            .iter()
            .flat_map(|id| graph.get(id).cloned().unwrap_or_default())
            .collect();
        walk.add_dependencies(&dependencies);
    }
    walk.finish()
}

#[test]
fn walk_reaches_exactly_the_transitive_dependencies() {
    let mut graph = HashMap::new();
    graph.insert(10, vec![7, 3]);
    graph.insert(7, vec![3, 1]);
    graph.insert(3, vec![1]);
    graph.insert(20, vec![21]);
    graph.insert(21, vec![20]);
    for limit in [1, 2, 256] {
        assert_eq!(walk(&graph, &[10], limit), vec![1, 3, 7, 10]);
        assert_eq!(walk(&graph, &[20, 3, 3], limit), vec![1, 3, 20, 21]);
        assert_eq!(walk(&graph, &[], limit), Vec::<u128>::new());
        assert_eq!(walk(&graph, &[99], limit), vec![99]);
    }
}

#[test]
fn batches_follow_the_order_objects_were_reached() {
    let mut walk = DependencyWalk::start(&vec![5, 4, 5, 6]);
    assert_eq!(walk.next_batch(2), vec![5, 4]);
    walk.add_dependencies(&vec![4, 9, 8]);
    assert_eq!(walk.next_batch(10), vec![6, 9, 8]);
    assert_eq!(walk.next_batch(10), Vec::<u128>::new());
    assert_eq!(walk.finish(), vec![4, 5, 6, 8, 9]);
}
