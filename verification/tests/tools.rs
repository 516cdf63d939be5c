use std::collections::HashMap;

use stateless_validation::max_flow::{DinicSolver, Edge, NetworkFlowAdjacencyList, INF};
use stateless_validation::ordinal_inconsistency::{
    find_inconsistencies_thread, FindInconsistenciesUpdate, HashIndex, PROGRESS_INTERVAL,
};
use stateless_validation::timer::{Finished, Progress, WorkTimer, REPORT_INTERVAL_MILLIS};

fn tables() -> (Vec<(u32, HashIndex)>, HashMap<u32, HashIndex>, HashMap<u32, u32>) {
    let height_to_hash =
        vec![(10, HashIndex(1)), (11, HashIndex(2)), (12, HashIndex(3)), (13, HashIndex(4))];
    let mut ordinal_to_hash = HashMap::new();
    ordinal_to_hash.insert(1, HashIndex(1));
    ordinal_to_hash.insert(2, HashIndex(9));
    ordinal_to_hash.insert(3, HashIndex(3));
    let mut hash_to_ordinal = HashMap::new();
    hash_to_ordinal.insert(1, 1);
    hash_to_ordinal.insert(2, 2);
    hash_to_ordinal.insert(3, 3);
    (height_to_hash, ordinal_to_hash, hash_to_ordinal)
}

fn the_inconsistency() -> FindInconsistenciesUpdate {
    FindInconsistenciesUpdate::Inconsistency {
        block_height: 11,
        block_ordinal: 2,
        correct_block_hash: HashIndex(2),
        actual_block_hash: HashIndex(9),
    }
}

#[test]
fn one_worker_finds_the_block_whose_ordinal_leads_elsewhere() {
    let (height_to_hash, ordinal_to_hash, hash_to_ordinal) = tables();
    let updates =
        find_inconsistencies_thread(&height_to_hash, &ordinal_to_hash, &hash_to_ordinal, 0, 1);
    assert_eq!(updates, vec![the_inconsistency(), FindInconsistenciesUpdate::Processed(4)]);
}

#[test]
fn two_workers_share_the_table_by_striding() {
    let (height_to_hash, ordinal_to_hash, hash_to_ordinal) = tables();
    let even =
        find_inconsistencies_thread(&height_to_hash, &ordinal_to_hash, &hash_to_ordinal, 0, 2);
    assert_eq!(even, vec![FindInconsistenciesUpdate::Processed(2)]);
    let odd =
        find_inconsistencies_thread(&height_to_hash, &ordinal_to_hash, &hash_to_ordinal, 1, 2);
    assert_eq!(odd, vec![the_inconsistency(), FindInconsistenciesUpdate::Processed(2)]);
}

#[test]
fn a_worker_beyond_the_table_has_nothing_to_look_at() {
    let (height_to_hash, ordinal_to_hash, hash_to_ordinal) = tables();
    let updates =
        find_inconsistencies_thread(&height_to_hash, &ordinal_to_hash, &hash_to_ordinal, 4, 128);
    assert_eq!(updates, vec![FindInconsistenciesUpdate::Processed(0)]);
    let updates = find_inconsistencies_thread(
        &height_to_hash,
        &ordinal_to_hash,
        &hash_to_ordinal,
        3,
        usize::MAX,
    );
    assert_eq!(updates, vec![FindInconsistenciesUpdate::Processed(1)]);
}

#[test]
fn a_block_without_an_ordinal_or_an_ordinal_without_a_block_is_no_inconsistency() {
    let height_to_hash = vec![(1, HashIndex(7)), (2, HashIndex(8))];
    let ordinal_to_hash = HashMap::new();
    let mut hash_to_ordinal = HashMap::new();
    hash_to_ordinal.insert(8, 5);
    let updates =
        find_inconsistencies_thread(&height_to_hash, &ordinal_to_hash, &hash_to_ordinal, 0, 1);
    assert_eq!(updates, vec![FindInconsistenciesUpdate::Processed(2)]);
}

#[test]
fn progress_is_told_after_every_thousand_entries() {
    assert_eq!(PROGRESS_INTERVAL, 1000);
    let height_to_hash: Vec<(u32, HashIndex)> = (0..2500).map(|i| (i, HashIndex(i))).collect();
    let ordinal_to_hash = HashMap::new();
    let hash_to_ordinal = HashMap::new();
    let updates =
        find_inconsistencies_thread(&height_to_hash, &ordinal_to_hash, &hash_to_ordinal, 0, 1);
    assert_eq!(
        updates,
        vec![
            FindInconsistenciesUpdate::Processed(1000),
            FindInconsistenciesUpdate::Processed(1000),
            FindInconsistenciesUpdate::Processed(500),
        ]
    );
    let updates = find_inconsistencies_thread(
        &height_to_hash[..1000].to_vec(),
        &ordinal_to_hash,
        &hash_to_ordinal,
        0,
        1,
    );
    assert_eq!(
        updates,
        vec![FindInconsistenciesUpdate::Processed(1000), FindInconsistenciesUpdate::Processed(0)]
    );
}

#[test]
fn an_inconsistency_at_the_thousandth_entry_comes_before_the_progress() {
    let mut height_to_hash: Vec<(u32, HashIndex)> = (0..1000).map(|i| (i, HashIndex(i))).collect();
    height_to_hash[999] = (11, HashIndex(2));
    let (_, ordinal_to_hash, hash_to_ordinal) = tables();
    let updates =
        find_inconsistencies_thread(&height_to_hash, &ordinal_to_hash, &hash_to_ordinal, 999, 7);
    assert_eq!(updates, vec![the_inconsistency(), FindInconsistenciesUpdate::Processed(1)]);
}

#[test]
fn the_timer_tells_its_progress_after_five_seconds_of_silence() {
    assert_eq!(REPORT_INTERVAL_MILLIS, 5000);
    let mut timer = WorkTimer::new("read".to_string(), 100, 1000);
    assert_eq!(timer.name, "read");
    assert_eq!((timer.start, timer.last_report_time, timer.total, timer.expected_total), (1000, 1000, 0, 100));
    assert_eq!(timer.add_processed(10, 2000), None);
    assert_eq!(timer.add_processed(5, 6000), None);
    assert_eq!(timer.total, 15);
    assert_eq!(timer.last_report_time, 1000);
    assert_eq!(
        timer.add_processed(5, 6001),
        Some(Progress { total: 20, expected_total: 100, remaining: 80, elapsed: 5001 })
    );
    assert_eq!(timer.last_report_time, 6001);
    assert_eq!(timer.add_processed(1, 11001), None);
    assert_eq!(
        timer.add_processed(200, 21000),
        Some(Progress { total: 221, expected_total: 100, remaining: 0, elapsed: 20000 })
    );
    assert_eq!(timer.finish(22000), Finished { total: 221, elapsed: 21000 });
    assert_eq!(timer.start, 1000);
}

#[test]
fn a_clock_that_went_back_counts_as_no_time() {
    let mut timer = WorkTimer::new("scan".to_string(), 3, 9000);
    assert_eq!(timer.add_processed(3, 10), None);
    assert_eq!(timer.finish(10), Finished { total: 3, elapsed: 0 });
}

#[test]
fn an_edge_comes_with_its_opposite() {
    let [forward, backward] = Edge::new_with_cost(3, 5, 40, 2);
    assert_eq!(
        forward,
        Edge { _from: 3, to: 5, flow: 0, capacity: 40, _cost: 2, _original_cost: 2 }
    );
    assert_eq!(
        backward,
        Edge { _from: 5, to: 3, flow: 0, capacity: 0, _cost: -2, _original_cost: -2 }
    );
    assert_eq!(forward.reamaining_capacity(), 40);
    let (mut forward, mut backward) = (forward, backward);
    forward.augment(&mut backward, 15);
    assert_eq!(forward.flow, 15);
    assert_eq!(backward.flow, -15);
    assert_eq!(forward.reamaining_capacity(), 25);
    assert_eq!(backward.reamaining_capacity(), 15);
    assert_eq!(INF, i64::MAX / 2);
}

#[test]
fn a_network_lists_the_edges_that_leave_each_node() {
    let graph = NetworkFlowAdjacencyList::with_size(4);
    assert_eq!((graph.source, graph.sink), (3, 2));
    let mut graph = graph.and_source_sink(0, 3);
    assert_eq!((graph.source, graph.sink), (0, 3));
    assert_eq!(graph.node_count(), 4);
    graph.add_edge(0, 1, 5);
    graph.add_edge_with_cost(1, 3, 7, 2);
    graph.add_edge(2, 2, INF);
    assert_eq!(graph.node_count(), 4);
    assert_eq!(
        graph.edges_of(0),
        vec![Edge { _from: 0, to: 1, flow: 0, capacity: 5, _cost: 0, _original_cost: 0 }]
    );
    assert_eq!(
        graph.edges_of(1),
        vec![
            Edge { _from: 1, to: 0, flow: 0, capacity: 0, _cost: 0, _original_cost: 0 },
            Edge { _from: 1, to: 3, flow: 0, capacity: 7, _cost: 2, _original_cost: 2 },
        ]
    );
    assert_eq!(
        graph.edges_of(2),
        vec![
            Edge { _from: 2, to: 2, flow: 0, capacity: INF, _cost: 0, _original_cost: 0 },
            Edge { _from: 2, to: 2, flow: 0, capacity: 0, _cost: 0, _original_cost: 0 },
        ]
    );
    assert_eq!(
        graph.edges_of(3),
        vec![Edge { _from: 3, to: 1, flow: 0, capacity: 0, _cost: -2, _original_cost: -2 }]
    );
}

#[test]
fn flow_through_an_edge_is_taken_from_its_opposite() {
    let mut graph = NetworkFlowAdjacencyList::with_size(3).and_source_sink(0, 2);
    graph.add_edge(0, 1, 5);
    graph.add_edge(1, 2, 4);
    graph.augment(0, 0, 3);
    graph.augment(1, 1, 3);
    assert_eq!(graph.edges_of(0)[0].flow, 3);
    assert_eq!(graph.edges_of(0)[0].reamaining_capacity(), 2);
    assert_eq!(graph.edges_of(1)[0].flow, -3);
    assert_eq!(graph.edges_of(1)[0].reamaining_capacity(), 3);
    assert_eq!(graph.edges_of(1)[1].flow, 3);
    assert_eq!(graph.edges_of(2)[0].flow, -3);
    graph.augment(1, 0, 1);
    assert_eq!(graph.edges_of(0)[0].flow, 2);
    assert_eq!(graph.edges_of(1)[0].flow, -2);
}

#[test]
fn a_search_begins_with_every_node_at_level_zero() {
    let mut graph = NetworkFlowAdjacencyList::with_size(5).and_source_sink(1, 4);
    graph.add_edge(1, 4, 9);
    let solver = DinicSolver::init(&mut graph);
    assert_eq!(solver.n, 5);
    assert_eq!(solver.levels, vec![0isize; 5]);
    assert_eq!((solver.g.source, solver.g.sink), (1, 4));
    assert_eq!(solver.g.edges_of(1).len(), 1);
}
