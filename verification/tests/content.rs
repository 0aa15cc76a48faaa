use boxpeer::CoreError;
use boxpeer::content::ContentManager;

fn hash_a() -> String {
    "a".repeat(64)
}

fn hash_b() -> String {
    "b".repeat(64)
}

#[test]
fn register_twice_keeps_one_row_with_second_values() {
    let mut manager = ContentManager::new();
    manager.add_provided_content(hash_a(), "peer1".to_string(), 100, "one.txt".to_string());
    manager.add_provided_content(hash_a(), "peer2".to_string(), 200, "two.txt".to_string());
    let rows = manager.get_provided_content(&hash_a());
    assert_eq!(rows.len(), 1);
    assert_eq!(rows[0].0, hash_a());
    assert_eq!(rows[0].1, "peer2".to_string());
    assert_eq!(rows[0].2, 200);
}

#[test]
fn register_distinct_hashes_keeps_both() {
    let mut manager = ContentManager::new();
    manager.add_provided_content(hash_a(), "peer1".to_string(), 1, "a".to_string());
    manager.add_provided_content(hash_b(), "peer1".to_string(), 2, "b".to_string());
    assert_eq!(manager.get_provided_content(&hash_a()).len(), 1);
    assert_eq!(manager.get_provided_content(&hash_b()).len(), 1);
    let provided = manager.get_peerid_provided_content("peer1".to_string());
    assert_eq!(provided, vec![hash_a(), hash_b()]);
}

#[test]
fn relock_replaces_then_unlock_removes() {
    let mut manager = ContentManager::new();
    manager.lock_content(hash_a(), 0, 111, "peerA".to_string());
    manager.lock_content(hash_a(), 0, 222, "peerB".to_string());
    let rows = manager.get_chunks_for_file(hash_a());
    assert_eq!(rows.len(), 1);
    assert_eq!(rows[0], (0, "peerB".to_string(), 222));

    manager.unlock_content(hash_a(), "peerB".to_string());
    let rows = manager.get_chunks_for_file(hash_a());
    assert_eq!(rows.len(), 0);
}

#[test]
fn unlock_is_scoped_to_the_peer() {
    let mut manager = ContentManager::new();
    manager.lock_content(hash_a(), 0, 10, "peerA".to_string());
    manager.lock_content(hash_a(), 1, 10, "peerB".to_string());
    manager.unlock_content(hash_a(), "peerB".to_string());
    let rows = manager.get_chunks_for_file(hash_a());
    assert_eq!(rows.len(), 1);
    assert_eq!(rows[0], (0, "peerA".to_string(), 10));
    let locked = manager.get_peerid_locked_content("peerA".to_string());
    assert_eq!(locked, vec![hash_a()]);
    assert_eq!(manager.get_locked_content(), vec![hash_a()]);
}

#[test]
fn distribute_round_robin_assignment() {
    let manager = ContentManager::new();
    let peers = vec!["p0".to_string(), "p1".to_string(), "p2".to_string()];
    let chunks: Vec<Vec<u8>> = vec![vec![0], vec![1], vec![2], vec![3], vec![4]];
    let plan = manager
        .distribute_file_chunks(hash_a(), peers, chunks)
        .unwrap();
    assert_eq!(plan.len(), 5);
    assert_eq!(plan[0].0, "p0");
    assert_eq!(plan[1].0, "p1");
    assert_eq!(plan[2].0, "p2");
    assert_eq!(plan[3].0, "p0");
    assert_eq!(plan[4].0, "p1");
    for (i, (_, id)) in plan.iter().enumerate() {
        assert_eq!(*id, format!("{}_chunk_{}", hash_a(), i));
    }
}

#[test]
fn distribute_assignment_ignores_chunk_contents() {
    let manager = ContentManager::new();
    let peers = vec!["p0".to_string(), "p1".to_string()];
    let chunks_a: Vec<Vec<u8>> = vec![vec![1, 2, 3], vec![], vec![9]];
    let chunks_b: Vec<Vec<u8>> = vec![vec![7], vec![8, 8, 8, 8], vec![]];
    let plan_a = manager
        .distribute_file_chunks(hash_a(), peers.clone(), chunks_a)
        .unwrap();
    let plan_b = manager
        .distribute_file_chunks(hash_a(), peers, chunks_b)
        .unwrap();
    assert_eq!(plan_a, plan_b);
}

#[test]
fn distribute_with_no_peers_fails() {
    let manager = ContentManager::new();
    let outcome = manager.distribute_file_chunks(hash_a(), Vec::new(), vec![vec![1]]);
    assert!(matches!(outcome, Err(CoreError::NoPeers)));
}

#[test]
fn nodes_registry_is_append_only() {
    let mut manager = ContentManager::new();
    assert_eq!(manager.get_nodes().len(), 0);
    manager.add_node("peer1".to_string());
    manager.add_node("peer2".to_string());
    manager.add_node("peer1".to_string());
    assert_eq!(
        manager.get_nodes(),
        vec!["peer1".to_string(), "peer2".to_string(), "peer1".to_string()]
    );
}

#[test]
fn ten_mebibyte_file_three_peers_scenario() {
    const MIB: usize = 1024 * 1024;
    let mut manager = ContentManager::new();
    let data: Vec<u8> = vec![0xAB; 10 * MIB];
    let chunks = manager.split_file_into_chunks(&data, 4 * MIB);
    assert_eq!(chunks.len(), 3);
    assert_eq!(chunks[0].len(), 4 * MIB);
    assert_eq!(chunks[1].len(), 4 * MIB);
    assert_eq!(chunks[2].len(), 2 * MIB);

    let peers = vec!["p0".to_string(), "p1".to_string(), "p2".to_string()];
    let plan = manager
        .distribute_file_chunks(hash_a(), peers, chunks)
        .unwrap();
    assert_eq!(plan.len(), 3);
    assert_eq!(plan[0].0, "p0");
    assert_eq!(plan[1].0, "p1");
    assert_eq!(plan[2].0, "p2");

    let sizes = [4 * MIB as u64, 4 * MIB as u64, 2 * MIB as u64];
    for (i, (peer, _id)) in plan.iter().enumerate() {
        manager.lock_content(hash_a(), i as u64, sizes[i], peer.clone());
    }
    let rows = manager.get_chunks_for_file(hash_a());
    assert_eq!(rows.len(), 3);
    assert_eq!(rows[0], (0, "p0".to_string(), 4 * MIB as u64));
    assert_eq!(rows[1], (1, "p1".to_string(), 4 * MIB as u64));
    assert_eq!(rows[2], (2, "p2".to_string(), 2 * MIB as u64));
}
