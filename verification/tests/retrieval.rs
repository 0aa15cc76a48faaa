use boxpeer::CoreError;
use boxpeer::retrieval::{
    FetchRace, RaceStep, Reassembly, pick_chunk_provider, plan_get_file, serve_decision,
};

fn hash() -> String {
    "c".repeat(64)
}

#[test]
fn get_file_with_no_providers_is_not_found_without_requests() {
    let plan = plan_get_file(&hash(), &Vec::new());
    assert!(matches!(plan, Err(CoreError::NotFound)));
}

#[test]
fn get_file_races_every_provider() {
    let providers = vec!["p1".to_string(), "p2".to_string()];
    let plan = plan_get_file(&hash(), &providers).unwrap();
    assert_eq!(plan.len(), 2);
    assert_eq!(plan[0], ("p1".to_string(), hash()));
    assert_eq!(plan[1], ("p2".to_string(), hash()));
}

#[test]
fn race_takes_first_success_despite_a_failure() {
    // Two advertised providers, exactly one reachable: the call succeeds
    // with the reachable provider's bytes, bounded by that response alone.
    let mut race = FetchRace::start(2);
    let step = race.on_response(Err(CoreError::Transport { cause: "unreachable".to_string() }));
    assert!(matches!(step, RaceStep::Pending));
    let step = race.on_response(Ok(vec![10, 20, 30]));
    match step {
        RaceStep::Won { payload } => assert_eq!(payload, vec![10, 20, 30]),
        _ => panic!("expected the race to be won"),
    }
}

#[test]
fn race_discards_responses_after_the_winner() {
    let mut race = FetchRace::start(2);
    let step = race.on_response(Ok(vec![1]));
    assert!(matches!(step, RaceStep::Won { .. }));
    let step = race.on_response(Ok(vec![2]));
    assert!(matches!(step, RaceStep::Pending));
}

#[test]
fn race_exhausts_when_every_provider_fails() {
    let mut race = FetchRace::start(2);
    let step = race.on_response(Err(CoreError::Transport { cause: "a".to_string() }));
    assert!(matches!(step, RaceStep::Pending));
    let step = race.on_response(Err(CoreError::Transport { cause: "b".to_string() }));
    assert!(matches!(step, RaceStep::Exhausted));
}

#[test]
fn reassembly_concatenates_in_index_order() {
    let mut reassembly = Reassembly::new(hash());
    assert_eq!(reassembly.next_chunk_key(), format!("{}_chunk_0", hash()));
    reassembly.append_chunk(vec![1, 2]);
    assert_eq!(reassembly.next_chunk_key(), format!("{}_chunk_1", hash()));
    reassembly.append_chunk(vec![3]);
    assert_eq!(reassembly.finish(), vec![1, 2, 3]);
}

#[test]
fn reassembly_truncates_at_first_unprovided_index() {
    // Chunks 0 and 1 have providers; chunk 2 has none while chunk 3 does.
    // The walk stops at index 2 and returns the truncated result — the
    // current behavior, kept as it stands.
    let provider_sets: Vec<Vec<String>> = vec![
        vec!["p1".to_string()],
        vec!["p2".to_string()],
        Vec::new(),
        vec!["p3".to_string()],
    ];
    let chunk_bytes: Vec<Vec<u8>> = vec![vec![0, 1], vec![2, 3], vec![4, 5], vec![6, 7]];

    let mut reassembly = Reassembly::new(hash());
    let mut index = 0;
    let assembled = loop {
        let providers = &provider_sets[index];
        match pick_chunk_provider(providers) {
            None => break reassembly.finish(),
            Some(provider) => {
                assert_eq!(provider, format!("p{}", index + 1));
                reassembly.append_chunk(chunk_bytes[index].clone());
                index += 1;
            }
        }
    };
    assert_eq!(assembled, vec![0, 1, 2, 3]);
}

#[test]
fn serve_loop_answers_only_its_own_hash() {
    let own = hash();
    assert!(serve_decision(&own, &hash()));
    assert!(!serve_decision(&format!("{}_chunk_0", own), &own));
    assert!(!serve_decision(&"d".repeat(64), &own));
}
