use boxpeer::CoreError;
use boxpeer::actor::{
    Action, Command, Event, EventLoop, Reply, SwarmEvent, TransportSnapshot,
};

fn snapshot() -> TransportSnapshot {
    TransportSnapshot {
        fresh_id: 0,
        local_peer_id: "local".to_string(),
        connected_peers: Vec::new(),
        listen_addrs: Vec::new(),
        listen_ok: true,
        listen_err: String::new(),
        dial_ok: true,
        dial_err: String::new(),
    }
}

#[test]
fn get_providers_resolves_on_first_found_result() {
    let mut actor = EventLoop::new();
    let snap = TransportSnapshot { fresh_id: 42, ..snapshot() };
    let eff = actor.handle_command(
        Command::GetProviders { key: "k".to_string(), ticket: 7 },
        snap,
    );
    assert!(eff.replies.is_empty());
    assert!(!eff.violation);

    let eff = actor.handle_event(SwarmEvent::ProvidersFound {
        query_id: 42,
        providers: vec!["p1".to_string(), "p2".to_string()],
    });
    assert!(!eff.violation);
    assert_eq!(eff.replies.len(), 1);
    match &eff.replies[0] {
        Reply::Providers { ticket, providers } => {
            assert_eq!(*ticket, 7);
            assert_eq!(providers, &vec!["p1".to_string(), "p2".to_string()]);
        }
        _ => panic!("expected a Providers reply"),
    }
    // The query is finished explicitly: only its first result is wanted.
    assert_eq!(eff.actions.len(), 1);
    assert!(matches!(
        eff.actions[0],
        Action::FinishQuery { query_id: 42 }
    ));

    // The entry was removed: the same outcome again has no pending match.
    let eff = actor.handle_event(SwarmEvent::ProvidersFound {
        query_id: 42,
        providers: Vec::new(),
    });
    assert!(eff.violation);
    assert!(eff.replies.is_empty());
}

#[test]
fn unmatched_outcomes_are_violations_not_crashes() {
    let mut actor = EventLoop::new();
    let eff = actor.handle_event(SwarmEvent::StartProvidingProgressed { query_id: 5 });
    assert!(eff.violation);
    let eff = actor.handle_event(SwarmEvent::ResponseReceived {
        request_id: 5,
        payload: vec![1],
    });
    assert!(eff.violation);
    let eff = actor.handle_event(SwarmEvent::OutboundFailure {
        request_id: 5,
        cause: "broken pipe".to_string(),
    });
    assert!(eff.violation);
}

#[test]
fn dial_deduplicates_in_flight_peers() {
    let mut actor = EventLoop::new();
    assert!(!actor.is_dialing(&"peer9".to_string()));
    let eff = actor.handle_command(
        Command::Dial {
            peer_id: "peer9".to_string(),
            peer_addr: "addr9".to_string(),
            ticket: 1,
        },
        snapshot(),
    );
    assert_eq!(eff.actions.len(), 1);
    assert!(actor.is_dialing(&"peer9".to_string()));

    // Second dial to the same in-flight peer: a no-op until the first resolves.
    let eff = actor.handle_command(
        Command::Dial {
            peer_id: "peer9".to_string(),
            peer_addr: "addr9".to_string(),
            ticket: 2,
        },
        snapshot(),
    );
    assert!(eff.actions.is_empty());
    assert!(eff.replies.is_empty());

    // Dialer-side established connection resolves the first dial.
    let eff = actor.handle_event(SwarmEvent::ConnectionEstablished {
        peer_id: "peer9".to_string(),
        is_dialer: true,
    });
    assert_eq!(eff.replies.len(), 1);
    match &eff.replies[0] {
        Reply::DialDone { ticket, result } => {
            assert_eq!(*ticket, 1);
            assert!(result.is_ok());
        }
        _ => panic!("expected a DialDone reply"),
    }
    assert!(!actor.is_dialing(&"peer9".to_string()));
}

#[test]
fn dial_failure_reaches_the_dialing_caller() {
    let mut actor = EventLoop::new();
    let eff = actor.handle_command(
        Command::Dial {
            peer_id: "peer1".to_string(),
            peer_addr: "addr1".to_string(),
            ticket: 3,
        },
        snapshot(),
    );
    assert!(eff.replies.is_empty());
    let eff = actor.handle_event(SwarmEvent::OutgoingConnectionError {
        peer_id: Some("peer1".to_string()),
        cause: "refused".to_string(),
    });
    assert_eq!(eff.replies.len(), 1);
    match &eff.replies[0] {
        Reply::DialDone { ticket, result } => {
            assert_eq!(*ticket, 3);
            match result {
                Err(CoreError::Transport { cause }) => assert_eq!(cause, "refused"),
                _ => panic!("expected a transport error"),
            }
        }
        _ => panic!("expected a DialDone reply"),
    }
}

#[test]
fn request_file_resolves_with_payload_or_failure() {
    let mut actor = EventLoop::new();
    let snap = TransportSnapshot { fresh_id: 100, ..snapshot() };
    actor.handle_command(
        Command::RequestFile { key: "k".to_string(), peer: "p".to_string(), ticket: 11 },
        snap,
    );
    let eff = actor.handle_event(SwarmEvent::ResponseReceived {
        request_id: 100,
        payload: vec![1, 2, 3],
    });
    match &eff.replies[0] {
        Reply::FileResult { ticket, result } => {
            assert_eq!(*ticket, 11);
            assert_eq!(result.as_ref().unwrap(), &vec![1, 2, 3]);
        }
        _ => panic!("expected a FileResult reply"),
    }

    let snap = TransportSnapshot { fresh_id: 101, ..snapshot() };
    actor.handle_command(
        Command::RequestFile { key: "k".to_string(), peer: "p".to_string(), ticket: 12 },
        snap,
    );
    let eff = actor.handle_event(SwarmEvent::OutboundFailure {
        request_id: 101,
        cause: "timeout".to_string(),
    });
    match &eff.replies[0] {
        Reply::FileResult { ticket, result } => {
            assert_eq!(*ticket, 12);
            assert!(matches!(result, Err(CoreError::Transport { .. })));
        }
        _ => panic!("expected a FileResult reply"),
    }
}

#[test]
fn start_providing_confirms_on_query_completion() {
    let mut actor = EventLoop::new();
    let snap = TransportSnapshot { fresh_id: 55, ..snapshot() };
    actor.handle_command(Command::StartProviding { key: "k".to_string(), ticket: 20 }, snap);
    let eff = actor.handle_event(SwarmEvent::StartProvidingProgressed { query_id: 55 });
    assert!(!eff.violation);
    assert!(matches!(eff.replies[0], Reply::ProvideConfirmed { ticket: 20 }));
}

#[test]
fn discovered_peers_feed_the_routing_table() {
    let mut actor = EventLoop::new();
    let eff = actor.handle_event(SwarmEvent::MdnsDiscovered {
        peers: vec![
            ("pa".to_string(), "addr-a".to_string()),
            ("pb".to_string(), "addr-b".to_string()),
        ],
    });
    assert_eq!(eff.actions.len(), 2);
    match &eff.actions[0] {
        Action::AddAddress { peer_id, address } => {
            assert_eq!(peer_id, "pa");
            assert_eq!(address, "addr-a");
        }
        _ => panic!("expected an AddAddress action"),
    }
    assert!(eff.replies.is_empty());
}

#[test]
fn inbound_requests_surface_as_events() {
    let mut actor = EventLoop::new();
    let eff = actor.handle_event(SwarmEvent::InboundRequest {
        request: "some_key".to_string(),
        channel_id: 9,
    });
    assert_eq!(eff.events.len(), 1);
    match &eff.events[0] {
        Event::InboundRequest { request, channel_id } => {
            assert_eq!(request, "some_key");
            assert_eq!(*channel_id, 9);
        }
    }
}

#[test]
fn listening_address_snapshot() {
    let mut actor = EventLoop::new();
    let snap = TransportSnapshot {
        listen_addrs: vec!["addr-main".to_string(), "addr-alt".to_string()],
        ..snapshot()
    };
    let eff = actor.handle_command(Command::GetActualListeningAddress { ticket: 30 }, snap);
    match &eff.replies[0] {
        Reply::ListenAddr { ticket, result } => {
            assert_eq!(*ticket, 30);
            assert_eq!(result.as_ref().unwrap(), "addr-main");
        }
        _ => panic!("expected a ListenAddr reply"),
    }

    let eff = actor.handle_command(Command::GetActualListeningAddress { ticket: 31 }, snapshot());
    match &eff.replies[0] {
        Reply::ListenAddr { result, .. } => {
            assert!(matches!(result, Err(CoreError::NotFound)));
        }
        _ => panic!("expected a ListenAddr reply"),
    }
}
