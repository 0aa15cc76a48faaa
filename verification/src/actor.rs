//! The network actor's decision logic.
//!
//! One task exclusively owns the swarm; everything else reaches it through
//! commands answered by one-shot replies, identified here by tickets. The
//! actor keeps one pending-reply map per asynchronous operation kind —
//! dials keyed by peer id, DHT queries and outbound requests keyed by the
//! id the transport handed out — inserting an entry when the operation is
//! issued and removing it exactly once when the matching outcome arrives.
//! An outcome with no matching pending entry is a protocol violation: it is
//! reported and the actor carries on.
//!
//! The surrounding runtime performs the transport work: it polls the
//! swarm, turns what it sees into [`SwarmEvent`] values, carries out the
//! [`Action`]s returned here, and routes each [`Reply`] to the ticket's
//! one-shot channel.

use vstd::prelude::*;
use vstd::hash_map::HashMapWithView;
use vstd::hash_map::StringHashMap;
use crate::CoreError;

verus! {

/// A command sent to the actor by a client handle. `ticket` identifies the
/// caller's one-shot reply channel.
pub enum Command {
    /// Bind the transport to `addr` and register the self-address.
    StartListening { addr: String, ticket: u64 },
    /// Snapshot the connected peers.
    GetPeers { ticket: u64 },
    /// Snapshot the connected peers (the available-peer view).
    GetAvailablePeers { ticket: u64 },
    /// Connect to a peer at an address.
    Dial { peer_id: String, peer_addr: String, ticket: u64 },
    /// Advertise this node on the DHT as a provider of `key`.
    StartProviding { key: String, ticket: u64 },
    /// Look up the providers of `key` on the DHT.
    GetProviders { key: String, ticket: u64 },
    /// Fetch the payload stored under `key` from `peer`.
    RequestFile { key: String, peer: String, ticket: u64 },
    /// Answer a previously received inbound request; fire-and-forget.
    RespondFile { payload: Vec<u8>, channel_id: u64 },
    /// Issue a best-effort closest-peers lookup; the result is not awaited.
    FindPeers { target_peer_id: String },
    /// Report the first active listen address.
    GetActualListeningAddress { ticket: u64 },
    /// Ask `peer` to start providing `key`; fire-and-forget.
    StartProvidingRequest { peer: String, key: String },
}

/// What the actor observed on the swarm, reduced to plain values.
pub enum SwarmEvent {
    /// A start-providing DHT query completed.
    StartProvidingProgressed { query_id: u64 },
    /// The DHT learned a route to a peer; the actor dials it.
    RoutingUpdated { peer_id: String, address: String },
    /// Local discovery announced peers and their addresses.
    MdnsDiscovered { peers: Vec<(String, String)> },
    /// A get-providers DHT query returned its first provider set.
    ProvidersFound { query_id: u64, providers: Vec<String> },
    /// A get-providers query finished with no further records.
    ProvidersFinished { query_id: u64 },
    /// A remote peer asked for the payload stored under `request`.
    InboundRequest { request: String, channel_id: u64 },
    /// An outbound request came back with a payload.
    ResponseReceived { request_id: u64, payload: Vec<u8> },
    /// An outbound request failed in the transport.
    OutboundFailure { request_id: u64, cause: String },
    /// A response of ours reached its requester.
    ResponseSent,
    /// The transport bound a new listen address.
    NewListenAddr { address: String },
    /// An inbound connection attempt started.
    IncomingConnection,
    /// A connection is up; `is_dialer` says whether this side initiated it.
    ConnectionEstablished { peer_id: String, is_dialer: bool },
    /// A connection went down.
    ConnectionClosed { peer_id: String },
    /// An outgoing connection attempt failed.
    OutgoingConnectionError { peer_id: Option<String>, cause: String },
    /// An inbound connection attempt failed.
    IncomingConnectionError,
    /// The transport started dialing.
    Dialing { peer_id: Option<String> },
}

/// A reply owed to a ticket's one-shot channel.
pub enum Reply {
    /// StartListening finished: the local peer id, or the listen failure.
    Listening { ticket: u64, result: Result<String, CoreError> },
    /// The connected-peer snapshot.
    Peers { ticket: u64, peers: Vec<String> },
    /// A dial resolved.
    DialDone { ticket: u64, result: Result<(), CoreError> },
    /// A start-providing advertisement completed.
    ProvideConfirmed { ticket: u64 },
    /// The provider set found for a get-providers query.
    Providers { ticket: u64, providers: Vec<String> },
    /// An outbound file request resolved.
    FileResult { ticket: u64, result: Result<Vec<u8>, CoreError> },
    /// The first active listen address, or NotFound.
    ListenAddr { ticket: u64, result: Result<String, CoreError> },
}

/// Transport work the runtime must carry out for the actor.
pub enum Action {
    /// Add a peer's address to the DHT routing table.
    AddAddress { peer_id: String, address: String },
    /// Dial an address the DHT just learned.
    DialAddress { address: String },
    /// Finish a DHT query early: only its first result is wanted.
    FinishQuery { query_id: u64 },
    /// Send a request for `key` to `peer_id` over the exchange protocol.
    SendRequest { peer_id: String, key: String },
    /// Send a payload back over an inbound request's reply channel.
    SendResponse { channel_id: u64, payload: Vec<u8> },
    /// Issue a closest-peers DHT lookup.
    FindClosestPeers { peer_id: String },
}

/// An event the actor surfaces to the hosting application.
pub enum Event {
    /// A remote peer asked for the payload stored under `request`; answer
    /// over `channel_id` with a RespondFile command.
    InboundRequest { request: String, channel_id: u64 },
}

/// Everything one actor step decided: replies to route, transport actions
/// to perform, events to surface, and whether a protocol violation was
/// observed (an outcome with no matching pending entry — reported, never
/// fatal).
pub struct Effects {
    pub replies: Vec<Reply>,
    pub actions: Vec<Action>,
    pub events: Vec<Event>,
    pub violation: bool,
}

impl Effects {
    /// No replies, no actions, no events.
    pub open spec fn is_empty_spec(&self) -> bool {
        self.replies@ == Seq::<Reply>::empty() && self.actions@ == Seq::<Action>::empty()
            && self.events@ == Seq::<Event>::empty()
    }

    fn new() -> (e: Effects)
        ensures
            e.is_empty_spec(),
            !e.violation,
    {
        Effects { replies: Vec::new(), actions: Vec::new(), events: Vec::new(), violation: false }
    }
}

/// What the runtime saw on the transport while issuing the current
/// command: the id the transport handed out for a query or request just
/// issued, the local peer id, connection and listener snapshots, and the
/// immediate outcome of a listen or dial attempt. Only the fields the
/// command at hand speaks of are read.
pub struct TransportSnapshot {
    /// The id under which the transport issued the query or request that
    /// this command asked for.
    pub fresh_id: u64,
    /// This node's peer id.
    pub local_peer_id: String,
    /// The peers currently connected.
    pub connected_peers: Vec<String>,
    /// The currently active listen addresses, first one first.
    pub listen_addrs: Vec<String>,
    /// Whether the listen attempt succeeded (StartListening only).
    pub listen_ok: bool,
    /// The listen failure's cause when it did not.
    pub listen_err: String,
    /// Whether the dial attempt was issued successfully (Dial only).
    pub dial_ok: bool,
    /// The dial failure's cause when it was not.
    pub dial_err: String,
}

/// The actor's bookkeeping: one pending-reply map per asynchronous
/// operation kind.
pub struct EventLoop {
    pending_dial: StringHashMap<u64>,
    pending_start_providing: HashMapWithView<u64, u64>,
    pending_get_providers: HashMapWithView<u64, u64>,
    pending_request_file: HashMapWithView<u64, u64>,
}

impl EventLoop {
    /// Pending dials: peer id dialed → ticket awaiting the outcome.
    pub closed spec fn dials(&self) -> Map<Seq<char>, u64> {
        self.pending_dial@
    }

    /// Pending start-providing queries: query id → ticket.
    pub closed spec fn providing(&self) -> Map<u64, u64> {
        self.pending_start_providing@
    }

    /// Pending get-providers queries: query id → ticket.
    pub closed spec fn providers_queries(&self) -> Map<u64, u64> {
        self.pending_get_providers@
    }

    /// Pending outbound file requests: request id → ticket.
    pub closed spec fn requests(&self) -> Map<u64, u64> {
        self.pending_request_file@
    }

    /// An actor with nothing pending.
    pub fn new() -> (e: EventLoop)
        ensures
            e.dials() == Map::<Seq<char>, u64>::empty(),
            e.providing() == Map::<u64, u64>::empty(),
            e.providers_queries() == Map::<u64, u64>::empty(),
            e.requests() == Map::<u64, u64>::empty(),
    {
        EventLoop {
            pending_dial: StringHashMap::new(),
            pending_start_providing: HashMapWithView::new(),
            pending_get_providers: HashMapWithView::new(),
            pending_request_file: HashMapWithView::new(),
        }
    }

    /// Whether a dial to `peer_id` is already in flight. A second dial to
    /// such a peer is a no-op until the first resolves.
    pub fn is_dialing(&self, peer_id: &String) -> (r: bool)
        ensures
            r == self.dials().contains_key(peer_id@),
    {
        self.pending_dial.contains_key(peer_id.as_str())
    }

    /// Processes one swarm event: resolves the matching pending reply
    /// exactly once, or reports a protocol violation when none matches;
    /// feeds discovered addresses to the routing table; surfaces inbound
    /// requests. See [`event_step`] for the full statement.
    pub fn handle_event(&mut self, ev: SwarmEvent) -> (eff: Effects)
        ensures
            event_step(*old(self), *final(self), ev, eff),
    {
        let mut eff = Effects::new();
        match ev {
            SwarmEvent::StartProvidingProgressed { query_id } => {
                match self.pending_start_providing.remove(&query_id) {
                    Some(ticket) => {
                        eff.replies.push(Reply::ProvideConfirmed { ticket });
                        proof {
                            assert(eff.replies@ =~= seq![
                                Reply::ProvideConfirmed { ticket: old(self).providing()[query_id] },
                            ]);
                        }
                    },
                    None => {
                        eff.violation = true;
                    },
                }
            },
            SwarmEvent::RoutingUpdated { peer_id: _, address } => {
                eff.actions.push(Action::DialAddress { address });
                proof {
                    assert(eff.actions@ =~= seq![
                        Action::DialAddress { address: eff.actions@[0]->DialAddress_address },
                    ]);
                }
            },
            SwarmEvent::MdnsDiscovered { peers } => {
                let n = peers.len();
                let mut i: usize = 0;
                while i < n
                    invariant
                        i <= n,
                        n == peers@.len(),
                        self == old(self),
                        eff.replies@ == Seq::<Reply>::empty(),
                        eff.events@ == Seq::<Event>::empty(),
                        !eff.violation,
                        eff.actions@.len() == i,
                        forall|j: int|
                            0 <= j < i ==> #[trigger] eff.actions@[j] == (Action::AddAddress {
                                peer_id: peers@[j].0,
                                address: peers@[j].1,
                            }),
                    decreases n - i,
                {
                    let peer_id = peers[i].0.clone();
                    let address = peers[i].1.clone();
                    eff.actions.push(Action::AddAddress { peer_id, address });
                    i = i + 1;
                }
            },
            SwarmEvent::ProvidersFound { query_id, providers } => {
                match self.pending_get_providers.remove(&query_id) {
                    Some(ticket) => {
                        eff.replies.push(Reply::Providers { ticket, providers });
                        eff.actions.push(Action::FinishQuery { query_id });
                        proof {
                            assert(eff.actions@ =~= seq![Action::FinishQuery { query_id }]);
                        }
                    },
                    None => {
                        eff.violation = true;
                    },
                }
            },
            SwarmEvent::ProvidersFinished { .. } => {},
            SwarmEvent::InboundRequest { request, channel_id } => {
                eff.events.push(Event::InboundRequest { request, channel_id });
            },
            SwarmEvent::ResponseReceived { request_id, payload } => {
                match self.pending_request_file.remove(&request_id) {
                    Some(ticket) => {
                        eff.replies.push(Reply::FileResult { ticket, result: Ok(payload) });
                    },
                    None => {
                        eff.violation = true;
                    },
                }
            },
            SwarmEvent::OutboundFailure { request_id, cause } => {
                match self.pending_request_file.remove(&request_id) {
                    Some(ticket) => {
                        eff.replies.push(
                            Reply::FileResult {
                                ticket,
                                result: Err(CoreError::Transport { cause }),
                            },
                        );
                    },
                    None => {
                        eff.violation = true;
                    },
                }
            },
            SwarmEvent::ResponseSent => {},
            SwarmEvent::NewListenAddr { .. } => {},
            SwarmEvent::IncomingConnection => {},
            SwarmEvent::ConnectionEstablished { peer_id, is_dialer } => {
                if is_dialer {
                    match self.pending_dial.get(peer_id.as_str()) {
                        Some(t) => {
                            let ticket = *t;
                            self.pending_dial.remove(peer_id.as_str());
                            eff.replies.push(Reply::DialDone { ticket, result: Ok(()) });
                        },
                        None => {},
                    }
                }
            },
            SwarmEvent::ConnectionClosed { .. } => {},
            SwarmEvent::OutgoingConnectionError { peer_id, cause } => {
                match peer_id {
                    Some(peer) => {
                        match self.pending_dial.get(peer.as_str()) {
                            Some(t) => {
                                let ticket = *t;
                                self.pending_dial.remove(peer.as_str());
                                eff.replies.push(
                                    Reply::DialDone {
                                        ticket,
                                        result: Err(CoreError::Transport { cause }),
                                    },
                                );
                            },
                            None => {},
                        }
                    },
                    None => {},
                }
            },
            SwarmEvent::IncomingConnectionError => {},
            SwarmEvent::Dialing { .. } => {},
        }
        eff
    }

    /// Processes one client command against the snapshot of transport
    /// facts the runtime gathered while issuing it: records the pending
    /// reply where the outcome arrives later, or answers at once where the
    /// transport already decided. See [`command_step`] for the full
    /// statement.
    ///
    /// Call order at the runtime: for StartProviding, GetProviders and
    /// RequestFile, issue the query or request first and hand its id in
    /// `snap.fresh_id`; for Dial, attempt the dial only when
    /// [`Self::is_dialing`] is false and hand the outcome in
    /// `snap.dial_ok`; for StartListening, attempt the listen and hand the
    /// outcome in `snap.listen_ok`.
    pub fn handle_command(&mut self, cmd: Command, snap: TransportSnapshot) -> (eff: Effects)
        ensures
            command_step(*old(self), *final(self), cmd, snap, eff),
    {
        let mut eff = Effects::new();
        match cmd {
            Command::StartListening { addr, ticket } => {
                let local = snap.local_peer_id.clone();
                eff.actions.push(Action::AddAddress { peer_id: local, address: addr });
                if snap.listen_ok {
                    eff.replies.push(
                        Reply::Listening { ticket, result: Ok(snap.local_peer_id) },
                    );
                } else {
                    eff.replies.push(
                        Reply::Listening {
                            ticket,
                            result: Err(CoreError::Transport { cause: snap.listen_err }),
                        },
                    );
                }
            },
            Command::GetPeers { ticket } => {
                eff.replies.push(Reply::Peers { ticket, peers: snap.connected_peers });
            },
            Command::GetAvailablePeers { ticket } => {
                eff.replies.push(Reply::Peers { ticket, peers: snap.connected_peers });
            },
            Command::Dial { peer_id, peer_addr, ticket } => {
                if !self.pending_dial.contains_key(peer_id.as_str()) {
                    let peer_for_action = peer_id.clone();
                    eff.actions.push(
                        Action::AddAddress { peer_id: peer_for_action, address: peer_addr },
                    );
                    if snap.dial_ok {
                        self.pending_dial.insert(peer_id, ticket);
                    } else {
                        eff.replies.push(
                            Reply::DialDone {
                                ticket,
                                result: Err(CoreError::Transport { cause: snap.dial_err }),
                            },
                        );
                    }
                }
            },
            Command::StartProviding { key: _, ticket } => {
                self.pending_start_providing.insert(snap.fresh_id, ticket);
            },
            Command::GetProviders { key: _, ticket } => {
                self.pending_get_providers.insert(snap.fresh_id, ticket);
            },
            Command::RequestFile { key: _, peer: _, ticket } => {
                self.pending_request_file.insert(snap.fresh_id, ticket);
            },
            Command::RespondFile { payload, channel_id } => {
                eff.actions.push(Action::SendResponse { channel_id, payload });
            },
            Command::FindPeers { target_peer_id } => {
                eff.actions.push(Action::FindClosestPeers { peer_id: target_peer_id });
            },
            Command::GetActualListeningAddress { ticket } => {
                if snap.listen_addrs.len() > 0 {
                    let first = snap.listen_addrs[0].clone();
                    eff.replies.push(Reply::ListenAddr { ticket, result: Ok(first) });
                } else {
                    eff.replies.push(
                        Reply::ListenAddr { ticket, result: Err(CoreError::NotFound) },
                    );
                }
            },
            Command::StartProvidingRequest { peer, key } => {
                eff.actions.push(Action::SendRequest { peer_id: peer, key });
            },
        }
        eff
    }
}

/// What one client command does to the actor, given the transport facts in
/// `snap`: which pending entry it records under which id, and which
/// replies and actions it produces at once.
pub open spec fn command_step(
    pre: EventLoop,
    post: EventLoop,
    cmd: Command,
    snap: TransportSnapshot,
    eff: Effects,
) -> bool {
    match cmd {
        Command::StartListening { addr, ticket } => {
            &&& maps_unchanged(pre, post)
            &&& eff.actions@ == seq![
                Action::AddAddress { peer_id: snap.local_peer_id, address: addr },
            ]
            &&& eff.replies@ == seq![
                Reply::Listening {
                    ticket,
                    result: if snap.listen_ok {
                        Ok(snap.local_peer_id)
                    } else {
                        Err(CoreError::Transport { cause: snap.listen_err })
                    },
                },
            ]
            &&& eff.events@ == Seq::<Event>::empty()
            &&& !eff.violation
        },
        Command::GetPeers { ticket } => {
            &&& maps_unchanged(pre, post)
            &&& eff.replies@ == seq![Reply::Peers { ticket, peers: snap.connected_peers }]
            &&& eff.actions@ == Seq::<Action>::empty()
            &&& eff.events@ == Seq::<Event>::empty()
            &&& !eff.violation
        },
        Command::GetAvailablePeers { ticket } => {
            &&& maps_unchanged(pre, post)
            &&& eff.replies@ == seq![Reply::Peers { ticket, peers: snap.connected_peers }]
            &&& eff.actions@ == Seq::<Action>::empty()
            &&& eff.events@ == Seq::<Event>::empty()
            &&& !eff.violation
        },
        Command::Dial { peer_id, peer_addr, ticket } => {
            if pre.dials().contains_key(peer_id@) {
                &&& maps_unchanged(pre, post)
                &&& eff.is_empty_spec()
                &&& !eff.violation
            } else {
                &&& eff.actions@ == seq![
                    Action::AddAddress { peer_id: peer_id, address: peer_addr },
                ]
                &&& eff.events@ == Seq::<Event>::empty()
                &&& post.providing() == pre.providing()
                &&& post.providers_queries() == pre.providers_queries()
                &&& post.requests() == pre.requests()
                &&& !eff.violation
                &&& if snap.dial_ok {
                    &&& post.dials() == pre.dials().insert(peer_id@, ticket)
                    &&& eff.replies@ == Seq::<Reply>::empty()
                } else {
                    &&& post.dials() == pre.dials()
                    &&& eff.replies@ == seq![
                        Reply::DialDone {
                            ticket,
                            result: Err(CoreError::Transport { cause: snap.dial_err }),
                        },
                    ]
                }
            }
        },
        Command::StartProviding { key: _, ticket } => {
            &&& post.providing() == pre.providing().insert(snap.fresh_id, ticket)
            &&& post.dials() == pre.dials()
            &&& post.providers_queries() == pre.providers_queries()
            &&& post.requests() == pre.requests()
            &&& eff.is_empty_spec()
            &&& !eff.violation
        },
        Command::GetProviders { key: _, ticket } => {
            &&& post.providers_queries() == pre.providers_queries().insert(snap.fresh_id, ticket)
            &&& post.dials() == pre.dials()
            &&& post.providing() == pre.providing()
            &&& post.requests() == pre.requests()
            &&& eff.is_empty_spec()
            &&& !eff.violation
        },
        Command::RequestFile { key: _, peer: _, ticket } => {
            &&& post.requests() == pre.requests().insert(snap.fresh_id, ticket)
            &&& post.dials() == pre.dials()
            &&& post.providing() == pre.providing()
            &&& post.providers_queries() == pre.providers_queries()
            &&& eff.is_empty_spec()
            &&& !eff.violation
        },
        Command::RespondFile { payload, channel_id } => {
            &&& maps_unchanged(pre, post)
            &&& eff.actions@ == seq![Action::SendResponse { channel_id, payload }]
            &&& eff.replies@ == Seq::<Reply>::empty()
            &&& eff.events@ == Seq::<Event>::empty()
            &&& !eff.violation
        },
        Command::FindPeers { target_peer_id } => {
            &&& maps_unchanged(pre, post)
            &&& eff.actions@ == seq![Action::FindClosestPeers { peer_id: target_peer_id }]
            &&& eff.replies@ == Seq::<Reply>::empty()
            &&& eff.events@ == Seq::<Event>::empty()
            &&& !eff.violation
        },
        Command::GetActualListeningAddress { ticket } => {
            &&& maps_unchanged(pre, post)
            &&& eff.replies@ == seq![
                Reply::ListenAddr {
                    ticket,
                    result: if snap.listen_addrs@.len() > 0 {
                        Ok(snap.listen_addrs@[0])
                    } else {
                        Err(CoreError::NotFound)
                    },
                },
            ]
            &&& eff.actions@ == Seq::<Action>::empty()
            &&& eff.events@ == Seq::<Event>::empty()
            &&& !eff.violation
        },
        Command::StartProvidingRequest { peer, key } => {
            &&& maps_unchanged(pre, post)
            &&& eff.actions@ == seq![Action::SendRequest { peer_id: peer, key }]
            &&& eff.replies@ == Seq::<Reply>::empty()
            &&& eff.events@ == Seq::<Event>::empty()
            &&& !eff.violation
        },
    }
}

/// Nothing pending changed across a step.
pub open spec fn maps_unchanged(pre: EventLoop, post: EventLoop) -> bool {
    &&& post.dials() == pre.dials()
    &&& post.providing() == pre.providing()
    &&& post.providers_queries() == pre.providers_queries()
    &&& post.requests() == pre.requests()
}

/// What one swarm event does to the actor: which pending entry it
/// resolves (exactly once, removing it), what it replies, which transport
/// actions and application events it produces, and when a missing pending
/// entry is flagged as a protocol violation.
pub open spec fn event_step(pre: EventLoop, post: EventLoop, ev: SwarmEvent, eff: Effects) -> bool {
    match ev {
        SwarmEvent::StartProvidingProgressed { query_id } => {
            if pre.providing().contains_key(query_id) {
                &&& post.providing() == pre.providing().remove(query_id)
                &&& post.dials() == pre.dials()
                &&& post.providers_queries() == pre.providers_queries()
                &&& post.requests() == pre.requests()
                &&& eff.replies@ == seq![
                    Reply::ProvideConfirmed { ticket: pre.providing()[query_id] },
                ]
                &&& eff.actions@ == Seq::<Action>::empty()
                &&& eff.events@ == Seq::<Event>::empty()
                &&& !eff.violation
            } else {
                &&& maps_unchanged(pre, post)
                &&& eff.is_empty_spec()
                &&& eff.violation
            }
        },
        SwarmEvent::RoutingUpdated { peer_id: _, address } => {
            &&& maps_unchanged(pre, post)
            &&& eff.replies@ == Seq::<Reply>::empty()
            &&& eff.actions@ == seq![Action::DialAddress { address }]
            &&& eff.events@ == Seq::<Event>::empty()
            &&& !eff.violation
        },
        SwarmEvent::MdnsDiscovered { peers } => {
            &&& maps_unchanged(pre, post)
            &&& eff.replies@ == Seq::<Reply>::empty()
            &&& eff.events@ == Seq::<Event>::empty()
            &&& eff.actions@.len() == peers@.len()
            &&& forall|j: int|
                0 <= j < peers@.len() ==> #[trigger] eff.actions@[j] == (Action::AddAddress {
                    peer_id: peers@[j].0,
                    address: peers@[j].1,
                })
            &&& !eff.violation
        },
        SwarmEvent::ProvidersFound { query_id, providers } => {
            if pre.providers_queries().contains_key(query_id) {
                &&& post.providers_queries() == pre.providers_queries().remove(query_id)
                &&& post.dials() == pre.dials()
                &&& post.providing() == pre.providing()
                &&& post.requests() == pre.requests()
                &&& eff.replies@ == seq![
                    Reply::Providers { ticket: pre.providers_queries()[query_id], providers },
                ]
                &&& eff.actions@ == seq![Action::FinishQuery { query_id }]
                &&& eff.events@ == Seq::<Event>::empty()
                &&& !eff.violation
            } else {
                &&& maps_unchanged(pre, post)
                &&& eff.is_empty_spec()
                &&& eff.violation
            }
        },
        SwarmEvent::ProvidersFinished { .. } => {
            &&& maps_unchanged(pre, post)
            &&& eff.is_empty_spec()
            &&& !eff.violation
        },
        SwarmEvent::InboundRequest { request, channel_id } => {
            &&& maps_unchanged(pre, post)
            &&& eff.replies@ == Seq::<Reply>::empty()
            &&& eff.actions@ == Seq::<Action>::empty()
            &&& eff.events@ == seq![Event::InboundRequest { request, channel_id }]
            &&& !eff.violation
        },
        SwarmEvent::ResponseReceived { request_id, payload } => {
            if pre.requests().contains_key(request_id) {
                &&& post.requests() == pre.requests().remove(request_id)
                &&& post.dials() == pre.dials()
                &&& post.providing() == pre.providing()
                &&& post.providers_queries() == pre.providers_queries()
                &&& eff.replies@ == seq![
                    Reply::FileResult { ticket: pre.requests()[request_id], result: Ok(payload) },
                ]
                &&& eff.actions@ == Seq::<Action>::empty()
                &&& eff.events@ == Seq::<Event>::empty()
                &&& !eff.violation
            } else {
                &&& maps_unchanged(pre, post)
                &&& eff.is_empty_spec()
                &&& eff.violation
            }
        },
        SwarmEvent::OutboundFailure { request_id, cause } => {
            if pre.requests().contains_key(request_id) {
                &&& post.requests() == pre.requests().remove(request_id)
                &&& post.dials() == pre.dials()
                &&& post.providing() == pre.providing()
                &&& post.providers_queries() == pre.providers_queries()
                &&& eff.replies@ == seq![
                    Reply::FileResult {
                        ticket: pre.requests()[request_id],
                        result: Err(CoreError::Transport { cause }),
                    },
                ]
                &&& eff.actions@ == Seq::<Action>::empty()
                &&& eff.events@ == Seq::<Event>::empty()
                &&& !eff.violation
            } else {
                &&& maps_unchanged(pre, post)
                &&& eff.is_empty_spec()
                &&& eff.violation
            }
        },
        SwarmEvent::ConnectionEstablished { peer_id, is_dialer } => {
            if is_dialer && pre.dials().contains_key(peer_id@) {
                &&& post.dials() == pre.dials().remove(peer_id@)
                &&& post.providing() == pre.providing()
                &&& post.providers_queries() == pre.providers_queries()
                &&& post.requests() == pre.requests()
                &&& eff.replies@ == seq![
                    Reply::DialDone { ticket: pre.dials()[peer_id@], result: Ok(()) },
                ]
                &&& eff.actions@ == Seq::<Action>::empty()
                &&& eff.events@ == Seq::<Event>::empty()
                &&& !eff.violation
            } else {
                &&& maps_unchanged(pre, post)
                &&& eff.is_empty_spec()
                &&& !eff.violation
            }
        },
        SwarmEvent::OutgoingConnectionError { peer_id, cause } => {
            if peer_id is Some && pre.dials().contains_key(peer_id->Some_0@) {
                &&& post.dials() == pre.dials().remove(peer_id->Some_0@)
                &&& post.providing() == pre.providing()
                &&& post.providers_queries() == pre.providers_queries()
                &&& post.requests() == pre.requests()
                &&& eff.replies@ == seq![
                    Reply::DialDone {
                        ticket: pre.dials()[peer_id->Some_0@],
                        result: Err(CoreError::Transport { cause }),
                    },
                ]
                &&& eff.actions@ == Seq::<Action>::empty()
                &&& eff.events@ == Seq::<Event>::empty()
                &&& !eff.violation
            } else {
                &&& maps_unchanged(pre, post)
                &&& eff.is_empty_spec()
                &&& !eff.violation
            }
        },
        _ => {
            &&& maps_unchanged(pre, post)
            &&& eff.is_empty_spec()
            &&& !eff.violation
        },
    }
}

} // verus!
