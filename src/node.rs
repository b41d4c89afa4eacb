use vstd::prelude::*;

use crate::bytes_util::copy_bytes;

verus! {

/// Longest time, in seconds, that a DHT query may run before it resolves as
/// failed.
pub const QUERY_TIMEOUT_SECS: u64 = 300;

/// Period, in seconds, of the discovery retry timer.
pub const LOOKUP_INTERVAL_SECS: u64 = 10;

/// Time, in seconds, after which an idle connection is closed.
pub const IDLE_CONNECTION_TIMEOUT_SECS: u64 = 60;

/// The part a node plays around a named service.
#[derive(Clone, Copy, PartialEq, Eq, Debug)]
pub enum Role {
    /// Advertises itself as a provider of the service once bootstrapped.
    Server,
    /// Looks for a provider of the service and dials the first one found.
    Client,
}

/// A protocol or timer signal handed to the node's decision logic.
///
/// Peer identifiers are the binary form of a node id; addresses are the
/// textual form of a multi-address.
pub enum Event {
    /// The transport bound a new listen address.
    NewListenAddr,
    /// Peer metadata exchange told us the listen addresses of a peer.
    PeerIdentified { peer: Vec<u8>, addrs: Vec<String> },
    /// The bootstrap query succeeded.
    BootstrapOk,
    /// The bootstrap query failed or timed out.
    BootstrapFailed,
    /// Outcome of the provider advertisement that `StartProviding` asked for.
    ProvidingResult { ok: bool },
    /// A provider query returned a set of providers.
    ProvidersFound { providers: Vec<Vec<u8>> },
    /// A provider query finished without (further) providers.
    NoProviders,
    /// A connection to a peer was established.
    ConnectionEstablished { peer: Vec<u8> },
    /// The discovery retry timer fired.
    LookupTick,
}

/// What the event loop must do in answer to one event.
pub enum Action {
    /// Nothing beyond logging.
    NoOp,
    /// Add the bootstrap seeds to the routing table, then start a bootstrap
    /// query if `bootstrap` holds.
    AddSeeds { bootstrap: bool },
    /// Feed these addresses of `peer` into the routing table.
    AddAddresses { peer: Vec<u8>, addrs: Vec<String> },
    /// Advertise this node as a provider of the service key.
    StartProviding,
    /// Query the DHT for providers of the service key.
    GetProviders,
    /// Dial the discovered provider.
    Dial { peer: Vec<u8> },
    /// Record a freshly connected peer.
    Connected { peer: Vec<u8> },
}

/// Mathematical form of an [`Event`].
pub ghost enum EventModel {
    NewListenAddr,
    PeerIdentified { peer: Seq<u8>, addrs: Seq<Seq<char>> },
    BootstrapOk,
    BootstrapFailed,
    ProvidingResult { ok: bool },
    ProvidersFound { providers: Seq<Seq<u8>> },
    NoProviders,
    ConnectionEstablished { peer: Seq<u8> },
    LookupTick,
}

/// Mathematical form of an [`Action`].
pub ghost enum ActionModel {
    NoOp,
    AddSeeds { bootstrap: bool },
    AddAddresses { peer: Seq<u8>, addrs: Seq<Seq<char>> },
    StartProviding,
    GetProviders,
    Dial { peer: Seq<u8> },
    Connected { peer: Seq<u8> },
}

/// Mathematical form of a [`Node`]'s decision state.
pub ghost struct NodeModel {
    pub role: Role,
    pub bootstrap_requested: bool,
    pub bootstrapped: bool,
    pub registering: bool,
    pub registered: bool,
    pub discovered: Option<Seq<u8>>,
}

impl View for Event {
    type V = EventModel;

    open spec fn view(&self) -> EventModel {
        match self {
            Event::NewListenAddr => EventModel::NewListenAddr,
            Event::PeerIdentified { peer, addrs } => EventModel::PeerIdentified {
                peer: peer@,
                addrs: addrs.deep_view(),
            },
            Event::BootstrapOk => EventModel::BootstrapOk,
            Event::BootstrapFailed => EventModel::BootstrapFailed,
            Event::ProvidingResult { ok } => EventModel::ProvidingResult { ok: *ok },
            Event::ProvidersFound { providers } => EventModel::ProvidersFound {
                providers: providers.deep_view(),
            },
            Event::NoProviders => EventModel::NoProviders,
            Event::ConnectionEstablished { peer } => EventModel::ConnectionEstablished {
                peer: peer@,
            },
            Event::LookupTick => EventModel::LookupTick,
        }
    }
}

impl View for Action {
    type V = ActionModel;

    open spec fn view(&self) -> ActionModel {
        match self {
            Action::NoOp => ActionModel::NoOp,
            Action::AddSeeds { bootstrap } => ActionModel::AddSeeds { bootstrap: *bootstrap },
            Action::AddAddresses { peer, addrs } => ActionModel::AddAddresses {
                peer: peer@,
                addrs: addrs.deep_view(),
            },
            Action::StartProviding => ActionModel::StartProviding,
            Action::GetProviders => ActionModel::GetProviders,
            Action::Dial { peer } => ActionModel::Dial { peer: peer@ },
            Action::Connected { peer } => ActionModel::Connected { peer: peer@ },
        }
    }
}

/// The state a node starts in.
pub open spec fn initial(role: Role) -> NodeModel {
    NodeModel {
        role,
        bootstrap_requested: false,
        bootstrapped: false,
        registering: false,
        registered: false,
        discovered: None,
    }
}

/// One transition of the node: the next state and the action for `e`.
pub open spec fn step(s: NodeModel, e: EventModel) -> (NodeModel, ActionModel) {
    match e {
        EventModel::NewListenAddr => (
            NodeModel { bootstrap_requested: true, ..s },
            ActionModel::AddSeeds { bootstrap: !s.bootstrap_requested },
        ),
        EventModel::PeerIdentified { peer, addrs } => (
            s,
            ActionModel::AddAddresses { peer, addrs },
        ),
        EventModel::BootstrapOk => {
            if s.role == Role::Server && !s.registering && !s.registered {
                (
                    NodeModel { bootstrapped: true, registering: true, ..s },
                    ActionModel::StartProviding,
                )
            } else {
                (NodeModel { bootstrapped: true, ..s }, ActionModel::NoOp)
            }
        },
        EventModel::BootstrapFailed => (s, ActionModel::NoOp),
        EventModel::ProvidingResult { ok } => {
            if s.registering {
                (NodeModel { registering: false, registered: ok, ..s }, ActionModel::NoOp)
            } else {
                (s, ActionModel::NoOp)
            }
        },
        EventModel::ProvidersFound { providers } => {
            if s.discovered is None && providers.len() > 0 {
                (
                    NodeModel { discovered: Some(providers[0]), ..s },
                    ActionModel::Dial { peer: providers[0] },
                )
            } else {
                (s, ActionModel::NoOp)
            }
        },
        EventModel::NoProviders => (s, ActionModel::NoOp),
        EventModel::ConnectionEstablished { peer } => (s, ActionModel::Connected { peer }),
        EventModel::LookupTick => {
            if s.role == Role::Client && s.bootstrapped && s.discovered is None {
                (s, ActionModel::GetProviders)
            } else {
                (s, ActionModel::NoOp)
            }
        },
    }
}

/// The decision state of a node: the flags that gate registration and
/// discovery, owned by the event loop alone.
pub struct Node {
    role: Role,
    bootstrap_requested: bool,
    bootstrapped: bool,
    registering: bool,
    registered: bool,
    discovered: Option<Vec<u8>>,
}

impl View for Node {
    type V = NodeModel;

    closed spec fn view(&self) -> NodeModel {
        NodeModel {
            role: self.role,
            bootstrap_requested: self.bootstrap_requested,
            bootstrapped: self.bootstrapped,
            registering: self.registering,
            registered: self.registered,
            discovered: match self.discovered {
                Some(p) => Some(p@),
                None => None,
            },
        }
    }
}

impl Node {
    /// A node in the given role that has not yet listened, bootstrapped,
    /// registered or discovered anything.
    pub fn new(role: Role) -> (n: Node)
        ensures
            n@ == initial(role),
    {
        Node {
            role,
            bootstrap_requested: false,
            bootstrapped: false,
            registering: false,
            registered: false,
            discovered: None,
        }
    }

    /// Whether a bootstrap query has succeeded.
    pub fn is_bootstrapped(&self) -> (r: bool)
        ensures
            r == self@.bootstrapped,
    {
        self.bootstrapped
    }

    /// Whether the service advertisement has succeeded.
    pub fn is_registered(&self) -> (r: bool)
        ensures
            r == self@.registered,
    {
        self.registered
    }

    /// The provider that discovery settled on, if any.
    pub fn discovered_peer(&self) -> (r: Option<Vec<u8>>)
        ensures
            (r is Some) == (self@.discovered is Some),
            r is Some ==> r->0@ == self@.discovered->0,
    {
        match &self.discovered {
            Some(p) => Some(copy_bytes(p)),
            None => None,
        }
    }

    /// Takes one event and returns what the event loop must do next.
    pub fn handle_event(&mut self, event: Event) -> (action: Action)
        ensures
            (final(self)@, action@) == step(old(self)@, event@),
    {
        match event {
            Event::NewListenAddr => {
                let first = !self.bootstrap_requested;
                self.bootstrap_requested = true;
                Action::AddSeeds { bootstrap: first }
            },
            Event::PeerIdentified { peer, addrs } => Action::AddAddresses { peer, addrs },
            Event::BootstrapOk => {
                self.bootstrapped = true;
                if matches!(self.role, Role::Server) && !self.registering && !self.registered {
                    self.registering = true;
                    Action::StartProviding
                } else {
                    Action::NoOp
                }
            },
            Event::BootstrapFailed => Action::NoOp,
            Event::ProvidingResult { ok } => {
                if self.registering {
                    self.registering = false;
                    self.registered = ok;
                }
                Action::NoOp
            },
            Event::ProvidersFound { providers } => {
                if self.discovered.is_none() && providers.len() > 0 {
                    assert(providers.deep_view()[0] == providers@[0]@);
                    let first = copy_bytes(&providers[0]);
                    let dialed = copy_bytes(&providers[0]);
                    self.discovered = Some(first);
                    Action::Dial { peer: dialed }
                } else {
                    Action::NoOp
                }
            },
            Event::NoProviders => Action::NoOp,
            Event::ConnectionEstablished { peer } => Action::Connected { peer },
            Event::LookupTick => {
                if matches!(self.role, Role::Client) && self.bootstrapped
                    && self.discovered.is_none() {
                    Action::GetProviders
                } else {
                    Action::NoOp
                }
            },
        }
    }
}

/// The state reached from `s` after the events `evs`, taken in order.
pub open spec fn state_after(s: NodeModel, evs: Seq<EventModel>) -> NodeModel
    decreases evs.len(),
{
    if evs.len() == 0 {
        s
    } else {
        step(state_after(s, evs.drop_last()), evs.last()).0
    }
}

/// The actions answered, one per event, when the events `evs` reach a node in
/// state `s`.
pub open spec fn actions_of(s: NodeModel, evs: Seq<EventModel>) -> Seq<ActionModel>
    decreases evs.len(),
{
    if evs.len() == 0 {
        Seq::empty()
    } else {
        actions_of(s, evs.drop_last()).push(step(state_after(s, evs.drop_last()), evs.last()).1)
    }
}

/// How many provider advertisements the actions ask for.
pub open spec fn count_registrations(acts: Seq<ActionModel>) -> nat
    decreases acts.len(),
{
    if acts.len() == 0 {
        0
    } else {
        count_registrations(acts.drop_last()) + if acts.last() is StartProviding {
            1nat
        } else {
            0nat
        }
    }
}

/// How many of the events report a failed provider advertisement.
pub open spec fn count_failed_registrations(evs: Seq<EventModel>) -> nat
    decreases evs.len(),
{
    if evs.len() == 0 {
        0
    } else {
        count_failed_registrations(evs.drop_last()) + if evs.last() == (EventModel::ProvidingResult {
            ok: false,
        }) {
            1nat
        } else {
            0nat
        }
    }
}

/// The `k`-th action is the answer to the `k`-th event in the state that the
/// events before it reached.
pub proof fn lemma_actions_of_index(s: NodeModel, evs: Seq<EventModel>, k: int)
    requires
        0 <= k < evs.len(),
    ensures
        actions_of(s, evs).len() == evs.len(),
        actions_of(s, evs)[k] == step(state_after(s, evs.take(k)), evs[k]).1,
    decreases evs.len(),
{
    lemma_actions_of_len(s, evs);
    if k < evs.len() - 1 {
        lemma_actions_of_index(s, evs.drop_last(), k);
        assert(evs.drop_last().take(k) =~= evs.take(k));
    } else {
        assert(evs.take(k) =~= evs.drop_last());
    }
}

/// One action per event.
pub proof fn lemma_actions_of_len(s: NodeModel, evs: Seq<EventModel>)
    ensures
        actions_of(s, evs).len() == evs.len(),
    decreases evs.len(),
{
    if evs.len() > 0 {
        lemma_actions_of_len(s, evs.drop_last());
    }
}

/// Once a provider has been discovered it stays discovered.
pub proof fn lemma_discovery_persists(s: NodeModel, evs: Seq<EventModel>, i: int, j: int)
    requires
        0 <= i <= j <= evs.len(),
        state_after(s, evs.take(i)).discovered is Some,
    ensures
        state_after(s, evs.take(j)).discovered is Some,
    decreases j - i,
{
    if i < j {
        lemma_discovery_persists(s, evs, i, j - 1);
        assert(evs.take(j).drop_last() =~= evs.take(j - 1));
    }
}

/// Registration gating: a provider advertisement is only ever asked for in
/// answer to a successful bootstrap, so none precedes the first one; and the
/// node counts as bootstrapped from that event on.
pub proof fn lemma_registration_needs_bootstrap(role: Role, evs: Seq<EventModel>, k: int)
    requires
        0 <= k < evs.len(),
        actions_of(initial(role), evs)[k] is StartProviding,
    ensures
        evs[k] is BootstrapOk,
        role == Role::Server,
        state_after(initial(role), evs.take(k + 1)).bootstrapped,
{
    lemma_actions_of_index(initial(role), evs, k);
    assert(evs.take(k + 1).drop_last() =~= evs.take(k));
    lemma_role_kept(initial(role), evs.take(k));
}

/// No event changes the role of a node.
pub proof fn lemma_role_kept(s: NodeModel, evs: Seq<EventModel>)
    ensures
        state_after(s, evs).role == s.role,
    decreases evs.len(),
{
    if evs.len() > 0 {
        lemma_role_kept(s, evs.drop_last());
    }
}

/// At-most-once registration: over any run, a node asks for a provider
/// advertisement at most once more than the number of advertisements that were
/// reported failed; so at most once when none fails, however many bootstrap
/// successes arrive.
pub proof fn lemma_registration_at_most_once(role: Role, evs: Seq<EventModel>)
    ensures
        count_registrations(actions_of(initial(role), evs)) <= 1
            + count_failed_registrations(evs),
        count_failed_registrations(evs) == 0 ==> count_registrations(
            actions_of(initial(role), evs),
        ) <= 1,
{
    lemma_registration_budget(initial(role), evs);
}

/// The number of advertisements asked for never exceeds the failures reported,
/// plus one while an advertisement is pending or done.
proof fn lemma_registration_budget(s: NodeModel, evs: Seq<EventModel>)
    requires
        !s.registering,
        !s.registered,
    ensures
        count_registrations(actions_of(s, evs)) <= count_failed_registrations(evs) + if state_after(
            s,
            evs,
        ).registering || state_after(s, evs).registered {
            1nat
        } else {
            0nat
        },
    decreases evs.len(),
{
    if evs.len() > 0 {
        let prev = evs.drop_last();
        lemma_registration_budget(s, prev);
        let a = step(state_after(s, prev), evs.last()).1;
        assert(actions_of(s, prev).push(a).drop_last() =~= actions_of(s, prev));
    }
}

/// Discovery idempotence: once a provider has been discovered, no later event,
/// timer ticks included, makes the node query for providers again.
pub proof fn lemma_no_lookup_after_discovery(
    role: Role,
    evs: Seq<EventModel>,
    i: int,
    k: int,
)
    requires
        0 <= i <= k < evs.len(),
        state_after(initial(role), evs.take(i)).discovered is Some,
    ensures
        !(actions_of(initial(role), evs)[k] is GetProviders),
{
    lemma_discovery_persists(initial(role), evs, i, k);
    lemma_actions_of_index(initial(role), evs, k);
}

} // verus!
