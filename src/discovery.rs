//! The responder side of the discovery protocol: one engine per connection,
//! working against the process-wide channel registry.

use vstd::prelude::*;

use crate::channels::{ascending_ids, distinct_ids, id_set, ChannelSet};
use crate::message::{message_ids, AddressView, DiscoveryMessage, DiscoveryState, NodeAddress};

use rand::{Rng, SeedableRng};

verus! {

#[verifier::external_type_specification]
#[verifier::external_body]
pub struct ExSmallRng(rand::rngs::SmallRng);

/// Relies on `SeedableRng::seed_from_u64` for rand's `SmallRng`: a generator
/// seeded from one integer; it does not fail.
#[verifier::external_body]
fn seeded_rng(seed: u64) -> (r: rand::rngs::SmallRng) {
    rand::rngs::SmallRng::seed_from_u64(seed)
}

/// Relies on `Rng::gen_range(low, high)`: a value in `[low, high)`; it
/// panics only where `low >= high`.
#[verifier::external_body]
fn gen_range_u16(rng: &mut rand::rngs::SmallRng, low: u16, high: u16) -> (r: u16)
    requires
        low < high,
    ensures
        low <= r < high,
{
    rng.gen_range(low, high)
}

/// Lowest port that a responder allocates.
pub const MIN_PORT: u16 = 1024;

/// Bound, not included, of the ports that a responder allocates.
pub const MAX_PORT: u16 = 65535;

/// The address that answers a `Connect` for `requested`: unchanged where it
/// has a port, else the same address with port `drawn`.
pub open spec fn answered_address(requested: AddressView, drawn: u16) -> AddressView {
    match requested.port {
        Some(_) => requested,
        None => AddressView { port: Some(drawn), ..requested },
    }
}

/// The ids contributed by a connection after `rounds` of `QueueData`,
/// starting from `contributed`.
pub open spec fn contributed_after(
    contributed: Set<Seq<char>>,
    rounds: Seq<Set<Seq<char>>>,
) -> Set<Seq<char>>
    decreases rounds.len(),
{
    if rounds.len() == 0 {
        contributed
    } else {
        contributed_after(contributed, rounds.drop_last()).union(rounds.last())
    }
}

/// The registry after `rounds` of `QueueData` from one connection, starting
/// from `registry` and the connection's `contributed` ids.
pub open spec fn registry_after(
    registry: Set<Seq<char>>,
    contributed: Set<Seq<char>>,
    rounds: Seq<Set<Seq<char>>>,
) -> Set<Seq<char>>
    decreases rounds.len(),
{
    if rounds.len() == 0 {
        registry
    } else {
        registry_after(registry, contributed, rounds.drop_last()).union(
            contributed_after(contributed, rounds),
        )
    }
}

/// The `ConnectResponse` for a `Connect` that asked for `requested`, where
/// `drawn` is the port to allocate if `requested` has none.
pub fn connect_response(requested: NodeAddress, drawn: u16) -> (r: DiscoveryMessage)
    ensures
        r.state == DiscoveryState::ConnectResponse,
        r.uri@ == answered_address(requested@, drawn),
        r.channels@.len() == 0,
{
    let uri = match requested.port {
        Some(_) => requested,
        None => NodeAddress {
            scheme: requested.scheme,
            host: requested.host,
            port: Some(drawn),
            path: requested.path,
        },
    };
    DiscoveryMessage { state: DiscoveryState::ConnectResponse, uri, channels: Vec::new() }
}

/// The protocol engine of one discovery connection. It remembers which
/// channel ids this connection has contributed to the registry.
pub struct DiscoveryServer {
    local_channels: ChannelSet,
    rng: rand::rngs::SmallRng,
}

impl DiscoveryServer {
    /// The engine's own state is consistent.
    pub closed spec fn wf(&self) -> bool {
        self.local_channels.wf()
    }

    /// The channel ids that this connection has contributed.
    pub closed spec fn contributed(&self) -> Set<Seq<char>> {
        self.local_channels@
    }

    /// An engine for a new connection, which has contributed nothing yet;
    /// `seed` seeds its port allocation.
    pub fn new(seed: u64) -> (r: DiscoveryServer)
        ensures
            r.wf(),
            r.contributed() == Set::<Seq<char>>::empty(),
    {
        DiscoveryServer { local_channels: ChannelSet::new(), rng: seeded_rng(seed) }
    }

    /// Answers a `Connect`: an address without a port gets one allocated at
    /// random in `[MIN_PORT, MAX_PORT)` with scheme, host and path kept; an
    /// address with a port is echoed unchanged.
    pub fn on_connect(&mut self, msg: DiscoveryMessage) -> (r: DiscoveryMessage)
        requires
            old(self).wf(),
        ensures
            final(self).wf(),
            final(self).contributed() == old(self).contributed(),
            r.state == DiscoveryState::ConnectResponse,
            r.channels@.len() == 0,
            msg.uri.port is Some ==> r.uri@ == msg.uri@,
            msg.uri.port is None ==> {
                &&& r.uri@.scheme == msg.uri@.scheme
                &&& r.uri@.host == msg.uri@.host
                &&& r.uri@.path == msg.uri@.path
                &&& r.uri.port matches Some(p) && MIN_PORT <= p < MAX_PORT
            },
    {
        let drawn: u16 = match msg.uri.port {
            Some(p) => p,
            None => gen_range_u16(&mut self.rng, MIN_PORT, MAX_PORT),
        };
        connect_response(msg.uri, drawn)
    }

    /// Handles a `QueueData`: the advertised ids join this connection's set,
    /// that set is merged into the registry, and the whole registry is sent
    /// back.
    pub fn on_queue_data(&mut self, msg: DiscoveryMessage, registry: &mut ChannelSet) -> (r: DiscoveryMessage)
        requires
            old(self).wf(),
            old(registry).wf(),
        ensures
            final(self).wf(),
            final(registry).wf(),
            final(self).contributed() == old(self).contributed().union(message_ids(msg)),
            final(registry)@ == old(registry)@.union(final(self).contributed()),
            r.state == DiscoveryState::QueueData,
            r.uri@ == msg.uri@,
            id_set(r.channels@) == final(registry)@,
            ascending_ids(r.channels@),
            distinct_ids(r.channels@),
    {
        self.local_channels.insert_all(&msg.channels);
        let snapshot = registry.merge(&self.local_channels);
        DiscoveryMessage { state: DiscoveryState::QueueData, uri: msg.uri, channels: snapshot }
    }

    /// Handles one received message and returns the reply to send, if any.
    /// `ConnectResponse` and `Error` are acknowledged without a reply.
    pub fn handle(&mut self, msg: DiscoveryMessage, registry: &mut ChannelSet) -> (r: Option<DiscoveryMessage>)
        requires
            old(self).wf(),
            old(registry).wf(),
        ensures
            final(self).wf(),
            final(registry).wf(),
            msg.state == DiscoveryState::QueueData ==> {
                &&& final(self).contributed() == old(self).contributed().union(message_ids(msg))
                &&& final(registry)@ == old(registry)@.union(final(self).contributed())
                &&& r matches Some(reply) && reply.state == DiscoveryState::QueueData
                    && reply.uri@ == msg.uri@ && id_set(reply.channels@) == final(registry)@
                    && ascending_ids(reply.channels@)
            },
            msg.state != DiscoveryState::QueueData ==> {
                &&& final(self).contributed() == old(self).contributed()
                &&& final(registry)@ == old(registry)@
            },
            msg.state == DiscoveryState::Connect ==> {
                &&& r is Some
                &&& r->0.state == DiscoveryState::ConnectResponse
                &&& r->0.channels@.len() == 0
                &&& msg.uri.port is Some ==> r->0.uri@ == msg.uri@
                &&& msg.uri.port is None ==> {
                    &&& r->0.uri@.scheme == msg.uri@.scheme
                    &&& r->0.uri@.host == msg.uri@.host
                    &&& r->0.uri@.path == msg.uri@.path
                    &&& r->0.uri.port is Some
                    &&& MIN_PORT <= r->0.uri.port->0 < MAX_PORT
                }
            },
            msg.state == DiscoveryState::ConnectResponse ==> r is None,
            msg.state == DiscoveryState::Error ==> r is None,
    {
        match msg.state {
            DiscoveryState::Connect => Some(self.on_connect(msg)),
            DiscoveryState::ConnectResponse => None,
            DiscoveryState::QueueData => Some(self.on_queue_data(msg, registry)),
            DiscoveryState::Error => None,
        }
    }

    /// Takes back from the registry every id that this connection
    /// contributed, and nothing else; done when the connection fails.
    pub fn rollback(&self, registry: &mut ChannelSet)
        requires
            old(registry).wf(),
        ensures
            final(registry).wf(),
            final(registry)@ == old(registry)@.difference(self.contributed()),
    {
        registry.remove_all(&self.local_channels);
    }
}

/// Answering a `Connect` is idempotent: the answer to the answered address is
/// that address again, and an address with a port is answered unchanged.
pub proof fn connect_answer_idempotent(requested: AddressView, drawn: u16, again: u16)
    ensures
        answered_address(answered_address(requested, drawn), again) == answered_address(
            requested,
            drawn,
        ),
        requested.port is Some ==> answered_address(requested, drawn) == requested,
{
}

/// Over any sequence of `QueueData` rounds of one connection, the registry
/// after each round holds the registry after the round before.
pub proof fn queue_data_rounds_grow(
    registry: Set<Seq<char>>,
    contributed: Set<Seq<char>>,
    rounds: Seq<Set<Seq<char>>>,
    n: int,
)
    requires
        0 < n <= rounds.len(),
    ensures
        registry_after(registry, contributed, rounds.take(n - 1)).subset_of(
            registry_after(registry, contributed, rounds.take(n)),
        ),
{
    assert(rounds.take(n).drop_last() =~= rounds.take(n - 1));
}

/// One `QueueData` round, as `on_queue_data` performs it, is the step from
/// `registry_after(.., rounds)` to `registry_after(.., rounds.push(advertised))`.
pub proof fn queue_data_round_step(
    registry: Set<Seq<char>>,
    contributed: Set<Seq<char>>,
    rounds: Seq<Set<Seq<char>>>,
    advertised: Set<Seq<char>>,
)
    ensures
        contributed_after(contributed, rounds.push(advertised)) == contributed_after(
            contributed,
            rounds,
        ).union(advertised),
        registry_after(registry, contributed, rounds.push(advertised)) == registry_after(
            registry,
            contributed,
            rounds,
        ).union(contributed_after(contributed, rounds.push(advertised))),
{
    assert(rounds.push(advertised).drop_last() =~= rounds);
}

/// After a failed connection is rolled back, none of its ids is left in the
/// registry, and every id that another connection contributed, and this one
/// did not, is still there.
pub proof fn rollback_keeps_other_contributions(
    registry: Set<Seq<char>>,
    failed: Set<Seq<char>>,
    other: Set<Seq<char>>,
)
    requires
        other.subset_of(registry),
    ensures
        forall|c: Seq<char>| failed.contains(c) ==> !registry.difference(failed).contains(c),
        forall|c: Seq<char>|
            other.contains(c) && !failed.contains(c) ==> registry.difference(failed).contains(c),
{
}

} // verus!
