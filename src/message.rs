//! Node addresses and the messages of the discovery protocol.

use vstd::prelude::*;

use crate::channels::id_set;
use crate::ChannelId;

verus! {

/// A node's address: scheme, host, optional port and path. A port of `None`
/// asks the responder to allocate one.
pub struct NodeAddress {
    pub scheme: String,
    pub host: String,
    pub port: Option<u16>,
    pub path: String,
}

/// What a `NodeAddress` holds, as plain values.
pub struct AddressView {
    pub scheme: Seq<char>,
    pub host: Seq<char>,
    pub port: Option<u16>,
    pub path: Seq<char>,
}

impl View for NodeAddress {
    type V = AddressView;

    open spec fn view(&self) -> AddressView {
        AddressView { scheme: self.scheme@, host: self.host@, port: self.port, path: self.path@ }
    }
}

/// The phase of the protocol that a message belongs to.
#[derive(PartialEq, Eq, Structural, Clone, Copy, Debug)]
pub enum DiscoveryState {
    Connect,
    ConnectResponse,
    QueueData,
    Error,
}

/// One message of the discovery protocol.
pub struct DiscoveryMessage {
    pub state: DiscoveryState,
    pub uri: NodeAddress,
    pub channels: Vec<ChannelId>,
}

/// The parts that urlparse finds in a URL text.
pub uninterp spec fn url_parts(s: Seq<char>) -> AddressView;

/// Relies on `urlparse::urlparse`: splits a URL text into scheme, network
/// location, path and port. The host is urlparse's lower-cased host name, or
/// empty where it finds none.
#[verifier::external_body]
fn parse_address(s: &str) -> (r: NodeAddress)
    ensures
        r@ == url_parts(s@),
{
    let u = urlparse::urlparse(s);
    NodeAddress { scheme: u.scheme, host: u.hostname.unwrap_or_default(), port: u.port, path: u.path }
}

/// The text of the address that a client announces for itself.
pub const LOCAL_URL: &'static str = "tcp://127.0.0.1:0";

/// The address that a client announces for itself.
pub fn local_address() -> (r: NodeAddress)
    ensures
        r@ == url_parts(LOCAL_URL@),
{
    parse_address(LOCAL_URL)
}

/// The state that a client answers with, given the state it received.
pub open spec fn next_state(received: DiscoveryState) -> DiscoveryState {
    match received {
        DiscoveryState::Error => DiscoveryState::Connect,
        DiscoveryState::Connect => DiscoveryState::ConnectResponse,
        DiscoveryState::ConnectResponse => DiscoveryState::QueueData,
        DiscoveryState::QueueData => DiscoveryState::QueueData,
    }
}

/// A client's answer to `msg`: the next state of the protocol, its own
/// address, and the channels it offers. An `Error` is answered with a fresh
/// `Connect`.
pub fn process_msg(msg: &DiscoveryMessage, channels: Vec<ChannelId>) -> (r: DiscoveryMessage)
    ensures
        r.state == next_state(msg.state),
        r.uri@ == url_parts(LOCAL_URL@),
        r.channels@ == channels@,
{
    let state = match msg.state {
        DiscoveryState::Error => DiscoveryState::Connect,
        DiscoveryState::Connect => DiscoveryState::ConnectResponse,
        DiscoveryState::ConnectResponse => DiscoveryState::QueueData,
        DiscoveryState::QueueData => DiscoveryState::QueueData,
    };
    DiscoveryMessage { state, uri: local_address(), channels }
}

/// Seconds that a client waits before its next handshake attempt.
pub const RETRY_INTERVAL_SECS: u64 = 10;

/// How long a client waits before its next attempt. `next` is its answer to
/// what the server sent, or `None` where the attempt failed to connect or to
/// read. It goes on at once only when it has reached channel
/// synchronisation; otherwise, failures included, it waits the fixed retry
/// interval and tries again, without limit.
pub fn client_backoff_secs(next: Option<&DiscoveryMessage>) -> (r: u64)
    ensures
        (next matches Some(m) && m.state == DiscoveryState::QueueData) ==> r == 0,
        !(next matches Some(m) && m.state == DiscoveryState::QueueData) ==> r == RETRY_INTERVAL_SECS,
{
    match next {
        Some(m) => if m.state == DiscoveryState::QueueData {
            0
        } else {
            RETRY_INTERVAL_SECS
        },
        None => RETRY_INTERVAL_SECS,
    }
}

/// The names of the channels that a message carries.
pub open spec fn message_ids(msg: DiscoveryMessage) -> Set<Seq<char>> {
    id_set(msg.channels@)
}

} // verus!
