use net_lib::channels::ChannelSet;
use net_lib::discovery::{connect_response, DiscoveryServer, MAX_PORT, MIN_PORT};
use net_lib::message::{
    client_backoff_secs, local_address, process_msg, DiscoveryMessage, DiscoveryState, NodeAddress,
    RETRY_INTERVAL_SECS,
};
use net_lib::ChannelId;

fn address(port: Option<u16>) -> NodeAddress {
    NodeAddress {
        scheme: String::from("tcp"),
        host: String::from("node1"),
        port,
        path: String::from("/data"),
    }
}

fn message(state: DiscoveryState, port: Option<u16>, channels: &[&str]) -> DiscoveryMessage {
    DiscoveryMessage {
        state,
        uri: address(port),
        channels: channels.iter().map(|c| ChannelId::from(*c)).collect(),
    }
}

fn sorted(mut v: Vec<ChannelId>) -> Vec<ChannelId> {
    v.sort();
    v
}

#[test]
fn disovery_integration() {}

#[test]
fn connect_without_port_allocates_ephemeral_port() {
    let mut server = DiscoveryServer::new(7);
    for _ in 0..50 {
        let reply = server.on_connect(message(DiscoveryState::Connect, None, &[]));
        assert_eq!(reply.state, DiscoveryState::ConnectResponse);
        assert_eq!(reply.uri.scheme, "tcp");
        assert_eq!(reply.uri.host, "node1");
        assert_eq!(reply.uri.path, "/data");
        let port = reply.uri.port.expect("a port is allocated");
        assert!(MIN_PORT <= port && port < MAX_PORT);
        assert!(reply.channels.is_empty());
    }
}

#[test]
fn connect_with_port_is_echoed() {
    let mut server = DiscoveryServer::new(1);
    let reply = server.on_connect(message(DiscoveryState::Connect, Some(4000), &["a"]));
    assert_eq!(reply.uri.port, Some(4000));
    assert_eq!(reply.uri.host, "node1");
    let again = server.on_connect(reply);
    assert_eq!(again.uri.port, Some(4000));
    assert_eq!(again.uri.scheme, "tcp");
    assert_eq!(again.uri.path, "/data");
}

#[test]
fn connect_response_uses_drawn_port_only_when_unset() {
    let r = connect_response(address(None), 2048);
    assert_eq!(r.uri.port, Some(2048));
    let r = connect_response(address(Some(80)), 2048);
    assert_eq!(r.uri.port, Some(80));
}

#[test]
fn queue_data_echoes_whole_registry_and_grows() {
    let mut registry = ChannelSet::new();
    let mut first = DiscoveryServer::new(1);
    let mut second = DiscoveryServer::new(2);
    let r1 = first.on_queue_data(message(DiscoveryState::QueueData, Some(1), &["a", "b"]), &mut registry);
    assert_eq!(r1.state, DiscoveryState::QueueData);
    assert_eq!(sorted(r1.channels), vec!["a".to_string(), "b".to_string()]);
    let r2 = second.on_queue_data(message(DiscoveryState::QueueData, Some(2), &["c", "a"]), &mut registry);
    assert_eq!(sorted(r2.channels), vec!["a".to_string(), "b".to_string(), "c".to_string()]);
    let r3 = first.on_queue_data(message(DiscoveryState::QueueData, Some(1), &[]), &mut registry);
    assert_eq!(sorted(r3.channels), vec!["a".to_string(), "b".to_string(), "c".to_string()]);
    assert_eq!(sorted(registry.to_vec()), vec!["a".to_string(), "b".to_string(), "c".to_string()]);
}

#[test]
fn rollback_removes_only_the_failed_connection_ids() {
    let mut registry = ChannelSet::new();
    let mut failed = DiscoveryServer::new(1);
    let mut other = DiscoveryServer::new(2);
    failed.on_queue_data(message(DiscoveryState::QueueData, None, &["mine", "shared"]), &mut registry);
    other.on_queue_data(message(DiscoveryState::QueueData, None, &["theirs"]), &mut registry);
    failed.rollback(&mut registry);
    assert_eq!(sorted(registry.to_vec()), vec!["theirs".to_string()]);
}

#[test]
fn rollback_removes_an_id_that_another_connection_also_claims() {
    // Known edge case: a shared id is removed outright, not reference counted.
    let mut registry = ChannelSet::new();
    let mut failed = DiscoveryServer::new(1);
    let mut other = DiscoveryServer::new(2);
    failed.on_queue_data(message(DiscoveryState::QueueData, None, &["shared"]), &mut registry);
    other.on_queue_data(message(DiscoveryState::QueueData, None, &["shared", "theirs"]), &mut registry);
    failed.rollback(&mut registry);
    assert!(!registry.contains(&ChannelId::from("shared")));
    assert!(registry.contains(&ChannelId::from("theirs")));
}

#[test]
fn handle_dispatches_on_state() {
    let mut registry = ChannelSet::new();
    let mut server = DiscoveryServer::new(3);
    assert!(server.handle(message(DiscoveryState::ConnectResponse, None, &["x"]), &mut registry).is_none());
    assert!(server.handle(message(DiscoveryState::Error, None, &["x"]), &mut registry).is_none());
    assert!(!registry.contains(&ChannelId::from("x")));
    let reply = server.handle(message(DiscoveryState::Connect, Some(9), &[]), &mut registry).unwrap();
    assert_eq!(reply.state, DiscoveryState::ConnectResponse);
    assert_eq!(reply.uri.port, Some(9));
    let reply = server.handle(message(DiscoveryState::QueueData, None, &["x"]), &mut registry).unwrap();
    assert_eq!(reply.channels, vec!["x".to_string()]);
}

#[test]
fn channel_set_insert_remove() {
    let mut s = ChannelSet::new();
    s.insert(ChannelId::from("a"));
    s.insert(ChannelId::from("a"));
    s.insert(ChannelId::from("b"));
    assert_eq!(s.to_vec().len(), 2);
    s.remove(&ChannelId::from("a"));
    assert!(!s.contains(&ChannelId::from("a")));
    assert!(s.contains(&ChannelId::from("b")));
    s.remove(&ChannelId::from("zzz"));
    assert_eq!(s.to_vec(), vec!["b".to_string()]);
}

#[test]
fn client_transitions() {
    let channels = vec![ChannelId::from("a")];
    let next = process_msg(&message(DiscoveryState::Error, None, &[]), channels.clone());
    assert_eq!(next.state, DiscoveryState::Connect);
    assert_eq!(next.channels, channels);
    assert_eq!(client_backoff_secs(Some(&next)), RETRY_INTERVAL_SECS);
    let next = process_msg(&message(DiscoveryState::Connect, None, &[]), channels.clone());
    assert_eq!(next.state, DiscoveryState::ConnectResponse);
    let next = process_msg(&message(DiscoveryState::ConnectResponse, None, &[]), channels.clone());
    assert_eq!(next.state, DiscoveryState::QueueData);
    assert_eq!(client_backoff_secs(Some(&next)), 0);
    let next = process_msg(&message(DiscoveryState::QueueData, None, &[]), channels);
    assert_eq!(next.state, DiscoveryState::QueueData);
    assert_eq!(client_backoff_secs(None), RETRY_INTERVAL_SECS);
}

#[test]
fn local_address_is_parsed_by_urlparse() {
    let a = local_address();
    assert_eq!(a.scheme, "tcp");
    assert_eq!(a.host, "127.0.0.1");
    assert_eq!(a.port, None);
    assert_eq!(a.path, "");
}

#[test]
fn queue_data_echo_is_in_ascending_byte_order() {
    let mut registry = ChannelSet::new();
    let mut server = DiscoveryServer::new(5);
    let reply = server.on_queue_data(
        message(DiscoveryState::QueueData, None, &["b", "é", "a", "Z", "ab", "b"]),
        &mut registry,
    );
    assert_eq!(
        reply.channels,
        vec!["Z".to_string(), "a".to_string(), "ab".to_string(), "b".to_string(), "é".to_string()]
    );
    let mut other = DiscoveryServer::new(6);
    let reply = other.on_queue_data(message(DiscoveryState::QueueData, None, &["aa", ""]), &mut registry);
    assert_eq!(
        reply.channels,
        vec![
            "".to_string(),
            "Z".to_string(),
            "a".to_string(),
            "aa".to_string(),
            "ab".to_string(),
            "b".to_string(),
            "é".to_string()
        ]
    );
    server.rollback(&mut registry);
    assert_eq!(registry.to_vec(), vec!["".to_string(), "aa".to_string()]);
}
