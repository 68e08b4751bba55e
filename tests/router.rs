use net_lib::message::{DiscoveryMessage, DiscoveryState, NodeAddress};
use net_lib::queues::{BurstQueue, OutputQueue};
use net_lib::router::TcpQueueManager;
use net_lib::ChannelId;

fn connect_with_port(port: Option<u16>, state: DiscoveryState) -> DiscoveryMessage {
    DiscoveryMessage {
        state,
        uri: NodeAddress {
            scheme: String::from("tcp"),
            host: String::from("h"),
            port,
            path: String::new(),
        },
        channels: Vec::new(),
    }
}

#[test]
fn unregistered_channel_is_dropped() {
    let mut router: TcpQueueManager<BurstQueue<i32>> = TcpQueueManager::new_listener(7000);
    router.add_input(ChannelId::from("a"), BurstQueue::new(ChannelId::from("a")));
    router.add_input(ChannelId::from("b"), BurstQueue::new(ChannelId::from("b")));
    router.add_input(ChannelId::from("a"), BurstQueue::new(ChannelId::from("a")));
    assert!(!router.dispatch(&ChannelId::from("nope"), &[1, 0, 0, 0]));
    assert!(router.input_sinks(&ChannelId::from("nope")).is_none());
    assert_eq!(router.input_sinks(&ChannelId::from("a")).unwrap().len(), 2);
    assert!(router.input_sinks(&ChannelId::from("a")).unwrap().iter().all(|q| !q.is_ready()));
    assert!(!router.input_sinks(&ChannelId::from("b")).unwrap()[0].is_ready());

    assert!(router.dispatch(&ChannelId::from("a"), &[2, 0, 0, 0]));
    assert!(router.input_sinks(&ChannelId::from("a")).unwrap().iter().all(|q| q.is_ready()));
    assert!(!router.input_sinks(&ChannelId::from("b")).unwrap()[0].is_ready());
    assert_eq!(router.port(), 7000);
}

#[test]
fn update_port_and_channel_info() {
    let mut router: TcpQueueManager<BurstQueue<i32>> = TcpQueueManager::new_listener(0);
    router.update_channel_info(&connect_with_port(Some(5000), DiscoveryState::QueueData));
    assert_eq!(router.port(), 0);
    router.update_channel_info(&connect_with_port(None, DiscoveryState::Connect));
    assert_eq!(router.port(), 0);
    router.update_channel_info(&connect_with_port(Some(5000), DiscoveryState::Connect));
    assert_eq!(router.port(), 5000);
    router.update_channel_info(&connect_with_port(Some(6000), DiscoveryState::Connect));
    assert_eq!(router.port(), 5000);
    router.update_port(6001);
    assert_eq!(router.port(), 6001);
}

#[test]
fn output_channel_receives_encoded_items() {
    let mut router: TcpQueueManager<BurstQueue<i32>> = TcpQueueManager::new_listener(0);
    let mut oq = OutputQueue::<i32>::new();
    let mut receiver = router.add_output(ChannelId::from("out"), &mut oq);
    oq.send(258);
    let frame = receiver.try_next().expect("channel open").expect("a frame");
    assert_eq!(frame, vec![2, 1, 0, 0]);
}

#[test]
fn output_channel_encodes_i64_items() {
    let mut router: TcpQueueManager<BurstQueue<i64>> = TcpQueueManager::new_listener(0);
    let mut oq = OutputQueue::<i64>::new();
    let mut receiver = router.add_output(ChannelId::from("out"), &mut oq);
    let burst = oq.burst_pull_queue(ChannelId::from("out"));
    oq.send(-2);
    let frame = receiver.try_next().expect("channel open").expect("a frame");
    assert_eq!(frame, vec![0xfe, 0xff, 0xff, 0xff, 0xff, 0xff, 0xff, 0xff]);
    assert_eq!(oq.poll_burst(burst), Some(vec![-2]));
}

#[test]
fn connect_with_zero_or_largest_port() {
    let mut router: TcpQueueManager<BurstQueue<i32>> = TcpQueueManager::new_listener(0);
    router.update_channel_info(&connect_with_port(Some(0), DiscoveryState::Connect));
    assert_eq!(router.port(), 0);
    router.update_channel_info(&connect_with_port(Some(u16::MAX), DiscoveryState::Connect));
    assert_eq!(router.port(), u16::MAX);
}

#[test]
fn closed_outbound_channel_refuses_without_stalling_others() {
    let mut router: TcpQueueManager<BurstQueue<i32>> = TcpQueueManager::new_listener(0);
    let mut oq = OutputQueue::<i32>::new();
    let receiver = router.add_output(ChannelId::from("out"), &mut oq);
    drop(receiver);
    let last = oq.lv_pull_queue(ChannelId::from("out"));
    oq.send(4);
    assert_eq!(oq.poll_last_value(last), Some(4));
}
