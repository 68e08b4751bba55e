use net_lib::queues::{BurstQueue, LastValueQueue, OutputQueue, ByteDeSerialiser};
use net_lib::ChannelId;

#[test]
fn fifo_queue() {
    let mut queue = BurstQueue::<i32>::new(ChannelId::from("hello"));
    queue.push(5);
    queue.push(6);
    queue.push(7);
    queue.push(8);
    assert_eq!(queue.poll(), Some(vec![5, 6, 7, 8]));
    assert_eq!(queue.poll(), None);
    queue.push(12);
    queue.push(16);
    queue.push(17);
    queue.push(18);
    assert_eq!(queue.poll(), Some(vec![12, 16, 17, 18]));
    assert_eq!(queue.poll(), None);
}

#[test]
fn last_value_queue() {
    let mut queue = LastValueQueue::<i32>::new(ChannelId::from("channel1"));
    queue.push(5);
    queue.push(6);
    queue.push(7);
    queue.push(8);
    let mut seen = Vec::new();
    let mut counter = 10;
    while counter > 0 {
        if let Some(x) = queue.poll() {
            seen.push(x);
        }
        counter = counter - 1;
    }
    assert_eq!(seen, vec![8]);
}

#[test]
fn internal_services_x() {
    let mut q1 = BurstQueue::<i32>::new(ChannelId::from("channel1"));
    for i in 0..10 {
        q1.push(i);
    }
    let first = q1.poll();
    for i in 0..10 {
        q1.push(i);
    }
    let second = q1.poll();
    let expected: Vec<i32> = (0..10).collect();
    assert_eq!(first, Some(expected.clone()));
    assert_eq!(second, Some(expected));
    assert_eq!(q1.poll(), None);
}

#[test]
fn multi_consumer_test() {
    let mut oq = OutputQueue::<i32>::new();
    let sink = oq.burst_pull_queue(ChannelId::from("channel1"));
    let sink2 = oq.burst_pull_queue(ChannelId::from("channel1"));
    for i in 0..10 {
        oq.send(i);
    }
    let expected: Vec<i32> = (0..10).collect();
    assert_eq!(oq.poll_burst(sink), Some(expected.clone()));
    for i in 0..10 {
        oq.send(i);
    }
    let mut twice = expected.clone();
    twice.extend(expected.iter().copied());
    assert_eq!(oq.poll_burst(sink2), Some(twice));
    assert_eq!(oq.poll_burst(sink), Some(expected));
    assert_eq!(oq.poll_burst(sink), None);
}

#[test]
fn burst_drain_keeps_push_order_then_waits() {
    let mut q = BurstQueue::<i32>::new(ChannelId::from("c"));
    assert_eq!(q.poll(), None);
    for v in [5, 6, 7, 8] {
        q.push(v);
    }
    assert_eq!(q.poll(), Some(vec![5, 6, 7, 8]));
    assert_eq!(q.poll(), None);
    q.push(9);
    assert_eq!(q.poll(), Some(vec![9]));
}

#[test]
fn last_value_keeps_latest_then_waits() {
    let mut q = LastValueQueue::<i32>::new(ChannelId::from("c"));
    assert_eq!(q.poll(), None);
    for v in [5, 6, 7, 8] {
        q.push(v);
    }
    assert_eq!(q.poll(), Some(8));
    assert_eq!(q.poll(), None);
}

#[test]
fn output_queue_fans_out_independently() {
    let mut oq = OutputQueue::<i32>::new();
    let burst = oq.burst_pull_queue(ChannelId::from("c"));
    let last = oq.lv_pull_queue(ChannelId::from("c"));
    for v in [1, 2, 3] {
        oq.send(v);
    }
    assert_eq!(oq.poll_last_value(last), Some(3));
    assert_eq!(oq.poll_burst(burst), Some(vec![1, 2, 3]));

    let mut oq = OutputQueue::<i32>::new();
    let burst = oq.burst_pull_queue(ChannelId::from("c"));
    let last = oq.lv_pull_queue(ChannelId::from("c"));
    for v in [1, 2, 3] {
        oq.send(v);
    }
    assert_eq!(oq.poll_burst(burst), Some(vec![1, 2, 3]));
    assert_eq!(oq.poll_last_value(last), Some(3));
    assert_eq!(oq.poll_burst(burst), None);
    assert_eq!(oq.poll_last_value(last), None);
}

#[test]
fn unknown_handles_poll_nothing() {
    let mut oq = OutputQueue::<i32>::new();
    oq.send(1);
    assert_eq!(oq.poll_burst(0), None);
    assert_eq!(oq.poll_last_value(3), None);
}

#[test]
fn push_bytes_decodes_little_endian_items() {
    let mut q = BurstQueue::<i32>::new(ChannelId::from("c"));
    q.push_bytes(&[1, 0, 0, 0]);
    q.push_bytes(&[0xff, 0xff, 0xff, 0xff, 9]);
    q.push_bytes(&[1, 2]);
    assert_eq!(q.poll(), Some(vec![1, -1]));

    let mut l = LastValueQueue::<i64>::new(ChannelId::from("c"));
    l.push_data(&[0, 1, 0, 0, 0, 0, 0, 0]);
    assert_eq!(l.poll(), Some(256));
    l.push_data(&[0, 1, 0]);
    assert_eq!(l.poll(), None);
}

#[test]
fn push_data_decodes_into_contents() {
    let mut q = BurstQueue::<i32>::new(ChannelId::from("c"));
    q.push_data(&7i32.to_le_bytes());
    q.push_data(&[1]);
    q.push_data(&(-5i32).to_le_bytes());
    assert_eq!(q.poll(), Some(vec![7, -5]));
    let mut l = LastValueQueue::<i32>::new(ChannelId::from("c"));
    l.push_data(&9i32.to_le_bytes());
    l.push_data(&[]);
    assert_eq!(l.poll(), Some(9));
}

#[test]
fn fan_out_interleaved_consumption() {
    let mut oq = OutputQueue::<i32>::new();
    let b = oq.burst_pull_queue(ChannelId::from("c"));
    let l = oq.lv_pull_queue(ChannelId::from("c"));
    let mut drained = Vec::new();
    oq.send(1);
    if let Some(batch) = oq.poll_burst(b) {
        drained.extend(batch);
    }
    assert_eq!(oq.poll_last_value(l), Some(1));
    oq.send(2);
    oq.send(3);
    assert_eq!(oq.poll_burst(b).unwrap_or_default().len(), 2);
    drained.extend([2, 3]);
    assert_eq!(drained, vec![1, 2, 3]);
    assert_eq!(oq.poll_last_value(l), Some(3));
}
