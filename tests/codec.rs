use net_lib::codec::{
    decode_data_frame, decode_discovery, encode_data_frame, encode_discovery, frame_body_len, CodecError,
    DataFrame,
};
use net_lib::message::{DiscoveryMessage, DiscoveryState, NodeAddress};
use net_lib::ChannelId;

fn sample_message(port: Option<u16>) -> DiscoveryMessage {
    DiscoveryMessage {
        state: DiscoveryState::QueueData,
        uri: NodeAddress {
            scheme: String::from("tcp"),
            host: String::from("héte"),
            port,
            path: String::from("/p"),
        },
        channels: vec![ChannelId::from("a"), ChannelId::from("bc")],
    }
}

#[test]
fn data_frame_exact_bytes() {
    let frame = DataFrame { channel_name: ChannelId::from("ab"), data: vec![7, 8, 9] };
    let bytes = encode_data_frame(&frame);
    assert_eq!(
        bytes,
        vec![0, 0, 0, 14, 1, 0, 0, 0, 2, b'a', b'b', 0, 0, 0, 3, 7, 8, 9]
    );
    assert_eq!(frame_body_len(&bytes[0..4]), Some(14));
    let back = decode_data_frame(&bytes[4..]).ok().expect("decodes");
    assert_eq!(back.channel_name, "ab");
    assert_eq!(back.data, vec![7, 8, 9]);
}

#[test]
fn data_frame_malformed_inputs() {
    let frame = DataFrame { channel_name: ChannelId::from("ab"), data: vec![7, 8, 9] };
    let bytes = encode_data_frame(&frame);
    let body = &bytes[4..];
    assert!(matches!(decode_data_frame(&body[..body.len() - 1]), Err(CodecError::MalformedFrame)));
    let mut trailing = body.to_vec();
    trailing.push(0);
    assert!(matches!(decode_data_frame(&trailing), Err(CodecError::MalformedFrame)));
    let mut tagged = body.to_vec();
    tagged[0] = 2;
    assert!(matches!(decode_data_frame(&tagged), Err(CodecError::MalformedFrame)));
    let bad_utf8 = vec![1, 0, 0, 0, 1, 0xff, 0, 0, 0, 0];
    assert!(matches!(decode_data_frame(&bad_utf8), Err(CodecError::MalformedFrame)));
    assert!(matches!(decode_data_frame(&[]), Err(CodecError::MalformedFrame)));
    assert_eq!(frame_body_len(&[0, 0, 1]), None);
}

#[test]
fn discovery_message_round_trip() {
    for port in [None, Some(4242u16)] {
        let msg = sample_message(port);
        let bytes = encode_discovery(&msg);
        assert_eq!(frame_body_len(&bytes), Some((bytes.len() - 4) as u32));
        let back = decode_discovery(&bytes[4..]).ok().expect("decodes");
        assert_eq!(back.state, DiscoveryState::QueueData);
        assert_eq!(back.uri.scheme, "tcp");
        assert_eq!(back.uri.host, "héte");
        assert_eq!(back.uri.port, port);
        assert_eq!(back.uri.path, "/p");
        assert_eq!(back.channels, vec!["a".to_string(), "bc".to_string()]);
    }
}

#[test]
fn discovery_exact_bytes_and_errors() {
    let msg = DiscoveryMessage {
        state: DiscoveryState::Connect,
        uri: NodeAddress {
            scheme: String::from("t"),
            host: String::new(),
            port: Some(0x1234),
            path: String::new(),
        },
        channels: Vec::new(),
    };
    let bytes = encode_discovery(&msg);
    let body: Vec<u8> = vec![2, 0, 0, 0, 0, 1, b't', 0, 0, 0, 0, 1, 0x12, 0x34, 0, 0, 0, 0, 0, 0, 0, 0];
    let mut expected = vec![0, 0, 0, body.len() as u8];
    expected.extend(body.iter().copied());
    assert_eq!(bytes, expected);

    let mut bad_state = body.clone();
    bad_state[1] = 4;
    assert!(matches!(decode_discovery(&bad_state), Err(CodecError::MalformedFrame)));
    let mut bad_port = body.clone();
    bad_port[11] = 2;
    assert!(matches!(decode_discovery(&bad_port), Err(CodecError::MalformedFrame)));
    let mut too_many = body.clone();
    too_many[21] = 1;
    assert!(matches!(decode_discovery(&too_many), Err(CodecError::MalformedFrame)));
    assert!(matches!(decode_discovery(&body[..body.len() - 1]), Err(CodecError::MalformedFrame)));
}
