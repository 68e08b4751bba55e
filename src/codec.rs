//! The byte layout of the two message families on a stream.
//!
//! Every frame is a big-endian `u32` body length followed by the body. A body
//! starts with a tag byte that names its family. Strings are a big-endian
//! `u32` byte count and UTF-8 bytes; byte strings likewise.
//!
//! Data body: tag `DATA_TAG`, channel name, payload.
//! Discovery body: tag `DISCOVERY_TAG`, state byte, scheme, host, port
//! (`0`, or `1` and a big-endian `u16`), path, a `u32` count of channel
//! names and the names.

use vstd::prelude::*;
use vstd::utf8::{decode_utf8, encode_utf8, valid_utf8};

use crate::message::{AddressView, DiscoveryMessage, DiscoveryState, NodeAddress};
use crate::ChannelId;

verus! {

broadcast use vstd::utf8::encode_utf8_valid_utf8, vstd::utf8::encode_utf8_decode_utf8;

/// Tag byte of a data frame body.
pub const DATA_TAG: u8 = 1;

/// Tag byte of a discovery frame body.
pub const DISCOVERY_TAG: u8 = 2;

/// Why bytes could not be decoded.
#[derive(PartialEq, Eq, Structural, Clone, Copy, Debug)]
pub enum CodecError {
    /// The bytes are truncated, carry trailing bytes, or hold a value that
    /// the layout does not allow.
    MalformedFrame,
}

/// A data frame: a payload for one channel.
pub struct DataFrame {
    pub channel_name: ChannelId,
    pub data: Vec<u8>,
}

/// Four bytes of `n`, most significant first.
pub open spec fn be32(n: u32) -> Seq<u8> {
    seq![(n >> 24u32) as u8, (n >> 16u32) as u8, (n >> 8u32) as u8, n as u8]
}

/// The `u32` that four bytes hold, most significant first.
pub open spec fn be32_value(b: Seq<u8>) -> u32 {
    ((b[0] as u32) << 24u32) | ((b[1] as u32) << 16u32) | ((b[2] as u32) << 8u32) | (b[3] as u32)
}

/// A byte string field: its length, then its bytes.
pub open spec fn bytes_field(d: Seq<u8>) -> Seq<u8> {
    be32(d.len() as u32) + d
}

/// A string field: its UTF-8 bytes as a byte string field.
pub open spec fn str_field(s: Seq<char>) -> Seq<u8> {
    bytes_field(encode_utf8(s))
}

/// A string fits in a field.
pub open spec fn str_fits(s: Seq<char>) -> bool {
    encode_utf8(s).len() <= u32::MAX
}

/// A `u32` read at `pos`, and the position after it.
pub open spec fn parse_u32(b: Seq<u8>, pos: int) -> Option<(u32, int)> {
    if 0 <= pos && pos + 4 <= b.len() {
        Some((be32_value(b.subrange(pos, pos + 4)), pos + 4))
    } else {
        None
    }
}

/// A byte string field read at `pos`, and the position after it.
pub open spec fn parse_bytes(b: Seq<u8>, pos: int) -> Option<(Seq<u8>, int)> {
    match parse_u32(b, pos) {
        Some((n, p)) => if p + n <= b.len() {
            Some((b.subrange(p, p + n), p + n))
        } else {
            None
        },
        None => None,
    }
}

/// A string field read at `pos`, and the position after it.
pub open spec fn parse_str(b: Seq<u8>, pos: int) -> Option<(Seq<char>, int)> {
    match parse_bytes(b, pos) {
        Some((raw, p)) => if valid_utf8(raw) {
            Some((decode_utf8(raw), p))
        } else {
            None
        },
        None => None,
    }
}

/// The body of a data frame.
pub open spec fn data_body(name: Seq<char>, data: Seq<u8>) -> Seq<u8> {
    seq![DATA_TAG] + str_field(name) + bytes_field(data)
}

/// The channel name and payload of a data frame body, if `b` is one.
pub open spec fn parse_data_body(b: Seq<u8>) -> Option<(Seq<char>, Seq<u8>)> {
    if b.len() >= 1 && b[0] == DATA_TAG {
        match parse_str(b, 1) {
            Some((name, p)) => match parse_bytes(b, p) {
                Some((data, q)) => if q == b.len() {
                    Some((name, data))
                } else {
                    None
                },
                None => None,
            },
            None => None,
        }
    } else {
        None
    }
}

/// A whole frame around `body`.
pub open spec fn framed(body: Seq<u8>) -> Seq<u8> {
    bytes_field(body)
}

proof fn lemma_be32(n: u32)
    ensures
        be32_value(be32(n)) == n,
{
    assert((((n >> 24u32) as u8 as u32) << 24u32) | (((n >> 16u32) as u8 as u32) << 16u32) | (((n
        >> 8u32) as u8 as u32) << 8u32) | (n as u8 as u32) == n) by (bit_vector);
}

/// Relies on `String::from_utf8`: the string that valid UTF-8 bytes encode,
/// and an error for any other bytes.
#[verifier::external_body]
fn utf8_string(bytes: Vec<u8>) -> (r: Option<String>)
    ensures
        r is Some <==> valid_utf8(bytes@),
        r matches Some(s) ==> s@ == decode_utf8(bytes@),
{
    String::from_utf8(bytes).ok()
}

fn put_u32(out: &mut Vec<u8>, n: u32)
    ensures
        final(out)@ == old(out)@ + be32(n),
{
    out.push((n >> 24u32) as u8);
    out.push((n >> 16u32) as u8);
    out.push((n >> 8u32) as u8);
    out.push(n as u8);
    assert(final(out)@ =~= old(out)@ + be32(n));
}

fn put_bytes(out: &mut Vec<u8>, d: &[u8])
    requires
        d@.len() <= u32::MAX,
    ensures
        final(out)@ == old(out)@ + bytes_field(d@),
{
    put_u32(out, d.len() as u32);
    let ghost start = out@;
    let mut i: usize = 0;
    while i < d.len()
        invariant
            0 <= i <= d@.len(),
            out@ == start + d@.take(i as int),
        decreases d@.len() - i,
    {
        out.push(d[i]);
        i = i + 1;
        assert(out@ =~= start + d@.take(i as int));
    }
    assert(d@.take(i as int) =~= d@);
    assert(final(out)@ =~= old(out)@ + bytes_field(d@));
}

fn put_str(out: &mut Vec<u8>, s: &String)
    requires
        str_fits(s@),
    ensures
        final(out)@ == old(out)@ + str_field(s@),
{
    let bytes = s.as_str().as_bytes();
    put_bytes(out, bytes);
}

fn read_u32(b: &[u8], pos: usize) -> (r: Option<(u32, usize)>)
    ensures
        match parse_u32(b@, pos as int) {
            Some((v, p)) => r == Some((v, p as usize)),
            None => r is None,
        },
{
    if pos > b.len() || b.len() - pos < 4 {
        return None;
    }
    let v = ((b[pos] as u32) << 24u32) | ((b[pos + 1] as u32) << 16u32) | ((b[pos + 2] as u32)
        << 8u32) | (b[pos + 3] as u32);
    let ghost sub = b@.subrange(pos as int, pos + 4);
    assert(sub[0] == b@[pos as int] && sub[1] == b@[pos + 1] && sub[2] == b@[pos + 2] && sub[3]
        == b@[pos + 3]);
    Some((v, pos + 4))
}

fn read_bytes(b: &[u8], pos: usize) -> (r: Option<(Vec<u8>, usize)>)
    ensures
        match parse_bytes(b@, pos as int) {
            Some((d, p)) => r matches Some((v, q)) && v@ == d && q == p,
            None => r is None,
        },
{
    let (n, p) = match read_u32(b, pos) {
        Some(x) => x,
        None => return None,
    };
    if b.len() - p < n as usize {
        return None;
    }
    let end = p + n as usize;
    let mut v: Vec<u8> = Vec::new();
    let mut i: usize = p;
    while i < end
        invariant
            p <= i <= end <= b@.len(),
            v@ == b@.subrange(p as int, i as int),
        decreases end - i,
    {
        v.push(b[i]);
        i = i + 1;
        assert(v@ =~= b@.subrange(p as int, i as int));
    }
    Some((v, end))
}

fn read_str(b: &[u8], pos: usize) -> (r: Option<(String, usize)>)
    ensures
        match parse_str(b@, pos as int) {
            Some((s, p)) => r matches Some((t, q)) && t@ == s && q == p,
            None => r is None,
        },
{
    let (raw, p) = match read_bytes(b, pos) {
        Some(x) => x,
        None => return None,
    };
    match utf8_string(raw) {
        Some(s) => Some((s, p)),
        None => None,
    }
}

/// The length of the body that a frame header announces; `None` for a
/// header shorter than four bytes.
pub fn frame_body_len(header: &[u8]) -> (r: Option<u32>)
    ensures
        header@.len() < 4 ==> r is None,
        header@.len() >= 4 ==> r == Some(be32_value(header@)),
{
    match read_u32(header, 0) {
        Some((n, _)) => {
            assert(header@.subrange(0, 4) =~= header@.take(4));
            let ghost sub = header@.subrange(0, 4);
            assert(sub[0] == header@[0] && sub[1] == header@[1] && sub[2] == header@[2] && sub[3]
                == header@[3]);
            Some(n)
        },
        None => None,
    }
}

/// The whole frame, header included, that carries `frame`.
pub fn encode_data_frame(frame: &DataFrame) -> (r: Vec<u8>)
    requires
        frame.data@.len() + encode_utf8(frame.channel_name@).len() + 9 <= u32::MAX,
    ensures
        r@ == framed(data_body(frame.channel_name@, frame.data@)),
{
    let mut body: Vec<u8> = Vec::new();
    body.push(DATA_TAG);
    put_str(&mut body, &frame.channel_name);
    put_bytes(&mut body, frame.data.as_slice());
    assert(body@ =~= data_body(frame.channel_name@, frame.data@));
    let mut out: Vec<u8> = Vec::new();
    put_bytes(&mut out, body.as_slice());
    assert(out@ =~= framed(data_body(frame.channel_name@, frame.data@)));
    out
}

/// Decodes a data frame body, header excluded.
pub fn decode_data_frame(body: &[u8]) -> (r: Result<DataFrame, CodecError>)
    ensures
        match parse_data_body(body@) {
            Some((name, data)) => r matches Ok(f) && f.channel_name@ == name && f.data@ == data,
            None => r == Err::<DataFrame, CodecError>(CodecError::MalformedFrame),
        },
{
    if body.len() < 1 || body[0] != DATA_TAG {
        return Err(CodecError::MalformedFrame);
    }
    let (channel_name, p) = match read_str(body, 1) {
        Some(x) => x,
        None => return Err(CodecError::MalformedFrame),
    };
    let (data, q) = match read_bytes(body, p) {
        Some(x) => x,
        None => return Err(CodecError::MalformedFrame),
    };
    if q != body.len() {
        return Err(CodecError::MalformedFrame);
    }
    Ok(DataFrame { channel_name, data })
}

proof fn lemma_parse_bytes_field(pre: Seq<u8>, d: Seq<u8>, post: Seq<u8>)
    requires
        d.len() <= u32::MAX,
    ensures
        parse_bytes(pre + bytes_field(d) + post, pre.len() as int) == Some(
            (d, (pre.len() + 4 + d.len()) as int),
        ),
{
    let b = pre + bytes_field(d) + post;
    let k = pre.len() as int;
    lemma_be32(d.len() as u32);
    assert(b.subrange(k, k + 4) =~= be32(d.len() as u32));
    assert(b.subrange(k + 4, k + 4 + d.len()) =~= d);
}

proof fn lemma_parse_str_field(pre: Seq<u8>, s: Seq<char>, post: Seq<u8>)
    requires
        str_fits(s),
    ensures
        parse_str(pre + str_field(s) + post, pre.len() as int) == Some(
            (s, (pre.len() + 4 + encode_utf8(s).len()) as int),
        ),
{
    lemma_parse_bytes_field(pre, encode_utf8(s), post);
}

/// Decoding the body that a data frame is encoded to gives that frame back.
pub proof fn data_frame_round_trip(name: Seq<char>, data: Seq<u8>)
    requires
        str_fits(name),
        data.len() <= u32::MAX,
    ensures
        parse_data_body(data_body(name, data)) == Some((name, data)),
{
    let b = data_body(name, data);
    let head = seq![DATA_TAG];
    let sf = str_field(name);
    let bf = bytes_field(data);
    assert(b == head + sf + bf);
    lemma_parse_str_field(head, name, bf);
    let p = 1 + 4 + encode_utf8(name).len();
    assert(parse_str(b, 1) == Some((name, p as int)));
    assert((head + sf).len() == p);
    lemma_parse_bytes_field(head + sf, data, Seq::empty());
    assert(head + sf + bf + Seq::<u8>::empty() =~= b);
    assert(parse_bytes(b, p as int) == Some((data, (p + 4 + data.len()) as int)));
    assert(b.len() == p + 4 + data.len());
    assert(b[0] == DATA_TAG);
}

/// The byte that stands for a protocol state.
pub open spec fn state_byte(s: DiscoveryState) -> u8 {
    match s {
        DiscoveryState::Connect => 0,
        DiscoveryState::ConnectResponse => 1,
        DiscoveryState::QueueData => 2,
        DiscoveryState::Error => 3,
    }
}

/// The protocol state that a byte stands for, if any.
pub open spec fn state_of(b: u8) -> Option<DiscoveryState> {
    if b == 0 {
        Some(DiscoveryState::Connect)
    } else if b == 1 {
        Some(DiscoveryState::ConnectResponse)
    } else if b == 2 {
        Some(DiscoveryState::QueueData)
    } else if b == 3 {
        Some(DiscoveryState::Error)
    } else {
        None
    }
}

/// An optional port: `0`, or `1` and the port, most significant byte first.
pub open spec fn port_field(p: Option<u16>) -> Seq<u8> {
    match p {
        None => seq![0u8],
        Some(v) => seq![1u8, (v >> 8u16) as u8, v as u8],
    }
}

/// An optional port read at `pos`, and the position after it.
pub open spec fn parse_port(b: Seq<u8>, pos: int) -> Option<(Option<u16>, int)> {
    if 0 <= pos < b.len() && b[pos] == 0 {
        Some((None, pos + 1))
    } else if 0 <= pos && pos + 3 <= b.len() && b[pos] == 1 {
        Some((Some((((b[pos + 1] as u16) << 8u16) | (b[pos + 2] as u16)) as u16), pos + 3))
    } else {
        None
    }
}

/// String fields for each name, one after the other.
pub open spec fn strs_body(names: Seq<Seq<char>>) -> Seq<u8>
    decreases names.len(),
{
    if names.len() == 0 {
        Seq::empty()
    } else {
        strs_body(names.drop_last()) + str_field(names.last())
    }
}

/// `n` string fields read from `pos`, and the position after them.
pub open spec fn parse_strs(b: Seq<u8>, pos: int, n: nat) -> Option<(Seq<Seq<char>>, int)>
    decreases n,
{
    if n == 0 {
        Some((Seq::empty(), pos))
    } else {
        match parse_strs(b, pos, (n - 1) as nat) {
            Some((prev, p)) => match parse_str(b, p) {
                Some((s, q)) => Some((prev.push(s), q)),
                None => None,
            },
            None => None,
        }
    }
}

/// The names of a sequence of channel ids.
pub open spec fn names_of(ids: Seq<ChannelId>) -> Seq<Seq<char>> {
    ids.map_values(|c: ChannelId| c@)
}

/// The body of a discovery message with these parts.
pub open spec fn discovery_body(state: DiscoveryState, a: AddressView, names: Seq<Seq<char>>) -> Seq<u8> {
    seq![DISCOVERY_TAG, state_byte(state)] + str_field(a.scheme) + str_field(a.host) + port_field(
        a.port,
    ) + str_field(a.path) + be32(names.len() as u32) + strs_body(names)
}

/// The state, address and channel names of a discovery body, if `b` is one.
pub open spec fn parse_discovery_body(b: Seq<u8>) -> Option<(DiscoveryState, AddressView, Seq<Seq<char>>)> {
    if b.len() >= 2 && b[0] == DISCOVERY_TAG && state_of(b[1]) is Some {
        match parse_str(b, 2) {
            Some((scheme, at_host)) => match parse_str(b, at_host) {
                Some((host, at_port)) => match parse_port(b, at_port) {
                    Some((port, at_path)) => match parse_str(b, at_path) {
                        Some((path, at_count)) => match parse_u32(b, at_count) {
                            Some((n, at_names)) => match parse_strs(b, at_names, n as nat) {
                                Some((names, at_end)) => if at_end == b.len() {
                                    Some((
                                        state_of(b[1])->0,
                                        AddressView { scheme, host, port, path },
                                        names,
                                    ))
                                } else {
                                    None
                                },
                                None => None,
                            },
                            None => None,
                        },
                        None => None,
                    },
                    None => None,
                },
                None => None,
            },
            None => None,
        }
    } else {
        None
    }
}

/// Every name and string of a discovery message fits in its field, and the
/// whole body in a frame.
pub open spec fn discovery_fits(m: &DiscoveryMessage) -> bool {
    &&& str_fits(m.uri.scheme@)
    &&& str_fits(m.uri.host@)
    &&& str_fits(m.uri.path@)
    &&& m.channels@.len() <= u32::MAX
    &&& forall|i: int| 0 <= i < m.channels@.len() ==> str_fits(#[trigger] m.channels@[i]@)
    &&& discovery_body(m.state, m.uri@, names_of(m.channels@)).len() <= u32::MAX
}

proof fn lemma_parse_strs_none(b: Seq<u8>, pos: int, m: nat, n: nat)
    requires
        m <= n,
        parse_strs(b, pos, m) is None,
    ensures
        parse_strs(b, pos, n) is None,
    decreases n - m,
{
    if m < n {
        lemma_parse_strs_none(b, pos, m, (n - 1) as nat);
    }
}

fn put_port(out: &mut Vec<u8>, p: Option<u16>)
    ensures
        final(out)@ == old(out)@ + port_field(p),
{
    match p {
        None => out.push(0u8),
        Some(v) => {
            out.push(1u8);
            out.push((v >> 8u16) as u8);
            out.push(v as u8);
        },
    }
    assert(final(out)@ =~= old(out)@ + port_field(p));
}

fn read_port(b: &[u8], pos: usize) -> (r: Option<(Option<u16>, usize)>)
    ensures
        match parse_port(b@, pos as int) {
            Some((p, q)) => r == Some((p, q as usize)),
            None => r is None,
        },
{
    if pos < b.len() && b[pos] == 0 {
        Some((None, pos + 1))
    } else if pos < b.len() && b.len() - pos >= 3 && b[pos] == 1 {
        let v: u16 = ((b[pos + 1] as u16) << 8u16) | (b[pos + 2] as u16);
        Some((Some(v), pos + 3))
    } else {
        None
    }
}

fn state_to_byte(s: DiscoveryState) -> (r: u8)
    ensures
        r == state_byte(s),
{
    match s {
        DiscoveryState::Connect => 0,
        DiscoveryState::ConnectResponse => 1,
        DiscoveryState::QueueData => 2,
        DiscoveryState::Error => 3,
    }
}

fn byte_to_state(b: u8) -> (r: Option<DiscoveryState>)
    ensures
        r == state_of(b),
{
    if b == 0 {
        Some(DiscoveryState::Connect)
    } else if b == 1 {
        Some(DiscoveryState::ConnectResponse)
    } else if b == 2 {
        Some(DiscoveryState::QueueData)
    } else if b == 3 {
        Some(DiscoveryState::Error)
    } else {
        None
    }
}

fn read_strs(b: &[u8], pos: usize, n: u32) -> (r: Option<(Vec<ChannelId>, usize)>)
    ensures
        match parse_strs(b@, pos as int, n as nat) {
            Some((names, p)) => r matches Some((v, q)) && names_of(v@) == names && q == p,
            None => r is None,
        },
{
    let mut out: Vec<ChannelId> = Vec::new();
    let mut p = pos;
    let mut i: u32 = 0;
    assert(names_of(out@) =~= Seq::<Seq<char>>::empty());
    while i < n
        invariant
            i <= n,
            parse_strs(b@, pos as int, i as nat) == Some((names_of(out@), p as int)),
        decreases n - i,
    {
        match read_str(b, p) {
            Some((s, q)) => {
                proof {
                    assert(out@.push(s).map_values(|c: ChannelId| c@) =~= names_of(out@).push(s@));
                }
                out.push(s);
                p = q;
            },
            None => {
                proof {
                    lemma_parse_strs_none(b@, pos as int, (i + 1) as nat, n as nat);
                }
                return None;
            },
        }
        i = i + 1;
    }
    Some((out, p))
}

/// The whole frame, header included, that carries `msg`.
pub fn encode_discovery(msg: &DiscoveryMessage) -> (r: Vec<u8>)
    requires
        discovery_fits(msg),
    ensures
        r@ == framed(discovery_body(msg.state, msg.uri@, names_of(msg.channels@))),
{
    let ghost names = names_of(msg.channels@);
    let mut body: Vec<u8> = Vec::new();
    body.push(DISCOVERY_TAG);
    body.push(state_to_byte(msg.state));
    put_str(&mut body, &msg.uri.scheme);
    put_str(&mut body, &msg.uri.host);
    put_port(&mut body, msg.uri.port);
    put_str(&mut body, &msg.uri.path);
    put_u32(&mut body, msg.channels.len() as u32);
    let ghost start = body@;
    let mut i: usize = 0;
    assert(names.take(0) =~= Seq::<Seq<char>>::empty());
    assert(start =~= start + strs_body(names.take(0)));
    while i < msg.channels.len()
        invariant
            0 <= i <= msg.channels@.len(),
            discovery_fits(msg),
            names == names_of(msg.channels@),
            body@ == start + strs_body(names.take(i as int)),
        decreases msg.channels@.len() - i,
    {
        assert(str_fits(msg.channels@[i as int]@));
        put_str(&mut body, &msg.channels[i]);
        proof {
            assert(names.take(i as int + 1).drop_last() =~= names.take(i as int));
            assert(names.take(i as int + 1).last() == msg.channels@[i as int]@);
        }
        i = i + 1;
        assert(body@ =~= start + strs_body(names.take(i as int)));
    }
    assert(names.take(i as int) =~= names);
    assert(body@ =~= discovery_body(msg.state, msg.uri@, names));
    let mut out: Vec<u8> = Vec::new();
    put_bytes(&mut out, body.as_slice());
    assert(out@ =~= framed(discovery_body(msg.state, msg.uri@, names)));
    out
}

/// Decodes a discovery frame body, header excluded.
pub fn decode_discovery(body: &[u8]) -> (r: Result<DiscoveryMessage, CodecError>)
    ensures
        match parse_discovery_body(body@) {
            Some((state, a, names)) => r matches Ok(m) && m.state == state && m.uri@ == a
                && names_of(m.channels@) == names,
            None => r == Err::<DiscoveryMessage, CodecError>(CodecError::MalformedFrame),
        },
{
    if body.len() < 2 || body[0] != DISCOVERY_TAG {
        return Err(CodecError::MalformedFrame);
    }
    let state = match byte_to_state(body[1]) {
        Some(s) => s,
        None => return Err(CodecError::MalformedFrame),
    };
    let (scheme, at_host) = match read_str(body, 2) {
        Some(x) => x,
        None => return Err(CodecError::MalformedFrame),
    };
    let (host, at_port) = match read_str(body, at_host) {
        Some(x) => x,
        None => return Err(CodecError::MalformedFrame),
    };
    let (port, at_path) = match read_port(body, at_port) {
        Some(x) => x,
        None => return Err(CodecError::MalformedFrame),
    };
    let (path, at_count) = match read_str(body, at_path) {
        Some(x) => x,
        None => return Err(CodecError::MalformedFrame),
    };
    let (n, at_names) = match read_u32(body, at_count) {
        Some(x) => x,
        None => return Err(CodecError::MalformedFrame),
    };
    let (channels, at_end) = match read_strs(body, at_names, n) {
        Some(x) => x,
        None => return Err(CodecError::MalformedFrame),
    };
    if at_end != body.len() {
        return Err(CodecError::MalformedFrame);
    }
    Ok(DiscoveryMessage { state, uri: NodeAddress { scheme, host, port, path }, channels })
}

proof fn lemma_parse_port_field(pre: Seq<u8>, p: Option<u16>, post: Seq<u8>)
    ensures
        parse_port(pre + port_field(p) + post, pre.len() as int) == Some(
            (p, (pre.len() + port_field(p).len()) as int),
        ),
{
    let b = pre + port_field(p) + post;
    let k = pre.len() as int;
    match p {
        None => {
            assert(b[k] == 0);
        },
        Some(v) => {
            assert(b[k] == 1 && b[k + 1] == (v >> 8u16) as u8 && b[k + 2] == v as u8);
            assert((((((v >> 8u16) as u8) as u16) << 8u16) | ((v as u8) as u16)) as u16 == v)
                by (bit_vector);
        },
    }
}

proof fn lemma_parse_strs_body(pre: Seq<u8>, names: Seq<Seq<char>>, post: Seq<u8>)
    requires
        forall|i: int| 0 <= i < names.len() ==> str_fits(#[trigger] names[i]),
    ensures
        parse_strs(pre + strs_body(names) + post, pre.len() as int, names.len()) == Some(
            (names, (pre.len() + strs_body(names).len()) as int),
        ),
    decreases names.len(),
{
    if names.len() > 0 {
        let prev = names.drop_last();
        let last = names.last();
        assert(str_fits(names[names.len() - 1]));
        let tail = str_field(last) + post;
        assert(pre + strs_body(names) + post =~= pre + strs_body(prev) + tail);
        lemma_parse_strs_body(pre, prev, tail);
        lemma_parse_str_field(pre + strs_body(prev), last, post);
        assert(pre + strs_body(prev) + str_field(last) + post =~= pre + strs_body(names) + post);
        assert(prev.push(last) =~= names);
    } else {
        assert(names =~= Seq::<Seq<char>>::empty());
    }
}

/// Decoding the body that a discovery message is encoded to gives its state,
/// address and channel names back.
#[verifier::rlimit(50)]
pub proof fn discovery_round_trip(state: DiscoveryState, a: AddressView, names: Seq<Seq<char>>)
    requires
        str_fits(a.scheme),
        str_fits(a.host),
        str_fits(a.path),
        names.len() <= u32::MAX,
        forall|i: int| 0 <= i < names.len() ==> str_fits(#[trigger] names[i]),
    ensures
        parse_discovery_body(discovery_body(state, a, names)) == Some((state, a, names)),
{
    let b = discovery_body(state, a, names);
    let h = seq![DISCOVERY_TAG, state_byte(state)];
    let f1 = str_field(a.scheme);
    let f2 = str_field(a.host);
    let f3 = port_field(a.port);
    let f4 = str_field(a.path);
    let f5 = be32(names.len() as u32);
    let f6 = strs_body(names);
    assert(b == h + f1 + f2 + f3 + f4 + f5 + f6);
    assert(b[0] == DISCOVERY_TAG && b[1] == state_byte(state));
    assert(state_of(b[1]) == Some(state));
    lemma_parse_str_field(h, a.scheme, f2 + f3 + f4 + f5 + f6);
    assert(h + f1 + (f2 + f3 + f4 + f5 + f6) =~= b);
    lemma_parse_str_field(h + f1, a.host, f3 + f4 + f5 + f6);
    assert(h + f1 + f2 + (f3 + f4 + f5 + f6) =~= b);
    lemma_parse_port_field(h + f1 + f2, a.port, f4 + f5 + f6);
    assert(h + f1 + f2 + f3 + (f4 + f5 + f6) =~= b);
    lemma_parse_str_field(h + f1 + f2 + f3, a.path, f5 + f6);
    assert(h + f1 + f2 + f3 + f4 + (f5 + f6) =~= b);
    let at_count_bytes = (h + f1 + f2 + f3 + f4).len() as int;
    lemma_be32(names.len() as u32);
    assert(b.subrange(at_count_bytes, at_count_bytes + 4) =~= f5);
    lemma_parse_strs_body(h + f1 + f2 + f3 + f4 + f5, names, Seq::empty());
    assert(h + f1 + f2 + f3 + f4 + f5 + f6 + Seq::<u8>::empty() =~= b);
}

} // verus!
