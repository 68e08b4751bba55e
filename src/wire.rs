//! How queue items travel as bytes: bincode's fixed-width little-endian
//! layout of integers.

use vstd::prelude::*;

verus! {

/// The bytes of a value: least significant byte first.
pub open spec fn le_bytes(v: nat, width: nat) -> Seq<u8>
    decreases width,
{
    if width == 0 {
        Seq::empty()
    } else {
        seq![(v % 256) as u8].add(le_bytes(v / 256, (width - 1) as nat))
    }
}

/// The value of bytes read least significant first.
pub open spec fn le_value(b: Seq<u8>) -> nat
    decreases b.len(),
{
    if b.len() == 0 {
        0
    } else {
        (b[0] as nat + 256 * le_value(b.drop_first())) as nat
    }
}

/// `256` to the power `width`: the values that `width` bytes can hold.
pub open spec fn byte_base(width: nat) -> nat
    decreases width,
{
    if width == 0 {
        1
    } else {
        256 * byte_base((width - 1) as nat)
    }
}

proof fn lemma_le_bytes_len(v: nat, width: nat)
    ensures
        le_bytes(v, width).len() == width,
    decreases width,
{
    if width > 0 {
        lemma_le_bytes_len(v / 256, (width - 1) as nat);
    }
}

/// Reading back the bytes of a value that fits in `width` bytes gives it back.
pub proof fn lemma_le_round_trip(v: nat, width: nat)
    requires
        v < byte_base(width),
    ensures
        le_value(le_bytes(v, width)) == v,
    decreases width,
{
    if width > 0 {
        let b = le_bytes(v, width);
        let rest = byte_base((width - 1) as nat);
        assert(v / 256 < rest) by (nonlinear_arith)
            requires
                v < 256 * rest,
        ;
        lemma_le_round_trip(v / 256, (width - 1) as nat);
        assert(b.drop_first() =~= le_bytes(v / 256, (width - 1) as nat));
        assert(b[0] as nat == v % 256);
        assert(v % 256 + 256 * (v / 256) == v) by (nonlinear_arith);
    } else {
        assert(v == 0);
    }
}

/// An item type that queues can forward over the wire and rebuild from bytes.
pub trait WireItem: Sized + Copy {
    /// The bytes that encode `v`.
    spec fn wire_of(v: Self) -> Seq<u8>;

    /// The item that a frame starting with `data` decodes to, if any.
    spec fn read_wire(data: Seq<u8>) -> Option<Self>;

    /// Encodes this item.
    fn to_wire(&self) -> (r: Vec<u8>)
        ensures
            r@ == Self::wire_of(*self),
    ;

    /// Decodes an item from the front of `data`; bytes after it are ignored.
    fn from_wire(data: &[u8]) -> (r: Option<Self>)
        ensures
            r == Self::read_wire(data@),
    ;

    /// Decoding the bytes of an item gives the item back.
    proof fn lemma_wire_round_trip(v: Self)
        ensures
            Self::read_wire(Self::wire_of(v)) == Some(v),
    ;
}

/// Relies on `bincode::serialize` for `i32`: four bytes, little-endian, two's
/// complement; it does not fail for an integer.
#[verifier::external_body]
fn encode_i32(v: i32) -> (r: Vec<u8>)
    ensures
        r@ == le_bytes(v as u32 as nat, 4),
{
    bincode::serialize(&v).unwrap_or_default()
}

/// Relies on `bincode::deserialize` for `i32`: reads the first four bytes,
/// little-endian, and fails on fewer.
#[verifier::external_body]
fn decode_i32(data: &[u8]) -> (r: Option<i32>)
    ensures
        data@.len() < 4 ==> r is None,
        data@.len() >= 4 ==> r == Some(le_value(data@.take(4)) as u32 as i32),
{
    bincode::deserialize::<i32>(data).ok()
}

/// Relies on `bincode::serialize` for `i64`: eight bytes, little-endian, two's
/// complement; it does not fail for an integer.
#[verifier::external_body]
fn encode_i64(v: i64) -> (r: Vec<u8>)
    ensures
        r@ == le_bytes(v as u64 as nat, 8),
{
    bincode::serialize(&v).unwrap_or_default()
}

/// Relies on `bincode::deserialize` for `i64`: reads the first eight bytes,
/// little-endian, and fails on fewer.
#[verifier::external_body]
fn decode_i64(data: &[u8]) -> (r: Option<i64>)
    ensures
        data@.len() < 8 ==> r is None,
        data@.len() >= 8 ==> r == Some(le_value(data@.take(8)) as u64 as i64),
{
    bincode::deserialize::<i64>(data).ok()
}

impl WireItem for i32 {
    open spec fn wire_of(v: i32) -> Seq<u8> {
        le_bytes(v as u32 as nat, 4)
    }

    open spec fn read_wire(data: Seq<u8>) -> Option<i32> {
        if data.len() < 4 {
            None
        } else {
            Some(le_value(data.take(4)) as u32 as i32)
        }
    }

    fn to_wire(&self) -> (r: Vec<u8>) {
        encode_i32(*self)
    }

    fn from_wire(data: &[u8]) -> (r: Option<i32>) {
        decode_i32(data)
    }

    proof fn lemma_wire_round_trip(v: i32) {
        let u = v as u32;
        reveal_with_fuel(byte_base, 5);
        assert(byte_base(4) == 4294967296);
        lemma_le_bytes_len(u as nat, 4);
        lemma_le_round_trip(u as nat, 4);
        assert(le_bytes(u as nat, 4).take(4) =~= le_bytes(u as nat, 4));
        assert(u as i32 == v) by (bit_vector)
            requires
                u == v as u32,
        ;
    }
}

impl WireItem for i64 {
    open spec fn wire_of(v: i64) -> Seq<u8> {
        le_bytes(v as u64 as nat, 8)
    }

    open spec fn read_wire(data: Seq<u8>) -> Option<i64> {
        if data.len() < 8 {
            None
        } else {
            Some(le_value(data.take(8)) as u64 as i64)
        }
    }

    fn to_wire(&self) -> (r: Vec<u8>) {
        encode_i64(*self)
    }

    fn from_wire(data: &[u8]) -> (r: Option<i64>) {
        decode_i64(data)
    }

    proof fn lemma_wire_round_trip(v: i64) {
        let u = v as u64;
        reveal_with_fuel(byte_base, 9);
        assert(byte_base(8) == 18446744073709551616);
        lemma_le_bytes_len(u as nat, 8);
        lemma_le_round_trip(u as nat, 8);
        assert(le_bytes(u as nat, 8).take(8) =~= le_bytes(u as nat, 8));
        assert(u as i64 == v) by (bit_vector)
            requires
                u == v as u64,
        ;
    }
}

} // verus!
