//! The calls into `bincode` that put plain values into datagrams and take them
//! out again.
//!
//! `bincode::serialize` and `bincode::deserialize` write integers little-endian
//! at their full width, a tuple as its fields one after another, and a sequence
//! as its length in eight bytes followed by its elements. Reading ignores what
//! stands behind the value and fails where the bytes end too early.

use vstd::prelude::*;

use crate::bytes::{le_at, le_bytes, samples_at, samples_bytes};

verus! {

/// The error of `bincode`, opaque here.
#[verifier::external_type_specification]
#[verifier::external_body]
pub struct ExBincodeErrorKind(bincode::ErrorKind);

/// The bytes in front of a packet's samples: two eight-byte numbers, one of
/// four, one of two, and the eight-byte sample count.
pub open spec fn packet_header(a: u64, b: u64, c: u32, d: u16, count: nat) -> Seq<u8> {
    le_bytes(a as nat, 8) + le_bytes(b as nat, 8) + le_bytes(c as nat, 4) + le_bytes(d as nat, 2)
        + le_bytes(count, 8)
}

/// The number of samples that the packet in `data` claims to hold.
pub open spec fn claimed_samples(data: Seq<u8>) -> nat {
    le_at(data, 22, 8)
}

/// `data` holds a whole packet, with or without something behind it.
pub open spec fn holds_packet(data: Seq<u8>) -> bool {
    data.len() >= 30 && data.len() >= 30 + 2 * claimed_samples(data)
}

/// `bincode::serialize` on a tuple of four integers and a sample sequence:
/// it succeeds, with the four integers, the sample count and the samples.
#[verifier::external_body]
pub(crate) fn encode_packet(a: u64, b: u64, c: u32, d: u16, samples: &Vec<i16>) -> (r: Result<
    Vec<u8>,
    Box<bincode::ErrorKind>,
>)
    requires
        30 + 2 * samples@.len() <= isize::MAX,
    ensures
        r is Ok,
        r->Ok_0@ == packet_header(a, b, c, d, samples@.len()) + samples_bytes(
            samples@,
        ),
{
    bincode::serialize(&(a, b, c, d, samples))
}

/// `bincode::deserialize` into a tuple of four integers and a sample sequence:
/// it succeeds where the bytes hold as many samples as they claim, and reads
/// each field from its place.
#[verifier::external_body]
pub(crate) fn decode_packet(data: &[u8]) -> (r: Result<
    (u64, u64, u32, u16, Vec<i16>),
    Box<bincode::ErrorKind>,
>)
    ensures
        r is Ok <==> holds_packet(data@),
        r matches Ok(t) ==> {
            &&& t.0 == le_at(data@, 0, 8)
            &&& t.1 == le_at(data@, 8, 8)
            &&& t.2 == le_at(data@, 16, 4)
            &&& t.3 == le_at(data@, 20, 2)
            &&& t.4@ == samples_at(data@, 30, claimed_samples(data@))
        },
{
    bincode::deserialize(data)
}

/// `bincode::serialize` on a `u32`: it succeeds with the four bytes.
#[verifier::external_body]
pub(crate) fn encode_u32(a: u32) -> (r: Result<Vec<u8>, Box<bincode::ErrorKind>>)
    ensures
        r is Ok,
        r->Ok_0@ == le_bytes(a as nat, 4),
{
    bincode::serialize(&a)
}

/// `bincode::serialize` on two `u32` and a `u16`: it succeeds with their ten
/// bytes.
#[verifier::external_body]
pub(crate) fn encode_u32_u32_u16(a: u32, b: u32, c: u16) -> (r: Result<
    Vec<u8>,
    Box<bincode::ErrorKind>,
>)
    ensures
        r is Ok,
        r->Ok_0@ == le_bytes(a as nat, 4) + le_bytes(b as nat, 4) + le_bytes(
            c as nat,
            2,
        ),
{
    bincode::serialize(&(a, b, c))
}

/// `bincode::serialize` on a `u32` and a `u64`: it succeeds with their twelve
/// bytes.
#[verifier::external_body]
pub(crate) fn encode_u32_u64(a: u32, b: u64) -> (r: Result<Vec<u8>, Box<bincode::ErrorKind>>)
    ensures
        r is Ok,
        r->Ok_0@ == le_bytes(a as nat, 4) + le_bytes(b as nat, 8),
{
    bincode::serialize(&(a, b))
}

/// `bincode::serialize` on a `u32` and two `u64`: it succeeds with their twenty
/// bytes.
#[verifier::external_body]
pub(crate) fn encode_u32_u64_u64(a: u32, b: u64, c: u64) -> (r: Result<
    Vec<u8>,
    Box<bincode::ErrorKind>,
>)
    ensures
        r is Ok,
        r->Ok_0@ == le_bytes(a as nat, 4) + le_bytes(b as nat, 8) + le_bytes(
            c as nat,
            8,
        ),
{
    bincode::serialize(&(a, b, c))
}

/// `bincode::deserialize` into a `u32`: it succeeds from four bytes on.
#[verifier::external_body]
pub(crate) fn decode_u32(data: &[u8]) -> (r: Result<u32, Box<bincode::ErrorKind>>)
    ensures
        r is Ok <==> data@.len() >= 4,
        r matches Ok(a) ==> a == le_at(data@, 0, 4),
{
    bincode::deserialize(data)
}

/// `bincode::deserialize` into two `u32` and a `u16`: it succeeds from ten
/// bytes on.
#[verifier::external_body]
pub(crate) fn decode_u32_u32_u16(data: &[u8]) -> (r: Result<
    (u32, u32, u16),
    Box<bincode::ErrorKind>,
>)
    ensures
        r is Ok <==> data@.len() >= 10,
        r matches Ok(t) ==> {
            &&& t.0 == le_at(data@, 0, 4)
            &&& t.1 == le_at(data@, 4, 4)
            &&& t.2 == le_at(data@, 8, 2)
        },
{
    bincode::deserialize(data)
}

/// `bincode::deserialize` into a `u32` and a `u64`: it succeeds from twelve
/// bytes on.
#[verifier::external_body]
pub(crate) fn decode_u32_u64(data: &[u8]) -> (r: Result<(u32, u64), Box<bincode::ErrorKind>>)
    ensures
        r is Ok <==> data@.len() >= 12,
        r matches Ok(t) ==> {
            &&& t.0 == le_at(data@, 0, 4)
            &&& t.1 == le_at(data@, 4, 8)
        },
{
    bincode::deserialize(data)
}

/// `bincode::deserialize` into a `u32` and two `u64`: it succeeds from twenty
/// bytes on.
#[verifier::external_body]
pub(crate) fn decode_u32_u64_u64(data: &[u8]) -> (r: Result<
    (u32, u64, u64),
    Box<bincode::ErrorKind>,
>)
    ensures
        r is Ok <==> data@.len() >= 20,
        r matches Ok(t) ==> {
            &&& t.0 == le_at(data@, 0, 4)
            &&& t.1 == le_at(data@, 4, 8)
            &&& t.2 == le_at(data@, 12, 8)
        },
{
    bincode::deserialize(data)
}

} // verus!
