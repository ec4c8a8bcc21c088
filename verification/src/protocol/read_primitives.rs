//! Requests and responses of the typed reads.

use crate::protocol::{
    decoded, expect, spec_expect, ErrorPacket, PacketError, PacketFault, PacketType,
};
use crate::wire::{
    bits_of_i64, get_u32, get_u64, i64_from_bits, i64_of_be, i64_to_be, lemma_i64_be,
    lemma_split, lemma_u32_be, lemma_u64_be, put_bytes, put_u32, put_u64, copy_range, u32_of_be,
    u32_to_be, u64_of_be, u64_to_be,
};
use vstd::prelude::*;
use vstd::utf8::encode_utf8;

verus! {

/// The request for `size` bytes at `address`.
#[derive(Debug, PartialEq, Eq, Clone, Copy)]
pub struct RequestReadVecMemoryPacket {
    pub _type: PacketType,
    pub address: u64,
    pub size: u32,
}

impl View for RequestReadVecMemoryPacket {
    type V = RequestReadVecMemoryPacket;

    open spec fn view(&self) -> RequestReadVecMemoryPacket {
        *self
    }
}

impl RequestReadVecMemoryPacket {
    pub open spec fn well_formed(&self) -> bool {
        self._type == PacketType::ReadVec
    }

    pub open spec fn spec_serialize(address: u64, size: u32) -> Seq<u8> {
        seq![PacketType::ReadVec.tag()] + u64_to_be(address) + u32_to_be(size)
    }

    pub open spec fn spec_deserialize(data: Seq<u8>) -> Result<Self, PacketFault> {
        match spec_expect(data, PacketType::ReadVec) {
            Err(e) => Err(e),
            Ok(_) => if data.len() < 13 {
                Err(PacketFault::Truncated)
            } else {
                Ok(
                    RequestReadVecMemoryPacket {
                        _type: PacketType::ReadVec,
                        address: u64_of_be(data.subrange(1, 9)),
                        size: u32_of_be(data.subrange(9, 13)),
                    },
                )
            },
        }
    }

    pub fn deserialize(data: &[u8]) -> (out: Result<Self, PacketError>)
        ensures
            decoded(out) == Self::spec_deserialize(data@),
    {
        match expect(data, PacketType::ReadVec) {
            Err(e) => Err(e),
            Ok(_) => {
                if data.len() < 13 {
                    Err(PacketError::Truncated)
                } else {
                    Ok(
                        RequestReadVecMemoryPacket {
                            _type: PacketType::ReadVec,
                            address: get_u64(data, 1),
                            size: get_u32(data, 9),
                        },
                    )
                }
            },
        }
    }

    pub fn serialize(address: u64, size: u32) -> (out: Vec<u8>)
        ensures
            out@ == Self::spec_serialize(address, size),
            out@[0] == PacketType::ReadVec.tag(),
    {
        let object = RequestReadVecMemoryPacket { _type: PacketType::ReadVec, address, size };
        let mut out: Vec<u8> = Vec::new();
        out.push(object._type.to_u8());
        put_u64(&mut out, object.address);
        put_u32(&mut out, object.size);
        out
    }

    /// The request decodes to what was put into it.
    pub proof fn lemma_round_trip(address: u64, size: u32)
        ensures
            Self::spec_serialize(address, size).len() == 13,
            Self::spec_deserialize(Self::spec_serialize(address, size)) == Ok::<Self, PacketFault>(
                RequestReadVecMemoryPacket { _type: PacketType::ReadVec, address, size },
            ),
    {
        let data = Self::spec_serialize(address, size);
        lemma_u64_be(address);
        lemma_u32_be(size);
        assert(data.subrange(0, 13) == data);
        lemma_split(data, 0, seq![PacketType::ReadVec.tag()] + u64_to_be(address), u32_to_be(size));
        lemma_split(data, 0, seq![PacketType::ReadVec.tag()], u64_to_be(address));
    }

    /// An error frame in place of this frame gives a failure that carries the message of
    /// the error frame.
    pub proof fn lemma_error_substitution(text: Seq<char>)
        requires
            encode_utf8(text).len() <= u32::MAX,
        ensures
            Self::spec_deserialize(ErrorPacket::spec_serialize(encode_utf8(text))) == Err::<
                Self,
                PacketFault,
            >(PacketFault::Remote(text)),
    {
        ErrorPacket::lemma_substitution(text, PacketType::ReadVec);
    }
}

/// The request for an unsigned integer of `size` bytes at `address`.
#[derive(Debug, PartialEq, Eq, Clone, Copy)]
pub struct RequestReadU64MemoryPacket {
    pub _type: PacketType,
    pub address: u64,
    pub size: u8,
}

impl View for RequestReadU64MemoryPacket {
    type V = RequestReadU64MemoryPacket;

    open spec fn view(&self) -> RequestReadU64MemoryPacket {
        *self
    }
}

impl RequestReadU64MemoryPacket {
    pub open spec fn well_formed(&self) -> bool {
        self._type == PacketType::ReadU64
    }

    pub open spec fn spec_serialize(address: u64, size: u8) -> Seq<u8> {
        seq![PacketType::ReadU64.tag()] + u64_to_be(address) + seq![size]
    }

    pub open spec fn spec_deserialize(data: Seq<u8>) -> Result<Self, PacketFault> {
        match spec_expect(data, PacketType::ReadU64) {
            Err(e) => Err(e),
            Ok(_) => if data.len() < 10 {
                Err(PacketFault::Truncated)
            } else {
                Ok(
                    RequestReadU64MemoryPacket {
                        _type: PacketType::ReadU64,
                        address: u64_of_be(data.subrange(1, 9)),
                        size: data[9],
                    },
                )
            },
        }
    }

    pub fn deserialize(data: &[u8]) -> (out: Result<Self, PacketError>)
        ensures
            decoded(out) == Self::spec_deserialize(data@),
    {
        match expect(data, PacketType::ReadU64) {
            Err(e) => Err(e),
            Ok(_) => {
                if data.len() < 10 {
                    Err(PacketError::Truncated)
                } else {
                    Ok(
                        RequestReadU64MemoryPacket {
                            _type: PacketType::ReadU64,
                            address: get_u64(data, 1),
                            size: data[9],
                        },
                    )
                }
            },
        }
    }

    pub fn serialize(address: u64, size: u8) -> (out: Vec<u8>)
        ensures
            out@ == Self::spec_serialize(address, size),
            out@[0] == PacketType::ReadU64.tag(),
    {
        let object = RequestReadU64MemoryPacket { _type: PacketType::ReadU64, address, size };
        let mut out: Vec<u8> = Vec::new();
        out.push(object._type.to_u8());
        put_u64(&mut out, object.address);
        out.push(object.size);
        out
    }

    /// The request decodes to what was put into it.
    pub proof fn lemma_round_trip(address: u64, size: u8)
        ensures
            Self::spec_serialize(address, size).len() == 10,
            Self::spec_deserialize(Self::spec_serialize(address, size)) == Ok::<Self, PacketFault>(
                RequestReadU64MemoryPacket { _type: PacketType::ReadU64, address, size },
            ),
    {
        let data = Self::spec_serialize(address, size);
        lemma_u64_be(address);
        assert(data.subrange(0, 10) == data);
        lemma_split(data, 0, seq![PacketType::ReadU64.tag()] + u64_to_be(address), seq![size]);
        lemma_split(data, 0, seq![PacketType::ReadU64.tag()], u64_to_be(address));
        assert(data.subrange(9, 10)[0] == size);
    }

    /// An error frame in place of this frame gives a failure that carries the message of
    /// the error frame.
    pub proof fn lemma_error_substitution(text: Seq<char>)
        requires
            encode_utf8(text).len() <= u32::MAX,
        ensures
            Self::spec_deserialize(ErrorPacket::spec_serialize(encode_utf8(text))) == Err::<
                Self,
                PacketFault,
            >(PacketFault::Remote(text)),
    {
        ErrorPacket::lemma_substitution(text, PacketType::ReadU64);
    }
}

/// The unsigned integer that was read, widened to 64 bits.
#[derive(Debug, PartialEq, Eq, Clone, Copy)]
pub struct ReceiveReadU64PacketResponse {
    pub _type: PacketType,
    pub value: u64,
}

impl View for ReceiveReadU64PacketResponse {
    type V = ReceiveReadU64PacketResponse;

    open spec fn view(&self) -> ReceiveReadU64PacketResponse {
        *self
    }
}

impl ReceiveReadU64PacketResponse {
    pub open spec fn well_formed(&self) -> bool {
        self._type == PacketType::ReadU64
    }

    pub open spec fn spec_serialize(value: u64) -> Seq<u8> {
        seq![PacketType::ReadU64.tag()] + u64_to_be(value)
    }

    pub open spec fn spec_deserialize(data: Seq<u8>) -> Result<Self, PacketFault> {
        match spec_expect(data, PacketType::ReadU64) {
            Err(e) => Err(e),
            Ok(_) => if data.len() < 9 {
                Err(PacketFault::Truncated)
            } else {
                Ok(
                    ReceiveReadU64PacketResponse {
                        _type: PacketType::ReadU64,
                        value: u64_of_be(data.subrange(1, 9)),
                    },
                )
            },
        }
    }

    pub fn deserialize(data: &[u8]) -> (out: Result<Self, PacketError>)
        ensures
            decoded(out) == Self::spec_deserialize(data@),
    {
        match expect(data, PacketType::ReadU64) {
            Err(e) => Err(e),
            Ok(_) => {
                if data.len() < 9 {
                    Err(PacketError::Truncated)
                } else {
                    Ok(
                        ReceiveReadU64PacketResponse {
                            _type: PacketType::ReadU64,
                            value: get_u64(data, 1),
                        },
                    )
                }
            },
        }
    }

    pub fn serialize(value: u64) -> (out: Vec<u8>)
        ensures
            out@ == Self::spec_serialize(value),
            out@[0] == PacketType::ReadU64.tag(),
    {
        let object = ReceiveReadU64PacketResponse { _type: PacketType::ReadU64, value };
        let mut out: Vec<u8> = Vec::new();
        out.push(object._type.to_u8());
        put_u64(&mut out, object.value);
        out
    }

    /// The response decodes to what was put into it.
    pub proof fn lemma_round_trip(value: u64)
        ensures
            Self::spec_serialize(value).len() == 9,
            Self::spec_deserialize(Self::spec_serialize(value)) == Ok::<Self, PacketFault>(
                ReceiveReadU64PacketResponse { _type: PacketType::ReadU64, value },
            ),
    {
        let data = Self::spec_serialize(value);
        lemma_u64_be(value);
        assert(data.subrange(0, 9) == data);
        lemma_split(data, 0, seq![PacketType::ReadU64.tag()], u64_to_be(value));
    }

    /// An error frame in place of this frame gives a failure that carries the message of
    /// the error frame.
    pub proof fn lemma_error_substitution(text: Seq<char>)
        requires
            encode_utf8(text).len() <= u32::MAX,
        ensures
            Self::spec_deserialize(ErrorPacket::spec_serialize(encode_utf8(text))) == Err::<
                Self,
                PacketFault,
            >(PacketFault::Remote(text)),
    {
        ErrorPacket::lemma_substitution(text, PacketType::ReadU64);
    }
}

/// The request for a signed integer of `size` bytes at `address`.
#[derive(Debug, PartialEq, Eq, Clone, Copy)]
pub struct RequestReadI64MemoryPacket {
    pub _type: PacketType,
    pub address: u64,
    pub size: u8,
}

impl View for RequestReadI64MemoryPacket {
    type V = RequestReadI64MemoryPacket;

    open spec fn view(&self) -> RequestReadI64MemoryPacket {
        *self
    }
}

impl RequestReadI64MemoryPacket {
    pub open spec fn well_formed(&self) -> bool {
        self._type == PacketType::ReadI64
    }

    pub open spec fn spec_serialize(address: u64, size: u8) -> Seq<u8> {
        seq![PacketType::ReadI64.tag()] + u64_to_be(address) + seq![size]
    }

    pub open spec fn spec_deserialize(data: Seq<u8>) -> Result<Self, PacketFault> {
        match spec_expect(data, PacketType::ReadI64) {
            Err(e) => Err(e),
            Ok(_) => if data.len() < 10 {
                Err(PacketFault::Truncated)
            } else {
                Ok(
                    RequestReadI64MemoryPacket {
                        _type: PacketType::ReadI64,
                        address: u64_of_be(data.subrange(1, 9)),
                        size: data[9],
                    },
                )
            },
        }
    }

    pub fn deserialize(data: &[u8]) -> (out: Result<Self, PacketError>)
        ensures
            decoded(out) == Self::spec_deserialize(data@),
    {
        match expect(data, PacketType::ReadI64) {
            Err(e) => Err(e),
            Ok(_) => {
                if data.len() < 10 {
                    Err(PacketError::Truncated)
                } else {
                    Ok(
                        RequestReadI64MemoryPacket {
                            _type: PacketType::ReadI64,
                            address: get_u64(data, 1),
                            size: data[9],
                        },
                    )
                }
            },
        }
    }

    pub fn serialize(address: u64, size: u8) -> (out: Vec<u8>)
        ensures
            out@ == Self::spec_serialize(address, size),
            out@[0] == PacketType::ReadI64.tag(),
    {
        let object = RequestReadI64MemoryPacket { _type: PacketType::ReadI64, address, size };
        let mut out: Vec<u8> = Vec::new();
        out.push(object._type.to_u8());
        put_u64(&mut out, object.address);
        out.push(object.size);
        out
    }

    /// The request decodes to what was put into it.
    pub proof fn lemma_round_trip(address: u64, size: u8)
        ensures
            Self::spec_serialize(address, size).len() == 10,
            Self::spec_deserialize(Self::spec_serialize(address, size)) == Ok::<Self, PacketFault>(
                RequestReadI64MemoryPacket { _type: PacketType::ReadI64, address, size },
            ),
    {
        let data = Self::spec_serialize(address, size);
        lemma_u64_be(address);
        assert(data.subrange(0, 10) == data);
        lemma_split(data, 0, seq![PacketType::ReadI64.tag()] + u64_to_be(address), seq![size]);
        lemma_split(data, 0, seq![PacketType::ReadI64.tag()], u64_to_be(address));
        assert(data.subrange(9, 10)[0] == size);
    }

    /// An error frame in place of this frame gives a failure that carries the message of
    /// the error frame.
    pub proof fn lemma_error_substitution(text: Seq<char>)
        requires
            encode_utf8(text).len() <= u32::MAX,
        ensures
            Self::spec_deserialize(ErrorPacket::spec_serialize(encode_utf8(text))) == Err::<
                Self,
                PacketFault,
            >(PacketFault::Remote(text)),
    {
        ErrorPacket::lemma_substitution(text, PacketType::ReadI64);
    }
}

/// The signed integer that was read, widened to 64 bits.
#[derive(Debug, PartialEq, Eq, Clone, Copy)]
pub struct ReceiveReadI64PacketResponse {
    pub _type: PacketType,
    pub value: i64,
}

impl View for ReceiveReadI64PacketResponse {
    type V = ReceiveReadI64PacketResponse;

    open spec fn view(&self) -> ReceiveReadI64PacketResponse {
        *self
    }
}

impl ReceiveReadI64PacketResponse {
    pub open spec fn well_formed(&self) -> bool {
        self._type == PacketType::ReadI64
    }

    pub open spec fn spec_serialize(value: i64) -> Seq<u8> {
        seq![PacketType::ReadI64.tag()] + i64_to_be(value)
    }

    pub open spec fn spec_deserialize(data: Seq<u8>) -> Result<Self, PacketFault> {
        match spec_expect(data, PacketType::ReadI64) {
            Err(e) => Err(e),
            Ok(_) => if data.len() < 9 {
                Err(PacketFault::Truncated)
            } else {
                Ok(
                    ReceiveReadI64PacketResponse {
                        _type: PacketType::ReadI64,
                        value: i64_of_be(data.subrange(1, 9)),
                    },
                )
            },
        }
    }

    pub fn deserialize(data: &[u8]) -> (out: Result<Self, PacketError>)
        ensures
            decoded(out) == Self::spec_deserialize(data@),
    {
        match expect(data, PacketType::ReadI64) {
            Err(e) => Err(e),
            Ok(_) => {
                if data.len() < 9 {
                    Err(PacketError::Truncated)
                } else {
                    Ok(
                        ReceiveReadI64PacketResponse {
                            _type: PacketType::ReadI64,
                            value: i64_from_bits(get_u64(data, 1)),
                        },
                    )
                }
            },
        }
    }

    pub fn serialize(value: i64) -> (out: Vec<u8>)
        ensures
            out@ == Self::spec_serialize(value),
            out@[0] == PacketType::ReadI64.tag(),
    {
        let object = ReceiveReadI64PacketResponse { _type: PacketType::ReadI64, value };
        let mut out: Vec<u8> = Vec::new();
        out.push(object._type.to_u8());
        put_u64(&mut out, bits_of_i64(object.value));
        out
    }

    /// The response decodes to what was put into it.
    pub proof fn lemma_round_trip(value: i64)
        ensures
            Self::spec_serialize(value).len() == 9,
            Self::spec_deserialize(Self::spec_serialize(value)) == Ok::<Self, PacketFault>(
                ReceiveReadI64PacketResponse { _type: PacketType::ReadI64, value },
            ),
    {
        let data = Self::spec_serialize(value);
        lemma_i64_be(value);
        assert(data.subrange(0, 9) == data);
        lemma_split(data, 0, seq![PacketType::ReadI64.tag()], i64_to_be(value));
    }

    /// An error frame in place of this frame gives a failure that carries the message of
    /// the error frame.
    pub proof fn lemma_error_substitution(text: Seq<char>)
        requires
            encode_utf8(text).len() <= u32::MAX,
        ensures
            Self::spec_deserialize(ErrorPacket::spec_serialize(encode_utf8(text))) == Err::<
                Self,
                PacketFault,
            >(PacketFault::Remote(text)),
    {
        ErrorPacket::lemma_substitution(text, PacketType::ReadI64);
    }
}

/// The request for `count` single-precision floats at `address`.
#[derive(Debug, PartialEq, Eq, Clone, Copy)]
pub struct RequestReadVecF32MemoryPacket {
    pub _type: PacketType,
    pub address: u64,
    pub count: u8,
}

impl View for RequestReadVecF32MemoryPacket {
    type V = RequestReadVecF32MemoryPacket;

    open spec fn view(&self) -> RequestReadVecF32MemoryPacket {
        *self
    }
}

impl RequestReadVecF32MemoryPacket {
    pub open spec fn well_formed(&self) -> bool {
        self._type == PacketType::ReadVecF32
    }

    pub open spec fn spec_serialize(address: u64, count: u8) -> Seq<u8> {
        seq![PacketType::ReadVecF32.tag()] + u64_to_be(address) + seq![count]
    }

    pub open spec fn spec_deserialize(data: Seq<u8>) -> Result<Self, PacketFault> {
        match spec_expect(data, PacketType::ReadVecF32) {
            Err(e) => Err(e),
            Ok(_) => if data.len() < 10 {
                Err(PacketFault::Truncated)
            } else {
                Ok(
                    RequestReadVecF32MemoryPacket {
                        _type: PacketType::ReadVecF32,
                        address: u64_of_be(data.subrange(1, 9)),
                        count: data[9],
                    },
                )
            },
        }
    }

    pub fn deserialize(data: &[u8]) -> (out: Result<Self, PacketError>)
        ensures
            decoded(out) == Self::spec_deserialize(data@),
    {
        match expect(data, PacketType::ReadVecF32) {
            Err(e) => Err(e),
            Ok(_) => {
                if data.len() < 10 {
                    Err(PacketError::Truncated)
                } else {
                    Ok(
                        RequestReadVecF32MemoryPacket {
                            _type: PacketType::ReadVecF32,
                            address: get_u64(data, 1),
                            count: data[9],
                        },
                    )
                }
            },
        }
    }

    pub fn serialize(address: u64, count: u8) -> (out: Vec<u8>)
        ensures
            out@ == Self::spec_serialize(address, count),
            out@[0] == PacketType::ReadVecF32.tag(),
    {
        let object = RequestReadVecF32MemoryPacket { _type: PacketType::ReadVecF32, address, count };
        let mut out: Vec<u8> = Vec::new();
        out.push(object._type.to_u8());
        put_u64(&mut out, object.address);
        out.push(object.count);
        out
    }

    /// The request decodes to what was put into it.
    pub proof fn lemma_round_trip(address: u64, count: u8)
        ensures
            Self::spec_serialize(address, count).len() == 10,
            Self::spec_deserialize(Self::spec_serialize(address, count)) == Ok::<Self, PacketFault>(
                RequestReadVecF32MemoryPacket { _type: PacketType::ReadVecF32, address, count },
            ),
    {
        let data = Self::spec_serialize(address, count);
        lemma_u64_be(address);
        assert(data.subrange(0, 10) == data);
        lemma_split(data, 0, seq![PacketType::ReadVecF32.tag()] + u64_to_be(address), seq![count]);
        lemma_split(data, 0, seq![PacketType::ReadVecF32.tag()], u64_to_be(address));
        assert(data.subrange(9, 10)[0] == count);
    }

    /// An error frame in place of this frame gives a failure that carries the message of
    /// the error frame.
    pub proof fn lemma_error_substitution(text: Seq<char>)
        requires
            encode_utf8(text).len() <= u32::MAX,
        ensures
            Self::spec_deserialize(ErrorPacket::spec_serialize(encode_utf8(text))) == Err::<
                Self,
                PacketFault,
            >(PacketFault::Remote(text)),
    {
        ErrorPacket::lemma_substitution(text, PacketType::ReadVecF32);
    }
}

/// The bytes that were read.
#[derive(Debug, PartialEq, Eq, Clone)]
pub struct ReceiveReadVecPacketResponse {
    pub _type: PacketType,
    pub count: u32,
    pub data: Vec<u8>,
}

impl View for ReceiveReadVecPacketResponse {
    type V = Seq<u8>;

    /// The bytes.
    open spec fn view(&self) -> Seq<u8> {
        self.data@
    }
}

impl ReceiveReadVecPacketResponse {
    pub open spec fn well_formed(&self) -> bool {
        self._type == PacketType::ReadVec && self.count == self.data@.len()
    }

    pub open spec fn spec_serialize(data: Seq<u8>) -> Seq<u8> {
        seq![PacketType::ReadVec.tag()] + u32_to_be(data.len() as u32) + data
    }

    pub open spec fn spec_deserialize(data: Seq<u8>) -> Result<Seq<u8>, PacketFault> {
        match spec_expect(data, PacketType::ReadVec) {
            Err(e) => Err(e),
            Ok(_) => if data.len() < 5 {
                Err(PacketFault::Truncated)
            } else if data.len() < 5 + u32_of_be(data.subrange(1, 5)) {
                Err(PacketFault::Truncated)
            } else {
                Ok(data.subrange(5, 5 + u32_of_be(data.subrange(1, 5))))
            },
        }
    }

    pub fn deserialize(data: &[u8]) -> (out: Result<Self, PacketError>)
        ensures
            decoded(out) == Self::spec_deserialize(data@),
            out matches Ok(packet) ==> packet.well_formed(),
    {
        match expect(data, PacketType::ReadVec) {
            Err(e) => Err(e),
            Ok(_) => {
                if data.len() < 5 {
                    return Err(PacketError::Truncated);
                }
                let count = get_u32(data, 1);
                if data.len() - 5 < count as usize {
                    return Err(PacketError::Truncated);
                }
                Ok(
                    ReceiveReadVecPacketResponse {
                        _type: PacketType::ReadVec,
                        count,
                        data: copy_range(data, 5, 5 + count as usize),
                    },
                )
            },
        }
    }

    pub fn serialize(data: Vec<u8>) -> (out: Vec<u8>)
        requires
            data@.len() <= u32::MAX,
        ensures
            out@ == Self::spec_serialize(data@),
            out@[0] == PacketType::ReadVec.tag(),
    {
        let object = ReceiveReadVecPacketResponse {
            _type: PacketType::ReadVec,
            count: data.len() as u32,
            data,
        };
        let mut out: Vec<u8> = Vec::new();
        out.push(object._type.to_u8());
        put_u32(&mut out, object.count);
        put_bytes(&mut out, object.data.as_slice());
        out
    }

    /// The response decodes to the bytes that were put into it.
    pub proof fn lemma_round_trip(data: Seq<u8>)
        requires
            data.len() <= u32::MAX,
        ensures
            Self::spec_serialize(data)[0] == PacketType::ReadVec.tag(),
            Self::spec_deserialize(Self::spec_serialize(data)) == Ok::<Seq<u8>, PacketFault>(data),
    {
        let frame = Self::spec_serialize(data);
        lemma_u32_be(data.len() as u32);
        assert(frame.subrange(0, 5 + data.len() as int) == frame);
        lemma_split(
            frame,
            0,
            seq![PacketType::ReadVec.tag()] + u32_to_be(data.len() as u32),
            data,
        );
        lemma_split(frame, 0, seq![PacketType::ReadVec.tag()], u32_to_be(data.len() as u32));
    }

    /// An error frame in place of this frame gives a failure that carries the message of
    /// the error frame.
    pub proof fn lemma_error_substitution(text: Seq<char>)
        requires
            encode_utf8(text).len() <= u32::MAX,
        ensures
            Self::spec_deserialize(ErrorPacket::spec_serialize(encode_utf8(text))) == Err::<
                Seq<u8>,
                PacketFault,
            >(PacketFault::Remote(text)),
    {
        ErrorPacket::lemma_substitution(text, PacketType::ReadVec);
    }
}

/// The wire form of a run of 32-bit words, one after the other.
pub open spec fn spec_write_words(words: Seq<u32>) -> Seq<u8>
    decreases words.len(),
{
    if words.len() == 0 {
        Seq::empty()
    } else {
        spec_write_words(words.drop_last()) + u32_to_be(words.last())
    }
}

/// The `count` words that start at `at`.
pub open spec fn spec_read_words(data: Seq<u8>, at: int, count: nat) -> Seq<u32> {
    Seq::new(count, |i: int| u32_of_be(data.subrange(at + 4 * i, at + 4 * i + 4)))
}

/// Every word takes four bytes and is found at four times its index.
pub proof fn lemma_words_layout(words: Seq<u32>)
    ensures
        spec_write_words(words).len() == 4 * words.len(),
        forall|i: int|
            0 <= i < words.len() ==> #[trigger] spec_write_words(words).subrange(4 * i, 4 * i + 4)
                == u32_to_be(words[i]),
    decreases words.len(),
{
    if words.len() > 0 {
        let front = words.drop_last();
        lemma_words_layout(front);
        lemma_u32_be(words.last());
        let whole = spec_write_words(words);
        assert forall|i: int| 0 <= i < words.len() implies #[trigger] whole.subrange(
            4 * i,
            4 * i + 4,
        ) == u32_to_be(words[i]) by {
            if i < front.len() {
                assert(whole.subrange(4 * i, 4 * i + 4) == spec_write_words(front).subrange(
                    4 * i,
                    4 * i + 4,
                ));
                assert(front[i] == words[i]);
            } else {
                assert(whole.subrange(4 * i, 4 * i + 4) == u32_to_be(words.last()));
            }
        }
    }
}

/// The single-precision floats that were read, each as its IEEE-754 bit pattern.
#[derive(Debug, PartialEq, Eq, Clone)]
pub struct ReceiveReadVecF32PacketResponse {
    pub _type: PacketType,
    pub count: u32,
    pub data: Vec<u32>,
}

impl View for ReceiveReadVecF32PacketResponse {
    type V = Seq<u32>;

    /// The bit patterns.
    open spec fn view(&self) -> Seq<u32> {
        self.data@
    }
}

impl ReceiveReadVecF32PacketResponse {
    pub open spec fn well_formed(&self) -> bool {
        self._type == PacketType::ReadVecF32 && self.count == self.data@.len()
    }

    pub open spec fn spec_serialize(data: Seq<u32>) -> Seq<u8> {
        seq![PacketType::ReadVecF32.tag()] + u32_to_be(data.len() as u32) + spec_write_words(data)
    }

    pub open spec fn spec_deserialize(data: Seq<u8>) -> Result<Seq<u32>, PacketFault> {
        match spec_expect(data, PacketType::ReadVecF32) {
            Err(e) => Err(e),
            Ok(_) => if data.len() < 5 {
                Err(PacketFault::Truncated)
            } else if data.len() < 5 + 4 * u32_of_be(data.subrange(1, 5)) {
                Err(PacketFault::Truncated)
            } else {
                Ok(spec_read_words(data, 5, u32_of_be(data.subrange(1, 5)) as nat))
            },
        }
    }

    pub fn deserialize(data: &[u8]) -> (out: Result<Self, PacketError>)
        ensures
            decoded(out) == Self::spec_deserialize(data@),
            out matches Ok(packet) ==> packet.well_formed(),
    {
        match expect(data, PacketType::ReadVecF32) {
            Err(e) => Err(e),
            Ok(_) => {
                if data.len() < 5 {
                    return Err(PacketError::Truncated);
                }
                let count = get_u32(data, 1);
                if (data.len() - 5) / 4 < count as usize {
                    return Err(PacketError::Truncated);
                }
                let mut words: Vec<u32> = Vec::new();
                let mut i: u32 = 0;
                while i < count
                    invariant
                        i <= count,
                        5 + 4 * count <= data.len(),
                        words@ == spec_read_words(data@, 5, i as nat),
                    decreases count - i,
                {
                    let at: usize = 5 + 4 * (i as usize);
                    words.push(get_u32(data, at));
                    i += 1;
                    assert(words@ == spec_read_words(data@, 5, i as nat));
                }
                Ok(
                    ReceiveReadVecF32PacketResponse {
                        _type: PacketType::ReadVecF32,
                        count,
                        data: words,
                    },
                )
            },
        }
    }

    pub fn serialize(data: Vec<u32>) -> (out: Vec<u8>)
        requires
            data@.len() <= u32::MAX,
        ensures
            out@ == Self::spec_serialize(data@),
            out@[0] == PacketType::ReadVecF32.tag(),
    {
        let object = ReceiveReadVecF32PacketResponse {
            _type: PacketType::ReadVecF32,
            count: data.len() as u32,
            data,
        };
        let mut out: Vec<u8> = Vec::new();
        out.push(object._type.to_u8());
        put_u32(&mut out, object.count);
        let ghost head = out@;
        let mut i: usize = 0;
        assert(object.data@.take(0).len() == 0);
        while i < object.data.len()
            invariant
                i <= object.data.len(),
                out@ == head + spec_write_words(object.data@.take(i as int)),
            decreases object.data.len() - i,
        {
            assert(object.data@.take(i + 1).drop_last() == object.data@.take(i as int));
            put_u32(&mut out, object.data[i]);
            i += 1;
            assert(out@ == head + (spec_write_words(object.data@.take(i - 1)) + u32_to_be(
                object.data@[i - 1],
            )));
        }
        assert(object.data@.take(i as int) == object.data@);
        out
    }

    /// The response decodes to the bit patterns that were put into it.
    pub proof fn lemma_round_trip(data: Seq<u32>)
        requires
            data.len() <= u32::MAX,
        ensures
            Self::spec_serialize(data)[0] == PacketType::ReadVecF32.tag(),
            Self::spec_deserialize(Self::spec_serialize(data)) == Ok::<Seq<u32>, PacketFault>(
                data,
            ),
    {
        let frame = Self::spec_serialize(data);
        let body = spec_write_words(data);
        lemma_u32_be(data.len() as u32);
        lemma_words_layout(data);
        assert(frame.subrange(0, 5 + body.len() as int) == frame);
        lemma_split(frame, 0, seq![PacketType::ReadVecF32.tag()] + u32_to_be(data.len() as u32), body);
        lemma_split(frame, 0, seq![PacketType::ReadVecF32.tag()], u32_to_be(data.len() as u32));
        let read = spec_read_words(frame, 5, data.len());
        assert forall|i: int| 0 <= i < data.len() implies read[i] == data[i] by {
            assert(frame.subrange(5 + 4 * i, 5 + 4 * i + 4) == body.subrange(4 * i, 4 * i + 4));
            lemma_u32_be(data[i]);
        }
        assert(read == data);
    }

    /// An error frame in place of this frame gives a failure that carries the message of
    /// the error frame.
    pub proof fn lemma_error_substitution(text: Seq<char>)
        requires
            encode_utf8(text).len() <= u32::MAX,
        ensures
            Self::spec_deserialize(ErrorPacket::spec_serialize(encode_utf8(text))) == Err::<
                Seq<u32>,
                PacketFault,
            >(PacketFault::Remote(text)),
    {
        ErrorPacket::lemma_substitution(text, PacketType::ReadVecF32);
    }
}

} // verus!
