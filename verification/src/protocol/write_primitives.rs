//! Request and response of the write.

use crate::protocol::{
    decoded, expect, spec_expect, ErrorPacket, PacketError, PacketFault, PacketType,
};
use crate::wire::{
    copy_range, get_u32, get_u64, lemma_split, lemma_u32_be, lemma_u64_be, put_bytes, put_u32,
    put_u64, u32_of_be, u32_to_be, u64_of_be, u64_to_be,
};
use vstd::prelude::*;
use vstd::utf8::encode_utf8;

verus! {

/// A write request as a mathematical value: where to write, and what.
pub struct WriteRequestView {
    pub address: u64,
    pub bytes: Seq<u8>,
}

/// The request to write `bytes` at `address`.
#[derive(Debug, PartialEq, Eq, Clone)]
pub struct RequestWriteVecMemoryPacket {
    pub _type: PacketType,
    pub address: u64,
    pub count: u32,
    pub bytes: Vec<u8>,
}

impl View for RequestWriteVecMemoryPacket {
    type V = WriteRequestView;

    open spec fn view(&self) -> WriteRequestView {
        WriteRequestView { address: self.address, bytes: self.bytes@ }
    }
}

impl RequestWriteVecMemoryPacket {
    pub open spec fn well_formed(&self) -> bool {
        self._type == PacketType::Write && self.count == self.bytes@.len()
    }

    pub open spec fn spec_serialize(address: u64, bytes: Seq<u8>) -> Seq<u8> {
        seq![PacketType::Write.tag()] + u64_to_be(address) + u32_to_be(bytes.len() as u32) + bytes
    }

    pub open spec fn spec_deserialize(data: Seq<u8>) -> Result<WriteRequestView, PacketFault> {
        match spec_expect(data, PacketType::Write) {
            Err(e) => Err(e),
            Ok(_) => if data.len() < 13 {
                Err(PacketFault::Truncated)
            } else if data.len() < 13 + u32_of_be(data.subrange(9, 13)) {
                Err(PacketFault::Truncated)
            } else {
                Ok(
                    WriteRequestView {
                        address: u64_of_be(data.subrange(1, 9)),
                        bytes: data.subrange(13, 13 + u32_of_be(data.subrange(9, 13))),
                    },
                )
            },
        }
    }

    pub fn deserialize(data: &[u8]) -> (out: Result<Self, PacketError>)
        ensures
            decoded(out) == Self::spec_deserialize(data@),
            out matches Ok(packet) ==> packet.well_formed(),
    {
        match expect(data, PacketType::Write) {
            Err(e) => Err(e),
            Ok(_) => {
                if data.len() < 13 {
                    return Err(PacketError::Truncated);
                }
                let address = get_u64(data, 1);
                let count = get_u32(data, 9);
                if data.len() - 13 < count as usize {
                    return Err(PacketError::Truncated);
                }
                Ok(
                    RequestWriteVecMemoryPacket {
                        _type: PacketType::Write,
                        address,
                        count,
                        bytes: copy_range(data, 13, 13 + count as usize),
                    },
                )
            },
        }
    }

    pub fn serialize(address: u64, bytes: Vec<u8>) -> (out: Vec<u8>)
        requires
            bytes@.len() <= u32::MAX,
        ensures
            out@ == Self::spec_serialize(address, bytes@),
            out@[0] == PacketType::Write.tag(),
    {
        let object = RequestWriteVecMemoryPacket {
            _type: PacketType::Write,
            address,
            count: bytes.len() as u32,
            bytes,
        };
        let mut out: Vec<u8> = Vec::new();
        out.push(object._type.to_u8());
        put_u64(&mut out, object.address);
        put_u32(&mut out, object.count);
        put_bytes(&mut out, object.bytes.as_slice());
        out
    }

    /// The request decodes to what was put into it.
    pub proof fn lemma_round_trip(address: u64, bytes: Seq<u8>)
        requires
            bytes.len() <= u32::MAX,
        ensures
            Self::spec_serialize(address, bytes)[0] == PacketType::Write.tag(),
            Self::spec_deserialize(Self::spec_serialize(address, bytes)) == Ok::<
                WriteRequestView,
                PacketFault,
            >(WriteRequestView { address, bytes }),
    {
        let frame = Self::spec_serialize(address, bytes);
        let f0 = seq![PacketType::Write.tag()];
        let f1 = f0 + u64_to_be(address);
        let f2 = f1 + u32_to_be(bytes.len() as u32);
        lemma_u64_be(address);
        lemma_u32_be(bytes.len() as u32);
        assert(frame.subrange(0, 13 + bytes.len() as int) == frame);
        lemma_split(frame, 0, f2, bytes);
        lemma_split(frame, 0, f1, u32_to_be(bytes.len() as u32));
        lemma_split(frame, 0, f0, u64_to_be(address));
    }

    /// An error frame in place of this frame gives a failure that carries the message of
    /// the error frame.
    pub proof fn lemma_error_substitution(text: Seq<char>)
        requires
            encode_utf8(text).len() <= u32::MAX,
        ensures
            Self::spec_deserialize(ErrorPacket::spec_serialize(encode_utf8(text))) == Err::<
                WriteRequestView,
                PacketFault,
            >(PacketFault::Remote(text)),
    {
        ErrorPacket::lemma_substitution(text, PacketType::Write);
    }
}

/// The number of bytes that were written.
#[derive(Debug, PartialEq, Eq, Clone, Copy)]
pub struct RequestWriteVecMemoryPacketResponse {
    pub _type: PacketType,
    pub bytes_written: u64,
}

impl View for RequestWriteVecMemoryPacketResponse {
    type V = RequestWriteVecMemoryPacketResponse;

    open spec fn view(&self) -> RequestWriteVecMemoryPacketResponse {
        *self
    }
}

impl RequestWriteVecMemoryPacketResponse {
    pub open spec fn well_formed(&self) -> bool {
        self._type == PacketType::Write
    }

    pub open spec fn spec_serialize(bytes_written: u64) -> Seq<u8> {
        seq![PacketType::Write.tag()] + u64_to_be(bytes_written)
    }

    pub open spec fn spec_deserialize(data: Seq<u8>) -> Result<Self, PacketFault> {
        match spec_expect(data, PacketType::Write) {
            Err(e) => Err(e),
            Ok(_) => if data.len() < 9 {
                Err(PacketFault::Truncated)
            } else {
                Ok(
                    RequestWriteVecMemoryPacketResponse {
                        _type: PacketType::Write,
                        bytes_written: u64_of_be(data.subrange(1, 9)),
                    },
                )
            },
        }
    }

    pub fn deserialize(data: &[u8]) -> (out: Result<Self, PacketError>)
        ensures
            decoded(out) == Self::spec_deserialize(data@),
    {
        match expect(data, PacketType::Write) {
            Err(e) => Err(e),
            Ok(_) => {
                if data.len() < 9 {
                    Err(PacketError::Truncated)
                } else {
                    Ok(
                        RequestWriteVecMemoryPacketResponse {
                            _type: PacketType::Write,
                            bytes_written: get_u64(data, 1),
                        },
                    )
                }
            },
        }
    }

    pub fn serialize(bytes_written: u64) -> (out: Vec<u8>)
        ensures
            out@ == Self::spec_serialize(bytes_written),
            out@[0] == PacketType::Write.tag(),
    {
        let object = RequestWriteVecMemoryPacketResponse { _type: PacketType::Write, bytes_written };
        let mut out: Vec<u8> = Vec::new();
        out.push(object._type.to_u8());
        put_u64(&mut out, object.bytes_written);
        out
    }

    /// The response decodes to what was put into it.
    pub proof fn lemma_round_trip(bytes_written: u64)
        ensures
            Self::spec_serialize(bytes_written).len() == 9,
            Self::spec_deserialize(Self::spec_serialize(bytes_written)) == Ok::<Self, PacketFault>(
                RequestWriteVecMemoryPacketResponse { _type: PacketType::Write, bytes_written },
            ),
    {
        let data = Self::spec_serialize(bytes_written);
        lemma_u64_be(bytes_written);
        assert(data.subrange(0, 9) == data);
        lemma_split(data, 0, seq![PacketType::Write.tag()], u64_to_be(bytes_written));
    }

    /// An error frame in place of this frame gives a failure that carries the message of
    /// the error frame.
    pub proof fn lemma_error_substitution(text: Seq<char>)
        requires
            encode_utf8(text).len() <= u32::MAX,
        ensures
            Self::spec_deserialize(ErrorPacket::spec_serialize(encode_utf8(text))) == Err::<
                Self,
                PacketFault,
            >(PacketFault::Remote(text)),
    {
        ErrorPacket::lemma_substitution(text, PacketType::Write);
    }
}

} // verus!
