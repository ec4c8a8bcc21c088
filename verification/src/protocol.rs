//! Typed frames of the wire protocol: one tag byte, then big-endian fields.

use crate::wire::{
    bits_of_i32, copy_range, get_u32, i32_from_bits, i32_of_be, i32_to_be, is_utf8,
    lemma_i32_be, lemma_u32_be, put_bytes, put_u32, string_from_utf8, u32_of_be, u32_to_be,
};
use vstd::prelude::*;
use vstd::slice::slice_subrange;
use vstd::utf8::{
    decode_utf8, encode_utf8, encode_utf8_decode_utf8, encode_utf8_valid_utf8, valid_utf8,
};

pub mod processes;
pub mod read_primitives;
pub mod regions;
pub mod write_primitives;

pub use processes::{
    process_views, ProcessEntry, ProcessEntryView, RequestProcessesPacketResponse,
};
pub use regions::{region_views, Region, RegionView, RequestPidRegionsPacketResponse};

verus! {

/// The tag that opens every frame.
#[derive(Clone, Copy, Debug, PartialEq, Eq, Structural)]
pub enum PacketType {
    ReadVec,
    ReadVecF32,
    ReadU64,
    ReadI64,
    Write,
    TargetPID,
    SendProcesses,
    Error,
}

impl PacketType {
    /// The tag's byte on the wire.
    pub open spec fn tag(self) -> u8 {
        match self {
            PacketType::ReadVec => 0,
            PacketType::ReadVecF32 => 1,
            PacketType::ReadU64 => 2,
            PacketType::ReadI64 => 3,
            PacketType::Write => 4,
            PacketType::TargetPID => 5,
            PacketType::SendProcesses => 6,
            PacketType::Error => 7,
        }
    }

    /// The tag that a byte stands for, if any.
    pub open spec fn spec_from_u8(value: u8) -> Option<PacketType> {
        match value {
            0 => Some(PacketType::ReadVec),
            1 => Some(PacketType::ReadVecF32),
            2 => Some(PacketType::ReadU64),
            3 => Some(PacketType::ReadI64),
            4 => Some(PacketType::Write),
            5 => Some(PacketType::TargetPID),
            6 => Some(PacketType::SendProcesses),
            7 => Some(PacketType::Error),
            _ => None,
        }
    }

    /// Whether the response to a request of this type travels compressed.
    pub open spec fn spec_is_compressed(self) -> bool {
        self == PacketType::TargetPID || self == PacketType::SendProcesses
    }

    pub fn from_u8(value: u8) -> (out: Option<PacketType>)
        ensures
            out == Self::spec_from_u8(value),
    {
        match value {
            0 => Some(PacketType::ReadVec),
            1 => Some(PacketType::ReadVecF32),
            2 => Some(PacketType::ReadU64),
            3 => Some(PacketType::ReadI64),
            4 => Some(PacketType::Write),
            5 => Some(PacketType::TargetPID),
            6 => Some(PacketType::SendProcesses),
            7 => Some(PacketType::Error),
            _ => None,
        }
    }

    pub fn to_u8(self) -> (out: u8)
        ensures
            out == self.tag(),
    {
        match self {
            PacketType::ReadVec => 0,
            PacketType::ReadVecF32 => 1,
            PacketType::ReadU64 => 2,
            PacketType::ReadI64 => 3,
            PacketType::Write => 4,
            PacketType::TargetPID => 5,
            PacketType::SendProcesses => 6,
            PacketType::Error => 7,
        }
    }

    pub fn is_compressed(self) -> (out: bool)
        ensures
            out == self.spec_is_compressed(),
    {
        match self {
            PacketType::TargetPID => true,
            PacketType::SendProcesses => true,
            _ => false,
        }
    }
}

/// Every tag has its own byte, and `from_u8` reads it back.
pub proof fn lemma_tag_round_trip(t: PacketType)
    ensures
        t.tag() <= 7,
        PacketType::spec_from_u8(t.tag()) == Some(t),
{
}

/// Only the bytes 0 to 7 are tags.
pub proof fn lemma_tag_domain(value: u8)
    ensures
        PacketType::spec_from_u8(value) is Some <==> value <= 7,
        PacketType::spec_from_u8(value) matches Some(t) ==> t.tag() == value,
{
}

/// Why a buffer is no frame of the expected type, as a mathematical value.
pub enum PacketFault {
    /// The first byte is no tag.
    InvalidPacketType,
    /// The first byte is the tag of another type.
    IncorrectPacketType,
    /// The buffer ends before the frame does.
    Truncated,
    /// A string's bytes are not UTF-8.
    InvalidUtf8,
    /// The buffer cannot be decompressed.
    Compression,
    /// The peer sent an error frame in place of the frame expected; this is its message.
    Remote(Seq<char>),
}

/// Why a buffer is no frame of the expected type.
#[derive(Debug, PartialEq, Eq, Clone)]
pub enum PacketError {
    /// The first byte is no tag.
    InvalidPacketType,
    /// The first byte is the tag of another type.
    IncorrectPacketType,
    /// The buffer ends before the frame does.
    Truncated,
    /// A string's bytes are not UTF-8.
    InvalidUtf8,
    /// The buffer cannot be decompressed.
    Compression,
    /// The peer sent an error frame in place of the frame expected; this is its message.
    Remote(String),
}

impl View for PacketError {
    type V = PacketFault;

    open spec fn view(&self) -> PacketFault {
        match self {
            PacketError::InvalidPacketType => PacketFault::InvalidPacketType,
            PacketError::IncorrectPacketType => PacketFault::IncorrectPacketType,
            PacketError::Truncated => PacketFault::Truncated,
            PacketError::InvalidUtf8 => PacketFault::InvalidUtf8,
            PacketError::Compression => PacketFault::Compression,
            PacketError::Remote(message) => PacketFault::Remote(message@),
        }
    }
}

impl PacketFault {
    /// The text that describes the fault.
    pub open spec fn message(self) -> Seq<char> {
        match self {
            PacketFault::InvalidPacketType => "Invalid packet type"@,
            PacketFault::IncorrectPacketType => "Incorrect packet type"@,
            PacketFault::Truncated => "Truncated packet"@,
            PacketFault::InvalidUtf8 => "Invalid UTF-8 in string"@,
            PacketFault::Compression => "Failed to decompress"@,
            PacketFault::Remote(message) => message,
        }
    }
}

impl PacketError {
    /// The text that describes the error; for an error frame, the message it carried.
    pub fn message(&self) -> (out: String)
        ensures
            out@ == self@.message(),
    {
        match self {
            PacketError::InvalidPacketType => "Invalid packet type".to_owned(),
            PacketError::IncorrectPacketType => "Incorrect packet type".to_owned(),
            PacketError::Truncated => "Truncated packet".to_owned(),
            PacketError::InvalidUtf8 => "Invalid UTF-8 in string".to_owned(),
            PacketError::Compression => "Failed to decompress".to_owned(),
            PacketError::Remote(message) => message.clone(),
        }
    }
}

/// The model of a decoding result: the packet's model, or the fault.
pub open spec fn decoded<T: View>(r: Result<T, PacketError>) -> Result<T::V, PacketFault> {
    match r {
        Ok(packet) => Ok(packet@),
        Err(e) => Err(e@),
    }
}

/// A string on the wire: its byte count, then its UTF-8 bytes.
#[derive(Debug, PartialEq, Eq, Clone)]
pub struct EncodedString {
    pub length: u32,
    pub string: Vec<u8>,
}

impl View for EncodedString {
    type V = Seq<u8>;

    /// The string's bytes.
    open spec fn view(&self) -> Seq<u8> {
        self.string@
    }
}

/// Whether `bytes` can travel as a string: UTF-8, and short enough for a `u32` count.
pub open spec fn is_text(bytes: Seq<u8>) -> bool {
    bytes.len() <= u32::MAX && valid_utf8(bytes)
}

/// A string's bytes on the wire.
pub open spec fn spec_write_string(bytes: Seq<u8>) -> Seq<u8> {
    u32_to_be(bytes.len() as u32) + bytes
}

/// The string that starts at `at`, and the position after it.
pub open spec fn spec_read_string(data: Seq<u8>, at: int) -> Result<(Seq<u8>, int), PacketFault> {
    if data.len() < at + 4 {
        Err(PacketFault::Truncated)
    } else {
        let n = u32_of_be(data.subrange(at, at + 4)) as int;
        if data.len() < at + 4 + n {
            Err(PacketFault::Truncated)
        } else if !valid_utf8(data.subrange(at + 4, at + 4 + n)) {
            Err(PacketFault::InvalidUtf8)
        } else {
            Ok((data.subrange(at + 4, at + 4 + n), at + 4 + n))
        }
    }
}

/// A string that was written at `at` is read back, whatever surrounds it.
pub proof fn lemma_string_round_trip(data: Seq<u8>, at: int, bytes: Seq<u8>)
    requires
        is_text(bytes),
        0 <= at,
        at + spec_write_string(bytes).len() <= data.len(),
        data.subrange(at, at + spec_write_string(bytes).len()) == spec_write_string(bytes),
    ensures
        spec_write_string(bytes).len() == 4 + bytes.len(),
        spec_read_string(data, at) == Ok::<(Seq<u8>, int), PacketFault>(
            (bytes, at + 4 + bytes.len()),
        ),
{
    let w = spec_write_string(bytes);
    lemma_u32_be(bytes.len() as u32);
    assert(w.len() == 4 + bytes.len());
    let whole = data.subrange(at, at + w.len());
    assert(data.subrange(at, at + 4) == whole.subrange(0, 4));
    assert(whole.subrange(0, 4) == u32_to_be(bytes.len() as u32));
    assert(data.subrange(at + 4, at + 4 + bytes.len()) == whole.subrange(4, 4 + bytes.len() as int));
    assert(whole.subrange(4, 4 + bytes.len() as int) == bytes);
}

impl EncodedString {
    /// The count is the byte count, and the bytes are UTF-8.
    pub open spec fn well_formed(&self) -> bool {
        self.length == self.string@.len() && valid_utf8(self.string@)
    }

    pub fn new(string: String) -> (out: Self)
        requires
            encode_utf8(string@).len() <= u32::MAX,
        ensures
            out.well_formed(),
            out@ == encode_utf8(string@),
    {
        let s = string.as_str();
        let bytes = copy_range(s.as_bytes(), 0, s.len());
        proof {
            encode_utf8_valid_utf8(string@);
            assert(bytes@ == encode_utf8(string@));
        }
        EncodedString { length: s.len() as u32, string: bytes }
    }

    pub fn to_string(&self) -> (out: String)
        requires
            valid_utf8(self.string@),
        ensures
            out@ == decode_utf8(self@),
    {
        match string_from_utf8(self.string.clone()) {
            Some(text) => text,
            None => {
                proof {
                    assert(false);
                }
                String::new()
            },
        }
    }

    /// The string for bytes that are known to be text.
    pub fn from_bytes(bytes: Vec<u8>) -> (out: Self)
        requires
            is_text(bytes@),
        ensures
            out.well_formed(),
            out@ == bytes@,
    {
        EncodedString { length: bytes.len() as u32, string: bytes }
    }

    /// Appends the string's wire form.
    pub fn write(&self, out: &mut Vec<u8>)
        requires
            self.well_formed(),
        ensures
            final(out)@ == old(out)@ + spec_write_string(self@),
    {
        put_u32(out, self.length);
        put_bytes(out, self.string.as_slice());
        assert(final(out)@ == old(out)@ + (u32_to_be(self.length) + self.string@));
    }

    /// Reads the string that starts at `at`; with it comes the position after it.
    pub fn read(data: &[u8], at: usize) -> (out: Result<(EncodedString, usize), PacketError>)
        requires
            at <= data.len(),
        ensures
            match out {
                Ok((s, next)) => s.well_formed() && next <= data.len() && spec_read_string(
                    data@,
                    at as int,
                ) == Ok::<(Seq<u8>, int), PacketFault>((s@, next as int)),
                Err(e) => spec_read_string(data@, at as int) == Err::<(Seq<u8>, int), PacketFault>(
                    e@,
                ),
            },
    {
        if data.len() - at < 4 {
            return Err(PacketError::Truncated);
        }
        let n = get_u32(data, at);
        let start = at + 4;
        if data.len() - start < n as usize {
            return Err(PacketError::Truncated);
        }
        let end = start + n as usize;
        if !is_utf8(slice_subrange(data, start, end)) {
            return Err(PacketError::InvalidUtf8);
        }
        let bytes = copy_range(data, start, end);
        Ok((EncodedString { length: n, string: bytes }, end))
    }
}

/// What the first byte tells a reader that expects a frame of type `expected`: to go on,
/// or why not. An error frame in place of the expected one gives the message it carries.
pub open spec fn spec_expect(data: Seq<u8>, expected: PacketType) -> Result<(), PacketFault> {
    if data.len() == 0 {
        Err(PacketFault::Truncated)
    } else {
        match PacketType::spec_from_u8(data[0]) {
            None => Err(PacketFault::InvalidPacketType),
            Some(found) => if found == expected {
                Ok(())
            } else if found == PacketType::Error {
                match spec_read_string(data, 1) {
                    Ok((message, _)) => Err(PacketFault::Remote(decode_utf8(message))),
                    Err(e) => Err(e),
                }
            } else {
                Err(PacketFault::IncorrectPacketType)
            },
        }
    }
}

/// Checks the first byte of `data` for a reader that expects a frame of type `expected`.
pub fn expect(data: &[u8], expected: PacketType) -> (out: Result<(), PacketError>)
    ensures
        match out {
            Ok(_) => spec_expect(data@, expected) == Ok::<(), PacketFault>(()),
            Err(e) => spec_expect(data@, expected) == Err::<(), PacketFault>(e@),
        },
{
    if data.len() == 0 {
        return Err(PacketError::Truncated);
    }
    match PacketType::from_u8(data[0]) {
        None => Err(PacketError::InvalidPacketType),
        Some(found) => {
            if found == expected {
                Ok(())
            } else if found == PacketType::Error {
                match EncodedString::read(data, 1) {
                    Ok((message, _)) => Err(PacketError::Remote(message.to_string())),
                    Err(e) => Err(e),
                }
            } else {
                Err(PacketError::IncorrectPacketType)
            }
        },
    }
}

/// The frame that stands in for any response: a message that says what went wrong.
#[derive(Debug, PartialEq, Eq, Clone)]
pub struct ErrorPacket {
    pub _type: PacketType,
    pub message: EncodedString,
}

impl View for ErrorPacket {
    type V = Seq<u8>;

    /// The message's bytes.
    open spec fn view(&self) -> Seq<u8> {
        self.message@
    }
}

impl ErrorPacket {
    pub open spec fn well_formed(&self) -> bool {
        self._type == PacketType::Error && self.message.well_formed()
    }

    /// The frame for a message of the given bytes.
    pub open spec fn spec_serialize(message: Seq<u8>) -> Seq<u8> {
        seq![PacketType::Error.tag()] + spec_write_string(message)
    }

    /// The message of the error frame in `data`.
    pub open spec fn spec_deserialize(data: Seq<u8>) -> Result<Seq<u8>, PacketFault> {
        match spec_expect(data, PacketType::Error) {
            Err(e) => Err(e),
            Ok(_) => match spec_read_string(data, 1) {
                Ok((message, _)) => Ok(message),
                Err(e) => Err(e),
            },
        }
    }

    pub fn serialize(message: String) -> (out: Vec<u8>)
        requires
            encode_utf8(message@).len() <= u32::MAX,
        ensures
            out@ == Self::spec_serialize(encode_utf8(message@)),
            out@[0] == PacketType::Error.tag(),
    {
        let object = ErrorPacket { _type: PacketType::Error, message: EncodedString::new(message) };
        let mut out: Vec<u8> = Vec::new();
        out.push(object._type.to_u8());
        object.message.write(&mut out);
        out
    }

    pub fn deserialize(data: &[u8]) -> (out: Result<Self, PacketError>)
        ensures
            decoded(out) == Self::spec_deserialize(data@),
            out matches Ok(packet) ==> packet.well_formed(),
    {
        match expect(data, PacketType::Error) {
            Err(e) => Err(e),
            Ok(_) => match EncodedString::read(data, 1) {
                Ok((message, _)) => Ok(ErrorPacket { _type: PacketType::Error, message }),
                Err(e) => Err(e),
            },
        }
    }

    /// An error frame decodes to the message that was put into it.
    pub proof fn lemma_round_trip(message: Seq<u8>)
        requires
            is_text(message),
        ensures
            Self::spec_serialize(message)[0] == PacketType::Error.tag(),
            Self::spec_deserialize(Self::spec_serialize(message)) == Ok::<Seq<u8>, PacketFault>(
                message,
            ),
    {
        let data = Self::spec_serialize(message);
        lemma_u32_be(message.len() as u32);
        assert(data.subrange(1, 1 + spec_write_string(message).len() as int) == spec_write_string(
            message,
        ));
        lemma_string_round_trip(data, 1, message);
    }

    /// A reader that expects any other frame and is handed an error frame fails with the
    /// message of that frame, whatever it expected.
    pub proof fn lemma_substitution(text: Seq<char>, expected: PacketType)
        requires
            encode_utf8(text).len() <= u32::MAX,
            expected != PacketType::Error,
        ensures
            spec_expect(Self::spec_serialize(encode_utf8(text)), expected) == Err::<
                (),
                PacketFault,
            >(PacketFault::Remote(text)),
    {
        let message = encode_utf8(text);
        encode_utf8_valid_utf8(text);
        encode_utf8_decode_utf8(text);
        let data = Self::spec_serialize(message);
        lemma_u32_be(message.len() as u32);
        assert(data.subrange(1, 1 + spec_write_string(message).len() as int) == spec_write_string(
            message,
        ));
        lemma_string_round_trip(data, 1, message);
    }
}

pub type Pid = i32;

/// The request that binds the session to a process and asks for its regions.
#[derive(Debug, PartialEq, Eq, Clone, Copy)]
pub struct RequestPidRegionsPacket {
    pub _type: PacketType,
    pub target_pid: Pid,
}

impl View for RequestPidRegionsPacket {
    type V = RequestPidRegionsPacket;

    open spec fn view(&self) -> RequestPidRegionsPacket {
        *self
    }
}

impl RequestPidRegionsPacket {
    pub open spec fn well_formed(&self) -> bool {
        self._type == PacketType::TargetPID
    }

    pub open spec fn spec_serialize(target_pid: Pid) -> Seq<u8> {
        seq![PacketType::TargetPID.tag()] + i32_to_be(target_pid)
    }

    pub open spec fn spec_deserialize(data: Seq<u8>) -> Result<Self, PacketFault> {
        match spec_expect(data, PacketType::TargetPID) {
            Err(e) => Err(e),
            Ok(_) => if data.len() < 5 {
                Err(PacketFault::Truncated)
            } else {
                Ok(
                    RequestPidRegionsPacket {
                        _type: PacketType::TargetPID,
                        target_pid: i32_of_be(data.subrange(1, 5)),
                    },
                )
            },
        }
    }

    pub fn deserialize(data: &[u8]) -> (out: Result<Self, PacketError>)
        ensures
            decoded(out) == Self::spec_deserialize(data@),
    {
        match expect(data, PacketType::TargetPID) {
            Err(e) => Err(e),
            Ok(_) => {
                if data.len() < 5 {
                    Err(PacketError::Truncated)
                } else {
                    Ok(
                        RequestPidRegionsPacket {
                            _type: PacketType::TargetPID,
                            target_pid: i32_from_bits(get_u32(data, 1)),
                        },
                    )
                }
            },
        }
    }

    pub fn serialize(target_pid: Pid) -> (out: Vec<u8>)
        ensures
            out@ == Self::spec_serialize(target_pid),
            out@[0] == PacketType::TargetPID.tag(),
    {
        let object = RequestPidRegionsPacket { _type: PacketType::TargetPID, target_pid };
        let mut out: Vec<u8> = Vec::new();
        out.push(object._type.to_u8());
        put_u32(&mut out, bits_of_i32(object.target_pid));
        out
    }

    /// The request decodes to what was put into it.
    pub proof fn lemma_round_trip(target_pid: Pid)
        ensures
            Self::spec_deserialize(Self::spec_serialize(target_pid)) == Ok::<Self, PacketFault>(
                RequestPidRegionsPacket { _type: PacketType::TargetPID, target_pid },
            ),
    {
        let data = Self::spec_serialize(target_pid);
        lemma_i32_be(target_pid);
        assert(data.subrange(1, 5) == i32_to_be(target_pid));
    }

    /// An error frame in place of this frame gives a failure that carries the message of
    /// the error frame.
    pub proof fn lemma_error_substitution(text: Seq<char>)
        requires
            encode_utf8(text).len() <= u32::MAX,
        ensures
            Self::spec_deserialize(ErrorPacket::spec_serialize(encode_utf8(text))) == Err::<
                Self,
                PacketFault,
            >(PacketFault::Remote(text)),
    {
        ErrorPacket::lemma_substitution(text, PacketType::TargetPID);
    }
}

/// The request for the list of running processes.
#[derive(Debug, PartialEq, Eq, Clone, Copy)]
pub struct RequestProcessesPacket {
    pub _type: PacketType,
}

impl View for RequestProcessesPacket {
    type V = RequestProcessesPacket;

    open spec fn view(&self) -> RequestProcessesPacket {
        *self
    }
}

impl RequestProcessesPacket {
    pub open spec fn well_formed(&self) -> bool {
        self._type == PacketType::SendProcesses
    }

    pub open spec fn spec_serialize() -> Seq<u8> {
        seq![PacketType::SendProcesses.tag()]
    }

    pub open spec fn spec_deserialize(data: Seq<u8>) -> Result<Self, PacketFault> {
        match spec_expect(data, PacketType::SendProcesses) {
            Err(e) => Err(e),
            Ok(_) => Ok(RequestProcessesPacket { _type: PacketType::SendProcesses }),
        }
    }

    pub fn deserialize(data: &[u8]) -> (out: Result<Self, PacketError>)
        ensures
            decoded(out) == Self::spec_deserialize(data@),
    {
        match expect(data, PacketType::SendProcesses) {
            Err(e) => Err(e),
            Ok(_) => Ok(RequestProcessesPacket { _type: PacketType::SendProcesses }),
        }
    }

    pub fn serialize() -> (out: Vec<u8>)
        ensures
            out@ == Self::spec_serialize(),
            out@[0] == PacketType::SendProcesses.tag(),
    {
        let object = RequestProcessesPacket { _type: PacketType::SendProcesses };
        let mut out: Vec<u8> = Vec::new();
        out.push(object._type.to_u8());
        out
    }

    /// The request decodes to itself.
    pub proof fn lemma_round_trip()
        ensures
            Self::spec_deserialize(Self::spec_serialize()) == Ok::<Self, PacketFault>(
                RequestProcessesPacket { _type: PacketType::SendProcesses },
            ),
    {
    }

    /// An error frame in place of this frame gives a failure that carries the message of
    /// the error frame.
    pub proof fn lemma_error_substitution(text: Seq<char>)
        requires
            encode_utf8(text).len() <= u32::MAX,
        ensures
            Self::spec_deserialize(ErrorPacket::spec_serialize(encode_utf8(text))) == Err::<
                Self,
                PacketFault,
            >(PacketFault::Remote(text)),
    {
        ErrorPacket::lemma_substitution(text, PacketType::SendProcesses);
    }
}

} // verus!
