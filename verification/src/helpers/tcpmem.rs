//! Typed reads and writes, seen from the client: each function takes the bytes of a
//! response and gives the value that the response carries.

use crate::protocol::read_primitives::{
    ReceiveReadI64PacketResponse, ReceiveReadU64PacketResponse, ReceiveReadVecF32PacketResponse,
    ReceiveReadVecPacketResponse,
};
use crate::protocol::write_primitives::RequestWriteVecMemoryPacketResponse;
use crate::protocol::{PacketError, PacketFault};
use crate::wire::{bits_of_i64, i64_bits};
use vstd::prelude::*;

verus! {

/// Two to the power of eight times `width_bytes`, for the four widths.
pub open spec fn width_modulus(width_bytes: u8) -> int
    recommends
        width_bytes == 1 || width_bytes == 2 || width_bytes == 4 || width_bytes == 8,
{
    if width_bytes == 1 {
        0x100
    } else if width_bytes == 2 {
        0x1_0000
    } else if width_bytes == 4 {
        0x1_0000_0000
    } else {
        0x1_0000_0000_0000_0000
    }
}

/// The unsigned number in the low `width_bytes` bytes of `value`.
pub open spec fn narrowed(value: u64, width_bytes: u8) -> int {
    value as int % width_modulus(width_bytes)
}

/// The signed number in the low `width_bytes` bytes of `value`, in two's complement.
pub open spec fn narrowed_signed(value: i64, width_bytes: u8) -> int {
    let low = i64_bits(value) as int % width_modulus(width_bytes);
    if 2 * low < width_modulus(width_bytes) {
        low
    } else {
        low - width_modulus(width_bytes)
    }
}

/// A number that fits its width is unchanged by narrowing.
pub proof fn lemma_narrowing_keeps(value: u64, signed_value: i64, width_bytes: u8)
    requires
        width_bytes == 1 || width_bytes == 2 || width_bytes == 4 || width_bytes == 8,
    ensures
        value < width_modulus(width_bytes) ==> narrowed(value, width_bytes) == value,
        -width_modulus(width_bytes) <= 2 * signed_value < width_modulus(width_bytes)
            ==> narrowed_signed(signed_value, width_bytes) == signed_value,
{
}

/// The value of an unsigned-integer response, or the fault that `data` gives.
pub open spec fn spec_unsigned(data: Seq<u8>) -> Result<u64, PacketFault> {
    match ReceiveReadU64PacketResponse::spec_deserialize(data) {
        Ok(packet) => Ok(packet.value),
        Err(fault) => Err(fault),
    }
}

/// The value of a signed-integer response, or the fault that `data` gives.
pub open spec fn spec_signed(data: Seq<u8>) -> Result<i64, PacketFault> {
    match ReceiveReadI64PacketResponse::spec_deserialize(data) {
        Ok(packet) => Ok(packet.value),
        Err(fault) => Err(fault),
    }
}

/// The value that an unsigned-integer response carries.
fn read_unsigned(response: &[u8]) -> (out: Result<u64, PacketError>)
    ensures
        match out {
            Ok(value) => spec_unsigned(response@) == Ok::<u64, PacketFault>(value),
            Err(e) => spec_unsigned(response@) == Err::<u64, PacketFault>(e@),
        },
{
    match ReceiveReadU64PacketResponse::deserialize(response) {
        Ok(packet) => Ok(packet.value),
        Err(e) => Err(e),
    }
}

/// The value that a signed-integer response carries.
fn read_signed(response: &[u8]) -> (out: Result<i64, PacketError>)
    ensures
        match out {
            Ok(value) => spec_signed(response@) == Ok::<i64, PacketFault>(value),
            Err(e) => spec_signed(response@) == Err::<i64, PacketFault>(e@),
        },
{
    match ReceiveReadI64PacketResponse::deserialize(response) {
        Ok(packet) => Ok(packet.value),
        Err(e) => Err(e),
    }
}

/// The response to a read of width 1: the low 1 byte of the value it carries.
pub fn read_u8(response: &[u8]) -> (out: Result<u8, PacketError>)
    ensures
        match out {
            Ok(value) => spec_unsigned(response@) matches Ok(wide) && value == narrowed(wide, 1),
            Err(e) => spec_unsigned(response@) == Err::<u64, PacketFault>(e@),
        },
{
    match read_unsigned(response) {
        Ok(wide) => Ok((wide % 0x100) as u8),
        Err(e) => Err(e),
    }
}

/// The response to a read of width 2: the low 2 bytes of the value it carries.
pub fn read_u16(response: &[u8]) -> (out: Result<u16, PacketError>)
    ensures
        match out {
            Ok(value) => spec_unsigned(response@) matches Ok(wide) && value == narrowed(wide, 2),
            Err(e) => spec_unsigned(response@) == Err::<u64, PacketFault>(e@),
        },
{
    match read_unsigned(response) {
        Ok(wide) => Ok((wide % 0x1_0000) as u16),
        Err(e) => Err(e),
    }
}

/// The response to a read of width 4: the low 4 bytes of the value it carries.
pub fn read_u32(response: &[u8]) -> (out: Result<u32, PacketError>)
    ensures
        match out {
            Ok(value) => spec_unsigned(response@) matches Ok(wide) && value == narrowed(wide, 4),
            Err(e) => spec_unsigned(response@) == Err::<u64, PacketFault>(e@),
        },
{
    match read_unsigned(response) {
        Ok(wide) => Ok((wide % 0x1_0000_0000) as u32),
        Err(e) => Err(e),
    }
}

/// The response to a read of width 8: the value it carries.
pub fn read_u64(response: &[u8]) -> (out: Result<u64, PacketError>)
    ensures
        match out {
            Ok(value) => spec_unsigned(response@) matches Ok(wide) && value == narrowed(wide, 8),
            Err(e) => spec_unsigned(response@) == Err::<u64, PacketFault>(e@),
        },
{
    read_unsigned(response)
}

/// The response to a signed read of width 1: the low 1 byte of the value it
/// carries, in two's complement.
pub fn read_i8(response: &[u8]) -> (out: Result<i8, PacketError>)
    ensures
        match out {
            Ok(value) => spec_signed(response@) matches Ok(wide) && value == narrowed_signed(
                wide,
                1,
            ),
            Err(e) => spec_signed(response@) == Err::<i64, PacketFault>(e@),
        },
{
    match read_signed(response) {
        Ok(wide) => {
            let low: u64 = bits_of_i64(wide) % 0x100;
            if low < 0x80 {
                Ok(low as i8)
            } else {
                Ok((low as i64 - 0x100) as i8)
            }
        },
        Err(e) => Err(e),
    }
}

/// The response to a signed read of width 2: the low 2 bytes of the value it
/// carries, in two's complement.
pub fn read_i16(response: &[u8]) -> (out: Result<i16, PacketError>)
    ensures
        match out {
            Ok(value) => spec_signed(response@) matches Ok(wide) && value == narrowed_signed(
                wide,
                2,
            ),
            Err(e) => spec_signed(response@) == Err::<i64, PacketFault>(e@),
        },
{
    match read_signed(response) {
        Ok(wide) => {
            let low: u64 = bits_of_i64(wide) % 0x1_0000;
            if low < 0x8000 {
                Ok(low as i16)
            } else {
                Ok((low as i64 - 0x1_0000) as i16)
            }
        },
        Err(e) => Err(e),
    }
}

/// The response to a signed read of width 4: the low 4 bytes of the value it
/// carries, in two's complement.
pub fn read_i32(response: &[u8]) -> (out: Result<i32, PacketError>)
    ensures
        match out {
            Ok(value) => spec_signed(response@) matches Ok(wide) && value == narrowed_signed(
                wide,
                4,
            ),
            Err(e) => spec_signed(response@) == Err::<i64, PacketFault>(e@),
        },
{
    match read_signed(response) {
        Ok(wide) => {
            let low: u64 = bits_of_i64(wide) % 0x1_0000_0000;
            if low < 0x8000_0000 {
                Ok(low as i32)
            } else {
                Ok((low as i64 - 0x1_0000_0000) as i32)
            }
        },
        Err(e) => Err(e),
    }
}

/// The response to a signed read of width 8: the value it carries.
pub fn read_i64(response: &[u8]) -> (out: Result<i64, PacketError>)
    ensures
        match out {
            Ok(value) => spec_signed(response@) matches Ok(wide) && value == narrowed_signed(
                wide,
                8,
            ),
            Err(e) => spec_signed(response@) == Err::<i64, PacketFault>(e@),
        },
{
    read_signed(response)
}

/// The response to a read of a pointer: the address it carries, or nothing where that is
/// zero.
pub fn read_ptr(response: &[u8]) -> (out: Result<Option<u64>, PacketError>)
    ensures
        match out {
            Ok(pointer) => spec_unsigned(response@) matches Ok(wide) && pointer == (if wide == 0 {
                None
            } else {
                Some(wide)
            }),
            Err(e) => spec_unsigned(response@) == Err::<u64, PacketFault>(e@),
        },
{
    match read_u64(response) {
        Ok(r) => {
            if r == 0 {
                Ok(None)
            } else {
                Ok(Some(r))
            }
        },
        Err(e) => Err(e),
    }
}

/// The bytes that a byte-read response carries.
pub fn read_vec(response: &[u8]) -> (out: Result<Vec<u8>, PacketError>)
    ensures
        match out {
            Ok(data) => ReceiveReadVecPacketResponse::spec_deserialize(response@) == Ok::<
                Seq<u8>,
                PacketFault,
            >(data@),
            Err(e) => ReceiveReadVecPacketResponse::spec_deserialize(response@) == Err::<
                Seq<u8>,
                PacketFault,
            >(e@),
        },
{
    match ReceiveReadVecPacketResponse::deserialize(response) {
        Ok(packet) => Ok(packet.data),
        Err(e) => Err(e),
    }
}

/// The bit patterns of the floats that a float-read response carries.
pub fn read_vec_f32(response: &[u8]) -> (out: Result<Vec<u32>, PacketError>)
    ensures
        match out {
            Ok(data) => ReceiveReadVecF32PacketResponse::spec_deserialize(response@) == Ok::<
                Seq<u32>,
                PacketFault,
            >(data@),
            Err(e) => ReceiveReadVecF32PacketResponse::spec_deserialize(response@) == Err::<
                Seq<u32>,
                PacketFault,
            >(e@),
        },
{
    match ReceiveReadVecF32PacketResponse::deserialize(response) {
        Ok(packet) => Ok(packet.data),
        Err(e) => Err(e),
    }
}

/// The number of bytes written that a write response carries.
pub fn write(response: &[u8]) -> (out: Result<u64, PacketError>)
    ensures
        match out {
            Ok(written) => RequestWriteVecMemoryPacketResponse::spec_deserialize(response@)
                matches Ok(packet) && written == packet.bytes_written,
            Err(e) => RequestWriteVecMemoryPacketResponse::spec_deserialize(response@) == Err::<
                RequestWriteVecMemoryPacketResponse,
                PacketFault,
            >(e@),
        },
{
    match RequestWriteVecMemoryPacketResponse::deserialize(response) {
        Ok(packet) => Ok(packet.bytes_written),
        Err(e) => Err(e),
    }
}

} // verus!
