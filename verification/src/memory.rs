//! The rules of the cross-process memory adapter: which transfers may be asked for, and
//! what the outcome of a transfer means.

use crate::text::{decimal, i64_to_decimal};
use crate::wire::{i64_from_bits, i64_of_bits};
use vstd::prelude::*;
use vstd::slice::slice_subrange;
use vstd::string::StringExecFns;

verus! {

/// Why a memory operation failed, as a mathematical value.
pub enum MemoryFault {
    /// No process is bound.
    PidNotSet,
    /// More than eight bytes were asked for an unsigned integer.
    LargerThanU64,
    /// More than eight bytes were asked for a signed integer.
    LargerThanI64,
    /// The width is none of 1, 2, 4 and 8.
    UnsupportedWidth,
    /// The transfer failed with this error number; the text is the system's description.
    Os { code: i32, description: Seq<char> },
    /// Fewer bytes were read than asked for.
    PartialRead,
    /// Fewer bytes were written than given.
    PartialWrite,
}

/// Why a memory operation failed.
#[derive(Debug, PartialEq, Eq, Clone)]
pub enum MemoryError {
    /// No process is bound.
    PidNotSet,
    /// More than eight bytes were asked for an unsigned integer.
    LargerThanU64,
    /// More than eight bytes were asked for a signed integer.
    LargerThanI64,
    /// The width is none of 1, 2, 4 and 8.
    UnsupportedWidth,
    /// The transfer failed with this error number; the text is the system's description.
    Os { code: i32, description: String },
    /// Fewer bytes were read than asked for.
    PartialRead,
    /// Fewer bytes were written than given.
    PartialWrite,
}

impl View for MemoryError {
    type V = MemoryFault;

    open spec fn view(&self) -> MemoryFault {
        match self {
            MemoryError::PidNotSet => MemoryFault::PidNotSet,
            MemoryError::LargerThanU64 => MemoryFault::LargerThanU64,
            MemoryError::LargerThanI64 => MemoryFault::LargerThanI64,
            MemoryError::UnsupportedWidth => MemoryFault::UnsupportedWidth,
            MemoryError::Os { code, description } => MemoryFault::Os {
                code: *code,
                description: description@,
            },
            MemoryError::PartialRead => MemoryFault::PartialRead,
            MemoryError::PartialWrite => MemoryFault::PartialWrite,
        }
    }
}

impl MemoryFault {
    /// The text that describes the fault.
    pub open spec fn message(self) -> Seq<char> {
        match self {
            MemoryFault::PidNotSet => "PID not set!"@,
            MemoryFault::LargerThanU64 => "Size is larger than u64!"@,
            MemoryFault::LargerThanI64 => "Size is larger than i64!"@,
            MemoryFault::UnsupportedWidth => "Unsupported byte width"@,
            MemoryFault::Os { code, description } => "Error "@ + decimal(code as int) + ": "@
                + description,
            MemoryFault::PartialRead => "Partial read occurred!"@,
            MemoryFault::PartialWrite => "Partial write occurred!"@,
        }
    }
}

impl MemoryError {
    /// The text that describes the error.
    pub fn message(&self) -> (out: String)
        ensures
            out@ == self@.message(),
    {
        match self {
            MemoryError::PidNotSet => "PID not set!".to_owned(),
            MemoryError::LargerThanU64 => "Size is larger than u64!".to_owned(),
            MemoryError::LargerThanI64 => "Size is larger than i64!".to_owned(),
            MemoryError::UnsupportedWidth => "Unsupported byte width".to_owned(),
            MemoryError::Os { code, description } => {
                let mut out = "Error ".to_owned();
                out.append(i64_to_decimal(*code as i64).as_str());
                out.append(": ");
                out.append(description.as_str());
                out
            },
            MemoryError::PartialRead => "Partial read occurred!".to_owned(),
            MemoryError::PartialWrite => "Partial write occurred!".to_owned(),
        }
    }
}

/// The model of an operation's result: the value, or the fault.
pub open spec fn outcome<T>(r: Result<T, MemoryError>) -> Result<T, MemoryFault> {
    match r {
        Ok(value) => Ok(value),
        Err(e) => Err(e@),
    }
}

/// How one vectored cross-process transfer went, as the host reports it.
#[derive(Debug, PartialEq, Eq, Clone)]
pub struct Transfer {
    /// What the system call returned: -1 where it failed, else the number of bytes moved.
    pub returned: isize,
    /// The error number after a failed call.
    pub errno: i32,
    /// The system's text for that error number.
    pub description: String,
    /// After a read, the local buffer; after a write, nothing.
    pub data: Vec<u8>,
}

/// The number that bytes stand for when the least significant comes first.
pub open spec fn le_value(bytes: Seq<u8>) -> nat
    decreases bytes.len(),
{
    if bytes.len() == 0 {
        0
    } else {
        bytes[0] as nat + 256 * le_value(bytes.drop_first())
    }
}

/// Whether a width is one that an integer read accepts.
pub open spec fn is_width(size: int) -> bool {
    size == 1 || size == 2 || size == 4 || size == 8
}

/// What stands in the way of an integer read of `size` bytes, if anything: first the
/// missing binding, then the width.
pub open spec fn spec_gate_width(pid: i32, size: int, signed: bool) -> Option<MemoryFault> {
    if pid == -1 {
        Some(MemoryFault::PidNotSet)
    } else if size > 8 {
        Some(
            if signed {
                MemoryFault::LargerThanI64
            } else {
                MemoryFault::LargerThanU64
            },
        )
    } else if !is_width(size) {
        Some(MemoryFault::UnsupportedWidth)
    } else {
        None
    }
}

/// The bytes that a read of `size` bytes brought, or why it failed.
pub open spec fn spec_read_outcome(size: int, transfer: Transfer) -> Result<Seq<u8>, MemoryFault> {
    if transfer.returned == -1 {
        Err(MemoryFault::Os { code: transfer.errno, description: transfer.description@ })
    } else if transfer.returned != size || transfer.data@.len() != size {
        Err(MemoryFault::PartialRead)
    } else {
        Ok(transfer.data@)
    }
}

/// The number of bytes that a write of `size` bytes moved, or why it failed.
pub open spec fn spec_write_outcome(size: int, transfer: Transfer) -> Result<usize, MemoryFault> {
    if transfer.returned == -1 {
        Err(MemoryFault::Os { code: transfer.errno, description: transfer.description@ })
    } else if transfer.returned != size {
        Err(MemoryFault::PartialWrite)
    } else {
        Ok(size as usize)
    }
}

/// The words that bytes stand for, four bytes to a word, least significant first.
pub open spec fn le_words(bytes: Seq<u8>) -> Seq<u32> {
    Seq::new(bytes.len() / 4, |i: int| le_value(bytes.subrange(4 * i, 4 * i + 4)) as u32)
}

/// At most eight bytes stand for a number of 64 bits.
pub proof fn lemma_le_value_bound(bytes: Seq<u8>)
    requires
        bytes.len() <= 8,
    ensures
        le_value(bytes) <= u64::MAX,
        bytes.len() <= 4 ==> le_value(bytes) <= u32::MAX,
{
    reveal_with_fuel(le_value, 9);
}

/// The adapter: nothing but the identifier of the process it works on, -1 while none is
/// bound.
#[derive(Debug, PartialEq, Eq, Clone, Copy)]
pub struct Memory {
    pub pid: i32,
}

impl Memory {
    pub fn new(pid: i32) -> (out: Memory)
        ensures
            out.pid == pid,
    {
        Memory { pid }
    }

    /// Whether a transfer may be issued at all: only once a process is bound.
    pub fn gate(&self) -> (out: Result<(), MemoryError>)
        ensures
            self.pid == -1 ==> out == Err::<(), MemoryError>(MemoryError::PidNotSet),
            self.pid != -1 ==> out is Ok,
    {
        if self.pid == -1 {
            Err(MemoryError::PidNotSet)
        } else {
            Ok(())
        }
    }

    /// Whether an integer read of `size` bytes may be issued.
    pub fn gate_width(&self, size: usize, signed: bool) -> (out: Result<(), MemoryError>)
        ensures
            match out {
                Ok(_) => spec_gate_width(self.pid, size as int, signed) is None,
                Err(e) => spec_gate_width(self.pid, size as int, signed) == Some(e@),
            },
    {
        if self.pid == -1 {
            Err(MemoryError::PidNotSet)
        } else if size > 8 {
            if signed {
                Err(MemoryError::LargerThanI64)
            } else {
                Err(MemoryError::LargerThanU64)
            }
        } else if !(size == 1 || size == 2 || size == 4 || size == 8) {
            Err(MemoryError::UnsupportedWidth)
        } else {
            Ok(())
        }
    }

    /// What a read of `size` bytes leaves in the local buffer.
    fn finish_read(size: usize, transfer: Transfer) -> (out: Result<Vec<u8>, MemoryError>)
        ensures
            match out {
                Ok(data) => spec_read_outcome(size as int, transfer) == Ok::<
                    Seq<u8>,
                    MemoryFault,
                >(data@),
                Err(e) => spec_read_outcome(size as int, transfer) == Err::<Seq<u8>, MemoryFault>(
                    e@,
                ),
            },
    {
        if transfer.returned == -1 {
            Err(MemoryError::Os { code: transfer.errno, description: transfer.description })
        } else if transfer.returned < 0 || transfer.returned as usize != size
            || transfer.data.len() != size {
            Err(MemoryError::PartialRead)
        } else {
            Ok(transfer.data)
        }
    }

    /// The unsigned integer of `size` bytes that the transfer read, widened to 64 bits: the
    /// bytes count from the least significant, and what is missing is zero.
    pub open spec fn spec_read_u64(&self, size: usize, transfer: Transfer) -> Result<
        u64,
        MemoryFault,
    > {
        match spec_gate_width(self.pid, size as int, false) {
            Some(fault) => Err(fault),
            None => match spec_read_outcome(size as int, transfer) {
                Err(fault) => Err(fault),
                Ok(bytes) => Ok(le_value(bytes) as u64),
            },
        }
    }

    pub fn read_u64(&self, size: usize, transfer: Transfer) -> (out: Result<u64, MemoryError>)
        ensures
            outcome(out) == self.spec_read_u64(size, transfer),
    {
        match self.gate_width(size, false) {
            Err(e) => Err(e),
            Ok(_) => match Self::finish_read(size, transfer) {
                Err(e) => Err(e),
                Ok(data) => Ok(widen(data.as_slice())),
            },
        }
    }

    /// The signed integer of `size` bytes that the transfer read: the same 64 bits as for
    /// the unsigned one, taken as two's complement.
    pub open spec fn spec_read_i64(&self, size: usize, transfer: Transfer) -> Result<
        i64,
        MemoryFault,
    > {
        match spec_gate_width(self.pid, size as int, true) {
            Some(fault) => Err(fault),
            None => match spec_read_outcome(size as int, transfer) {
                Err(fault) => Err(fault),
                Ok(bytes) => Ok(i64_of_bits(le_value(bytes) as u64)),
            },
        }
    }

    pub fn read_i64(&self, size: usize, transfer: Transfer) -> (out: Result<i64, MemoryError>)
        ensures
            outcome(out) == self.spec_read_i64(size, transfer),
    {
        match self.gate_width(size, true) {
            Err(e) => Err(e),
            Ok(_) => match Self::finish_read(size, transfer) {
                Err(e) => Err(e),
                Ok(data) => Ok(i64_from_bits(widen(data.as_slice()))),
            },
        }
    }

    /// The `size` bytes that the transfer read.
    pub open spec fn spec_read_vec(&self, size: usize, transfer: Transfer) -> Result<
        Seq<u8>,
        MemoryFault,
    > {
        if self.pid == -1 {
            Err(MemoryFault::PidNotSet)
        } else {
            spec_read_outcome(size as int, transfer)
        }
    }

    pub fn read_vec(&self, size: usize, transfer: Transfer) -> (out: Result<Vec<u8>, MemoryError>)
        ensures
            match out {
                Ok(data) => self.spec_read_vec(size, transfer) == Ok::<Seq<u8>, MemoryFault>(
                    data@,
                ),
                Err(e) => self.spec_read_vec(size, transfer) == Err::<Seq<u8>, MemoryFault>(e@),
            },
    {
        match self.gate() {
            Err(e) => Err(e),
            Ok(_) => Self::finish_read(size, transfer),
        }
    }

    /// The `count` single-precision floats that the transfer read, each as its bit pattern.
    pub open spec fn spec_read_vec_f32(&self, count: u8, transfer: Transfer) -> Result<
        Seq<u32>,
        MemoryFault,
    > {
        if self.pid == -1 {
            Err(MemoryFault::PidNotSet)
        } else {
            match spec_read_outcome(4 * count, transfer) {
                Err(fault) => Err(fault),
                Ok(bytes) => Ok(le_words(bytes)),
            }
        }
    }

    pub fn read_vec_f32(&self, count: u8, transfer: Transfer) -> (out: Result<
        Vec<u32>,
        MemoryError,
    >)
        ensures
            match out {
                Ok(words) => self.spec_read_vec_f32(count, transfer) == Ok::<
                    Seq<u32>,
                    MemoryFault,
                >(words@),
                Err(e) => self.spec_read_vec_f32(count, transfer) == Err::<Seq<u32>, MemoryFault>(
                    e@,
                ),
            },
    {
        match self.gate() {
            Err(e) => Err(e),
            Ok(_) => match Self::finish_read(4 * (count as usize), transfer) {
                Err(e) => Err(e),
                Ok(data) => {
                    let mut words: Vec<u32> = Vec::new();
                    let mut i: usize = 0;
                    while i < count as usize
                        invariant
                            i <= count,
                            data@.len() == 4 * count,
                            words@ == le_words(data@).take(i as int),
                        decreases count - i,
                    {
                        proof {
                            lemma_le_value_bound(data@.subrange(4 * i, 4 * i + 4));
                        }
                        let word = widen(slice_subrange(data.as_slice(), 4 * i, 4 * i + 4));
                        words.push(word as u32);
                        i += 1;
                        assert(words@ == le_words(data@).take(i as int));
                    }
                    assert(le_words(data@).take(count as int) == le_words(data@));
                    Ok(words)
                },
            },
        }
    }

    /// The number of bytes that the transfer wrote out of `buffer`.
    pub open spec fn spec_write(&self, buffer: Seq<u8>, transfer: Transfer) -> Result<
        usize,
        MemoryFault,
    > {
        if self.pid == -1 {
            Err(MemoryFault::PidNotSet)
        } else {
            spec_write_outcome(buffer.len() as int, transfer)
        }
    }

    pub fn write(&self, buffer: &[u8], transfer: &Transfer) -> (out: Result<usize, MemoryError>)
        ensures
            outcome(out) == self.spec_write(buffer@, *transfer),
    {
        if self.pid == -1 {
            return Err(MemoryError::PidNotSet);
        }
        let size = buffer.len();
        if transfer.returned == -1 {
            Err(
                MemoryError::Os {
                    code: transfer.errno,
                    description: transfer.description.clone(),
                },
            )
        } else if transfer.returned < 0 || transfer.returned as usize != size {
            Err(MemoryError::PartialWrite)
        } else {
            Ok(size)
        }
    }
}

/// Widens at most eight bytes to 64 bits, the least significant byte first.
pub fn widen(bytes: &[u8]) -> (out: u64)
    requires
        bytes@.len() <= 8,
    ensures
        out == le_value(bytes@),
{
    let mut out: u64 = 0;
    let mut i: usize = bytes.len();
    proof {
        assert(bytes@.subrange(i as int, bytes@.len() as int).len() == 0);
    }
    while i > 0
        invariant
            i <= bytes@.len() <= 8,
            out == le_value(bytes@.subrange(i as int, bytes@.len() as int)),
        decreases i,
    {
        i -= 1;
        proof {
            let rest = bytes@.subrange(i as int, bytes@.len() as int);
            assert(rest.drop_first() == bytes@.subrange(i + 1, bytes@.len() as int));
            assert(rest[0] == bytes@[i as int]);
            lemma_le_value_bound(rest);
        }
        out = out * 256 + bytes[i] as u64;
    }
    assert(bytes@.subrange(0, bytes@.len() as int) == bytes@);
    out
}

/// A write that succeeds has moved every byte it was given, and a read that succeeds has
/// brought exactly the bytes of the transfer, as many as were asked for.
pub proof fn lemma_transfer_fidelity(memory: Memory, buffer: Seq<u8>, size: usize, transfer: Transfer)
    ensures
        memory.spec_write(buffer, transfer) matches Ok(written) ==> written == buffer.len(),
        memory.spec_read_vec(size, transfer) matches Ok(data) ==> data == transfer.data@
            && data.len() == size,
{
}

} // verus!
