//! One client's session: what each request asks of the host, and what is sent back.
//!
//! The session does no input or output. A request goes in as bytes; out comes a reply to
//! send at once, or a call that the host has to make. The outcome of that call goes into
//! `respond`, which gives the bytes to send.

use crate::compression::{compress, lz4_frame, lz4_unframe, COMPRESSION_LEVEL};
use crate::memory::{spec_gate_width, Memory, MemoryFault, Transfer};
use crate::process::{
    get_regions, get_running_processes, spec_get_regions, spec_get_running_processes, MapEntry,
    ProcessInfo,
};
use crate::protocol::read_primitives::{
    ReceiveReadI64PacketResponse, ReceiveReadU64PacketResponse, ReceiveReadVecF32PacketResponse,
    ReceiveReadVecPacketResponse, RequestReadI64MemoryPacket, RequestReadU64MemoryPacket,
    RequestReadVecF32MemoryPacket, RequestReadVecMemoryPacket,
};
use crate::protocol::write_primitives::{
    RequestWriteVecMemoryPacket, RequestWriteVecMemoryPacketResponse,
};
use crate::protocol::{
    ErrorPacket, PacketType, RequestPidRegionsPacket, RequestPidRegionsPacketResponse,
    RequestProcessesPacketResponse,
};
use vstd::prelude::*;
use vstd::string::StringExecFns;
use vstd::utf8::{encode_utf8, is_ascii_chars_encode_utf8};

verus! {

/// Where a session stands.
#[derive(Debug, PartialEq, Eq, Clone, Copy, Structural)]
pub enum ClientSessionState {
    /// Freshly accepted: no process is bound.
    NewBorn,
    /// A process is bound.
    TargetBound,
}

/// A call that the host makes for the session, as a mathematical value.
#[allow(inconsistent_fields)]
pub enum HostCallView {
    ReadVec { pid: i32, address: u64, size: u32 },
    ReadVecF32 { pid: i32, address: u64, count: u8 },
    ReadU64 { pid: i32, address: u64, size: u8 },
    ReadI64 { pid: i32, address: u64, size: u8 },
    Write { pid: i32, address: u64, bytes: Seq<u8> },
    Regions { pid: i32 },
    Processes,
}

/// A call that the host makes for the session.
#[allow(inconsistent_fields)]
#[derive(Debug, PartialEq, Eq, Clone)]
pub enum HostCall {
    /// One read of `size` bytes at `address` in process `pid`.
    ReadVec { pid: i32, address: u64, size: u32 },
    /// One read of `count` times four bytes at `address` in process `pid`.
    ReadVecF32 { pid: i32, address: u64, count: u8 },
    /// One read of `size` bytes at `address` in process `pid`, for an unsigned integer.
    ReadU64 { pid: i32, address: u64, size: u8 },
    /// One read of `size` bytes at `address` in process `pid`, for a signed integer.
    ReadI64 { pid: i32, address: u64, size: u8 },
    /// One write of `bytes` at `address` in process `pid`.
    Write { pid: i32, address: u64, bytes: Vec<u8> },
    /// The list of the mappings of process `pid`.
    Regions { pid: i32 },
    /// The list of the running processes.
    Processes,
}

impl View for HostCall {
    type V = HostCallView;

    open spec fn view(&self) -> HostCallView {
        match self {
            HostCall::ReadVec { pid, address, size } => HostCallView::ReadVec {
                pid: *pid,
                address: *address,
                size: *size,
            },
            HostCall::ReadVecF32 { pid, address, count } => HostCallView::ReadVecF32 {
                pid: *pid,
                address: *address,
                count: *count,
            },
            HostCall::ReadU64 { pid, address, size } => HostCallView::ReadU64 {
                pid: *pid,
                address: *address,
                size: *size,
            },
            HostCall::ReadI64 { pid, address, size } => HostCallView::ReadI64 {
                pid: *pid,
                address: *address,
                size: *size,
            },
            HostCall::Write { pid, address, bytes } => HostCallView::Write {
                pid: *pid,
                address: *address,
                bytes: bytes@,
            },
            HostCall::Regions { pid } => HostCallView::Regions { pid: *pid },
            HostCall::Processes => HostCallView::Processes,
        }
    }
}

impl HostCallView {
    /// Whether the response to the call travels compressed.
    pub open spec fn compressed(self) -> bool {
        self is Regions || self is Processes
    }
}

/// What the host reports of a call it made.
#[derive(Debug, PartialEq, Eq)]
pub enum HostOutcome {
    /// How the transfer of a read or a write went.
    Transfer(Transfer),
    /// The mappings of the process, or the text of the error that kept them back.
    Regions(Result<Vec<MapEntry>, String>),
    /// The running processes, or the text of the error that kept them back.
    Processes(Result<Vec<ProcessInfo>, String>),
}

/// What a request leads to, as a mathematical value.
pub enum StepView {
    Reply(Seq<u8>),
    Perform(HostCallView),
    Ignore,
}

/// What a request leads to.
#[derive(Debug, PartialEq, Eq, Clone)]
pub enum Step {
    /// These bytes go back to the client at once.
    Reply(Vec<u8>),
    /// The host makes this call and hands its outcome to `respond`.
    Perform(HostCall),
    /// The first byte is no request's tag: nothing goes back.
    Ignore,
}

impl View for Step {
    type V = StepView;

    open spec fn view(&self) -> StepView {
        match self {
            Step::Reply(bytes) => StepView::Reply(bytes@),
            Step::Perform(call) => StepView::Perform(call@),
            Step::Ignore => StepView::Ignore,
        }
    }
}

/// The uncompressed error frame for a failure with the given message: the message goes
/// behind "Error: ". A message too long for a frame is replaced.
pub open spec fn spec_error_frame(message: Seq<char>) -> Seq<u8> {
    if encode_utf8("Error: "@ + message).len() <= u32::MAX {
        ErrorPacket::spec_serialize(encode_utf8("Error: "@ + message))
    } else {
        ErrorPacket::spec_serialize(encode_utf8("Error: message too long"@))
    }
}

/// The error response for a failure with the given message, compressed where the response
/// it stands in for would have been.
pub open spec fn spec_error_response(message: Seq<char>, compressed: bool) -> Seq<u8> {
    if compressed {
        lz4_frame(spec_error_frame(message), COMPRESSION_LEVEL)
    } else {
        spec_error_frame(message)
    }
}

/// Builds the error response for a failure with the given message.
pub fn error_response(message: String, compressed: bool) -> (out: Vec<u8>)
    ensures
        out@ == spec_error_response(message@, compressed),
        compressed ==> lz4_unframe(out@) == Some(spec_error_frame(message@)),
{
    let text = "Error: ".to_owned().concat(message.as_str());
    let frame = if text.as_str().as_bytes().len() <= u32::MAX as usize {
        ErrorPacket::serialize(text)
    } else {
        proof {
            reveal_strlit("Error: message too long");
            is_ascii_chars_encode_utf8("Error: message too long"@);
        }
        ErrorPacket::serialize("Error: message too long".to_owned())
    };
    if compressed {
        compress(frame.as_slice())
    } else {
        frame
    }
}

/// What a request leads to in a session bound to `pid` (-1: to none).
pub open spec fn spec_step(pid: i32, msg: Seq<u8>) -> StepView {
    if msg.len() == 0 {
        StepView::Ignore
    } else {
        match PacketType::spec_from_u8(msg[0]) {
            Some(PacketType::ReadVec) => match RequestReadVecMemoryPacket::spec_deserialize(msg) {
                Err(fault) => StepView::Reply(spec_error_response(fault.message(), false)),
                Ok(packet) => if pid == -1 {
                    StepView::Reply(
                        spec_error_response(MemoryFault::PidNotSet.message(), false),
                    )
                } else {
                    StepView::Perform(
                        HostCallView::ReadVec { pid, address: packet.address, size: packet.size },
                    )
                },
            },
            Some(PacketType::ReadVecF32) => match RequestReadVecF32MemoryPacket::spec_deserialize(
                msg,
            ) {
                Err(fault) => StepView::Reply(spec_error_response(fault.message(), false)),
                Ok(packet) => if pid == -1 {
                    StepView::Reply(
                        spec_error_response(MemoryFault::PidNotSet.message(), false),
                    )
                } else {
                    StepView::Perform(
                        HostCallView::ReadVecF32 {
                            pid,
                            address: packet.address,
                            count: packet.count,
                        },
                    )
                },
            },
            Some(PacketType::ReadU64) => match RequestReadU64MemoryPacket::spec_deserialize(msg) {
                Err(fault) => StepView::Reply(spec_error_response(fault.message(), false)),
                Ok(packet) => match spec_gate_width(pid, packet.size as int, false) {
                    Some(fault) => StepView::Reply(spec_error_response(fault.message(), false)),
                    None => StepView::Perform(
                        HostCallView::ReadU64 { pid, address: packet.address, size: packet.size },
                    ),
                },
            },
            Some(PacketType::ReadI64) => match RequestReadI64MemoryPacket::spec_deserialize(msg) {
                Err(fault) => StepView::Reply(spec_error_response(fault.message(), false)),
                Ok(packet) => match spec_gate_width(pid, packet.size as int, true) {
                    Some(fault) => StepView::Reply(spec_error_response(fault.message(), false)),
                    None => StepView::Perform(
                        HostCallView::ReadI64 { pid, address: packet.address, size: packet.size },
                    ),
                },
            },
            Some(PacketType::Write) => match RequestWriteVecMemoryPacket::spec_deserialize(msg) {
                Err(fault) => StepView::Reply(spec_error_response(fault.message(), false)),
                Ok(packet) => if pid == -1 {
                    StepView::Reply(
                        spec_error_response(MemoryFault::PidNotSet.message(), false),
                    )
                } else {
                    StepView::Perform(
                        HostCallView::Write { pid, address: packet.address, bytes: packet.bytes },
                    )
                },
            },
            Some(PacketType::TargetPID) => match RequestPidRegionsPacket::spec_deserialize(msg) {
                Err(fault) => StepView::Reply(spec_error_response(fault.message(), true)),
                Ok(packet) => if packet.target_pid < 0 {
                    StepView::Reply(spec_error_response("Invalid PID"@, true))
                } else {
                    StepView::Perform(HostCallView::Regions { pid: packet.target_pid })
                },
            },
            Some(PacketType::SendProcesses) => StepView::Perform(HostCallView::Processes),
            Some(PacketType::Error) => StepView::Ignore,
            None => StepView::Ignore,
        }
    }
}

/// The process that the session is bound to after a request: the one named by a
/// `TargetPID` request with an identifier that is not negative, else the one before.
pub open spec fn spec_next_pid(pid: i32, msg: Seq<u8>) -> i32 {
    match RequestPidRegionsPacket::spec_deserialize(msg) {
        Ok(packet) => if packet.target_pid < 0 {
            pid
        } else {
            packet.target_pid
        },
        Err(_) => pid,
    }
}

/// The state of one client's session.
pub struct ClientSession {
    state: ClientSessionState,
    memory: Memory,
}

impl ClientSession {
    #[verifier::type_invariant]
    spec fn bound_iff_pid(&self) -> bool {
        match self.state {
            ClientSessionState::NewBorn => self.memory.pid == -1,
            ClientSessionState::TargetBound => self.memory.pid >= 0,
        }
    }

    /// The process that the session is bound to; -1 while it is bound to none.
    pub closed spec fn spec_target_pid(&self) -> i32 {
        self.memory.pid
    }

    /// Where the session stands.
    pub closed spec fn spec_state(&self) -> ClientSessionState {
        self.state
    }

    /// A session starts unbound.
    pub fn new() -> (out: Self)
        ensures
            out.spec_target_pid() == -1,
            out.spec_state() == ClientSessionState::NewBorn,
    {
        ClientSession { state: ClientSessionState::NewBorn, memory: Memory::new(-1) }
    }

    /// The process that the session is bound to. It is -1 exactly while the session is new,
    /// and not negative once it is bound.
    #[verifier::when_used_as_spec(spec_target_pid)]
    pub fn target_pid(&self) -> (out: i32)
        ensures
            out == self.spec_target_pid(),
            out >= -1,
            out == -1 <==> self.spec_state() == ClientSessionState::NewBorn,
    {
        proof {
            use_type_invariant(self);
        }
        self.memory.pid
    }

    /// Where the session stands.
    #[verifier::when_used_as_spec(spec_state)]
    pub fn state(&self) -> (out: ClientSessionState)
        ensures
            out == self.spec_state(),
            out == ClientSessionState::NewBorn <==> self.spec_target_pid() == -1,
    {
        proof {
            use_type_invariant(self);
        }
        self.state
    }

    fn set_target_pid(&mut self, pid: i32)
        requires
            pid >= 0,
        ensures
            final(self).spec_target_pid() == pid,
            final(self).spec_state() == ClientSessionState::TargetBound,
    {
        *self = ClientSession { state: ClientSessionState::TargetBound, memory: Memory::new(pid) };
    }

    /// Takes one request. Memory operations ask the host for a transfer only once a process
    /// is bound; before, the reply is an error frame and nothing changes. A `TargetPID`
    /// request with an identifier that is not negative binds that process at once and asks
    /// the host for its mappings.
    pub fn handle_message(&mut self, msg: &[u8]) -> (step: Step)
        ensures
            step@ == spec_step(old(self).spec_target_pid(), msg@),
            final(self).spec_target_pid() == spec_next_pid(old(self).spec_target_pid(), msg@),
            final(self).spec_target_pid() == -1 <==> final(self).spec_state()
                == ClientSessionState::NewBorn,
    {
        proof {
            use_type_invariant(&*self);
        }
        let pid = self.memory.pid;
        if msg.len() == 0 {
            return Step::Ignore;
        }
        match PacketType::from_u8(msg[0]) {
            Some(PacketType::ReadVec) => {
                match RequestReadVecMemoryPacket::deserialize(msg) {
                    Err(e) => Step::Reply(error_response(e.message(), false)),
                    Ok(packet) => match self.memory.gate() {
                        Err(e) => Step::Reply(error_response(e.message(), false)),
                        Ok(_) => Step::Perform(
                            HostCall::ReadVec { pid, address: packet.address, size: packet.size },
                        ),
                    },
                }
            },
            Some(PacketType::ReadVecF32) => {
                match RequestReadVecF32MemoryPacket::deserialize(msg) {
                    Err(e) => Step::Reply(error_response(e.message(), false)),
                    Ok(packet) => match self.memory.gate() {
                        Err(e) => Step::Reply(error_response(e.message(), false)),
                        Ok(_) => Step::Perform(
                            HostCall::ReadVecF32 {
                                pid,
                                address: packet.address,
                                count: packet.count,
                            },
                        ),
                    },
                }
            },
            Some(PacketType::ReadU64) => {
                match RequestReadU64MemoryPacket::deserialize(msg) {
                    Err(e) => Step::Reply(error_response(e.message(), false)),
                    Ok(packet) => match self.memory.gate_width(packet.size as usize, false) {
                        Err(e) => Step::Reply(error_response(e.message(), false)),
                        Ok(_) => Step::Perform(
                            HostCall::ReadU64 { pid, address: packet.address, size: packet.size },
                        ),
                    },
                }
            },
            Some(PacketType::ReadI64) => {
                match RequestReadI64MemoryPacket::deserialize(msg) {
                    Err(e) => Step::Reply(error_response(e.message(), false)),
                    Ok(packet) => match self.memory.gate_width(packet.size as usize, true) {
                        Err(e) => Step::Reply(error_response(e.message(), false)),
                        Ok(_) => Step::Perform(
                            HostCall::ReadI64 { pid, address: packet.address, size: packet.size },
                        ),
                    },
                }
            },
            Some(PacketType::Write) => {
                match RequestWriteVecMemoryPacket::deserialize(msg) {
                    Err(e) => Step::Reply(error_response(e.message(), false)),
                    Ok(packet) => match self.memory.gate() {
                        Err(e) => Step::Reply(error_response(e.message(), false)),
                        Ok(_) => Step::Perform(
                            HostCall::Write { pid, address: packet.address, bytes: packet.bytes },
                        ),
                    },
                }
            },
            Some(PacketType::TargetPID) => {
                match RequestPidRegionsPacket::deserialize(msg) {
                    Err(e) => Step::Reply(error_response(e.message(), true)),
                    Ok(packet) => {
                        if packet.target_pid < 0 {
                            Step::Reply(error_response("Invalid PID".to_owned(), true))
                        } else {
                            self.set_target_pid(packet.target_pid);
                            Step::Perform(HostCall::Regions { pid: packet.target_pid })
                        }
                    },
                }
            },
            Some(PacketType::SendProcesses) => Step::Perform(HostCall::Processes),
            Some(PacketType::Error) => Step::Ignore,
            None => Step::Ignore,
        }
    }
}

/// The uncompressed frame that answers a call, given what the host reports of it. A
/// failure, and an outcome of another kind than the call's, give an error frame.
pub open spec fn spec_respond_frame(call: HostCallView, outcome: HostOutcome) -> Seq<u8> {
    match call {
        HostCallView::ReadVec { pid, address, size } => match outcome {
            HostOutcome::Transfer(transfer) => match (Memory { pid }).spec_read_vec(
                size as usize,
                transfer,
            ) {
                Ok(data) => ReceiveReadVecPacketResponse::spec_serialize(data),
                Err(fault) => spec_error_frame(fault.message()),
            },
            _ => spec_error_frame("Unexpected outcome"@),
        },
        HostCallView::ReadVecF32 { pid, address, count } => match outcome {
            HostOutcome::Transfer(transfer) => match (Memory { pid }).spec_read_vec_f32(
                count,
                transfer,
            ) {
                Ok(words) => ReceiveReadVecF32PacketResponse::spec_serialize(words),
                Err(fault) => spec_error_frame(fault.message()),
            },
            _ => spec_error_frame("Unexpected outcome"@),
        },
        HostCallView::ReadU64 { pid, address, size } => match outcome {
            HostOutcome::Transfer(transfer) => match (Memory { pid }).spec_read_u64(
                size as usize,
                transfer,
            ) {
                Ok(value) => ReceiveReadU64PacketResponse::spec_serialize(value),
                Err(fault) => spec_error_frame(fault.message()),
            },
            _ => spec_error_frame("Unexpected outcome"@),
        },
        HostCallView::ReadI64 { pid, address, size } => match outcome {
            HostOutcome::Transfer(transfer) => match (Memory { pid }).spec_read_i64(
                size as usize,
                transfer,
            ) {
                Ok(value) => ReceiveReadI64PacketResponse::spec_serialize(value),
                Err(fault) => spec_error_frame(fault.message()),
            },
            _ => spec_error_frame("Unexpected outcome"@),
        },
        HostCallView::Write { pid, address, bytes } => match outcome {
            HostOutcome::Transfer(transfer) => match (Memory { pid }).spec_write(bytes, transfer) {
                Ok(written) => RequestWriteVecMemoryPacketResponse::spec_serialize(written as u64),
                Err(fault) => spec_error_frame(fault.message()),
            },
            _ => spec_error_frame("Unexpected outcome"@),
        },
        HostCallView::Regions { pid } => match outcome {
            HostOutcome::Regions(Ok(maps)) => match spec_get_regions(maps@) {
                Some(regions) => if regions.len() <= u32::MAX {
                    RequestPidRegionsPacketResponse::spec_serialize_frame(regions)
                } else {
                    spec_error_frame("Too many regions"@)
                },
                None => spec_error_frame("Invalid memory map"@),
            },
            HostOutcome::Regions(Err(text)) => spec_error_frame(text@),
            _ => spec_error_frame("Unexpected outcome"@),
        },
        HostCallView::Processes => match outcome {
            HostOutcome::Processes(Ok(processes)) => match spec_get_running_processes(
                processes@,
            ) {
                Some(entries) => if entries.len() <= u32::MAX {
                    RequestProcessesPacketResponse::spec_serialize_frame(entries)
                } else {
                    spec_error_frame("Too many processes"@)
                },
                None => spec_error_frame("Invalid process entry"@),
            },
            HostOutcome::Processes(Err(text)) => spec_error_frame(text@),
            _ => spec_error_frame("Unexpected outcome"@),
        },
    }
}

/// What is sent in answer to a call: the frame, compressed for the two lists.
pub open spec fn spec_respond(call: HostCallView, outcome: HostOutcome) -> Seq<u8> {
    if call.compressed() {
        lz4_frame(spec_respond_frame(call, outcome), COMPRESSION_LEVEL)
    } else {
        spec_respond_frame(call, outcome)
    }
}

/// Builds the bytes that answer `call`, given what the host reports of it. Whatever the
/// outcome, there is an answer: the response of the call's type, or an error frame.
pub fn respond(call: &HostCall, outcome: HostOutcome) -> (out: Vec<u8>)
    ensures
        out@ == spec_respond(call@, outcome),
        call@.compressed() ==> lz4_unframe(out@) == Some(spec_respond_frame(call@, outcome)),
{
    match call {
        HostCall::ReadVec { pid, address, size } => match outcome {
            HostOutcome::Transfer(transfer) => {
                match Memory::new(*pid).read_vec(*size as usize, transfer) {
                    Ok(data) => ReceiveReadVecPacketResponse::serialize(data),
                    Err(e) => error_response(e.message(), false),
                }
            },
            _ => error_response("Unexpected outcome".to_owned(), false),
        },
        HostCall::ReadVecF32 { pid, address, count } => match outcome {
            HostOutcome::Transfer(transfer) => {
                match Memory::new(*pid).read_vec_f32(*count, transfer) {
                    Ok(words) => ReceiveReadVecF32PacketResponse::serialize(words),
                    Err(e) => error_response(e.message(), false),
                }
            },
            _ => error_response("Unexpected outcome".to_owned(), false),
        },
        HostCall::ReadU64 { pid, address, size } => match outcome {
            HostOutcome::Transfer(transfer) => {
                match Memory::new(*pid).read_u64(*size as usize, transfer) {
                    Ok(value) => ReceiveReadU64PacketResponse::serialize(value),
                    Err(e) => error_response(e.message(), false),
                }
            },
            _ => error_response("Unexpected outcome".to_owned(), false),
        },
        HostCall::ReadI64 { pid, address, size } => match outcome {
            HostOutcome::Transfer(transfer) => {
                match Memory::new(*pid).read_i64(*size as usize, transfer) {
                    Ok(value) => ReceiveReadI64PacketResponse::serialize(value),
                    Err(e) => error_response(e.message(), false),
                }
            },
            _ => error_response("Unexpected outcome".to_owned(), false),
        },
        HostCall::Write { pid, address, bytes } => match outcome {
            HostOutcome::Transfer(transfer) => {
                match Memory::new(*pid).write(bytes.as_slice(), &transfer) {
                    Ok(written) => RequestWriteVecMemoryPacketResponse::serialize(written as u64),
                    Err(e) => error_response(e.message(), false),
                }
            },
            _ => error_response("Unexpected outcome".to_owned(), false),
        },
        HostCall::Regions { pid } => match outcome {
            HostOutcome::Regions(Ok(maps)) => match get_regions(&maps) {
                Some(regions) => {
                    if regions.len() <= u32::MAX as usize {
                        RequestPidRegionsPacketResponse::serialize(regions)
                    } else {
                        error_response("Too many regions".to_owned(), true)
                    }
                },
                None => error_response("Invalid memory map".to_owned(), true),
            },
            HostOutcome::Regions(Err(text)) => error_response(text, true),
            _ => error_response("Unexpected outcome".to_owned(), true),
        },
        HostCall::Processes => match outcome {
            HostOutcome::Processes(Ok(processes)) => match get_running_processes(&processes) {
                Some(entries) => {
                    if entries.len() <= u32::MAX as usize {
                        RequestProcessesPacketResponse::serialize(entries)
                    } else {
                        error_response("Too many processes".to_owned(), true)
                    }
                },
                None => error_response("Invalid process entry".to_owned(), true),
            },
            HostOutcome::Processes(Err(text)) => error_response(text, true),
            _ => error_response("Unexpected outcome".to_owned(), true),
        },
    }
}

/// Whether `msg` is a well-formed request for a memory operation: one of the four reads,
/// or the write.
pub open spec fn is_memory_request(msg: Seq<u8>) -> bool {
    ||| RequestReadVecMemoryPacket::spec_deserialize(msg) is Ok
    ||| RequestReadVecF32MemoryPacket::spec_deserialize(msg) is Ok
    ||| RequestReadU64MemoryPacket::spec_deserialize(msg) is Ok
    ||| RequestReadI64MemoryPacket::spec_deserialize(msg) is Ok
    ||| RequestWriteVecMemoryPacket::spec_deserialize(msg) is Ok
}

/// Whether `msg` is a well-formed request for an integer read whose width is none of 1, 2,
/// 4 and 8.
pub open spec fn is_odd_width_request(msg: Seq<u8>) -> bool {
    ||| RequestReadU64MemoryPacket::spec_deserialize(msg) matches Ok(packet) && !(packet.size
        == 1 || packet.size == 2 || packet.size == 4 || packet.size == 8)
    ||| RequestReadI64MemoryPacket::spec_deserialize(msg) matches Ok(packet) && !(packet.size
        == 1 || packet.size == 2 || packet.size == 4 || packet.size == 8)
}

/// Whether `bytes` open with the tag of an error frame.
pub open spec fn is_error_frame(bytes: Seq<u8>) -> bool {
    bytes.len() > 0 && bytes[0] == PacketType::Error.tag()
}

/// Whatever the message, the uncompressed error frame opens with the tag of an error frame.
pub proof fn lemma_error_frame_tag(message: Seq<char>)
    ensures
        is_error_frame(spec_error_frame(message)),
{
}

/// While no process is bound, every request for a memory operation is answered at once
/// with the error frame that says "Error: PID not set!", and no process becomes bound.
pub proof fn lemma_pid_gate(msg: Seq<u8>)
    requires
        is_memory_request(msg),
    ensures
        spec_step(-1i32, msg) == StepView::Reply(
            ErrorPacket::spec_serialize(encode_utf8("Error: PID not set!"@)),
        ),
        spec_next_pid(-1i32, msg) == -1,
{
    reveal_strlit("Error: ");
    reveal_strlit("PID not set!");
    reveal_strlit("Error: PID not set!");
    assert("Error: "@ + "PID not set!"@ =~= "Error: PID not set!"@);
    is_ascii_chars_encode_utf8("Error: PID not set!"@);
}

/// A `TargetPID` request with an identifier that is not negative binds the session to that
/// process, whatever it was bound to, and asks the host for the mappings of that process.
pub proof fn lemma_target_pid_binds(before: i32, pid: i32)
    requires
        pid >= 0,
    ensures
        spec_step(before, RequestPidRegionsPacket::spec_serialize(pid)) == StepView::Perform(
            HostCallView::Regions { pid },
        ),
        spec_next_pid(before, RequestPidRegionsPacket::spec_serialize(pid)) == pid,
{
    RequestPidRegionsPacket::lemma_round_trip(pid);
}

/// The mappings that the host reports for a `Regions` call go back as the compressed list
/// of their regions, and that list decodes to those regions.
pub proof fn lemma_regions_answer(pid: i32, maps: Vec<MapEntry>)
    requires
        spec_get_regions(maps@) is Some,
        maps@.len() <= u32::MAX,
    ensures
        spec_respond(HostCallView::Regions { pid }, HostOutcome::Regions(Ok(maps)))
            == RequestPidRegionsPacketResponse::spec_serialize(spec_get_regions(maps@)->0),
        RequestPidRegionsPacketResponse::spec_deserialize_frame(
            spec_respond_frame(HostCallView::Regions { pid }, HostOutcome::Regions(Ok(maps))),
        ) == Ok::<Seq<crate::protocol::RegionView>, crate::protocol::PacketFault>(
            spec_get_regions(maps@)->0,
        ),
{
    let regions = spec_get_regions(maps@)->0;
    assert forall|i: int| 0 <= i < regions.len() implies (#[trigger] regions[i]).encodable() by {
        assert(maps@[i].valid());
        maps@[i].lemma_device_is_short();
        vstd::utf8::encode_utf8_valid_utf8(maps@[i].spec_device());
        vstd::utf8::encode_utf8_valid_utf8(maps@[i].pathname.spec_label());
    }
    RequestPidRegionsPacketResponse::lemma_round_trip(regions);
}

/// An integer read with a width that is none of 1, 2, 4 and 8 is answered at once with an
/// error frame, whether a process is bound or not: no transfer is asked for.
pub proof fn lemma_width_domain(pid: i32, msg: Seq<u8>)
    requires
        is_odd_width_request(msg),
    ensures
        spec_step(pid, msg) matches StepView::Reply(bytes) && is_error_frame(bytes),
        spec_next_pid(pid, msg) == pid,
{
}

/// The answer to an integer read with a width that is none of 1, 2, 4 and 8 is an error
/// frame, whatever the host reports.
pub proof fn lemma_width_domain_answer(
    pid: i32,
    address: u64,
    size: u8,
    signed: bool,
    outcome: HostOutcome,
)
    requires
        !(size == 1 || size == 2 || size == 4 || size == 8),
    ensures
        is_error_frame(
            spec_respond(
                if signed {
                    HostCallView::ReadI64 { pid, address, size }
                } else {
                    HostCallView::ReadU64 { pid, address, size }
                },
                outcome,
            ),
        ),
{
}

} // verus!
