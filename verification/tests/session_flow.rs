use remote_memory::compression::{compress, decompress};
use remote_memory::memory::Transfer;
use remote_memory::process::{MapEntry, MapPath, MapPermissions, ProcessInfo};
use remote_memory::protocol::read_primitives::{
    ReceiveReadI64PacketResponse, ReceiveReadU64PacketResponse, ReceiveReadVecF32PacketResponse,
    ReceiveReadVecPacketResponse, RequestReadI64MemoryPacket, RequestReadU64MemoryPacket,
    RequestReadVecF32MemoryPacket, RequestReadVecMemoryPacket,
};
use remote_memory::protocol::write_primitives::{
    RequestWriteVecMemoryPacket, RequestWriteVecMemoryPacketResponse,
};
use remote_memory::protocol::{
    EncodedString, ErrorPacket, PacketError, ProcessEntry, Region, RequestPidRegionsPacket,
    RequestPidRegionsPacketResponse, RequestProcessesPacket, RequestProcessesPacketResponse,
};
use remote_memory::session::{
    error_response, respond, ClientSession, ClientSessionState, HostCall, HostOutcome, Step,
};

fn error_frame(text: &str) -> Vec<u8> {
    ErrorPacket::serialize(text.to_string())
}

fn moved(n: isize, data: Vec<u8>) -> HostOutcome {
    HostOutcome::Transfer(Transfer { returned: n, errno: 0, description: String::new(), data })
}

fn failed(code: i32, text: &str) -> HostOutcome {
    HostOutcome::Transfer(Transfer {
        returned: -1,
        errno: code,
        description: text.to_string(),
        data: Vec::new(),
    })
}

fn bound(pid: i32) -> ClientSession {
    let mut session = ClientSession::new();
    let step = session.handle_message(&RequestPidRegionsPacket::serialize(pid));
    assert_eq!(step, Step::Perform(HostCall::Regions { pid }));
    session
}

#[test]
fn a_session_starts_unbound() {
    let session = ClientSession::new();
    assert_eq!(session.target_pid(), -1);
    assert_eq!(session.state(), ClientSessionState::NewBorn);
}

#[test]
fn memory_requests_are_refused_until_a_process_is_bound() {
    let requests = vec![
        RequestReadVecMemoryPacket::serialize(1337, 100),
        RequestReadVecF32MemoryPacket::serialize(1337, 3),
        RequestReadU64MemoryPacket::serialize(1337, 8),
        RequestReadI64MemoryPacket::serialize(1337, 8),
        RequestWriteVecMemoryPacket::serialize(1337, vec![123, 255]),
    ];
    for request in requests {
        let mut session = ClientSession::new();
        let step = session.handle_message(&request);
        assert_eq!(step, Step::Reply(error_frame("Error: PID not set!")));
        assert_eq!(session.target_pid(), -1);
        assert_eq!(session.state(), ClientSessionState::NewBorn);
    }
}

#[test]
fn the_refusal_is_an_error_frame_on_the_wire() {
    let mut session = ClientSession::new();
    let step = session.handle_message(&RequestReadVecMemoryPacket::serialize(1337, 100));
    let mut expected = vec![0x07, 0, 0, 0, 19];
    expected.extend_from_slice(b"Error: PID not set!");
    assert_eq!(step, Step::Reply(expected.clone()));
    assert_eq!(
        ReceiveReadVecPacketResponse::deserialize(&expected),
        Err(PacketError::Remote("Error: PID not set!".to_string()))
    );
}

#[test]
fn target_pid_binds_at_once() {
    let mut session = ClientSession::new();
    let step = session.handle_message(&RequestPidRegionsPacket::serialize(4242));
    assert_eq!(step, Step::Perform(HostCall::Regions { pid: 4242 }));
    assert_eq!(session.target_pid(), 4242);
    assert_eq!(session.state(), ClientSessionState::TargetBound);
    let step = session.handle_message(&RequestReadVecMemoryPacket::serialize(1337, 100));
    assert_eq!(step, Step::Perform(HostCall::ReadVec { pid: 4242, address: 1337, size: 100 }));
    let step = session.handle_message(&RequestPidRegionsPacket::serialize(7));
    assert_eq!(step, Step::Perform(HostCall::Regions { pid: 7 }));
    assert_eq!(session.target_pid(), 7);
    let step = session.handle_message(&RequestReadU64MemoryPacket::serialize(16, 4));
    assert_eq!(step, Step::Perform(HostCall::ReadU64 { pid: 7, address: 16, size: 4 }));
}

#[test]
fn process_zero_can_be_bound() {
    let session = bound(0);
    assert_eq!(session.target_pid(), 0);
    assert_eq!(session.state(), ClientSessionState::TargetBound);
}

#[test]
fn a_negative_identifier_binds_nothing() {
    for pid in [-1, -2, i32::MIN] {
        let mut session = ClientSession::new();
        let step = session.handle_message(&RequestPidRegionsPacket::serialize(pid));
        match step {
            Step::Reply(bytes) => {
                assert_eq!(decompress(&bytes), Some(error_frame("Error: Invalid PID")));
            }
            other => panic!("unexpected step {:?}", other),
        }
        assert_eq!(session.target_pid(), -1);
        assert_eq!(session.state(), ClientSessionState::NewBorn);
    }
    let mut session = bound(9);
    let _ = session.handle_message(&RequestPidRegionsPacket::serialize(-1));
    assert_eq!(session.target_pid(), 9);
    assert_eq!(session.state(), ClientSessionState::TargetBound);
}

#[test]
fn the_process_list_needs_no_binding() {
    let mut session = ClientSession::new();
    let step = session.handle_message(&RequestProcessesPacket::serialize());
    assert_eq!(step, Step::Perform(HostCall::Processes));
    assert_eq!(session.target_pid(), -1);
}

#[test]
fn every_memory_request_becomes_its_call_once_bound() {
    let mut session = bound(5);
    assert_eq!(
        session.handle_message(&RequestReadVecF32MemoryPacket::serialize(8, 3)),
        Step::Perform(HostCall::ReadVecF32 { pid: 5, address: 8, count: 3 })
    );
    assert_eq!(
        session.handle_message(&RequestReadI64MemoryPacket::serialize(8, 2)),
        Step::Perform(HostCall::ReadI64 { pid: 5, address: 8, size: 2 })
    );
    assert_eq!(
        session.handle_message(&RequestWriteVecMemoryPacket::serialize(8, vec![1, 2])),
        Step::Perform(HostCall::Write { pid: 5, address: 8, bytes: vec![1, 2] })
    );
    assert_eq!(session.target_pid(), 5);
}

#[test]
fn widths_outside_the_domain_are_refused() {
    for size in [0u8, 3, 5, 6, 7] {
        let mut session = bound(5);
        assert_eq!(
            session.handle_message(&RequestReadU64MemoryPacket::serialize(8, size)),
            Step::Reply(error_frame("Error: Unsupported byte width"))
        );
        assert_eq!(
            session.handle_message(&RequestReadI64MemoryPacket::serialize(8, size)),
            Step::Reply(error_frame("Error: Unsupported byte width"))
        );
    }
    let mut session = bound(5);
    assert_eq!(
        session.handle_message(&RequestReadU64MemoryPacket::serialize(8, 9)),
        Step::Reply(error_frame("Error: Size is larger than u64!"))
    );
    assert_eq!(
        session.handle_message(&RequestReadI64MemoryPacket::serialize(8, 200)),
        Step::Reply(error_frame("Error: Size is larger than i64!"))
    );
    let mut unbound = ClientSession::new();
    assert_eq!(
        unbound.handle_message(&RequestReadU64MemoryPacket::serialize(8, 3)),
        Step::Reply(error_frame("Error: PID not set!"))
    );
}

#[test]
fn unknown_tags_and_empty_input_are_ignored() {
    let mut session = bound(5);
    assert_eq!(session.handle_message(&[]), Step::Ignore);
    assert_eq!(session.handle_message(&[8, 1, 2, 3]), Step::Ignore);
    assert_eq!(session.handle_message(&[255]), Step::Ignore);
    assert_eq!(session.handle_message(&error_frame("hello")), Step::Ignore);
    assert_eq!(session.target_pid(), 5);
}

#[test]
fn truncated_requests_get_an_error_frame() {
    let mut session = bound(5);
    assert_eq!(
        session.handle_message(&[0, 0, 0, 0]),
        Step::Reply(error_frame("Error: Truncated packet"))
    );
    assert_eq!(
        session.handle_message(&[4, 0, 0, 0, 0, 0, 0, 0, 0, 0, 0, 0, 5, 1]),
        Step::Reply(error_frame("Error: Truncated packet"))
    );
    match session.handle_message(&[5, 0, 0]) {
        Step::Reply(bytes) => {
            assert_eq!(decompress(&bytes), Some(error_frame("Error: Truncated packet")))
        }
        other => panic!("unexpected step {:?}", other),
    }
    assert_eq!(session.target_pid(), 5);
}

#[test]
fn read_outcomes_become_responses() {
    let call = HostCall::ReadVec { pid: 5, address: 1337, size: 3 };
    assert_eq!(respond(&call, moved(3, vec![1, 2, 3])), ReceiveReadVecPacketResponse::serialize(vec![1, 2, 3]));
    assert_eq!(respond(&call, moved(2, vec![1, 2, 0])), error_frame("Error: Partial read occurred!"));
    assert_eq!(
        respond(&call, failed(3, "No such process")),
        error_frame("Error: Error 3: No such process")
    );
    let call = HostCall::ReadU64 { pid: 5, address: 1337, size: 1 };
    assert_eq!(respond(&call, moved(1, vec![0xFF])), vec![0x02, 0, 0, 0, 0, 0, 0, 0, 0xFF]);
    assert_eq!(respond(&call, moved(1, vec![0xFF])), ReceiveReadU64PacketResponse::serialize(0xFF));
    let call = HostCall::ReadU64 { pid: 5, address: 1337, size: 4 };
    assert_eq!(respond(&call, moved(4, vec![1, 0, 0, 0])), ReceiveReadU64PacketResponse::serialize(1));
    let call = HostCall::ReadI64 { pid: 5, address: 1337, size: 8 };
    assert_eq!(
        respond(&call, moved(8, vec![0x80, 0xFF, 0xFF, 0xFF, 0xFF, 0xFF, 0xFF, 0xFF])),
        ReceiveReadI64PacketResponse::serialize(-128)
    );
    let call = HostCall::ReadVecF32 { pid: 5, address: 1337, count: 1 };
    assert_eq!(
        respond(&call, moved(4, 1.5f32.to_le_bytes().to_vec())),
        ReceiveReadVecF32PacketResponse::serialize(vec![1.5f32.to_bits()])
    );
}

#[test]
fn odd_widths_never_give_a_number() {
    for size in [0u8, 3, 5, 6, 7, 9, 255] {
        let data = vec![1u8; size as usize];
        let call = HostCall::ReadU64 { pid: 5, address: 0, size };
        assert_eq!(respond(&call, moved(size as isize, data.clone()))[0], 7);
        let call = HostCall::ReadI64 { pid: 5, address: 0, size };
        assert_eq!(respond(&call, moved(size as isize, data))[0], 7);
    }
}

#[test]
fn write_outcomes_become_responses() {
    let call = HostCall::Write { pid: 5, address: 1337, bytes: vec![123, 255] };
    assert_eq!(respond(&call, moved(2, vec![])), vec![0x04, 0, 0, 0, 0, 0, 0, 0, 0x02]);
    assert_eq!(respond(&call, moved(2, vec![])), RequestWriteVecMemoryPacketResponse::serialize(2));
    assert_eq!(respond(&call, moved(1, vec![])), error_frame("Error: Partial write occurred!"));
    assert_eq!(
        respond(&call, failed(1, "Operation not permitted")),
        error_frame("Error: Error 1: Operation not permitted")
    );
}

#[test]
fn calls_for_an_unbound_process_are_refused() {
    let call = HostCall::ReadVec { pid: -1, address: 0, size: 1 };
    assert_eq!(respond(&call, moved(1, vec![0])), error_frame("Error: PID not set!"));
    let call = HostCall::Write { pid: -1, address: 0, bytes: vec![1] };
    assert_eq!(respond(&call, moved(1, vec![])), error_frame("Error: PID not set!"));
}

#[test]
fn the_region_list_goes_back_compressed() {
    let maps = vec![MapEntry {
        start: 0x0000555555554000,
        end: 0x0000555555555000,
        perms: MapPermissions { read: true, write: false, execute: true, private: false },
        offset: 0,
        dev_major: 8,
        dev_minor: 1,
        inode: 0,
        pathname: MapPath::Path("/bin/app".to_string()),
    }];
    let wire = respond(&HostCall::Regions { pid: 5 }, HostOutcome::Regions(Ok(maps)));
    assert_eq!(
        RequestPidRegionsPacketResponse::deserialize_frame(&wire),
        Err(PacketError::IncorrectPacketType)
    );
    let back = RequestPidRegionsPacketResponse::deserialize(&wire).unwrap();
    assert_eq!(
        back.regions,
        vec![Region {
            start: 0x0000555555554000,
            end: 0x0000555555555000,
            size: 4096,
            permissions: 5,
            offset: 0,
            device: EncodedString::new("8:1".to_string()),
            inode: 0,
            pathname: EncodedString::new("/bin/app".to_string()),
        }]
    );
}

#[test]
fn list_failures_go_back_as_compressed_error_frames() {
    let wire = respond(
        &HostCall::Regions { pid: 5 },
        HostOutcome::Regions(Err("No such file or directory".to_string())),
    );
    assert_eq!(decompress(&wire), Some(error_frame("Error: No such file or directory")));
    assert_eq!(
        RequestPidRegionsPacketResponse::deserialize(&wire),
        Err(PacketError::Remote("Error: No such file or directory".to_string()))
    );
    let wire = respond(&HostCall::Processes, HostOutcome::Processes(Err("denied".to_string())));
    assert_eq!(decompress(&wire), Some(error_frame("Error: denied")));
    let bad = MapEntry {
        start: 2,
        end: 1,
        perms: MapPermissions { read: false, write: false, execute: false, private: false },
        offset: 0,
        dev_major: 0,
        dev_minor: 0,
        inode: 0,
        pathname: MapPath::Heap,
    };
    let wire = respond(&HostCall::Regions { pid: 5 }, HostOutcome::Regions(Ok(vec![bad])));
    assert_eq!(decompress(&wire), Some(error_frame("Error: Invalid memory map")));
    let nameless = ProcessInfo { pid: 1, cmdline: vec![], comm: None };
    let wire = respond(&HostCall::Processes, HostOutcome::Processes(Ok(vec![nameless])));
    assert_eq!(decompress(&wire), Some(error_frame("Error: Invalid process entry")));
}

#[test]
fn the_process_list_goes_back_compressed() {
    let procs = vec![
        ProcessInfo { pid: 1, cmdline: vec!["init".to_string(), "splash".to_string()], comm: None },
        ProcessInfo { pid: 2, cmdline: vec![], comm: Some("kthreadd".to_string()) },
    ];
    let wire = respond(&HostCall::Processes, HostOutcome::Processes(Ok(procs)));
    let back = RequestProcessesPacketResponse::deserialize(&wire).unwrap();
    assert_eq!(
        back.processes,
        vec![
            ProcessEntry { name: EncodedString::new("init splash".to_string()), pid: 1 },
            ProcessEntry { name: EncodedString::new("kthreadd".to_string()), pid: 2 },
        ]
    );
}

#[test]
fn an_outcome_of_another_kind_gives_an_error_frame() {
    let call = HostCall::ReadVec { pid: 5, address: 0, size: 1 };
    assert_eq!(
        respond(&call, HostOutcome::Processes(Ok(Vec::new()))),
        error_frame("Error: Unexpected outcome")
    );
    let wire = respond(&HostCall::Processes, moved(0, vec![]));
    assert_eq!(decompress(&wire), Some(error_frame("Error: Unexpected outcome")));
    let wire = respond(&HostCall::Regions { pid: 1 }, HostOutcome::Processes(Ok(Vec::new())));
    assert_eq!(decompress(&wire), Some(error_frame("Error: Unexpected outcome")));
}

#[test]
fn error_responses() {
    assert_eq!(error_response("PID not set!".to_string(), false), error_frame("Error: PID not set!"));
    assert_eq!(
        error_response("x".to_string(), true),
        compress(&error_frame("Error: x"))
    );
    assert_eq!(error_response(String::new(), false), error_frame("Error: "));
}

#[test]
fn write_then_read_on_a_cooperating_target() {
    let mut target = vec![0u8; 64];
    let mut session = bound(77);
    let request = RequestWriteVecMemoryPacket::serialize(16, vec![9, 8, 7]);
    let call = match session.handle_message(&request) {
        Step::Perform(call) => call,
        other => panic!("unexpected step {:?}", other),
    };
    let written = match &call {
        HostCall::Write { address, bytes, .. } => {
            let at = *address as usize;
            target[at..at + bytes.len()].copy_from_slice(bytes);
            bytes.len()
        }
        other => panic!("unexpected call {:?}", other),
    };
    let response = respond(&call, moved(written as isize, vec![]));
    assert_eq!(
        RequestWriteVecMemoryPacketResponse::deserialize(&response).unwrap().bytes_written,
        3
    );
    let request = RequestReadVecMemoryPacket::serialize(16, 3);
    let call = match session.handle_message(&request) {
        Step::Perform(call) => call,
        other => panic!("unexpected step {:?}", other),
    };
    let data = match &call {
        HostCall::ReadVec { address, size, .. } => {
            target[*address as usize..*address as usize + *size as usize].to_vec()
        }
        other => panic!("unexpected call {:?}", other),
    };
    let response = respond(&call, moved(3, data));
    assert_eq!(ReceiveReadVecPacketResponse::deserialize(&response).unwrap().data, vec![9, 8, 7]);
}
