use remote_memory::helpers::memweb::{get_processes, get_regions};
use remote_memory::helpers::tcpmem::{
    read_i16, read_i32, read_i64, read_i8, read_ptr, read_u16, read_u32, read_u64, read_u8,
    read_vec, read_vec_f32,
};
use remote_memory::protocol::read_primitives::{
    ReceiveReadI64PacketResponse, ReceiveReadU64PacketResponse, ReceiveReadVecF32PacketResponse,
    ReceiveReadVecPacketResponse,
};
use remote_memory::protocol::write_primitives::RequestWriteVecMemoryPacketResponse;
use remote_memory::protocol::{
    EncodedString, ErrorPacket, PacketError, ProcessEntry, RequestPidRegionsPacketResponse,
    RequestProcessesPacketResponse,
};

#[test]
fn unsigned_values_are_narrowed_to_their_width() {
    let wide = ReceiveReadU64PacketResponse::serialize(0x1122334455667788);
    assert_eq!(read_u8(&wide), Ok(0x88));
    assert_eq!(read_u16(&wide), Ok(0x7788));
    assert_eq!(read_u32(&wide), Ok(0x55667788));
    assert_eq!(read_u64(&wide), Ok(0x1122334455667788));
    let small = ReceiveReadU64PacketResponse::serialize(0xFF);
    assert_eq!(read_u8(&small), Ok(0xFF));
    assert_eq!(read_u64(&small), Ok(0x00000000000000FF));
}

#[test]
fn signed_values_are_narrowed_in_twos_complement() {
    let minus = ReceiveReadI64PacketResponse::serialize(-128);
    assert_eq!(read_i8(&minus), Ok(-128));
    assert_eq!(read_i16(&minus), Ok(-128));
    assert_eq!(read_i32(&minus), Ok(-128));
    assert_eq!(read_i64(&minus), Ok(-128));
    let zero_extended = ReceiveReadI64PacketResponse::serialize(0x80);
    assert_eq!(read_i8(&zero_extended), Ok(-128));
    assert_eq!(read_i16(&zero_extended), Ok(128));
    let wide = ReceiveReadI64PacketResponse::serialize(0x1122334455667788);
    assert_eq!(read_i8(&wide), Ok(0x1122334455667788i64 as i8));
    assert_eq!(read_i16(&wide), Ok(0x7788));
    assert_eq!(read_i32(&wide), Ok(0x55667788));
    let high = ReceiveReadI64PacketResponse::serialize(0xFFFF_FFFF);
    assert_eq!(read_i32(&high), Ok(-1));
    assert_eq!(read_i16(&high), Ok(-1));
    let largest = ReceiveReadI64PacketResponse::serialize(127);
    assert_eq!(read_i8(&largest), Ok(127));
}

#[test]
fn a_null_pointer_is_nothing() {
    assert_eq!(read_ptr(&ReceiveReadU64PacketResponse::serialize(0)), Ok(None));
    assert_eq!(read_ptr(&ReceiveReadU64PacketResponse::serialize(0x7fff0000)), Ok(Some(0x7fff0000)));
}

#[test]
fn payloads_are_handed_out() {
    assert_eq!(read_vec(&ReceiveReadVecPacketResponse::serialize(vec![1, 2, 3])), Ok(vec![1, 2, 3]));
    assert_eq!(
        read_vec_f32(&ReceiveReadVecF32PacketResponse::serialize(vec![0.5f32.to_bits()])),
        Ok(vec![0.5f32.to_bits()])
    );
    assert_eq!(
        remote_memory::helpers::tcpmem::write(&RequestWriteVecMemoryPacketResponse::serialize(2)),
        Ok(2)
    );
}

#[test]
fn failures_reach_the_caller() {
    let error = ErrorPacket::serialize("Error: PID not set!".to_string());
    let expected = PacketError::Remote("Error: PID not set!".to_string());
    assert_eq!(read_u8(&error), Err(expected.clone()));
    assert_eq!(read_i32(&error), Err(expected.clone()));
    assert_eq!(read_ptr(&error), Err(expected.clone()));
    assert_eq!(read_vec(&error), Err(expected.clone()));
    assert_eq!(read_vec_f32(&error), Err(expected.clone()));
    assert_eq!(remote_memory::helpers::tcpmem::write(&error), Err(expected));
    assert_eq!(read_u16(&[]), Err(PacketError::Truncated));
    assert_eq!(read_i64(&[2, 0, 0, 0, 0, 0, 0, 0, 0]), Err(PacketError::IncorrectPacketType));
}

#[test]
fn lists_are_handed_out() {
    let entries = vec![ProcessEntry { name: EncodedString::new("init".to_string()), pid: 1 }];
    assert_eq!(get_processes(&RequestProcessesPacketResponse::serialize(entries.clone())), Ok(entries));
    assert_eq!(get_regions(&RequestPidRegionsPacketResponse::serialize(Vec::new())), Ok(Vec::new()));
    assert_eq!(get_regions(&[1, 2, 3, 4, 5, 6, 7, 8, 9, 10, 11, 12]), Err(PacketError::Compression));
    let error = remote_memory::compression::compress(&ErrorPacket::serialize("Error: gone".to_string()));
    assert_eq!(get_regions(&error), Err(PacketError::Remote("Error: gone".to_string())));
    assert_eq!(get_processes(&error), Err(PacketError::Remote("Error: gone".to_string())));
}
