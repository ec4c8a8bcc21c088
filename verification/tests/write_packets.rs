use remote_memory::protocol::write_primitives::{
    RequestWriteVecMemoryPacket, RequestWriteVecMemoryPacketResponse,
};
use remote_memory::protocol::{ErrorPacket, PacketError, PacketType};

#[test]
fn write_primitives_test_write_memory_packet() {
    let data = RequestWriteVecMemoryPacket::serialize(1337, vec![123, 255]);
    let packet = RequestWriteVecMemoryPacket::deserialize(&data).unwrap();

    assert_eq!(
        RequestWriteVecMemoryPacket {
            _type: PacketType::Write,
            address: 1337,
            count: 2,
            bytes: vec![123, 255],
        },
        packet
    );
}

#[test]
fn write_primitives_test_write_memory_packet_response() {
    const BYTES_WRITTEN: u64 = 100;
    let response_data = RequestWriteVecMemoryPacketResponse::serialize(BYTES_WRITTEN);
    let parsed_response = RequestWriteVecMemoryPacketResponse::deserialize(&response_data).unwrap();

    assert_eq!(
        RequestWriteVecMemoryPacketResponse {
            _type: PacketType::Write,
            bytes_written: 100,
        },
        parsed_response
    );
}

#[test]
fn write_request_bytes() {
    let data = RequestWriteVecMemoryPacket::serialize(1337, vec![123, 255]);
    assert_eq!(
        data,
        vec![0x04, 0, 0, 0, 0, 0, 0, 0x05, 0x39, 0, 0, 0, 0x02, 0x7B, 0xFF]
    );
    let empty = RequestWriteVecMemoryPacket::serialize(0, vec![]);
    assert_eq!(empty, vec![4, 0, 0, 0, 0, 0, 0, 0, 0, 0, 0, 0, 0]);
    let back = RequestWriteVecMemoryPacket::deserialize(&empty).unwrap();
    assert_eq!(back.count, 0);
    assert!(back.bytes.is_empty());
}

#[test]
fn write_response_bytes() {
    assert_eq!(
        RequestWriteVecMemoryPacketResponse::serialize(2),
        vec![0x04, 0, 0, 0, 0, 0, 0, 0, 0x02]
    );
}

#[test]
fn write_frames_that_fail() {
    assert_eq!(RequestWriteVecMemoryPacket::deserialize(&[4; 12]), Err(PacketError::Truncated));
    assert_eq!(
        RequestWriteVecMemoryPacket::deserialize(&[4, 0, 0, 0, 0, 0, 0, 0, 0, 0, 0, 0, 2, 1]),
        Err(PacketError::Truncated)
    );
    assert_eq!(RequestWriteVecMemoryPacketResponse::deserialize(&[4; 8]), Err(PacketError::Truncated));
    assert_eq!(RequestWriteVecMemoryPacket::deserialize(&[0; 13]), Err(PacketError::IncorrectPacketType));
    assert_eq!(RequestWriteVecMemoryPacketResponse::deserialize(&[200; 9]), Err(PacketError::InvalidPacketType));
    let error = ErrorPacket::serialize("Error: Partial write occurred!".to_string());
    assert_eq!(
        RequestWriteVecMemoryPacketResponse::deserialize(&error),
        Err(PacketError::Remote("Error: Partial write occurred!".to_string()))
    );
    assert_eq!(
        RequestWriteVecMemoryPacket::deserialize(&error),
        Err(PacketError::Remote("Error: Partial write occurred!".to_string()))
    );
}
