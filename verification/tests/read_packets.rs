use remote_memory::protocol::read_primitives::{
    ReceiveReadI64PacketResponse, ReceiveReadU64PacketResponse, ReceiveReadVecF32PacketResponse,
    ReceiveReadVecPacketResponse, RequestReadI64MemoryPacket, RequestReadU64MemoryPacket,
    RequestReadVecF32MemoryPacket, RequestReadVecMemoryPacket,
};
use remote_memory::protocol::{ErrorPacket, PacketError, PacketType};

#[test]
fn test_read_vec_memory_packet() {
    let data = RequestReadVecMemoryPacket::serialize(1337, 100);
    let packet = RequestReadVecMemoryPacket::deserialize(&data).unwrap();

    assert_eq!(
        RequestReadVecMemoryPacket {
            _type: PacketType::ReadVec,
            address: 1337,
            size: 100,
        },
        packet
    );
}

#[test]
fn test_read_vec_memory_packet_response() {
    let test_payload = vec![255, 100, 50, 25, 10];

    let response_data = ReceiveReadVecPacketResponse::serialize(test_payload);
    let parsed_response = ReceiveReadVecPacketResponse::deserialize(&response_data).unwrap();

    assert_eq!(
        ReceiveReadVecPacketResponse {
            _type: PacketType::ReadVec,
            count: 5,
            data: vec![255, 100, 50, 25, 10],
        },
        parsed_response
    );
}

#[test]
fn test_read_vec_f32_memory_packet() {
    let data = RequestReadVecF32MemoryPacket::serialize(1337, 3);
    let packet = RequestReadVecF32MemoryPacket::deserialize(&data).unwrap();

    assert_eq!(
        RequestReadVecF32MemoryPacket {
            _type: PacketType::ReadVecF32,
            address: 1337,
            count: 3,
        },
        packet
    );
}

#[test]
fn test_read_vec_f32_memory_packet_response() {
    let test_payload: Vec<f32> = vec![0.00032, 0.00064, 0.000128];

    let response_data = ReceiveReadVecF32PacketResponse::serialize(
        test_payload.iter().map(|x| x.to_bits()).collect(),
    );
    let parsed_response = ReceiveReadVecF32PacketResponse::deserialize(&response_data).unwrap();

    let expected: Vec<f32> = vec![0.00032, 0.00064, 0.000128];
    assert_eq!(
        ReceiveReadVecF32PacketResponse {
            _type: PacketType::ReadVecF32,
            count: 3,
            data: expected.iter().map(|x| x.to_bits()).collect(),
        },
        parsed_response
    );
    let floats: Vec<f32> = parsed_response.data.iter().map(|b| f32::from_bits(*b)).collect();
    assert_eq!(floats, expected);
}

#[test]
fn test_read_u64_memory_packet() {
    let data = RequestReadU64MemoryPacket::serialize(1337, 8);
    let packet = RequestReadU64MemoryPacket::deserialize(&data).unwrap();

    assert_eq!(
        RequestReadU64MemoryPacket {
            _type: PacketType::ReadU64,
            address: 1337,
            size: 8,
        },
        packet
    );
}

#[test]
fn test_read_u64_memory_packet_response() {
    let byte: u8 = 0xFF;
    let response_data = ReceiveReadU64PacketResponse::serialize(byte as u64);
    let res = ReceiveReadU64PacketResponse::deserialize(&response_data).unwrap();

    assert_eq!(res.value as u8, byte);

    assert_eq!(
        ReceiveReadU64PacketResponse {
            _type: PacketType::ReadU64,
            value: 0xFF,
        },
        res
    );
}

#[test]
fn test_read_i64_memory_packet() {
    let data = RequestReadI64MemoryPacket::serialize(1337, 8);
    let packet = RequestReadI64MemoryPacket::deserialize(&data).unwrap();

    assert_eq!(
        RequestReadI64MemoryPacket {
            _type: PacketType::ReadI64,
            address: 1337,
            size: 8,
        },
        packet
    );
}

#[test]
fn test_read_i64_memory_packet_response_smallest() {
    let byte: i8 = -128;
    let response_data = ReceiveReadI64PacketResponse::serialize(byte as i64);
    let res = ReceiveReadI64PacketResponse::deserialize(&response_data).unwrap();

    assert_eq!(res.value as i8, byte);

    assert_eq!(
        ReceiveReadI64PacketResponse {
            _type: PacketType::ReadI64,
            value: -128,
        },
        res
    );
}

#[test]
fn test_read_i64_memory_packet_response_largest() {
    let byte: i8 = 127;
    let response_data = ReceiveReadI64PacketResponse::serialize(byte as i64);
    let res = ReceiveReadI64PacketResponse::deserialize(&response_data).unwrap();

    assert_eq!(res.value as i8, byte);

    assert_eq!(
        ReceiveReadI64PacketResponse {
            _type: PacketType::ReadI64,
            value: 127,
        },
        res
    );
}

#[test]
fn read_vec_request_bytes() {
    let data = RequestReadVecMemoryPacket::serialize(1337, 100);
    assert_eq!(data, vec![0x00, 0, 0, 0, 0, 0, 0, 0x05, 0x39, 0, 0, 0, 0x64]);
    let data = RequestReadVecMemoryPacket::serialize(u64::MAX, u32::MAX);
    assert_eq!(data, vec![0, 255, 255, 255, 255, 255, 255, 255, 255, 255, 255, 255, 255]);
    let back = RequestReadVecMemoryPacket::deserialize(&data).unwrap();
    assert_eq!(back.address, u64::MAX);
    assert_eq!(back.size, u32::MAX);
    let data = RequestReadVecMemoryPacket::serialize(0x0102030405060708, 0x0A0B0C0D);
    assert_eq!(data, vec![0, 1, 2, 3, 4, 5, 6, 7, 8, 0x0A, 0x0B, 0x0C, 0x0D]);
}

#[test]
fn read_u64_response_bytes() {
    assert_eq!(
        ReceiveReadU64PacketResponse::serialize(0xFF),
        vec![0x02, 0, 0, 0, 0, 0, 0, 0, 0xFF]
    );
    assert_eq!(
        ReceiveReadU64PacketResponse::serialize(u64::MAX),
        vec![0x02, 255, 255, 255, 255, 255, 255, 255, 255]
    );
}

#[test]
fn read_i64_response_bytes() {
    assert_eq!(
        ReceiveReadI64PacketResponse::serialize(-128),
        vec![0x03, 0xFF, 0xFF, 0xFF, 0xFF, 0xFF, 0xFF, 0xFF, 0x80]
    );
    assert_eq!(
        ReceiveReadI64PacketResponse::serialize(i64::MIN),
        vec![0x03, 0x80, 0, 0, 0, 0, 0, 0, 0]
    );
    assert_eq!(
        ReceiveReadI64PacketResponse::serialize(i64::MAX),
        vec![0x03, 0x7F, 255, 255, 255, 255, 255, 255, 255]
    );
    for value in [i64::MIN, -1, 0, 1, i64::MAX, -128, 0x0123456789ABCDEF] {
        let data = ReceiveReadI64PacketResponse::serialize(value);
        assert_eq!(ReceiveReadI64PacketResponse::deserialize(&data).unwrap().value, value);
    }
}

#[test]
fn integer_requests_carry_one_byte_of_width() {
    assert_eq!(
        RequestReadU64MemoryPacket::serialize(1337, 4),
        vec![2, 0, 0, 0, 0, 0, 0, 5, 0x39, 4]
    );
    assert_eq!(
        RequestReadI64MemoryPacket::serialize(1337, 2),
        vec![3, 0, 0, 0, 0, 0, 0, 5, 0x39, 2]
    );
    assert_eq!(
        RequestReadVecF32MemoryPacket::serialize(1337, 255),
        vec![1, 0, 0, 0, 0, 0, 0, 5, 0x39, 255]
    );
}

#[test]
fn read_vec_response_bytes() {
    assert_eq!(
        ReceiveReadVecPacketResponse::serialize(vec![9, 8]),
        vec![0, 0, 0, 0, 2, 9, 8]
    );
    assert_eq!(ReceiveReadVecPacketResponse::serialize(vec![]), vec![0, 0, 0, 0, 0]);
    let back = ReceiveReadVecPacketResponse::deserialize(&[0, 0, 0, 0, 0]).unwrap();
    assert_eq!(back.count, 0);
    assert!(back.data.is_empty());
}

#[test]
fn read_vec_f32_response_bytes() {
    let data = ReceiveReadVecF32PacketResponse::serialize(vec![1.0f32.to_bits(), (-2.5f32).to_bits()]);
    assert_eq!(data, vec![1, 0, 0, 0, 2, 0x3F, 0x80, 0, 0, 0xC0, 0x20, 0, 0]);
    let back = ReceiveReadVecF32PacketResponse::deserialize(&data).unwrap();
    assert_eq!(f32::from_bits(back.data[0]), 1.0);
    assert_eq!(f32::from_bits(back.data[1]), -2.5);
    assert_eq!(
        ReceiveReadVecF32PacketResponse::deserialize(&data[..12]),
        Err(PacketError::Truncated)
    );
    assert_eq!(
        ReceiveReadVecF32PacketResponse::deserialize(&[1, 0xFF, 0xFF, 0xFF, 0xFF, 0, 0, 0, 0]),
        Err(PacketError::Truncated)
    );
}

#[test]
fn truncated_frames_are_rejected() {
    assert_eq!(RequestReadVecMemoryPacket::deserialize(&[]), Err(PacketError::Truncated));
    assert_eq!(RequestReadVecMemoryPacket::deserialize(&[0; 12]), Err(PacketError::Truncated));
    assert_eq!(RequestReadU64MemoryPacket::deserialize(&[2; 9]), Err(PacketError::Truncated));
    assert_eq!(RequestReadI64MemoryPacket::deserialize(&[3; 9]), Err(PacketError::Truncated));
    assert_eq!(RequestReadVecF32MemoryPacket::deserialize(&[1; 9]), Err(PacketError::Truncated));
    assert_eq!(ReceiveReadU64PacketResponse::deserialize(&[2; 8]), Err(PacketError::Truncated));
    assert_eq!(ReceiveReadI64PacketResponse::deserialize(&[3; 8]), Err(PacketError::Truncated));
    assert_eq!(ReceiveReadVecPacketResponse::deserialize(&[0, 0, 0, 0]), Err(PacketError::Truncated));
    assert_eq!(
        ReceiveReadVecPacketResponse::deserialize(&[0, 0, 0, 0, 3, 1, 2]),
        Err(PacketError::Truncated)
    );
}

#[test]
fn wrong_and_unknown_tags_are_told_apart() {
    let other = RequestReadU64MemoryPacket::serialize(1, 1);
    assert_eq!(RequestReadVecMemoryPacket::deserialize(&other), Err(PacketError::IncorrectPacketType));
    assert_eq!(RequestReadI64MemoryPacket::deserialize(&other), Err(PacketError::IncorrectPacketType));
    assert_eq!(RequestReadVecF32MemoryPacket::deserialize(&other), Err(PacketError::IncorrectPacketType));
    assert_eq!(ReceiveReadVecPacketResponse::deserialize(&other), Err(PacketError::IncorrectPacketType));
    assert_eq!(ReceiveReadI64PacketResponse::deserialize(&other), Err(PacketError::IncorrectPacketType));
    assert_eq!(ReceiveReadVecF32PacketResponse::deserialize(&other), Err(PacketError::IncorrectPacketType));
    let unknown = [8u8, 0, 0, 0, 0, 0, 0, 0, 0, 0, 0, 0, 0];
    assert_eq!(RequestReadVecMemoryPacket::deserialize(&unknown), Err(PacketError::InvalidPacketType));
    assert_eq!(RequestReadU64MemoryPacket::deserialize(&unknown), Err(PacketError::InvalidPacketType));
    assert_eq!(ReceiveReadU64PacketResponse::deserialize(&unknown), Err(PacketError::InvalidPacketType));
}

#[test]
fn an_error_frame_in_place_of_any_read_frame_gives_its_message() {
    let error = ErrorPacket::serialize("Error: PID not set!".to_string());
    let expected = PacketError::Remote("Error: PID not set!".to_string());
    assert_eq!(RequestReadVecMemoryPacket::deserialize(&error), Err(expected.clone()));
    assert_eq!(RequestReadU64MemoryPacket::deserialize(&error), Err(expected.clone()));
    assert_eq!(RequestReadI64MemoryPacket::deserialize(&error), Err(expected.clone()));
    assert_eq!(RequestReadVecF32MemoryPacket::deserialize(&error), Err(expected.clone()));
    assert_eq!(ReceiveReadVecPacketResponse::deserialize(&error), Err(expected.clone()));
    assert_eq!(ReceiveReadU64PacketResponse::deserialize(&error), Err(expected.clone()));
    assert_eq!(ReceiveReadI64PacketResponse::deserialize(&error), Err(expected.clone()));
    assert_eq!(ReceiveReadVecF32PacketResponse::deserialize(&error), Err(expected));
}

#[test]
fn a_broken_error_frame_is_a_protocol_error() {
    assert_eq!(ReceiveReadVecPacketResponse::deserialize(&[7, 0, 0]), Err(PacketError::Truncated));
    assert_eq!(
        ReceiveReadVecPacketResponse::deserialize(&[7, 0, 0, 0, 2, 0xC3, 0x28]),
        Err(PacketError::InvalidUtf8)
    );
}
