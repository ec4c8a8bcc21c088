use remote_memory::memory::{widen, Memory, MemoryError, Transfer};

fn moved(n: isize, data: Vec<u8>) -> Transfer {
    Transfer { returned: n, errno: 0, description: String::new(), data }
}

fn failed(code: i32, text: &str) -> Transfer {
    Transfer { returned: -1, errno: code, description: text.to_string(), data: Vec::new() }
}

#[test]
fn a_new_adapter_holds_the_identifier() {
    assert_eq!(Memory::new(42).pid, 42);
    assert_eq!(Memory::new(-1).pid, -1);
}

#[test]
fn the_gate_is_closed_until_a_process_is_bound() {
    assert_eq!(Memory::new(-1).gate(), Err(MemoryError::PidNotSet));
    assert_eq!(Memory::new(0).gate(), Ok(()));
    assert_eq!(Memory::new(1234).gate(), Ok(()));
}

#[test]
fn the_width_gate_checks_the_binding_first() {
    let unbound = Memory::new(-1);
    assert_eq!(unbound.gate_width(3, false), Err(MemoryError::PidNotSet));
    assert_eq!(unbound.gate_width(9, true), Err(MemoryError::PidNotSet));
    assert_eq!(unbound.gate_width(8, false), Err(MemoryError::PidNotSet));
    let bound = Memory::new(7);
    for size in [1usize, 2, 4, 8] {
        assert_eq!(bound.gate_width(size, false), Ok(()));
        assert_eq!(bound.gate_width(size, true), Ok(()));
    }
    for size in [0usize, 3, 5, 6, 7] {
        assert_eq!(bound.gate_width(size, false), Err(MemoryError::UnsupportedWidth));
        assert_eq!(bound.gate_width(size, true), Err(MemoryError::UnsupportedWidth));
    }
    assert_eq!(bound.gate_width(9, false), Err(MemoryError::LargerThanU64));
    assert_eq!(bound.gate_width(9, true), Err(MemoryError::LargerThanI64));
    assert_eq!(bound.gate_width(usize::MAX, false), Err(MemoryError::LargerThanU64));
}

#[test]
fn widening_counts_from_the_least_significant_byte() {
    assert_eq!(widen(&[]), 0);
    assert_eq!(widen(&[0xFF]), 0xFF);
    assert_eq!(widen(&[0x01, 0x00, 0x00, 0x00]), 1);
    assert_eq!(widen(&[0x34, 0x12]), 0x1234);
    assert_eq!(widen(&[1, 2, 3, 4, 5, 6, 7, 8]), 0x0807060504030201);
    assert_eq!(widen(&[0xFF; 8]), u64::MAX);
}

#[test]
fn unsigned_reads() {
    let m = Memory::new(10);
    assert_eq!(m.read_u64(1, moved(1, vec![0xFF])), Ok(0xFF));
    assert_eq!(m.read_u64(4, moved(4, vec![1, 0, 0, 0])), Ok(1));
    assert_eq!(m.read_u64(8, moved(8, vec![0xFF; 8])), Ok(u64::MAX));
    assert_eq!(m.read_u64(2, moved(1, vec![1, 0])), Err(MemoryError::PartialRead));
    assert_eq!(m.read_u64(2, moved(2, vec![1])), Err(MemoryError::PartialRead));
    assert_eq!(m.read_u64(2, moved(-2, vec![1, 0])), Err(MemoryError::PartialRead));
    assert_eq!(
        m.read_u64(2, failed(3, "No such process")),
        Err(MemoryError::Os { code: 3, description: "No such process".to_string() })
    );
    assert_eq!(m.read_u64(3, moved(3, vec![1, 2, 3])), Err(MemoryError::UnsupportedWidth));
    assert_eq!(m.read_u64(0, moved(0, vec![])), Err(MemoryError::UnsupportedWidth));
    assert_eq!(m.read_u64(16, moved(16, vec![0; 16])), Err(MemoryError::LargerThanU64));
    assert_eq!(Memory::new(-1).read_u64(8, moved(8, vec![0; 8])), Err(MemoryError::PidNotSet));
}

#[test]
fn signed_reads_keep_the_bits() {
    let m = Memory::new(10);
    assert_eq!(m.read_i64(1, moved(1, vec![0x80])), Ok(128));
    assert_eq!(m.read_i64(1, moved(1, vec![0x80])).unwrap() as i8, -128);
    assert_eq!(m.read_i64(8, moved(8, vec![0x80, 0xFF, 0xFF, 0xFF, 0xFF, 0xFF, 0xFF, 0xFF])), Ok(-128));
    assert_eq!(m.read_i64(8, moved(8, vec![0, 0, 0, 0, 0, 0, 0, 0x80])), Ok(i64::MIN));
    assert_eq!(m.read_i64(4, moved(4, vec![0xFF; 4])), Ok(0xFFFF_FFFF));
    assert_eq!(m.read_i64(9, moved(9, vec![0; 9])), Err(MemoryError::LargerThanI64));
    assert_eq!(m.read_i64(5, moved(5, vec![0; 5])), Err(MemoryError::UnsupportedWidth));
    assert_eq!(Memory::new(-1).read_i64(1, moved(1, vec![0])), Err(MemoryError::PidNotSet));
    assert_eq!(m.read_i64(2, moved(0, vec![0, 0])), Err(MemoryError::PartialRead));
}

#[test]
fn byte_reads_return_exactly_what_was_asked_for() {
    let m = Memory::new(10);
    assert_eq!(m.read_vec(3, moved(3, vec![7, 8, 9])), Ok(vec![7, 8, 9]));
    assert_eq!(m.read_vec(0, moved(0, vec![])), Ok(vec![]));
    assert_eq!(m.read_vec(3, moved(2, vec![7, 8, 0])), Err(MemoryError::PartialRead));
    assert_eq!(m.read_vec(3, moved(3, vec![7, 8])), Err(MemoryError::PartialRead));
    assert_eq!(
        m.read_vec(3, failed(14, "Bad address")),
        Err(MemoryError::Os { code: 14, description: "Bad address".to_string() })
    );
    assert_eq!(Memory::new(-1).read_vec(3, moved(3, vec![7, 8, 9])), Err(MemoryError::PidNotSet));
}

#[test]
fn float_reads_give_bit_patterns() {
    let m = Memory::new(10);
    let mut data = Vec::new();
    data.extend_from_slice(&1.0f32.to_le_bytes());
    data.extend_from_slice(&(-2.5f32).to_le_bytes());
    let words = m.read_vec_f32(2, moved(8, data.clone())).unwrap();
    assert_eq!(words, vec![1.0f32.to_bits(), (-2.5f32).to_bits()]);
    assert_eq!(m.read_vec_f32(0, moved(0, vec![])), Ok(vec![]));
    assert_eq!(m.read_vec_f32(3, moved(8, data.clone())), Err(MemoryError::PartialRead));
    assert_eq!(Memory::new(-1).read_vec_f32(2, moved(8, data)), Err(MemoryError::PidNotSet));
}

#[test]
fn writes_move_everything_or_fail() {
    let m = Memory::new(10);
    assert_eq!(m.write(&[1, 2, 3], &moved(3, vec![])), Ok(3));
    assert_eq!(m.write(&[], &moved(0, vec![])), Ok(0));
    assert_eq!(m.write(&[1, 2, 3], &moved(2, vec![])), Err(MemoryError::PartialWrite));
    assert_eq!(m.write(&[1, 2, 3], &moved(4, vec![])), Err(MemoryError::PartialWrite));
    assert_eq!(
        m.write(&[1], &failed(1, "Operation not permitted")),
        Err(MemoryError::Os { code: 1, description: "Operation not permitted".to_string() })
    );
    assert_eq!(Memory::new(-1).write(&[1], &moved(1, vec![])), Err(MemoryError::PidNotSet));
}

#[test]
fn error_messages() {
    assert_eq!(MemoryError::PidNotSet.message(), "PID not set!");
    assert_eq!(MemoryError::LargerThanU64.message(), "Size is larger than u64!");
    assert_eq!(MemoryError::LargerThanI64.message(), "Size is larger than i64!");
    assert_eq!(MemoryError::UnsupportedWidth.message(), "Unsupported byte width");
    assert_eq!(MemoryError::PartialRead.message(), "Partial read occurred!");
    assert_eq!(MemoryError::PartialWrite.message(), "Partial write occurred!");
    assert_eq!(
        MemoryError::Os { code: 3, description: "No such process".to_string() }.message(),
        "Error 3: No such process"
    );
    assert_eq!(
        MemoryError::Os { code: -7, description: String::new() }.message(),
        "Error -7: "
    );
}
