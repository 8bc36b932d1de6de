use glimanexus::varint::{varint_too_long_error, write_varint, VarIntReader, VarIntStep};

fn encode(v: i32) -> Vec<u8> {
    let mut buf = Vec::new();
    write_varint(&mut buf, v);
    buf
}

fn decode(bytes: &[u8]) -> Option<i32> {
    let mut reader = VarIntReader::new();
    for (i, b) in bytes.iter().enumerate() {
        match reader.push(*b) {
            VarIntStep::Done(v) => {
                assert_eq!(i, bytes.len() - 1, "finished before the last byte");
                return Some(v);
            }
            VarIntStep::NeedMore => {}
            VarIntStep::TooLong => return None,
        }
    }
    None
}

#[test]
fn varint_small_values_take_one_byte() {
    assert_eq!(encode(0), vec![0x00]);
    assert_eq!(encode(1), vec![0x01]);
    assert_eq!(encode(127), vec![0x7f]);
}

#[test]
fn varint_multi_byte_values() {
    assert_eq!(encode(128), vec![0x80, 0x01]);
    assert_eq!(encode(255), vec![0xff, 0x01]);
    assert_eq!(encode(25565), vec![0xdd, 0xc7, 0x01]);
    assert_eq!(encode(2097151), vec![0xff, 0xff, 0x7f]);
    assert_eq!(encode(i32::MAX), vec![0xff, 0xff, 0xff, 0xff, 0x07]);
}

#[test]
fn varint_negative_values_use_five_bytes() {
    assert_eq!(encode(-1), vec![0xff, 0xff, 0xff, 0xff, 0x0f]);
    assert_eq!(encode(i32::MIN), vec![0x80, 0x80, 0x80, 0x80, 0x08]);
}

#[test]
fn varint_appends_after_existing_bytes() {
    let mut buf = vec![0xaa];
    write_varint(&mut buf, 300);
    assert_eq!(buf, vec![0xaa, 0xac, 0x02]);
}

#[test]
fn varint_roundtrip_law() {
    for v in [0, 1, 2, 127, 128, 300, 25565, 65535, 2097151, 2097152, i32::MAX, -1, -2, -300, i32::MIN] {
        let bytes = encode(v);
        assert!(bytes.len() >= 1 && bytes.len() <= 5);
        assert_eq!(decode(&bytes), Some(v));
    }
}

#[test]
fn varint_reader_reports_need_more_until_last_byte() {
    let mut reader = VarIntReader::new();
    assert_eq!(reader.push(0xdd), VarIntStep::NeedMore);
    assert_eq!(reader.push(0xc7), VarIntStep::NeedMore);
    assert_eq!(reader.push(0x01), VarIntStep::Done(25565));
}

#[test]
fn varint_reader_stops_taking_bytes_after_five_continuations() {
    let mut reader = VarIntReader::new();
    for _ in 0..5 {
        assert_eq!(reader.push(0x80), VarIntStep::NeedMore);
    }
    assert_eq!(reader.push(0x01), VarIntStep::TooLong);
    assert_eq!(reader.push(0x80), VarIntStep::TooLong);
}

#[test]
fn varint_fifth_byte_high_bits_are_dropped() {
    // Bits shifted past bit 31 are lost, as with the 32-bit accumulation.
    assert_eq!(decode(&[0xff, 0xff, 0xff, 0xff, 0x7f]), Some(-1));
}

#[test]
fn varint_sixth_byte_is_refused() {
    let bytes = [0x80u8, 0x80, 0x80, 0x80, 0x80, 0x01];
    assert_eq!(decode(&bytes), None);
    assert_eq!(varint_too_long_error(), "VarInt zu groß");
}

#[test]
fn varint_encoding_is_canonical() {
    for v in [0i32, 1, 127, 128, 300, 25565, i32::MAX, -1, i32::MIN] {
        let bytes = encode(v);
        assert!(bytes.len() == 1 || *bytes.last().unwrap() != 0);
        let mut value: u64 = 0;
        for (i, b) in bytes.iter().enumerate() {
            value += ((b & 0x7f) as u64) << (7 * i);
        }
        assert_eq!(value, v as u32 as u64);
    }
}
