use rdp::data::{ByteReader, Message, Value, U16, U32};

#[test]
fn test_data_u8_write() {
    let mut stream: Vec<u8> = Vec::new();
    let x = 1 as u8;
    x.write_to(&mut stream).unwrap();
    assert_eq!(stream.as_slice(), [1]);
}

#[test]
fn test_value_equality_ignores_tag() {
    assert!(U16::BE(4) == U16::LE(4));
    assert!(U16::LE(4) == U16::BE(4));
    assert!(U16::BE(4) != U16::BE(5));
    assert!(U32::BE(1234) == U32::LE(1234));
    assert!(U32::LE(7) != U32::BE(8));
}

#[test]
fn test_value_inner() {
    let x = U32::LE(4);
    assert_eq!(x.inner(), 4);
    let y = U16::BE(9);
    assert_eq!(y.inner(), 9);
}

#[test]
fn test_u16_encodings() {
    let mut be: Vec<u8> = Vec::new();
    U16::BE(0x1234).write_to(&mut be).unwrap();
    assert_eq!(be.as_slice(), [0x12, 0x34]);

    let mut le: Vec<u8> = Vec::new();
    U16::LE(0x1234).write_to(&mut le).unwrap();
    assert_eq!(le.as_slice(), [0x34, 0x12]);
}

#[test]
fn test_u32_encodings() {
    let mut be: Vec<u8> = Vec::new();
    U32::BE(0x01020304).write_to(&mut be).unwrap();
    assert_eq!(be.as_slice(), [1, 2, 3, 4]);

    let mut le: Vec<u8> = Vec::new();
    U32::LE(0x01020304).write_to(&mut le).unwrap();
    assert_eq!(le.as_slice(), [4, 3, 2, 1]);
}

#[test]
fn test_u16_round_trip_under_own_tag() {
    let mut encoded: Vec<u8> = Vec::new();
    U16::BE(0xBEEF).write_to(&mut encoded).unwrap();
    let mut reader = ByteReader::new(encoded);
    let mut decoded = U16::BE(0);
    decoded.read_from(&mut reader).unwrap();
    assert_eq!(decoded.inner(), 0xBEEF);

    let mut encoded: Vec<u8> = Vec::new();
    U16::LE(0xBEEF).write_to(&mut encoded).unwrap();
    let mut reader = ByteReader::new(encoded);
    let mut decoded = U16::LE(0);
    decoded.read_from(&mut reader).unwrap();
    assert_eq!(decoded.inner(), 0xBEEF);
}

#[test]
fn test_u32_round_trip_under_own_tag() {
    let mut encoded: Vec<u8> = Vec::new();
    U32::BE(0xDEADBEEF).write_to(&mut encoded).unwrap();
    let mut reader = ByteReader::new(encoded);
    let mut decoded = U32::BE(0);
    decoded.read_from(&mut reader).unwrap();
    assert_eq!(decoded.inner(), 0xDEADBEEF);

    let mut encoded: Vec<u8> = Vec::new();
    U32::LE(0xDEADBEEF).write_to(&mut encoded).unwrap();
    let mut reader = ByteReader::new(encoded);
    let mut decoded = U32::LE(0);
    decoded.read_from(&mut reader).unwrap();
    assert_eq!(decoded.inner(), 0xDEADBEEF);
}

#[test]
fn test_length_matches_written_bytes() {
    let values: Vec<(usize, Vec<u8>)> = vec![
        {
            let v = U16::BE(77);
            let mut out: Vec<u8> = Vec::new();
            v.write_to(&mut out).unwrap();
            (v.length(), out)
        },
        {
            let v = U32::LE(123456);
            let mut out: Vec<u8> = Vec::new();
            v.write_to(&mut out).unwrap();
            (v.length(), out)
        },
        {
            let v: Vec<u8> = vec![9, 8, 7];
            let mut out: Vec<u8> = Vec::new();
            v.write_to(&mut out).unwrap();
            (v.length(), out)
        },
    ];
    for (declared, written) in values {
        assert_eq!(declared, written.len());
    }
}

#[test]
fn test_vec_read_fills_presized_buffer_exactly() {
    let mut reader = ByteReader::new(vec![5, 6, 7, 8, 9]);
    let mut buffer: Vec<u8> = vec![0, 0, 0];
    buffer.read_from(&mut reader).unwrap();
    assert_eq!(buffer, vec![5, 6, 7]);
    assert_eq!(reader.remaining_len(), 2);
}

#[test]
fn test_vec_read_short_buffer_is_error() {
    let mut reader = ByteReader::new(vec![5, 6]);
    let mut buffer: Vec<u8> = vec![0, 0, 0];
    assert!(buffer.read_from(&mut reader).is_err());
}
