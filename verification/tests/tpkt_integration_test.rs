use rdp::data::{ByteReader, Message, U32};
use rdp::error::RdpError;
use rdp::stream::MemoryStream;
use rdp::tpkt::{Action, Payload, TpktClient, TpktHeader};

#[test]
fn test_tpkt_header_round_trip() {
    let header = TpktHeader { action: 3, flag: 0, size: 8 };
    let mut buf: Vec<u8> = Vec::new();
    header.write_to(&mut buf).unwrap();
    assert_eq!(buf, vec![3, 0, 0, 8]);

    let mut decoded = TpktHeader { action: 0, flag: 0, size: 0 };
    let mut reader = ByteReader::new(buf);
    decoded.read_from(&mut reader).unwrap();
    assert_eq!(decoded.action, 3);
    assert_eq!(decoded.flag, 0);
    assert_eq!(decoded.size, 8);
}

#[test]
fn test_action_try_from_u8() {
    assert_eq!(Action::try_from_u8(0), Some(Action::FastPathActionFastPath));
    assert_eq!(Action::try_from_u8(3), Some(Action::FastPathActionX224));
    assert_eq!(Action::try_from_u8(1), None);
    assert_eq!(Action::try_from_u8(0xC0), None);
}

#[test]
fn test_tpkt_client_write() {
    let mut client = TpktClient::new(MemoryStream::new(Vec::new()));

    let x = U32::BE(1);
    client.write(x).unwrap();

    let stream = client.into_transport();
    assert_eq!(stream.sent_bytes().as_slice(), [3, 0, 0, 8, 0, 0, 0, 1]);
}

#[test]
fn test_tpkt_client_read() {
    let mut client = TpktClient::new(MemoryStream::new(vec![3, 0, 0, 8, 0, 0, 0, 1]));

    let payload = client.read().unwrap();

    match payload {
        Payload::Raw(data) => {
            assert_eq!(data, vec![0, 0, 0, 1])
        }
        _ => assert!(false),
    }
}

#[test]
fn test_fastpath_short_length() {
    let mut incoming = vec![0x00, 0x7F];
    incoming.resize(2 + 125, 0xAB);
    let mut client = TpktClient::new(MemoryStream::new(incoming));

    match client.read().unwrap() {
        Payload::FastPath(flags, data) => {
            assert_eq!(flags, 0);
            assert_eq!(data.len(), 125);
            assert_eq!(data, vec![0xAB; 125]);
        }
        _ => panic!("expected a fast-path payload"),
    }
}

#[test]
fn test_fastpath_short_length_below_header_is_size_violation() {
    let mut client = TpktClient::new(MemoryStream::new(vec![0x00, 0x01]));
    assert_eq!(client.read().unwrap_err(), RdpError::SizeViolation);

    let mut client = TpktClient::new(MemoryStream::new(vec![0x00, 0x00]));
    assert_eq!(client.read().unwrap_err(), RdpError::SizeViolation);
}

#[test]
fn test_fastpath_long_length() {
    let mut client = TpktClient::new(MemoryStream::new(vec![0x00, 0x80, 0x05, 0xCD, 0xEF]));

    match client.read().unwrap() {
        Payload::FastPath(flags, data) => {
            assert_eq!(flags, 0);
            assert_eq!(data, vec![0xCD, 0xEF]);
        }
        _ => panic!("expected a fast-path payload"),
    }
}

#[test]
fn test_fastpath_long_length_below_header_is_size_violation() {
    let mut client = TpktClient::new(MemoryStream::new(vec![0x00, 0x80, 0x02]));
    assert_eq!(client.read().unwrap_err(), RdpError::SizeViolation);
}

#[test]
fn test_slowpath_length_below_header_is_size_violation() {
    let mut client = TpktClient::new(MemoryStream::new(vec![3, 0, 0, 3]));
    assert_eq!(client.read().unwrap_err(), RdpError::SizeViolation);
}

#[test]
fn test_unrecognized_action_byte_is_malformed_frame() {
    let mut client = TpktClient::new(MemoryStream::new(vec![7, 0, 0, 8]));
    assert_eq!(client.read().unwrap_err(), RdpError::MalformedFrame);
}

#[test]
fn test_truncated_stream_is_io_error() {
    let mut client = TpktClient::new(MemoryStream::new(vec![3, 0]));
    assert_eq!(client.read().unwrap_err(), RdpError::Io);

    let mut client = TpktClient::new(MemoryStream::new(vec![3, 0, 0, 8, 0]));
    assert_eq!(client.read().unwrap_err(), RdpError::Io);
}

#[test]
fn test_empty_frame_payloads() {
    // A slow-path frame may carry nothing beyond its envelope, and a
    // fast-path frame nothing beyond its length byte.
    let mut client = TpktClient::new(MemoryStream::new(vec![3, 0, 0, 4]));
    match client.read().unwrap() {
        Payload::Raw(data) => assert_eq!(data, Vec::<u8>::new()),
        _ => panic!("expected a raw payload"),
    }

    let mut client = TpktClient::new(MemoryStream::new(vec![0x00, 0x02]));
    match client.read().unwrap() {
        Payload::FastPath(flags, data) => {
            assert_eq!(flags, 0);
            assert_eq!(data, Vec::<u8>::new());
        }
        _ => panic!("expected a fast-path payload"),
    }
}
