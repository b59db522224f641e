use rdp::data::{ByteReader, Message, U32};
use rdp::error::RdpError;
use rdp::stream::MemoryStream;
use rdp::tpkt::{Payload, TpktClient};
use rdp::x224::{
    negotiation_outcome, MessageType, NegotiationOutcome, NegotiationType, Protocols,
    RdpNegRequest, X224Client, X224ConnectionPDU, X224Header, X224CRQ,
};

#[test]
fn test_x224_request() {
    let request = RdpNegRequest::new(
        Some(NegotiationType::TypeRDPNegReq),
        None,
        Some(Protocols::ProtocolSSL.to_u32()),
    );

    let mut buf: Vec<u8> = Vec::new();
    request.write_to(&mut buf).unwrap();

    assert_eq!(buf.as_slice(), [1, 0, 8, 0, 1, 0, 0, 0]);
}

#[test]
fn test_x224_crq_encoding() {
    let crq = X224CRQ::new(20, MessageType::X224TPDUData);
    let mut buf: Vec<u8> = Vec::new();
    crq.write_to(&mut buf).unwrap();
    assert_eq!(buf, vec![26, 240, 0, 0, 0, 0, 0]);
}

#[test]
fn test_x224_header_encoding() {
    let header = X224Header::new();
    let mut buf: Vec<u8> = Vec::new();
    header.write_to(&mut buf).unwrap();
    assert_eq!(buf, vec![2, 240, 128]);
}

#[test]
fn test_x224_header_declared_length_matches_encoding() {
    // The connection-data header occupies 3 bytes on the wire; its
    // declared length agrees, rather than the 4 some peers declare.
    let header = X224Header::new();
    let mut buf: Vec<u8> = Vec::new();
    header.write_to(&mut buf).unwrap();
    assert_eq!(header.length(), 3);
    assert_eq!(buf.len(), 3);
}

#[test]
fn test_x224_connection_pdu_encoding() {
    let negotiation = RdpNegRequest::new(Some(NegotiationType::TypeRDPNegReq), Some(0), Some(3));
    let header = X224CRQ::new(negotiation.length() as u8, MessageType::X224TPDUConnectionRequest);
    let pdu = X224ConnectionPDU { header, negotiation };

    let mut buf: Vec<u8> = Vec::new();
    pdu.write_to(&mut buf).unwrap();

    assert_eq!(buf, vec![14, 224, 0, 0, 0, 0, 0, 1, 0, 8, 0, 3, 0, 0, 0]);
}

#[test]
fn test_x224_connection_pdu_decoding() {
    let mut pdu = X224ConnectionPDU::new();
    let mut reader = ByteReader::new(vec![14, 0xD0, 0, 0, 0, 0, 0, 2, 0, 8, 0, 1, 0, 0, 0]);
    pdu.read_from_buffer(&mut reader).unwrap();

    assert_eq!(pdu.negotiation.tpe, 2);
    assert_eq!(pdu.negotiation.flags, 0);
    assert_eq!(pdu.negotiation.length.inner(), 8);
    assert_eq!(pdu.negotiation.protocols.inner(), 1);
}

#[test]
fn test_x224_connection_pdu_decoding_short_buffer_is_error() {
    let mut pdu = X224ConnectionPDU::new();
    let mut reader = ByteReader::new(vec![14, 0xD0, 0, 0]);
    assert!(pdu.read_from_buffer(&mut reader).is_err());
}

#[test]
fn test_negotiation_outcome_mapping() {
    assert_eq!(
        negotiation_outcome(2, 0),
        NegotiationOutcome::Selected(Protocols::ProtocolRDP)
    );
    assert_eq!(
        negotiation_outcome(2, 1),
        NegotiationOutcome::Selected(Protocols::ProtocolSSL)
    );
    assert_eq!(
        negotiation_outcome(2, 2),
        NegotiationOutcome::Selected(Protocols::ProtocolHybrid)
    );
    assert_eq!(
        negotiation_outcome(2, 8),
        NegotiationOutcome::Selected(Protocols::ProtocolHybridEx)
    );
    assert_eq!(negotiation_outcome(2, 5), NegotiationOutcome::Refused);
    assert_eq!(negotiation_outcome(3, 0), NegotiationOutcome::NegotiationFailure);
    assert_eq!(negotiation_outcome(1, 0), NegotiationOutcome::Refused);
    assert_eq!(negotiation_outcome(9, 0), NegotiationOutcome::Unrecognized);
}

fn connect_err(incoming: Vec<u8>, protocols: u32) -> RdpError {
    let client = TpktClient::new(MemoryStream::new(incoming));
    match X224Client::connect(client, protocols, false) {
        Ok(_) => panic!("connect unexpectedly succeeded"),
        Err(e) => e,
    }
}

fn confirm_frame(tpe: u8, bits: u8) -> Vec<u8> {
    vec![
        3, 0, 0, 19, // slow-path envelope, total length 19
        14, 0xD0, 0, 0, 0, 0, 0, // connection-request envelope
        tpe, 0, 8, 0, bits, 0, 0, 0, // negotiation block
    ]
}

#[test]
fn test_connect_establishes_plain_protocol() {
    let client = TpktClient::new(MemoryStream::new(confirm_frame(2, 0)));
    let connected = X224Client::connect(client, Protocols::ProtocolSSL.to_u32(), false).unwrap();

    assert_eq!(connected.get_selected_protocols(), Protocols::ProtocolRDP);

    let stream = connected.into_transport().into_transport();
    assert_eq!(
        stream.sent_bytes().as_slice(),
        [3, 0, 0, 19, 14, 224, 0, 0, 0, 0, 0, 1, 0, 8, 0, 1, 0, 0, 0]
    );
}

#[test]
fn test_connect_restricted_admin_mode_sets_flag_byte() {
    let client = TpktClient::new(MemoryStream::new(confirm_frame(2, 0)));
    let connected = X224Client::connect(client, 3, true).unwrap();

    let stream = connected.into_transport().into_transport();
    assert_eq!(
        stream.sent_bytes().as_slice(),
        [3, 0, 0, 19, 14, 224, 0, 0, 0, 0, 0, 1, 1, 8, 0, 3, 0, 0, 0]
    );
}

#[test]
fn test_connect_selected_upgrade_is_reported() {
    let err = connect_err(confirm_frame(2, 1), 1);
    assert_eq!(err, RdpError::UpgradeRequired(Protocols::ProtocolSSL));

    let err = connect_err(confirm_frame(2, 2), 3);
    assert_eq!(err, RdpError::UpgradeRequired(Protocols::ProtocolHybrid));
}

#[test]
fn test_connect_explicit_failure_is_negotiation_error() {
    assert_eq!(connect_err(confirm_frame(3, 0), 1), RdpError::NegotiationError);
}

#[test]
fn test_connect_echoed_request_is_protocol_refused() {
    assert_eq!(connect_err(confirm_frame(1, 0), 1), RdpError::ProtocolRefused);
}

#[test]
fn test_connect_unknown_bitmask_is_protocol_refused() {
    assert_eq!(connect_err(confirm_frame(2, 5), 1), RdpError::ProtocolRefused);
}

#[test]
fn test_connect_undecodable_confirm_is_decode_error() {
    // A raw frame too short to hold a connection PDU.
    assert_eq!(connect_err(vec![3, 0, 0, 6, 1, 2], 1), RdpError::DecodeError);

    // An unknown negotiation-message type inside a full PDU.
    assert_eq!(connect_err(confirm_frame(9, 0), 1), RdpError::DecodeError);

    // A fast-path frame where only a raw one is acceptable.
    assert_eq!(connect_err(vec![0x00, 0x02], 1), RdpError::DecodeError);
}

#[test]
fn test_x224_client_write_prepends_data_header() {
    let transport = TpktClient::new(MemoryStream::new(Vec::new()));
    let mut client = X224Client::new(transport, Protocols::ProtocolRDP);

    client.write(U32::BE(1)).unwrap();

    let stream = client.into_transport().into_transport();
    assert_eq!(
        stream.sent_bytes().as_slice(),
        [3, 0, 0, 11, 2, 240, 128, 0, 0, 0, 1]
    );
}

#[test]
fn test_x224_client_read_strips_leading_bytes() {
    let transport = TpktClient::new(MemoryStream::new(vec![3, 0, 0, 12, 2, 240, 128, 0, 9, 9, 9, 9]));
    let mut client = X224Client::new(transport, Protocols::ProtocolRDP);

    match client.read().unwrap() {
        Payload::Raw(data) => assert_eq!(data, vec![9, 9, 9, 9]),
        _ => panic!("expected a raw payload"),
    }
}

#[test]
fn test_x224_client_read_passes_fastpath_through() {
    let transport = TpktClient::new(MemoryStream::new(vec![0x00, 0x04, 0xAA, 0xBB]));
    let mut client = X224Client::new(transport, Protocols::ProtocolRDP);

    match client.read().unwrap() {
        Payload::FastPath(flags, data) => {
            assert_eq!(flags, 0);
            assert_eq!(data, vec![0xAA, 0xBB]);
        }
        _ => panic!("expected a fast-path payload"),
    }
}

#[test]
fn test_x224_client_read_short_raw_payload_is_size_violation() {
    let transport = TpktClient::new(MemoryStream::new(vec![3, 0, 0, 6, 2, 240]));
    let mut client = X224Client::new(transport, Protocols::ProtocolRDP);
    assert_eq!(client.read().unwrap_err(), RdpError::SizeViolation);
}
