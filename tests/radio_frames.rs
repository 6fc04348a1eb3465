use chamber_firmware::frame::{
    decode, DecodedFrame, ExplicitAddressingCommandRequest, Frame, FrameData,
    LocalATCommandRequest, LocalATCommandResponse, LocalATCommandResponseStatus, ModemStatus,
    ModemStatusType, TransmitRequest,
};

fn with_checksum(mut bytes: Vec<u8>) -> Vec<u8> {
    let sum: u32 = bytes[3..].iter().map(|b| *b as u32).sum();
    bytes.push(0xFF - (sum % 256) as u8);
    bytes
}

fn modem_status(b: &[u8]) -> ModemStatusType {
    match decode(b) {
        Some(DecodedFrame::ModemStatus(f)) => f.data.status,
        _ => panic!("expected a modem status"),
    }
}

#[test]
fn modem_status_named_and_unnamed_codes() {
    assert_eq!(modem_status(&[0x7E, 0x00, 0x02, 0x8A, 0x02, 0x73]), ModemStatusType::JoinedNetwork);
    assert_eq!(
        modem_status(&with_checksum(vec![0x7E, 0x00, 0x02, 0x8A, 0x50])),
        ModemStatusType::StackError(0x50)
    );
    assert_eq!(ModemStatusType::from_code(0x00), ModemStatusType::PowerUp);
    assert_eq!(ModemStatusType::from_code(0x42), ModemStatusType::NetworkWatchdogTimerExpiredThrice);
    assert_eq!(ModemStatusType::BleConnect.code(), 0x32);
}

#[test]
fn at_command_request_bytes() {
    let f = Frame { id: Some(1), data: LocalATCommandRequest { command: [b'N', b'I'], value: vec![] } };
    assert_eq!(f.write().unwrap(), vec![0x7E, 0x00, 0x04, 0x08, 0x01, 0x4E, 0x49, 0x5F]);
    assert_eq!(LocalATCommandRequest::frame_type(), 0x08);
}

#[test]
fn transmit_request_round_trip() {
    let data = TransmitRequest {
        destination: 0x0013_A200_4012_3456,
        destination_small: 0xFFFE,
        broadcast_radius: Some(3),
        data: b"hello".to_vec(),
    };
    let bytes = Frame { id: Some(0x52), data }.write().unwrap();
    assert_eq!(bytes.len(), 4 + 1 + 1 + 12 + 5);
    assert_eq!(&bytes[..6], &[0x7E, 0x00, 0x13, 0x10, 0x52, 0x00]);
    match decode(&bytes) {
        Some(DecodedFrame::TransmitRequest(f)) => {
            assert_eq!(f.id, Some(0x52));
            assert_eq!(f.data.destination, 0x0013_A200_4012_3456);
            assert_eq!(f.data.destination_small, 0xFFFE);
            assert_eq!(f.data.broadcast_radius, Some(3));
            assert_eq!(f.data.data, b"hello".to_vec());
        }
        _ => panic!("expected a transmit request"),
    }
}

#[test]
fn transmit_request_without_radius() {
    let data = TransmitRequest {
        destination: 1,
        destination_small: 2,
        broadcast_radius: None,
        data: vec![],
    };
    let bytes = Frame { id: None, data }.write().unwrap();
    assert_eq!(
        bytes,
        with_checksum(vec![0x7E, 0x00, 0x0E, 0x10, 0x00, 0, 0, 0, 0, 0, 0, 0, 1, 0, 2, 0, 0])
    );
    let f = Frame::<TransmitRequest>::read(&bytes).unwrap();
    assert_eq!(f.data.broadcast_radius, None);
}

#[test]
fn at_command_response_decodes() {
    let bytes = with_checksum(vec![0x7E, 0x00, 0x07, 0x88, 0x01, b'N', b'I', 0x00, b'A', b'B']);
    match decode(&bytes) {
        Some(DecodedFrame::ATCommandResponse(f)) => {
            assert_eq!(f.id, Some(1));
            assert_eq!(f.data.command, [b'N', b'I']);
            assert_eq!(f.data.status, LocalATCommandResponseStatus::Success);
            assert_eq!(f.data.data, b"AB".to_vec());
        }
        _ => panic!("expected an AT command response"),
    }
    let bad_status = with_checksum(vec![0x7E, 0x00, 0x05, 0x88, 0x01, b'N', b'I', 0x04]);
    assert!(decode(&bad_status).is_none());
    assert_eq!(LocalATCommandResponseStatus::from_code(3), Some(LocalATCommandResponseStatus::InvalidParameter));
}

#[test]
fn at_command_response_encodes() {
    let data = LocalATCommandResponse {
        command: [b'N', b'J'],
        status: LocalATCommandResponseStatus::InvalidCommand,
        data: vec![9],
    };
    let bytes = Frame { id: Some(7), data }.write().unwrap();
    assert_eq!(bytes, with_checksum(vec![0x7E, 0x00, 0x06, 0x88, 0x07, b'N', b'J', 0x02, 9]));
}

#[test]
fn rejects_bad_framing() {
    let good = vec![0x7E, 0x00, 0x02, 0x8A, 0x02, 0x73];
    assert!(decode(&good).is_some());
    let mut bad_checksum = good.clone();
    bad_checksum[5] = 0x74;
    assert!(decode(&bad_checksum).is_none());
    let mut bad_delimiter = good.clone();
    bad_delimiter[0] = 0x7D;
    assert!(decode(&bad_delimiter).is_none());
    let mut bad_length = good.clone();
    bad_length[2] = 0x03;
    assert!(decode(&bad_length).is_none());
    assert!(decode(&good[..5]).is_none());
    assert!(decode(&[]).is_none());
    assert!(decode(&with_checksum(vec![0x7E, 0x00, 0x02, 0x42, 0x02])).is_none());
    assert!(decode(&with_checksum(vec![0x7E, 0x00, 0x01, 0x8A])).is_none());
    assert!(Frame::<TransmitRequest>::read(&good).is_none());
}

#[test]
fn transmit_request_too_short() {
    let bytes = with_checksum(vec![0x7E, 0x00, 0x05, 0x10, 0x01, 0, 0, 0]);
    assert!(decode(&bytes).is_none());
}

#[test]
fn explicit_addressing_round_trip() {
    let data = ExplicitAddressingCommandRequest {
        destination: 0xFFFF,
        destination_small: 0xFFFE,
        source_endpoint: 0xE8,
        dest_endpoint: 0xE6,
        cluster_id: 0x0011,
        profile_id: 0xC105,
        broadcast_radius: 0,
        data: vec![1, 2, 3],
    };
    let bytes = Frame { id: Some(1), data }.write().unwrap();
    assert_eq!(bytes[3], 0x11);
    match decode(&bytes) {
        Some(DecodedFrame::ExplicitAddressing(f)) => {
            assert_eq!(f.data.cluster_id, 0x0011);
            assert_eq!(f.data.profile_id, 0xC105);
            assert_eq!(f.data.source_endpoint, 0xE8);
            assert_eq!(f.data.dest_endpoint, 0xE6);
            assert_eq!(f.data.data, vec![1, 2, 3]);
        }
        _ => panic!("expected an explicit addressing request"),
    }
}

#[test]
fn modem_status_has_no_frame_id() {
    let bytes = Frame { id: Some(9), data: ModemStatus { status: ModemStatusType::PowerUp } }
        .write()
        .unwrap();
    assert_eq!(bytes, vec![0x7E, 0x00, 0x02, 0x8A, 0x00, 0x75]);
}

#[test]
fn oversized_body_is_refused() {
    let data = LocalATCommandRequest { command: [b'N', b'I'], value: vec![0; 0xFFFF - 4] };
    assert!(Frame { id: None, data }.write().is_some());
    let data = LocalATCommandRequest { command: [b'N', b'I'], value: vec![0; 0xFFFF - 3] };
    assert!(Frame { id: None, data }.write().is_none());
}
