use intercom::device::nfc::{
    read_ack, receive_from_nfcdev, send_command_to_nfcdev, sync_packets, Ack, NFCdev, NFCids,
    NfcError, Progress,
};
use intercom::request::{Get, Put};
use intercom::requests_and_responses::Requests;
use intercom::device::door::DoorState;

fn chunk(start: &[u8]) -> Vec<u8> {
    let mut bytes = start.to_vec();
    bytes.resize(128, 0xAA);
    bytes
}

/// The chunk in which the reader announces a type A card with this UID.
fn card(uid: &[u8]) -> Vec<u8> {
    let mut payload = vec![0x4B, 0x01, 0x01, 0x00, 0x04, 0x08, uid.len() as u8];
    payload.extend_from_slice(uid);
    let len = payload.len() as u8 + 1;
    let mut bytes = vec![0x01, 0x00, 0x00, 0xFF, len, 0u8.wrapping_sub(len), 0xD5];
    bytes.extend_from_slice(&payload);
    chunk(&bytes)
}

#[test]
fn sam_configuration_frame() {
    let frame = NFCdev::init_nfc();
    assert_eq!(frame, vec![0x00, 0x00, 0xFF, 0x03, 0xFD, 0xD4, 0x14, 0x01, 0x17, 0x00]);
    assert_eq!((frame[3] as u32 + frame[4] as u32) % 256, 0);
    assert_eq!((0xD4 + 0x14 + 0x01 + frame[8] as u32) % 256, 0);
}

#[test]
fn poll_frame() {
    assert_eq!(
        NFCdev::poll_command(),
        vec![0x00, 0x00, 0xFF, 0x04, 0xFC, 0xD4, 0x4A, 0x01, 0x00, 0xE1, 0x00]
    );
}

#[test]
fn frame_checksums_hold_for_every_length() {
    for len in 0..=254usize {
        let data: Vec<u8> = (0..len).map(|i| (i * 37 + len) as u8).collect();
        let frame = send_command_to_nfcdev(&data).unwrap();
        assert_eq!(frame.len(), len + 8);
        assert_eq!(&frame[..3], &[0x00, 0x00, 0xFF]);
        assert_eq!(frame[3] as usize, len + 1);
        assert_eq!(frame[3].wrapping_add(frame[4]), 0);
        assert_eq!(frame[5], 0xD4);
        assert_eq!(&frame[6..6 + len], &data[..]);
        let sum = frame[5..7 + len].iter().fold(0u8, |sum, byte| sum.wrapping_add(*byte));
        assert_eq!(sum, 0);
        assert_eq!(frame[7 + len], 0x00);
    }
}

#[test]
fn data_checksum_of_a_sum_that_is_a_multiple_of_256() {
    let frame = send_command_to_nfcdev(&[0x2C]).unwrap();
    assert_eq!(frame, vec![0x00, 0x00, 0xFF, 0x02, 0xFE, 0xD4, 0x2C, 0x00, 0x00]);
}

#[test]
fn a_command_too_long_for_a_frame_is_refused() {
    assert_eq!(send_command_to_nfcdev(&[0u8; 255]), Err(NfcError::TooLong));
    assert_eq!(send_command_to_nfcdev(&[0u8; 1000]), Err(NfcError::TooLong));
}

#[test]
fn acknowledgements() {
    assert_eq!(read_ack(&chunk(&[0x01, 0x00, 0x00, 0xFF, 0x00, 0xFF, 0x00])), Ack::Ack);
    assert_eq!(read_ack(&chunk(&[0x01, 0x00, 0x00, 0xFF, 0xFF, 0x00, 0x00])), Ack::Nack);
    assert_eq!(read_ack(&chunk(&[0x01, 0x00, 0x00, 0xFF, 0x01, 0xFF, 0x7F])), Ack::AppError);
    assert_eq!(read_ack(&chunk(&[0x00, 0x00, 0xFF, 0x00, 0xFF, 0x00])), Ack::Ack);
    assert_eq!(read_ack(&chunk(&[0x00, 0x00, 0x00, 0xFF, 0x00])), Ack::BadStart);
    assert_eq!(read_ack(&chunk(&[0x01, 0x00, 0x00, 0x01])), Ack::BadStart);
    assert_eq!(read_ack(&chunk(&[0x00, 0x07, 0x00, 0x00, 0xFF, 0x00])), Ack::Ack);
    assert_eq!(read_ack(&chunk(&[0x00, 0x00, 0xFF, 0x55, 0x66, 0xFF])), Ack::Nack);
    assert_eq!(read_ack(&chunk(&[0x00, 0xFF, 0x00, 0xFF, 0x00])), Ack::Ack);
    assert_eq!(read_ack(&chunk(&[0x01, 0x00, 0xFF, 0xFF, 0x00, 0x00])), Ack::Nack);
    assert_eq!(read_ack(&chunk(&[0x01, 0x00, 0xFF, 0x01])), Ack::AppError);
    assert_eq!(read_ack(&chunk(&[0xFF, 0x00, 0x55, 0x00, 0xFF, 0x00])), Ack::Ack);
    assert_eq!(read_ack(&chunk(&[0xFF, 0xFF, 0x01])), Ack::Pending);
    assert_eq!(read_ack(&[0xAA; 128]), Ack::Pending);
    assert_eq!(read_ack(&[]), Ack::Pending);
    assert_eq!(read_ack(&[0x00, 0x00, 0xFF]), Ack::Pending);
}

#[test]
fn sync_gives_up_after_five_reads() {
    let nothing = [0xAAu8; 128];
    for attempt in 0..4 {
        assert_eq!(sync_packets(&nothing, attempt), Progress::Again);
    }
    assert_eq!(sync_packets(&nothing, 4), Progress::Done(Err(NfcError::Timeout)));
    assert_eq!(sync_packets(&nothing, 1000), Progress::Done(Err(NfcError::Timeout)));
    let ack = chunk(&[0x01, 0x00, 0x00, 0xFF, 0x00, 0xFF, 0x00]);
    assert_eq!(sync_packets(&ack, 0), Progress::Done(Ok(())));
    assert_eq!(sync_packets(&ack, 4), Progress::Done(Ok(())));
    let mut single = vec![0x00, 0xFF, 0x00, 0xFF, 0x00];
    single.resize(128, 0x00);
    assert_eq!(sync_packets(&single, 0), Progress::Done(Ok(())));
    single[2] = 0xFF;
    assert_eq!(sync_packets(&single, 0), Progress::Done(Err(NfcError::Nack)));
    single[2] = 0x01;
    assert_eq!(sync_packets(&single, 0), Progress::Done(Err(NfcError::App)));
    let nack = chunk(&[0x01, 0x00, 0x00, 0xFF, 0xFF, 0x00, 0x00]);
    assert_eq!(sync_packets(&nack, 0), Progress::Done(Err(NfcError::Nack)));
    let app = chunk(&[0x01, 0x00, 0x00, 0xFF, 0x01]);
    assert_eq!(sync_packets(&app, 2), Progress::Done(Err(NfcError::App)));
    let bad = chunk(&[0x00, 0x00, 0x00]);
    assert_eq!(sync_packets(&bad, 2), Progress::Done(Err(NfcError::AckStart)));
}

#[test]
fn responses() {
    let uid = [0xDE, 0xAD, 0xBE, 0xEF];
    let expected = vec![0x4B, 0x01, 0x01, 0x00, 0x04, 0x08, 0x04, 0xDE, 0xAD, 0xBE, 0xEF];
    assert_eq!(receive_from_nfcdev(&card(&uid), 0), Progress::Done(Ok(expected)));
    let error = chunk(&[0x01, 0x00, 0x00, 0xFF, 0x01, 0xFF, 0x7F, 0x81, 0x00]);
    assert_eq!(receive_from_nfcdev(&error, 0), Progress::Done(Err(NfcError::App)));
    let bad = chunk(&[0x00, 0x00, 0x00, 0xFF]);
    assert_eq!(receive_from_nfcdev(&bad, 0), Progress::Done(Err(NfcError::ResponseStart)));
    let ack = chunk(&[0x01, 0x00, 0x00, 0xFF, 0x00, 0xFF, 0x00]);
    assert_eq!(receive_from_nfcdev(&ack, 0), Progress::Done(Err(NfcError::Malformed)));
    let two = chunk(&[0x01, 0x00, 0x00, 0xFF, 0x02, 0xFE, 0xD5, 0x15, 0x16]);
    assert_eq!(receive_from_nfcdev(&two, 0), Progress::Done(Ok(vec![0x15])));
}

#[test]
fn a_response_that_reaches_past_its_chunk_is_malformed() {
    let mut bytes = vec![0xAAu8; 128];
    bytes[120..125].copy_from_slice(&[0x00, 0x00, 0xFF, 0x04, 0xFC]);
    assert_eq!(receive_from_nfcdev(&bytes, 0), Progress::Done(Err(NfcError::Malformed)));
    bytes[123] = 0x03;
    assert_eq!(
        receive_from_nfcdev(&bytes, 0),
        Progress::Done(Ok(vec![0xAA, 0xAA]))
    );
    let short = [0x00, 0x00, 0xFF, 0x02];
    assert_eq!(receive_from_nfcdev(&short, 0), Progress::Done(Err(NfcError::Malformed)));
}

#[test]
fn receive_gives_up_after_ten_reads() {
    let nothing = [0xAAu8; 128];
    for attempt in 0..9 {
        assert_eq!(receive_from_nfcdev(&nothing, attempt), Progress::Again);
    }
    assert_eq!(receive_from_nfcdev(&nothing, 9), Progress::Done(Err(NfcError::Timeout)));
}

#[test]
fn uid_is_read_at_offset_six() {
    let reply = [0x4B, 0x01, 0x01, 0x00, 0x04, 0x08, 0x04, 0xDE, 0xAD, 0xBE, 0xEF];
    assert_eq!(NFCdev::get_uid(&reply), vec![vec![0xDE, 0xAD, 0xBE, 0xEF]]);
    let seven = [0x4B, 0x01, 0x01, 0x00, 0x44, 0x00, 0x07, 1, 2, 3, 4, 5, 6, 7, 0x99];
    assert_eq!(NFCdev::get_uid(&seven), vec![vec![1, 2, 3, 4, 5, 6, 7]]);
    let none = [0x4B, 0x01, 0x01, 0x00, 0x04, 0x08, 0x00];
    assert_eq!(NFCdev::get_uid(&none), vec![Vec::<u8>::new()]);
}

#[test]
fn a_short_reply_announces_no_card() {
    assert_eq!(NFCdev::get_uid(&[]), Vec::<Vec<u8>>::new());
    assert_eq!(NFCdev::get_uid(&[0x4B, 0x00]), Vec::<Vec<u8>>::new());
    assert_eq!(NFCdev::get_uid(&[0x4B, 0x01, 0x01, 0x00, 0x04, 0x08]), Vec::<Vec<u8>>::new());
    let cut = [0x4B, 0x01, 0x01, 0x00, 0x04, 0x08, 0x04, 0xDE, 0xAD, 0xBE];
    assert_eq!(NFCdev::get_uid(&cut), Vec::<Vec<u8>>::new());
}

#[test]
fn an_enrolled_card_unlocks_the_door() {
    let uid = vec![0xDE, 0xAD, 0xBE, 0xEF];
    let mut nfc = NFCdev::new();
    let read = match receive_from_nfcdev(&card(&uid), 0) {
        Progress::Done(Ok(reply)) => NFCdev::get_uid(&reply),
        _ => panic!("no response"),
    };
    assert!(nfc.step(&read).is_none());
    assert!(nfc.present(&read));
    assert!(nfc.set(&NFCids("".to_string())).is_ok());
    assert!(nfc.is_enrolled(&uid));
    match nfc.step(&read) {
        Some(request) => match request.0 {
            Requests::DoorSetState(set) => assert_eq!(set.1, DoorState::Unlock),
            _ => panic!("not a request to set the door"),
        },
        None => panic!("no unlock"),
    }
    assert!(nfc.step(&vec![vec![0xDE, 0xAD, 0xBE]]).is_none());
    assert!(nfc.step(&vec![]).is_none());
    assert!(!nfc.should_unlock(&vec![vec![1], uid.clone()]));
}

#[test]
fn enrollment_needs_a_card() {
    let mut nfc = NFCdev::new();
    assert!(!nfc.present(&vec![]));
    assert_eq!(nfc.set(&NFCids("".to_string())).unwrap_err().0, "No card presented");
    assert!(nfc.present(&vec![vec![1, 2, 3, 4]]));
    assert!(nfc.set(&NFCids("".to_string())).is_ok());
    assert_eq!(nfc.set(&NFCids("".to_string())).unwrap_err().0, "No card presented");
    assert_eq!(nfc.get().unwrap().0, "ids = [[1, 2, 3, 4]]");
}

#[test]
fn enrolled_cards_are_rendered_in_hexadecimal() {
    let mut nfc = NFCdev::new();
    assert_eq!(nfc.get().unwrap().0, "ids = []");
    let mut ids: Vec<Vec<u8>> = Vec::new();
    for uid in [vec![0xDE, 0xAD, 0xBE, 0xEF], vec![], vec![0, 1, 9, 10, 15, 16, 255], vec![0x7F]] {
        nfc.push(uid.clone());
        ids.push(uid);
        assert_eq!(nfc.get().unwrap().0, format!("ids = {:x?}", ids));
    }
    assert_eq!(nfc.render(), "ids = [[de, ad, be, ef], [], [0, 1, 9, a, f, 10, ff], [7f]]");
}

#[test]
fn every_byte_is_rendered_as_the_standard_library_does() {
    for byte in 0..=255u8 {
        let mut nfc = NFCdev::new();
        nfc.push(vec![byte]);
        assert_eq!(nfc.render(), format!("ids = {:x?}", vec![vec![byte]]));
    }
}
