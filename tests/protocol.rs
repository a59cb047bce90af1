use hslink::{
    decode_response, encode_frame, find_bl, find_cherrydap_drive, find_device,
    hslink_list_device, response_payload, split_nul_list, strip_frame, trim_label, write_outcome,
    DeviceRecord, HSLinkError, Session, Volume, FRAME_LEN, HSLINK_PID, HSLINK_VID, IN_REPORT_ID,
    MAX_PAYLOAD, OUT_REPORT_ID,
};

fn probe(serial: Option<&str>) -> DeviceRecord {
    DeviceRecord {
        vendor_id: HSLINK_VID,
        product_id: HSLINK_PID,
        serial_number: serial.map(|s| s.to_string()),
    }
}

fn other_device(serial: &str) -> DeviceRecord {
    DeviceRecord {
        vendor_id: 0x046D,
        product_id: HSLINK_PID,
        serial_number: Some(serial.to_string()),
    }
}

fn response_frame(payload: &[u8]) -> Vec<u8> {
    let mut buf = vec![0u8; FRAME_LEN];
    buf[0] = IN_REPORT_ID;
    buf[1..1 + payload.len()].copy_from_slice(payload);
    buf
}

fn opened_session(serial: &str, handle: u32) -> Session<u32> {
    let mut session: Session<u32> = Session::new();
    let requested = serial.to_string();
    let r = session.commit_open(&requested, &Some(serial.to_string()), Some(handle));
    assert_eq!(r, Ok(serial.to_string()));
    session
}

#[test]
fn encode_frame_layout() {
    let frame = encode_frame(&b"PING".to_vec()).unwrap();
    assert_eq!(frame.len(), 1024);
    assert_eq!(frame[0], 0x01);
    assert_eq!(&frame[1..5], b"PING");
    assert!(frame[5..].iter().all(|&b| b == 0));
}

#[test]
fn encode_frame_round_trip() {
    for payload in [Vec::new(), b"PING".to_vec(), vec![0x00, 0x07], vec![0xAB; MAX_PAYLOAD]] {
        let frame = encode_frame(&payload).unwrap();
        assert_eq!(frame.len(), FRAME_LEN);
        assert_eq!(frame[0], OUT_REPORT_ID);
        assert_eq!(strip_frame(&frame), payload);
    }
}

#[test]
fn encode_frame_largest_payload() {
    let frame = encode_frame(&vec![0x55; 1023]).unwrap();
    assert_eq!(frame.len(), 1024);
    assert!(frame[1..].iter().all(|&b| b == 0x55));
}

#[test]
fn encode_frame_rejects_oversized_payload() {
    assert_eq!(encode_frame(&vec![1u8; 1024]), Err(HSLinkError::PayloadTooLong));
    assert_eq!(encode_frame(&vec![1u8; 4000]), Err(HSLinkError::PayloadTooLong));
}

#[test]
fn strip_frame_drops_trailing_zeros() {
    assert_eq!(strip_frame(&vec![1, 7, 0, 9, 0, 0]), vec![7, 0, 9]);
    assert_eq!(strip_frame(&vec![1]), Vec::<u8>::new());
    assert_eq!(strip_frame(&Vec::new()), Vec::<u8>::new());
}

#[test]
fn list_one_matching_device() {
    let devices = vec![probe(Some("ABC123"))];
    assert_eq!(hslink_list_device(&devices), vec!["ABC123".to_string()]);
}

#[test]
fn list_skips_other_devices_and_missing_serials() {
    let devices = vec![
        other_device("X1"),
        probe(None),
        probe(Some("A")),
        DeviceRecord { vendor_id: HSLINK_VID, product_id: 0x0001, serial_number: Some("Y".to_string()) },
        probe(Some("B")),
    ];
    assert_eq!(hslink_list_device(&devices), vec!["A".to_string(), "B".to_string()]);
}

#[test]
fn list_without_devices_is_empty() {
    assert!(hslink_list_device(&Vec::new()).is_empty());
    assert!(hslink_list_device(&vec![other_device("ABC123")]).is_empty());
}

#[test]
fn open_matching_device() {
    let devices = vec![other_device("ABC123"), probe(Some("ABC123"))];
    let serial = "ABC123".to_string();
    let index = find_device(&devices, &serial).unwrap();
    assert_eq!(index, 1);
    let mut session: Session<u32> = Session::new();
    assert!(!session.is_open());
    let r = session.commit_open(&serial, &devices[index].serial_number, Some(7));
    assert_eq!(r, Ok("ABC123".to_string()));
    assert!(session.is_open());
    assert_eq!(session.serial_number(), Some("ABC123".to_string()));
    assert_eq!(session.device(), Ok(&7));
}

#[test]
fn open_unknown_serial_is_not_found() {
    let devices = vec![probe(Some("ABC123")), probe(None), other_device("ZZZ")];
    assert_eq!(find_device(&devices, &"ZZZ".to_string()), Err(HSLinkError::DeviceNotFound));
    assert_eq!(find_device(&Vec::new(), &"ZZZ".to_string()), Err(HSLinkError::DeviceNotFound));
}

#[test]
fn open_failure_keeps_session() {
    let mut session: Session<u32> = Session::new();
    let serial = "ABC123".to_string();
    let r = session.commit_open(&serial, &Some(serial.clone()), None);
    assert_eq!(r, Err(HSLinkError::DeviceNotOpened));
    assert!(!session.is_open());
    let r = session.commit_open(&serial, &Some("OTHER".to_string()), Some(3));
    assert_eq!(r, Err(HSLinkError::DeviceNotFound));
    assert!(!session.is_open());
    let r = session.commit_open(&serial, &None, Some(3));
    assert_eq!(r, Err(HSLinkError::DeviceNotFound));
    assert_eq!(session.device(), Err(HSLinkError::DeviceNotOpened));
}

#[test]
fn reopen_replaces_device() {
    let mut session = opened_session("A", 1);
    let r = session.commit_open(&"B".to_string(), &Some("B".to_string()), Some(2));
    assert_eq!(r, Ok("B".to_string()));
    assert_eq!(session.serial_number(), Some("B".to_string()));
    assert_eq!(session.device(), Ok(&2));
}

#[test]
fn close_open_then_closed() {
    let mut session = opened_session("ABC123", 5);
    assert_eq!(session.close(), Ok(()));
    assert!(!session.is_open());
    assert_eq!(session.serial_number(), None);
    assert_eq!(session.close(), Err(HSLinkError::DeviceNotOpened));
    assert_eq!(session.close(), Err(HSLinkError::DeviceNotOpened));
    assert!(!session.is_open());
}

#[test]
fn write_on_closed_session() {
    let session: Session<u32> = Session::new();
    assert_eq!(session.prepare_write(&b"PING".to_vec()), Err(HSLinkError::DeviceNotOpened));
    assert_eq!(session.prepare_write(&vec![0u8; 5000]), Err(HSLinkError::DeviceNotOpened));
    assert_eq!(session.device(), Err(HSLinkError::DeviceNotOpened));
}

#[test]
fn write_on_open_session() {
    let session = opened_session("ABC123", 9);
    let frame = session.prepare_write(&b"PING".to_vec()).unwrap();
    assert_eq!(frame, encode_frame(&b"PING".to_vec()).unwrap());
    assert_eq!(session.prepare_write(&vec![0u8; 1024]), Err(HSLinkError::PayloadTooLong));
}

#[test]
fn write_outcomes() {
    assert_eq!(write_outcome(Some(1024)), Ok(()));
    assert_eq!(write_outcome(None), Err(HSLinkError::WriteErr));
}

#[test]
fn request_gets_pong() {
    let read = Some(response_frame(b"PONG"));
    assert_eq!(decode_response(&read), Ok("PONG".to_string()));
    assert_eq!(response_payload(&read), Ok(b"PONG".to_vec()));
}

#[test]
fn request_times_out() {
    assert_eq!(decode_response(&Some(Vec::new())), Err(HSLinkError::ReadErr));
    assert_eq!(decode_response(&None), Err(HSLinkError::ReadErr));
}

#[test]
fn response_with_wrong_report_id() {
    let mut buf = response_frame(b"PONG");
    buf[0] = 0x01;
    assert_eq!(decode_response(&Some(buf)), Err(HSLinkError::RspErr));
    assert_eq!(decode_response(&Some(vec![0x00])), Err(HSLinkError::RspErr));
    assert_eq!(decode_response(&Some(vec![0xFF, 0xFF, 0x00])), Err(HSLinkError::RspErr));
}

#[test]
fn response_without_terminator() {
    assert_eq!(decode_response(&Some(vec![0x02, b'O', b'K'])), Ok("OK".to_string()));
    let full = vec![b'x'; 1023];
    let mut buf = vec![0x02];
    buf.extend_from_slice(&full);
    assert_eq!(response_payload(&Some(buf)), Ok(full));
}

#[test]
fn response_stops_at_first_zero() {
    let read = Some(vec![0x02, b'A', 0x00, b'B']);
    assert_eq!(decode_response(&read), Ok("A".to_string()));
    assert_eq!(decode_response(&Some(vec![0x02])), Ok(String::new()));
    assert_eq!(decode_response(&Some(vec![0x02, 0x00, b'Z'])), Ok(String::new()));
}

#[test]
fn response_with_invalid_text() {
    let read = Some(vec![0x02, 0xFF, 0xFE, 0x00]);
    assert_eq!(decode_response(&read), Err(HSLinkError::DecodeErr));
    assert_eq!(response_payload(&read), Ok(vec![0xFF, 0xFE]));
}

#[test]
fn response_with_multibyte_text() {
    let read = Some(response_frame("温度".as_bytes()));
    assert_eq!(decode_response(&read), Ok("温度".to_string()));
}

fn volume(drive: &str, label: Option<&str>) -> Volume {
    Volume { drive: drive.to_string(), label: label.map(|l| l.to_string()) }
}

#[test]
fn bootloader_drive_found() {
    let volumes = vec![
        volume("C:\\", Some("SYSTEM")),
        volume("D:\\", None),
        volume("E:\\", Some("CHERRYUF2")),
        volume("F:\\", Some("CHERRYUF2")),
    ];
    assert_eq!(find_bl(&volumes), Ok("E:\\".to_string()));
    assert_eq!(find_cherrydap_drive(&volumes), Some("E:\\".to_string()));
}

#[test]
fn bootloader_drive_missing() {
    let volumes = vec![volume("C:\\", Some("cherryuf2")), volume("D:\\", Some("CHERRYUF"))];
    assert_eq!(find_bl(&volumes), Err(HSLinkError::DeviceNotFound));
    assert_eq!(find_bl(&Vec::new()), Err(HSLinkError::DeviceNotFound));
    assert_eq!(find_cherrydap_drive(&volumes), None);
}

fn wide(s: &str) -> Vec<u16> {
    s.encode_utf16().collect()
}

#[test]
fn drive_list_split() {
    let mut units = wide("C:\\");
    units.push(0);
    units.extend(wide("D:\\"));
    units.extend([0, 0]);
    assert_eq!(split_nul_list(&units), vec![wide("C:\\"), wide("D:\\")]);
    assert_eq!(split_nul_list(&vec![0, 0, 0]), Vec::<Vec<u16>>::new());
    assert_eq!(split_nul_list(&wide("E:\\")), vec![wide("E:\\")]);
    assert_eq!(split_nul_list(&Vec::new()), Vec::<Vec<u16>>::new());
}

#[test]
fn label_padding_trimmed() {
    let mut units = wide("CHERRYUF2");
    units.resize(256, 0);
    assert_eq!(trim_label(&units), wide("CHERRYUF2"));
    assert_eq!(trim_label(&vec![0; 256]), Vec::<u16>::new());
    assert_eq!(trim_label(&wide("A\u{0}B")), wide("A\u{0}B"));
}
