use supvan_proto::cmd::{
    make_cmd, make_cmd_start_trans, CMD_CHECK_DEVICE, CMD_INQUIRY_STA, CMD_NEXT_ZIPPEDBULK, MAGIC1, MAGIC2,
};
use supvan_proto::data::{build_data_frames, make_data_packet, wrap_data_frame, DATA_MAGIC1, DATA_MAGIC2};
use supvan_proto::cmd::{DATA_TYPE, PROTO_ID};
use supvan_proto::error::Error;
use supvan_proto::rfcomm::{parse_bdaddr, ReadAction, ReadState};
use supvan_proto::speed::calc_speed;
use supvan_proto::usb::{make_usb_cmd, make_usb_cmd_two, pad_report, usb_bulk_chunks, USB_MAGIC1, USB_MAGIC2};

#[test]
fn test_make_cmd_check_device() {
    let pkt = make_cmd(CMD_CHECK_DEVICE, 0);
    assert_eq!(pkt[0], MAGIC1);
    assert_eq!(pkt[1], MAGIC2);
    assert_eq!(pkt[2], 0x0C);
    assert_eq!(pkt[3], 0x00);
    assert_eq!(pkt[7], CMD_CHECK_DEVICE);
    assert_eq!(pkt[10], 0x00);
    assert_eq!(pkt[11], 0x01);
    assert_eq!(pkt[12], 0x00);
    assert_eq!(pkt[13], 0x00);
    assert_eq!(pkt[14], 0x00);
    assert_eq!(pkt[15], 0x00);
    assert_eq!(pkt[8], 0x01);
    assert_eq!(pkt[9], 0x00);
}

#[test]
fn test_make_cmd_with_param() {
    let pkt = make_cmd(CMD_INQUIRY_STA, 0x1234);
    assert_eq!(pkt[12], 0x34);
    assert_eq!(pkt[13], 0x12);
    let chk: u16 = pkt[10..16].iter().map(|&b| b as u16).sum();
    assert_eq!(pkt[8], (chk & 0xFF) as u8);
    assert_eq!(pkt[9], (chk >> 8) as u8);
}

#[test]
fn test_make_cmd_start_trans() {
    let pkt = make_cmd_start_trans(CMD_NEXT_ZIPPEDBULK, 512, 3);
    assert_eq!(pkt[7], CMD_NEXT_ZIPPEDBULK);
    assert_eq!(pkt[12], 0x00);
    assert_eq!(pkt[13], 0x02);
    assert_eq!(pkt[14], 0x03);
    assert_eq!(pkt[15], 0x00);
    let chk: u16 = pkt[10..16].iter().map(|&b| b as u16).sum();
    assert_eq!(pkt[8], (chk & 0xFF) as u8);
    assert_eq!(pkt[9], (chk >> 8) as u8);
}

#[test]
fn command_frame_exact_bytes() {
    let pkt = make_cmd(0x11, 0x1234);
    assert_eq!(
        pkt,
        [0x7E, 0x5A, 0x0C, 0x00, 0x10, 0x01, 0xAA, 0x11, 0x47, 0x00, 0x00, 0x01, 0x34, 0x12, 0x00, 0x00]
    );
}

#[test]
fn command_checksum_carries_into_high_byte() {
    let pkt = make_cmd_start_trans(CMD_NEXT_ZIPPEDBULK, 0xFFFF, 0xFFFF);
    let sum: u32 = pkt[10..16].iter().map(|&b| b as u32).sum();
    assert_eq!(sum, 1 + 4 * 255);
    assert_eq!(pkt[8] as u32 + 256 * pkt[9] as u32, sum);
    assert_eq!(pkt[9], 0x03);
}

#[test]
fn test_make_data_packet() {
    let data = [0x42u8; 500];
    let pkt = make_data_packet(&data, 0, 3);
    assert_eq!(pkt[0], DATA_MAGIC1);
    assert_eq!(pkt[1], DATA_MAGIC2);
    assert_eq!(pkt[4], 0);
    assert_eq!(pkt[5], 3);
    assert_eq!(&pkt[6..506], &data[..]);
    let chk: u16 = pkt[4..506].iter().map(|&b| b as u16).sum();
    assert_eq!(pkt[2], (chk & 0xFF) as u8);
    assert_eq!(pkt[3], (chk >> 8) as u8);
}

#[test]
fn test_make_data_packet_short() {
    let data = [0xFFu8; 100];
    let pkt = make_data_packet(&data, 2, 5);
    assert_eq!(pkt[4], 2);
    assert_eq!(pkt[5], 5);
    assert_eq!(&pkt[6..106], &[0xFF; 100]);
    assert_eq!(&pkt[106..506], &[0x00; 400]);
}

#[test]
fn data_packet_checksum_keeps_low_sixteen_bits() {
    let data = [0xFFu8; 500];
    let pkt = make_data_packet(&data, 0xFF, 0xFF);
    let sum: u32 = pkt[4..506].iter().map(|&b| b as u32).sum();
    assert_eq!(sum, 502 * 255);
    assert_eq!(pkt[2] as u32 + 256 * pkt[3] as u32, sum % 65536);
}

#[test]
fn test_wrap_data_frame() {
    let pkt = [0xAA; 506];
    let frame = wrap_data_frame(&pkt);
    assert_eq!(frame[0], MAGIC1);
    assert_eq!(frame[1], MAGIC2);
    assert_eq!(frame[2], 0xFC);
    assert_eq!(frame[3], 0x01);
    assert_eq!(frame[4], PROTO_ID);
    assert_eq!(frame[5], DATA_TYPE);
    assert_eq!(&frame[6..512], &pkt[..]);
}

#[test]
fn test_build_data_frames() {
    let data = vec![0x42u8; 1100];
    let frames = build_data_frames(&data);
    assert_eq!(frames.len(), 3);
    assert_eq!(frames[0][6 + 4], 0);
    assert_eq!(frames[0][6 + 5], 3);
    assert_eq!(frames[1][6 + 4], 1);
    assert_eq!(frames[2][6 + 4], 2);
}

#[test]
fn data_frames_carry_payload_in_order() {
    let data: Vec<u8> = (0..1100u32).map(|i| (i % 251) as u8).collect();
    let frames = build_data_frames(&data);
    assert_eq!(&frames[1][12..512], &data[500..1000]);
    assert_eq!(&frames[2][12..112], &data[1000..1100]);
    assert!(frames[2][112..].iter().all(|&b| b == 0));
    assert!(build_data_frames(&[]).is_empty());
}

#[test]
fn test_parse_bdaddr() {
    let addr = parse_bdaddr("A4:93:40:A0:87:57").unwrap();
    assert_eq!(addr, [0x57, 0x87, 0xA0, 0x40, 0x93, 0xA4]);
}

#[test]
fn test_parse_bdaddr_invalid() {
    assert!(parse_bdaddr("not-an-address").is_err());
    assert!(parse_bdaddr("A4:93:40:A0:87").is_err());
    assert!(parse_bdaddr("A4:93:40:A0:87:XX").is_err());
}

#[test]
fn bdaddr_is_reversed() {
    assert_eq!(
        parse_bdaddr("AA:BB:CC:DD:EE:FF").unwrap(),
        [0xFF, 0xEE, 0xDD, 0xCC, 0xBB, 0xAA]
    );
    assert_eq!(parse_bdaddr("aa:b:+0c:00DD:ee:f").unwrap(), [0x0F, 0xEE, 0xDD, 0x0C, 0x0B, 0xAA]);
}

#[test]
fn bdaddr_errors_are_invalid_param() {
    assert!(matches!(parse_bdaddr("A4:93:40:A0:87:100"), Err(Error::InvalidParam(_))));
    assert!(matches!(parse_bdaddr("A4:93:40:A0:87:"), Err(Error::InvalidParam(_))));
    assert!(matches!(parse_bdaddr("A4:93:40:A0:87:57:00"), Err(Error::InvalidParam(_))));
    assert!(matches!(parse_bdaddr(""), Err(Error::InvalidParam(_))));
}

#[test]
fn test_calc_speed_thresholds() {
    assert_eq!(calc_speed(4000), 10);
    assert_eq!(calc_speed(3001), 10);
    assert_eq!(calc_speed(3000), 15);
    assert_eq!(calc_speed(2801), 15);
    assert_eq!(calc_speed(2800), 20);
    assert_eq!(calc_speed(2500), 25);
    assert_eq!(calc_speed(2000), 40);
    assert_eq!(calc_speed(1500), 45);
    assert_eq!(calc_speed(1000), 55);
    assert_eq!(calc_speed(500), 60);
    assert_eq!(calc_speed(100), 60);
    assert_eq!(calc_speed(0), 60);
}

#[test]
fn speed_never_rises_with_size() {
    let mut prev = calc_speed(0);
    for n in 0..5000usize {
        let s = calc_speed(n);
        assert!(s <= prev);
        prev = s;
    }
}

#[test]
fn test_make_usb_cmd() {
    let frame = make_usb_cmd(CMD_CHECK_DEVICE, 0);
    assert_eq!(frame[0], USB_MAGIC1);
    assert_eq!(frame[1], USB_MAGIC2);
    assert_eq!(frame[2], 0x00);
    assert_eq!(frame[3], 0x00);
    assert_eq!(frame[4], CMD_CHECK_DEVICE);
    assert_eq!(frame[5], 0x00);
    assert_eq!(frame[6], 0x08);
    assert_eq!(frame[7], 0x00);
}

#[test]
fn test_make_usb_cmd_with_param() {
    let frame = make_usb_cmd(CMD_INQUIRY_STA, 0x1234);
    assert_eq!(frame[2], 0x12);
    assert_eq!(frame[3], 0x34);
}

#[test]
fn test_make_usb_cmd_two() {
    let frame = make_usb_cmd_two(CMD_NEXT_ZIPPEDBULK, 512, 3);
    assert_eq!(frame[0], USB_MAGIC1);
    assert_eq!(frame[1], USB_MAGIC2);
    assert_eq!(frame[2], 0x02);
    assert_eq!(frame[3], 0x00);
    assert_eq!(frame[4], CMD_NEXT_ZIPPEDBULK);
    assert_eq!(frame[8], 0x00);
    assert_eq!(frame[9], 0x03);
}

#[test]
fn usb_reports_are_padded_and_chunked() {
    let r = pad_report(&[1, 2, 3]);
    assert_eq!(&r[..3], &[1, 2, 3]);
    assert!(r[3..].iter().all(|&b| b == 0));
    let data: Vec<u8> = (0..130u32).map(|i| i as u8).collect();
    let chunks = usb_bulk_chunks(&data);
    assert_eq!(chunks.len(), 3);
    assert_eq!(chunks[0], data[0..64].to_vec());
    assert_eq!(chunks[2], data[128..130].to_vec());
}

#[test]
fn response_read_steps() {
    let (mut st, a) = ReadState::new(2000, 20);
    assert_eq!(st.polls_left, 100);
    assert!(matches!(a, ReadAction::Poll { timeout_ms: 20 }));
    assert!(matches!(st.step(None), ReadAction::Poll { timeout_ms: 20 }));
    assert!(matches!(st.step(Some(vec![1, 2])), ReadAction::Poll { timeout_ms: 50 }));
    match st.step(Some(vec![3])) {
        ReadAction::Done(Some(v)) => assert_eq!(v, vec![1, 2, 3]),
        _ => panic!("read should be over"),
    }
    let (mut st, _) = ReadState::new(40, 20);
    assert!(matches!(st.step(Some(vec![])), ReadAction::Poll { timeout_ms: 20 }));
    assert!(matches!(st.step(None), ReadAction::Done(None)));
    let (_, a) = ReadState::new(10, 20);
    assert!(matches!(a, ReadAction::Done(None)));
}
