use supvan_proto::cmd::{CMD_BUF_FULL, CMD_CHECK_DEVICE, CMD_INQUIRY_STA, CMD_NEXT_ZIPPEDBULK, CMD_START_PRINT, CMD_STOP_PRINT};
use supvan_proto::discover::{is_matching_lower_name, is_matching_printer_name, is_supvan_usb};
use supvan_proto::dither::dither_line;
use supvan_proto::dump::{pbm_image, printhead_pbm, PgmAccumulator};
use supvan_proto::engine::{Action, Event, Failure, Phase, PrintFlow};
use supvan_proto::job::KsJob;
use supvan_proto::transport::TransportKind;
use supvan_proto::uri::{parse_density, parse_device_uri, parse_page_header};

#[test]
fn test_pgm_accumulator() {
    let mut acc = PgmAccumulator::new(4, 2);
    acc.push_line(0, &[0xFF, 0x80, 0x40, 0x00]);
    acc.push_line(1, &[0x00, 0x40, 0x80, 0xFF]);
    assert_eq!(acc.lines_received, 2);
    assert_eq!(acc.data[0], 0xFF);
    assert_eq!(acc.data[4], 0x00);
    assert_eq!(acc.data[7], 0xFF);
}

#[test]
fn pgm_image_layout() {
    let mut acc = PgmAccumulator::new(2, 2);
    acc.push_line(1, &[9, 8, 7]);
    acc.push_line(5, &[1, 1]);
    assert_eq!(acc.lines_received, 1);
    let img = acc.pgm_image();
    assert_eq!(img, b"P5\n2 2\n255\n\x00\x00\x09\x08".to_vec());
}

#[test]
fn pbm_images() {
    let img = pbm_image(&[0xAB, 0xCD, 0xEF], 8, 2, 1);
    assert_eq!(img, b"P4\n8 2\n\xAB\xCD".to_vec());
    // Canvas of 2 columns, 1 byte each: column 0 has dot 0, column 1 has dot 7.
    let view = printhead_pbm(&[0x01, 0x80], 2, 1, 8);
    let mut expected = b"P4\n2 8\n".to_vec();
    expected.extend_from_slice(&[0x80, 0, 0, 0, 0, 0, 0, 0x40]);
    assert_eq!(view, expected);
}

#[test]
fn test_parse_device_uri() {
    assert_eq!(parse_device_uri("katasymbol://A4:93:40:A0:87:57"), Some("A4:93:40:A0:87:57".into()));
    assert_eq!(parse_device_uri("other://foo"), None);
    assert_eq!(parse_device_uri("katasymbol://"), Some("".into()));
}

#[test]
fn density_option_parsing() {
    assert_eq!(parse_density("media=x KatasymbolDensity=7 foo"), 7);
    assert_eq!(parse_density("KatasymbolDensity=99"), 15);
    assert_eq!(parse_density("KatasymbolDensity=x KatasymbolDensity=+3"), 3);
    assert_eq!(parse_density("KatasymbolDensity=300"), 4);
    assert_eq!(parse_density(""), 4);
    assert_eq!(parse_density("\tKatasymbolDensity=0\n"), 0);
}

#[test]
fn page_header_decode() {
    let h = parse_page_header(&[3, 0, 0, 0, 0x10, 0x27, 0, 0, 45, 0, 0, 0]);
    assert_eq!(h.num_buffers, 3);
    assert_eq!(h.compressed_len, 10000);
    assert_eq!(h.speed, 45);
}

#[test]
fn printer_names() {
    assert!(is_matching_printer_name("Supvan T50 Pro"));
    assert!(is_matching_printer_name("KATASYMBOL M50"));
    assert!(is_matching_printer_name("T0117-1234"));
    assert!(!is_matching_printer_name("Headphones"));
    assert!(!is_matching_lower_name("SUPVAN"));
    assert!(is_matching_lower_name("supvan"));
    assert!(is_supvan_usb("1820", "2073"));
    assert!(!is_supvan_usb("1820", "2074"));
}

#[test]
fn test_dither_all_black() {
    let line = vec![0x00; 8];
    let mut mono = vec![0u8; 1];
    dither_line(&line, 8, 0, &mut mono);
    assert_eq!(mono[0], 0xFF);
}

#[test]
fn test_dither_all_white() {
    let line = vec![0xFF; 8];
    let mut mono = vec![0u8; 1];
    dither_line(&line, 8, 0, &mut mono);
    assert_eq!(mono[0], 0x00);
}

#[test]
fn test_dither_midtone_lighter_than_50_percent() {
    let line = vec![0x80; 32];
    let mut total_bits = 0u32;
    for y in 0..4 {
        let mut mono = vec![0u8; 4];
        dither_line(&line, 32, y, &mut mono);
        for &b in &mono {
            total_bits += b.count_ones();
        }
    }
    assert!(total_bits > 16 && total_bits < 64, "expected ~25% bits set, got {total_bits}/128");
}

#[test]
fn test_dither_output_size() {
    let line = vec![0x80; 13];
    let bpl = 13_usize.div_ceil(8);
    let mut mono = vec![0u8; bpl];
    dither_line(&line, 13, 0, &mut mono);
}

#[test]
fn dither_mirrors_the_line() {
    let mut line = vec![0xFF; 8];
    line[0] = 0x00;
    let mut mono = vec![0u8; 1];
    dither_line(&line, 8, 0, &mut mono);
    assert_eq!(mono[0], 0x01);
}

#[test]
fn job_lines_and_page() {
    let mut job = KsJob::new(16, 20, 2, 4);
    assert!(job.write_line(0, &[0xFF, 0x01, 0x77]));
    assert!(!job.write_line(20, &[1, 2]));
    assert_eq!(job.lines_received, 1);
    assert_eq!(&job.raster_data[0..3], &[0xFF, 0x01, 0x00]);
    let page = job.render_page().unwrap();
    assert_eq!(page.buffers, 1);
    assert_eq!(page.canvas.len(), 20 * 48);
    // 16 dots centred at 184: row 0 carries 0xFF then 0x01 (pixel 15).
    assert_eq!(page.canvas[23], 0xFF);
    assert_eq!(page.canvas[24], 0x80);
    job.clear_page();
    assert!(job.raster_data.iter().all(|&b| b == 0));
    assert_eq!(job.lines_received, 0);
}

fn bt_response(cmd: u8, status: [u8; 4]) -> Vec<u8> {
    let mut r = vec![0u8; 20];
    r[0] = 0x7E;
    r[1] = 0x5A;
    r[7] = cmd;
    r[14..18].copy_from_slice(&status);
    r
}

#[test]
fn print_flow_happy_path() {
    let (mut flow, a) = PrintFlow::new(TransportKind::Bluetooth, 1100, 55);
    assert_eq!(a, Action::Command { cmd: CMD_CHECK_DEVICE, param: 0 });
    let a = flow.step(Event::Response(Some(bt_response(CMD_CHECK_DEVICE, [0; 4]))));
    assert_eq!(a, Action::Command { cmd: CMD_INQUIRY_STA, param: 0 });
    // Busy once, then idle.
    let a = flow.step(Event::Response(Some(bt_response(CMD_INQUIRY_STA, [0, 0x04, 0, 0]))));
    assert_eq!(a, Action::Sleep { millis: 100 });
    let a = flow.step(Event::Slept);
    assert_eq!(a, Action::Command { cmd: CMD_INQUIRY_STA, param: 0 });
    let a = flow.step(Event::Response(Some(bt_response(CMD_INQUIRY_STA, [0; 4]))));
    assert_eq!(a, Action::Command { cmd: CMD_START_PRINT, param: 0 });
    let a = flow.step(Event::Response(None));
    assert_eq!(a, Action::Command { cmd: CMD_INQUIRY_STA, param: 0 });
    let a = flow.step(Event::Response(Some(bt_response(CMD_INQUIRY_STA, [0, 0, 0x40, 0]))));
    assert_eq!(a, Action::Sleep { millis: 20 });
    assert!(flow.printing);
    let a = flow.step(Event::Slept);
    assert_eq!(a, Action::Command { cmd: CMD_INQUIRY_STA, param: 0 });
    let a = flow.step(Event::Response(Some(bt_response(CMD_INQUIRY_STA, [0, 0, 0x40, 0]))));
    assert_eq!(a, Action::CommandTwo { cmd: CMD_NEXT_ZIPPEDBULK, param1: 512, param2: 3 });
    let a = flow.step(Event::Response(Some(vec![1])));
    assert_eq!(a, Action::SendBulk { read_final_response: true });
    let a = flow.step(Event::Response(None));
    assert_eq!(a, Action::Sleep { millis: 20 });
    let a = flow.step(Event::Slept);
    assert_eq!(a, Action::CommandTwo { cmd: CMD_BUF_FULL, param1: 1100, param2: 55 });
    let a = flow.step(Event::Response(None));
    assert_eq!(a, Action::Sleep { millis: 100 });
    let a = flow.step(Event::Slept);
    assert_eq!(a, Action::Command { cmd: CMD_INQUIRY_STA, param: 0 });
    let a = flow.step(Event::Response(Some(bt_response(CMD_INQUIRY_STA, [0; 4]))));
    assert_eq!(a, Action::Finished { completed: true });
    assert_eq!(flow.phase, Phase::Done);
    assert!(!flow.printing);
}

#[test]
fn print_flow_failures() {
    let (mut flow, _) = PrintFlow::new(TransportKind::Bluetooth, 10, 60);
    assert_eq!(flow.step(Event::Response(None)), Action::Abort { reason: Failure::CheckDevice });
    assert_eq!(flow.failure, Some(Failure::CheckDevice));

    let (flow, a) = PrintFlow::new(TransportKind::UsbHid, 70000, 60);
    assert_eq!(a, Action::Abort { reason: Failure::TooLarge });
    assert_eq!(flow.phase, Phase::Failed);

    // An error flag on an idle device ends the page before it starts.
    let (mut flow, _) = PrintFlow::new(TransportKind::UsbHid, 10, 60);
    flow.step(Event::Response(Some(vec![0x12])));
    let a = flow.step(Event::Response(Some(vec![0x11, 0x00, 0x00, 0x08, 0x00, 0x00, 0x00])));
    assert_eq!(a, Action::Abort { reason: Failure::PrinterError });
    assert!(flow.error_status.unwrap().cover_open);

    // The device never becomes idle: sixty polls, then a timeout.
    let (mut flow, _) = PrintFlow::new(TransportKind::UsbHid, 10, 60);
    flow.step(Event::Response(Some(vec![0x12])));
    let mut polls = 0;
    loop {
        polls += 1;
        let a = flow.step(Event::Response(None));
        assert_eq!(a, Action::Sleep { millis: 100 });
        let a = flow.step(Event::Slept);
        if a == (Action::Abort { reason: Failure::ReadyTimeout }) {
            break;
        }
        assert!(flow.is_consistent());
    }
    assert_eq!(polls, 60);

    // An event the phase does not expect.
    let (mut flow, _) = PrintFlow::new(TransportKind::Bluetooth, 10, 60);
    assert_eq!(flow.step(Event::Slept), Action::Abort { reason: Failure::UnexpectedEvent });
}

#[test]
fn print_flow_stops_on_error_while_waiting_for_buffer() {
    let (mut flow, _) = PrintFlow::new(TransportKind::Bluetooth, 10, 60);
    flow.step(Event::Response(Some(bt_response(CMD_CHECK_DEVICE, [0; 4]))));
    flow.step(Event::Response(Some(bt_response(CMD_INQUIRY_STA, [0; 4]))));
    flow.step(Event::Response(None));
    flow.step(Event::Response(Some(bt_response(CMD_INQUIRY_STA, [0, 0, 0x40, 0]))));
    flow.step(Event::Slept);
    let a = flow.step(Event::Response(Some(bt_response(CMD_INQUIRY_STA, [0x20, 0, 0x40, 0]))));
    assert_eq!(a, Action::Command { cmd: CMD_STOP_PRINT, param: 0 });
    let a = flow.step(Event::Response(None));
    assert_eq!(a, Action::Abort { reason: Failure::PrinterError });
    assert!(!flow.printing);
}

#[test]
fn transport_framing_differs() {
    let bt = TransportKind::Bluetooth.command_frame(CMD_INQUIRY_STA, 0x0102);
    assert_eq!(bt.len(), 16);
    assert_eq!(&bt[12..14], &[0x02, 0x01]);
    let usb = TransportKind::UsbHid.command_frame(CMD_INQUIRY_STA, 0x0102);
    assert_eq!(usb, vec![0xC0, 0x40, 0x01, 0x02, CMD_INQUIRY_STA, 0, 8, 0]);
    let usb2 = TransportKind::UsbHid.command_frame_two(CMD_NEXT_ZIPPEDBULK, 512, 3);
    assert_eq!(usb2.len(), 10);
    assert_eq!(TransportKind::Bluetooth.bulk_frames(&[1u8; 600]).len(), 2);
    assert_eq!(TransportKind::UsbHid.bulk_frames(&[1u8; 600]).len(), 10);
    assert!(TransportKind::UsbHid.validate_response(&[0], CMD_CHECK_DEVICE));
    assert!(!TransportKind::Bluetooth.validate_response(&[0], CMD_CHECK_DEVICE));
    assert_eq!(TransportKind::UsbHid.parse_version_response(&[0; 30]), None);
}

#[test]
fn test_bt_addr_to_bluez_path() {
    assert_eq!(
        &*supvan_proto::battery::bt_addr_to_bluez_path("AA:BB:CC:DD:EE:FF"),
        "/org/bluez/hci0/dev_AA_BB_CC_DD_EE_FF"
    );
}

#[test]
fn test_bt_addr_to_provider_path() {
    assert_eq!(
        &*supvan_proto::battery::bt_addr_to_provider_path("AA:BB:CC:DD:EE:FF"),
        "/com/supvan/battery/dev_AA_BB_CC_DD_EE_FF"
    );
}
