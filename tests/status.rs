use supvan_proto::cmd::{CMD_INQUIRY_STA, CMD_RD_DEV_NAME, CMD_READ_FWVER, CMD_READ_REV, CMD_RETURN_MAT, MAGIC1, MAGIC2};
use supvan_proto::device::{device_reasons, status_plan, StatusPlan, KsMaterial, PAPPL_PREASON_COVER_OPEN, PAPPL_PREASON_MEDIA_EMPTY};
use supvan_proto::device::{PAPPL_PREASON_MEDIA_JAM, PAPPL_PREASON_NONE, PAPPL_PREASON_OTHER};
use supvan_proto::status::{
    parse_device_name, parse_firmware_version, parse_material, parse_status, parse_version, validate_response,
    PrinterStatus,
};
use supvan_proto::text::hex_upper;
use supvan_proto::usb::{parse_usb_material, parse_usb_status, validate_usb_response};

fn make_status_response(b14: u8, b15: u8, b16: u8, b17: u8, count: u16) -> Vec<u8> {
    let mut resp = vec![0u8; 20];
    resp[0] = MAGIC1;
    resp[1] = MAGIC2;
    resp[7] = CMD_INQUIRY_STA;
    resp[14] = b14;
    resp[15] = b15;
    resp[16] = b16;
    resp[17] = b17;
    resp[18] = (count & 0xFF) as u8;
    resp[19] = (count >> 8) as u8;
    resp
}

#[test]
fn test_parse_status_ready() {
    let resp = make_status_response(0, 0, 0x40, 0, 0);
    let status = parse_status(&resp).unwrap();
    assert!(!status.buf_full);
    assert!(!status.device_busy);
    assert!(status.printing);
    assert!(!status.has_error());
}

#[test]
fn test_parse_status_errors() {
    let resp = make_status_response(0x02, 0, 0x08, 0x01, 5);
    let status = parse_status(&resp).unwrap();
    assert!(status.label_rw_error);
    assert!(status.cover_open);
    assert!(status.label_not_installed);
    assert!(status.has_error());
    assert_eq!(status.print_count, 5);
}

#[test]
fn test_parse_status_too_short() {
    assert!(parse_status(&[0; 10]).is_none());
}

#[test]
fn test_parse_status_wrong_magic() {
    let mut resp = make_status_response(0, 0, 0, 0, 0);
    resp[0] = 0x00;
    assert!(parse_status(&resp).is_none());
}

#[test]
fn test_validate_response() {
    let mut resp = vec![0u8; 16];
    resp[0] = MAGIC1;
    resp[1] = MAGIC2;
    resp[7] = CMD_INQUIRY_STA;
    assert!(validate_response(&resp, CMD_INQUIRY_STA));
    assert!(!validate_response(&resp, 0x12));
    assert!(!validate_response(&[0; 4], CMD_INQUIRY_STA));
}

#[test]
fn status_decode_scenario() {
    let resp = [
        0x7E, 0x5A, 0x00, 0x00, 0x00, 0x00, 0x00, 0x11, 0x00, 0x00, 0x00, 0x00, 0x00, 0x00, 0x02, 0x00, 0x08, 0x01, 0x05,
        0x00,
    ];
    let s = parse_status(&resp).unwrap();
    assert!(s.label_rw_error);
    assert!(s.cover_open);
    assert!(s.label_not_installed);
    assert_eq!(s.print_count, 5);
    assert!(s.has_error());
    assert!(!s.buf_full && !s.label_end && !s.printing && !s.device_busy);
}

#[test]
fn every_flag_is_reported() {
    let s = parse_status(&make_status_response(0xFF, 0xFF, 0xFF, 0xFF, 0xFFFF)).unwrap();
    assert!(s.buf_full && s.low_battery && s.device_busy && s.insert_usb && s.printing);
    assert!(s.has_error());
    assert_eq!(s.print_count, 0xFFFF);
    let text = s.error_description().unwrap();
    assert_eq!(
        text,
        "label read/write error, label roll end, label mode mismatch, ribbon read/write error, ribbon end, \
         cover open, printhead temperature too high, label not installed"
    );
}

#[test]
fn no_flag_means_no_error() {
    let s = parse_status(&make_status_response(0, 0, 0, 0, 0)).unwrap();
    assert!(!s.has_error());
    assert!(s.error_description().is_none());
    let d = PrinterStatus::default();
    assert!(!d.has_error());
    assert!(d.error_description().is_none());
}

#[test]
fn single_error_is_described_alone() {
    let s = parse_status(&make_status_response(0, 0x08, 0, 0, 0)).unwrap();
    assert!(s.head_temp_high);
    assert_eq!(s.error_description().unwrap(), "printhead temperature too high");
}

fn material_frame(len: usize) -> Vec<u8> {
    let mut r = vec![0u8; len];
    r[0] = MAGIC1;
    r[1] = MAGIC2;
    r[7] = CMD_RETURN_MAT;
    for i in 22..29 {
        r[i] = 0xA0 + i as u8;
    }
    for i in 29..37 {
        r[i] = i as u8;
    }
    r[37] = 0x34;
    r[38] = 0x12;
    r[39] = 2;
    r[40] = 40;
    r[41] = 30;
    r[42] = 3;
    if len >= 47 {
        r[43] = 0x2C;
        r[44] = 0x01;
    }
    if len >= 57 {
        r[51..57].copy_from_slice(&[1, 23, 45, 67, 89, 123]);
    }
    r
}

#[test]
fn material_decode_full() {
    let m = parse_material(&material_frame(57)).unwrap();
    assert_eq!(m.uuid, "B6B7B8B9BABBBC");
    assert_eq!(m.code, "1D1E1F2021222324");
    assert_eq!(m.code.len(), 16);
    assert_eq!(m.sn, 0x3412);
    assert_eq!(m.label_type, 2);
    assert_eq!((m.width_mm, m.height_mm, m.gap_mm), (40, 30, 3));
    assert_eq!(m.remaining, Some(300));
    assert_eq!(m.device_sn.as_deref(), Some("0123456789123"));
}

#[test]
fn material_optional_fields() {
    let m = parse_material(&material_frame(43)).unwrap();
    assert_eq!(m.remaining, None);
    assert_eq!(m.device_sn, None);
    let m = parse_material(&material_frame(47)).unwrap();
    assert_eq!(m.remaining, Some(300));
    assert_eq!(m.device_sn, None);
    let mut short = material_frame(43);
    short.truncate(42);
    assert!(parse_material(&short).is_none());
    let mut wrong = material_frame(57);
    wrong[7] = CMD_INQUIRY_STA;
    assert!(parse_material(&wrong).is_none());
}

#[test]
fn hex_is_upper_case() {
    assert_eq!(hex_upper(&[0x00, 0xAB, 0x5f]), "00AB5F");
    assert_eq!(hex_upper(&[]), "");
}

fn ident_frame(cmd: u8, payload: &[u8], declared: u16) -> Vec<u8> {
    let mut r = vec![0u8; 22];
    r[0] = MAGIC1;
    r[1] = MAGIC2;
    r[2] = (declared & 0xFF) as u8;
    r[3] = (declared >> 8) as u8;
    r[7] = cmd;
    r.extend_from_slice(payload);
    r
}

#[test]
fn device_name_decode() {
    let f = ident_frame(CMD_RD_DEV_NAME, b"T50 Pro\0\0\0", 18 + 10);
    assert_eq!(parse_device_name(&f).as_deref(), Some("T50 Pro"));
    let f = ident_frame(CMD_RD_DEV_NAME, b"\0\0\0\0", 18 + 4);
    assert_eq!(parse_device_name(&f), None);
    let f = ident_frame(CMD_RD_DEV_NAME, b"ABC", 18 + 4);
    assert_eq!(parse_device_name(&f), None);
    let f = ident_frame(CMD_RD_DEV_NAME, b"ABC", 18);
    assert_eq!(parse_device_name(&f), None);
    let f = ident_frame(CMD_READ_REV, b"ABC", 18 + 3);
    assert_eq!(parse_device_name(&f), None);
}

#[test]
fn firmware_and_version_decode() {
    let f = ident_frame(CMD_READ_FWVER, &[7], 0);
    assert_eq!(parse_firmware_version(&f), Some(7));
    assert_eq!(parse_firmware_version(&f[..22]), None);
    let f = ident_frame(CMD_READ_REV, b"1.2", 0);
    assert_eq!(parse_version(&f).as_deref(), Some("1.2"));
    let f = ident_frame(CMD_READ_REV, b"1\0\0", 0);
    assert_eq!(parse_version(&f).as_deref(), Some("1"));
    let f = ident_frame(CMD_READ_REV, b"\0\0\0", 0);
    assert_eq!(parse_version(&f), None);
}

#[test]
fn test_parse_usb_status_ready() {
    let resp = [0x11, 0x00, 0x00, 0x40, 0x00, 0x00, 0x00, 0x00];
    let status = parse_usb_status(&resp).unwrap();
    assert!(status.printing);
    assert!(!status.buf_full);
    assert!(!status.device_busy);
    assert!(!status.has_error());
}

#[test]
fn test_parse_usb_status_errors() {
    let resp = [0x11, 0x02, 0x00, 0x08, 0x01, 0x05, 0x00, 0x00];
    let status = parse_usb_status(&resp).unwrap();
    assert!(status.label_rw_error);
    assert!(status.cover_open);
    assert!(status.label_not_installed);
    assert!(status.has_error());
    assert_eq!(status.print_count, 5);
}

#[test]
fn test_parse_usb_status_too_short() {
    assert!(parse_usb_status(&[0; 4]).is_none());
}

#[test]
fn test_validate_usb_response() {
    let resp = [0x08_u8];
    assert!(!resp.is_empty());
    assert!(validate_usb_response(&resp, CMD_INQUIRY_STA));
    let empty: &[u8] = &[];
    assert!(empty.is_empty());
    assert!(!validate_usb_response(empty, CMD_INQUIRY_STA));
}

#[test]
fn usb_material_decode() {
    let mut r = vec![0u8; 64];
    r[19] = 40;
    r[20] = 30;
    r[21] = 2;
    r[22] = 1;
    r[31] = 0x34;
    r[32] = 0x12;
    r[40..45].copy_from_slice(b"T0117");
    let m = parse_usb_material(&r).unwrap();
    assert_eq!((m.width_mm, m.height_mm, m.gap_mm, m.label_type), (40, 30, 2, 1));
    assert_eq!(m.sn, 0x1234);
    assert_eq!(m.device_sn.as_deref(), Some("T0117"));
    assert!(m.uuid.is_empty() && m.code.is_empty() && m.remaining.is_none());
    assert!(parse_usb_material(&r[..39]).is_none());
    assert_eq!(parse_usb_material(&r[..40]).unwrap().device_sn, None);
}

#[test]
fn reasons_follow_status() {
    let s = parse_status(&make_status_response(0x02 | 0x04, 0x08, 0x08, 0, 0)).unwrap();
    assert_eq!(
        device_reasons(false, Some(s)),
        PAPPL_PREASON_COVER_OPEN | PAPPL_PREASON_MEDIA_EMPTY | PAPPL_PREASON_MEDIA_JAM | PAPPL_PREASON_OTHER
    );
    assert_eq!(device_reasons(true, Some(s)), PAPPL_PREASON_NONE);
    assert_eq!(device_reasons(false, None), PAPPL_PREASON_OTHER);
}

#[test]
fn material_summary() {
    let m = parse_material(&material_frame(47)).unwrap();
    let k = KsMaterial::from_info(&m);
    assert_eq!((k.width_mm, k.height_mm, k.remaining), (40, 30, 300));
    let m = parse_material(&material_frame(43)).unwrap();
    assert_eq!(KsMaterial::from_info(&m).remaining, -1);
    assert_eq!(KsMaterial::placeholder().width_mm, 40);
}

#[test]
fn status_query_waits_for_transfer() {
    assert_eq!(status_plan(true, false), StatusPlan::Query);
    assert_eq!(status_plan(true, true), StatusPlan::ReportNone);
    assert_eq!(status_plan(false, false), StatusPlan::ReportNone);
}
