use vstd::prelude::*;

use crate::cmd::{bt_frame, make_cmd, make_cmd_start_trans};
use crate::data::{build_data_frames, data_frame, data_packet, packet_chunk, packet_count};
use crate::status::{
    bt_status, device_name_ok, frame_echoes, name_field, version_ok, parse_device_name, parse_firmware_version, parse_material, parse_status, parse_version,
    validate_response, MaterialInfo, PrinterStatus,
};
use crate::text::{trim_zeros, utf8_lossy};
use crate::usb::{
    make_usb_cmd, make_usb_cmd_two, parse_usb_material, parse_usb_status, report_chunk, report_count,
    usb_bulk_chunks, usb_frame, usb_status,
};

verus! {

/// The two ways of reaching the printer. They frame the same commands
/// differently: Bluetooth with `7E 5A` frames, little-endian parameters and
/// checksums; USB HID with `C0 40` frames, big-endian parameters and none.
#[derive(Clone, Copy, Debug, PartialEq, Eq, Structural)]
pub enum TransportKind {
    Bluetooth,
    UsbHid,
}

impl TransportKind {
    /// Bytes of the command `cmd` with one parameter.
    pub open spec fn command_bytes(self, cmd: u8, param: u16) -> Seq<u8> {
        match self {
            TransportKind::Bluetooth => bt_frame(cmd, param, 0),
            TransportKind::UsbHid => usb_frame(cmd, param),
        }
    }

    /// Bytes of the command `cmd` with two parameters.
    pub open spec fn command_two_bytes(self, cmd: u8, p1: u16, p2: u16) -> Seq<u8> {
        match self {
            TransportKind::Bluetooth => bt_frame(cmd, p1, p2),
            TransportKind::UsbHid => usb_frame(cmd, p1) + seq![(p2 / 256) as u8, (p2 % 256) as u8],
        }
    }

    /// The status a response carries on this transport.
    pub open spec fn status_of(self, resp: Seq<u8>) -> Option<PrinterStatus> {
        match self {
            TransportKind::Bluetooth => bt_status(resp),
            TransportKind::UsbHid => usb_status(resp),
        }
    }

    /// A response acknowledges `cmd`: Bluetooth frames echo it, USB responses
    /// only need to be non-empty.
    pub open spec fn acknowledges(self, resp: Seq<u8>, cmd: u8) -> bool {
        match self {
            TransportKind::Bluetooth => frame_echoes(resp, cmd),
            TransportKind::UsbHid => resp.len() > 0,
        }
    }

    /// Encode a one-parameter command.
    pub fn command_frame(&self, cmd: u8, param: u16) -> (r: Vec<u8>)
        ensures
            r@ == self.command_bytes(cmd, param),
    {
        let mut out: Vec<u8> = Vec::new();
        match self {
            TransportKind::Bluetooth => out.extend_from_slice(make_cmd(cmd, param).as_slice()),
            TransportKind::UsbHid => out.extend_from_slice(make_usb_cmd(cmd, param).as_slice()),
        }
        assert(out@ =~= self.command_bytes(cmd, param));
        out
    }

    /// Encode a two-parameter command.
    pub fn command_frame_two(&self, cmd: u8, param1: u16, param2: u16) -> (r: Vec<u8>)
        ensures
            r@ == self.command_two_bytes(cmd, param1, param2),
    {
        let mut out: Vec<u8> = Vec::new();
        match self {
            TransportKind::Bluetooth => out.extend_from_slice(make_cmd_start_trans(cmd, param1, param2).as_slice()),
            TransportKind::UsbHid => out.extend_from_slice(make_usb_cmd_two(cmd, param1, param2).as_slice()),
        }
        assert(out@ =~= self.command_two_bytes(cmd, param1, param2));
        out
    }

    /// The units a compressed stream is sent in: 512-byte data frames over
    /// Bluetooth, raw 64-byte report payloads over USB.
    pub fn bulk_frames(&self, data: &[u8]) -> (r: Vec<Vec<u8>>)
        requires
            data@.len() <= 255 * 500,
        ensures
            *self == TransportKind::Bluetooth ==> r@.len() == packet_count(data@.len() as int) && forall|i: int|
                0 <= i < r@.len() ==> #[trigger] r@[i]@ == data_frame(
                    data_packet(packet_chunk(data@, i), i as u8, packet_count(data@.len() as int) as u8),
                ),
            *self == TransportKind::UsbHid ==> r@.len() == report_count(data@.len() as int) && forall|i: int|
                0 <= i < r@.len() ==> #[trigger] r@[i]@ == report_chunk(data@, i),
    {
        match self {
            TransportKind::Bluetooth => {
                let frames = build_data_frames(data);
                let mut out: Vec<Vec<u8>> = Vec::new();
                let mut i: usize = 0;
                while i < frames.len()
                    invariant
                        i <= frames@.len(),
                        out@.len() == i,
                        forall|j: int| 0 <= j < i ==> #[trigger] out@[j]@ == frames@[j]@,
                    decreases frames@.len() - i,
                {
                    let mut f: Vec<u8> = Vec::new();
                    f.extend_from_slice(frames[i].as_slice());
                    out.push(f);
                    i = i + 1;
                }
                out
            },
            TransportKind::UsbHid => usb_bulk_chunks(data),
        }
    }

    /// Decode a status response.
    pub fn parse_status_response(&self, resp: &[u8]) -> (r: Option<PrinterStatus>)
        ensures
            r == self.status_of(resp@),
    {
        match self {
            TransportKind::Bluetooth => parse_status(resp),
            TransportKind::UsbHid => parse_usb_status(resp),
        }
    }

    /// Decode a material response.
    pub fn parse_material_response(&self, resp: &[u8]) -> (r: Option<MaterialInfo>)
        ensures
            *self == TransportKind::Bluetooth ==> (r is Some <==> (resp@.len() >= 43 && frame_echoes(resp@, crate::cmd::CMD_RETURN_MAT))),
            *self == TransportKind::UsbHid ==> (r is Some <==> resp@.len() >= 40),
            *self == TransportKind::Bluetooth ==> (r matches Some(m) ==> m.width_mm == resp@[40] && m.height_mm
                == resp@[41] && m.gap_mm == resp@[42] && m.label_type == resp@[39]),
            *self == TransportKind::UsbHid ==> (r matches Some(m) ==> m.width_mm == resp@[19] && m.height_mm
                == resp@[20] && m.gap_mm == resp@[21] && m.label_type == resp@[22]),
    {
        match self {
            TransportKind::Bluetooth => parse_material(resp),
            TransportKind::UsbHid => parse_usb_material(resp),
        }
    }

    /// Whether `resp` acknowledges `expected_cmd`.
    pub fn validate_response(&self, resp: &[u8], expected_cmd: u8) -> (r: bool)
        ensures
            r == self.acknowledges(resp@, expected_cmd),
    {
        match self {
            TransportKind::Bluetooth => validate_response(resp, expected_cmd),
            TransportKind::UsbHid => resp.len() > 0,
        }
    }

    /// Decode a device-name response; USB reports carry none.
    pub fn parse_device_name_response(&self, resp: &[u8]) -> (r: Option<String>)
        ensures
            *self == TransportKind::UsbHid ==> r is None,
            *self == TransportKind::Bluetooth ==> (r is Some <==> device_name_ok(resp@)),
            r matches Some(t) ==> t@ == utf8_lossy(trim_zeros(name_field(resp@))),
    {
        match self {
            TransportKind::Bluetooth => parse_device_name(resp),
            TransportKind::UsbHid => None,
        }
    }

    /// Decode a firmware-version response; USB reports carry none.
    pub fn parse_firmware_version_response(&self, resp: &[u8]) -> (r: Option<u8>)
        ensures
            *self == TransportKind::UsbHid ==> r is None,
            *self == TransportKind::Bluetooth ==> r == (if resp@.len() > 22 && frame_echoes(resp@, crate::cmd::CMD_READ_FWVER) {
                Some(resp@[22])
            } else {
                None
            }),
    {
        match self {
            TransportKind::Bluetooth => parse_firmware_version(resp),
            TransportKind::UsbHid => None,
        }
    }

    /// Decode a protocol-version response; USB reports carry none.
    pub fn parse_version_response(&self, resp: &[u8]) -> (r: Option<String>)
        ensures
            *self == TransportKind::UsbHid ==> r is None,
            *self == TransportKind::Bluetooth ==> (r is Some <==> version_ok(resp@)),
            r matches Some(t) ==> t@ == utf8_lossy(trim_zeros(resp@.subrange(22, 25))),
    {
        match self {
            TransportKind::Bluetooth => parse_version(resp),
            TransportKind::UsbHid => None,
        }
    }
}

} // verus!
