//! The port snapshot source, on plain values: turns a device name and its
//! transport kind into the identity record the registry tracks, and knows the
//! platform exclusion for duplicate legacy device nodes.

use vstd::prelude::*;

use crate::text::hex4;
use crate::text::hex4_seq;
use crate::text::str_starts_with;

verus! {

/// The transport of an enumerated serial port, with the hardware identity a
/// USB port carries.
#[derive(Debug, Clone)]
pub enum TransportKind {
    Usb { vid: u16, pid: u16, serial_number: Option<String> },
    Bluetooth,
    Pci,
    Unknown,
}

/// The identity record of one enumerated serial port.
#[derive(Debug, Clone)]
pub struct ScannedPort {
    pub name: String,
    pub port_type: String,
    pub vid: Option<String>,
    pub pid: Option<String>,
    pub serial_number: Option<String>,
    pub location_path: Option<String>,
}

/// No port name occurs twice in one enumeration.
pub open spec fn scanned_names_unique(s: Seq<ScannedPort>) -> bool {
    forall|i: int, j: int| 0 <= i < j < s.len() ==> s[i].name@ != s[j].name@
}

/// The enumeration contains a port named `n`.
pub open spec fn scanned_has(s: Seq<ScannedPort>, n: Seq<char>) -> bool {
    exists|i: int| 0 <= i < s.len() && s[i].name@ == n
}

/// The enumerated port named `n` (meaningful when `scanned_has`).
pub open spec fn scanned_at(s: Seq<ScannedPort>, n: Seq<char>) -> ScannedPort {
    s[choose|i: int| 0 <= i < s.len() && s[i].name@ == n]
}

/// A legacy duplicate device node: on systems that expose both, the
/// canonical node is kept and this alias dropped.
pub open spec fn is_legacy_alias(n: Seq<char>) -> bool {
    "/dev/tty"@.len() <= n.len() && n.subrange(0, "/dev/tty"@.len() as int) == "/dev/tty"@
}

/// Decides whether a device name is a legacy duplicate node.
pub fn is_legacy_tty_alias(name: &str) -> (r: bool)
    ensures
        r == is_legacy_alias(name@),
{
    str_starts_with(name, "/dev/tty")
}

/// Builds the identity record for one enumerated port: a USB port yields its
/// vendor and product ids as four uppercase hexadecimal digits each, its
/// serial number, a location path derived from the device name, and a
/// `USB (vid:pid)` category; other transports yield a textual category and
/// no hardware identity.
pub fn scanned_from_transport(name: String, kind: TransportKind) -> (r: ScannedPort)
    ensures
        r.name == name,
        match kind {
            TransportKind::Usb { vid, pid, serial_number } => {
                &&& (r.vid matches Some(v) && v@ == hex4_seq(vid))
                &&& (r.pid matches Some(p) && p@ == hex4_seq(pid))
                &&& r.serial_number == serial_number
                &&& r.location_path == Some(name)
                &&& r.port_type@ == "USB ("@ + hex4_seq(vid) + ":"@ + hex4_seq(pid) + ")"@
            },
            TransportKind::Bluetooth => {
                &&& r.port_type@ == "蓝牙"@
                &&& r.vid is None
                &&& r.pid is None
                &&& r.serial_number is None
                &&& r.location_path is None
            },
            TransportKind::Pci => {
                &&& r.port_type@ == "PCI"@
                &&& r.vid is None
                &&& r.pid is None
                &&& r.serial_number is None
                &&& r.location_path is None
            },
            TransportKind::Unknown => {
                &&& r.port_type@ == "未知"@
                &&& r.vid is None
                &&& r.pid is None
                &&& r.serial_number is None
                &&& r.location_path is None
            },
        },
{
    match kind {
        TransportKind::Usb { vid, pid, serial_number } => {
            let vid_hex = hex4(vid);
            let pid_hex = hex4(pid);
            let mut port_type = String::from_str("USB (");
            port_type.append(vid_hex.as_str());
            port_type.append(":");
            port_type.append(pid_hex.as_str());
            port_type.append(")");
            let location_path = Some(name.clone());
            ScannedPort {
                name,
                port_type,
                vid: Some(vid_hex),
                pid: Some(pid_hex),
                serial_number,
                location_path,
            }
        },
        TransportKind::Bluetooth => ScannedPort {
            name,
            port_type: String::from_str("蓝牙"),
            vid: None,
            pid: None,
            serial_number: None,
            location_path: None,
        },
        TransportKind::Pci => ScannedPort {
            name,
            port_type: String::from_str("PCI"),
            vid: None,
            pid: None,
            serial_number: None,
            location_path: None,
        },
        TransportKind::Unknown => ScannedPort {
            name,
            port_type: String::from_str("未知"),
            vid: None,
            pid: None,
            serial_number: None,
            location_path: None,
        },
    }
}

} // verus!
