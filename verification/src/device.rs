//! Device-facing plain types: the port listing entry, the connection
//! configuration, and the chip model names the tool accepts.

use vstd::prelude::*;

use crate::text::upper_of;
use crate::text::uppercase;

verus! {

/// One entry of the plain serial-port listing.
#[derive(Debug, Clone)]
pub struct PortInfo {
    pub name: String,
    pub port_type: String,
}

/// What one device connection is built from.
#[derive(Debug, Clone)]
pub struct DeviceConfig {
    pub chip_type: String,
    pub memory_type: String,
    pub port_name: String,
    pub baud_rate: u32,
}

/// The chip families the tool knows.
#[derive(Debug, Clone, Copy, PartialEq, Eq, Structural)]
pub enum ChipKind {
    Sf32lb52,
    Sf32lb55,
    Sf32lb56,
    Sf32lb58,
}

/// The lowercase key of a chip family, used in stub file names.
pub fn chip_key(kind: &ChipKind) -> (r: &'static str)
    ensures
        match kind {
            ChipKind::Sf32lb52 => r@ == "sf32lb52"@,
            ChipKind::Sf32lb55 => r@ == "sf32lb55"@,
            ChipKind::Sf32lb56 => r@ == "sf32lb56"@,
            ChipKind::Sf32lb58 => r@ == "sf32lb58"@,
        },
{
    match kind {
        ChipKind::Sf32lb52 => "sf32lb52",
        ChipKind::Sf32lb55 => "sf32lb55",
        ChipKind::Sf32lb56 => "sf32lb56",
        ChipKind::Sf32lb58 => "sf32lb58",
    }
}

/// Parses a chip model name, case-insensitively, into the chip family a
/// flashing tool can be built for.  `SF32LB55` connections are not offered
/// by the flashing commands and are rejected here as the tool does.
pub fn parse_chip_model(chip_model: &str) -> (r: Result<ChipKind, String>)
    ensures
        (r matches Ok(k) ==> ((k == ChipKind::Sf32lb52 && upper_of(chip_model@) == "SF32LB52"@) || (
        k == ChipKind::Sf32lb56 && upper_of(chip_model@) == "SF32LB56"@) || (k == ChipKind::Sf32lb58
            && upper_of(chip_model@) == "SF32LB58"@))),
        (r is Err ==> upper_of(chip_model@) != "SF32LB52"@ && upper_of(chip_model@) != "SF32LB56"@
            && upper_of(chip_model@) != "SF32LB58"@),
        (r matches Err(e) ==> e@ == "不支持的芯片型号: "@ + chip_model@),
{
    let upper = uppercase(chip_model);
    if upper == String::from_str("SF32LB52") {
        Ok(ChipKind::Sf32lb52)
    } else if upper == String::from_str("SF32LB56") {
        Ok(ChipKind::Sf32lb56)
    } else if upper == String::from_str("SF32LB58") {
        Ok(ChipKind::Sf32lb58)
    } else {
        let mut e = String::from_str("不支持的芯片型号: ");
        e.append(chip_model);
        Err(e)
    }
}

} // verus!
