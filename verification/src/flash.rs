//! Flash operation requests on plain values, and the `file@address` form
//! the flashing tool parses.

use vstd::prelude::*;

use crate::text::hex8;
use crate::text::hex8_seq;

verus! {

/// A write-flash request: files with target addresses and the write flags.
#[derive(Debug, Clone)]
pub struct WriteFlashRequest {
    pub files: Vec<WriteFlashFileInfo>,
    pub verify: bool,
    pub no_compress: bool,
    pub erase_all: bool,
}

/// One firmware image and the address it is written to.
#[derive(Debug, Clone)]
pub struct WriteFlashFileInfo {
    pub address: u32,
    pub file_path: String,
}

/// A read-flash request.
#[derive(Debug, Clone)]
pub struct ReadFlashRequest {
    pub files: Vec<ReadFlashFileInfo>,
}

/// One region to read out of flash into a file.
#[derive(Debug, Clone)]
pub struct ReadFlashFileInfo {
    pub file_path: String,
    pub address: u32,
    pub size: u32,
}

/// The `file@address` form handed to the flashing tool: the bare path when
/// the address is zero (so image formats carrying their own addresses are
/// auto-detected), else the path with an eight-digit hexadecimal address.
pub fn write_flash_file_spec(file_path: &str, address: u32) -> (r: String)
    ensures
        address == 0 ==> r@ == file_path@,
        address != 0 ==> r@ == file_path@ + "@0x"@ + hex8_seq(address),
{
    if address == 0 {
        String::from_str(file_path)
    } else {
        let mut s = String::from_str(file_path);
        s.append("@0x");
        let h = hex8(address);
        s.append(h.as_str());
        s
    }
}

} // verus!
