//! The firmware parameter-file model and its validation against the device
//! the user is connected to.  Reading and decoding the file itself is the
//! surrounding application's job; the compatibility rules live here.

use vstd::prelude::*;

use crate::text::lower_of;
use crate::text::lowercase;

verus! {

/// One firmware file entry of a parameter file.
#[derive(Debug, Clone)]
pub struct SftoolParamFile {
    pub path: String,
    pub address: Option<String>,
}

/// The write-flash command of a parameter file.
#[derive(Debug, Clone)]
pub struct WriteFlashCommand {
    pub verify: Option<bool>,
    pub erase_all: Option<bool>,
    pub no_compress: Option<bool>,
    pub files: Vec<SftoolParamFile>,
}

/// A decoded parameter file.
#[derive(Debug, Clone)]
pub struct SftoolParamConfig {
    pub chip: String,
    pub memory: Option<String>,
    pub port: Option<String>,
    pub baud: Option<u32>,
    pub before: Option<String>,
    pub after: Option<String>,
    pub connect_attempts: Option<u32>,
    pub compat: Option<bool>,
    pub quiet: Option<bool>,
    pub write_flash: Option<WriteFlashCommand>,
}

/// The verdict on a parameter file against the connected device.
#[derive(Debug, Clone)]
pub struct ConfigValidationResult {
    pub is_valid: bool,
    pub chip_mismatch: Option<bool>,
    pub memory_mismatch: Option<bool>,
    pub current_chip: Option<String>,
    pub current_memory: Option<String>,
    pub config_chip: Option<String>,
    pub config_memory: Option<String>,
    pub errors: Vec<String>,
    pub warnings: Vec<String>,
}

/// One file extracted from an archive or parameter file.
#[derive(Debug, Clone)]
pub struct ExtractedFile {
    pub path: String,
    pub address: String,
    pub name: String,
    pub size: u64,
}

/// A decoded parameter file together with its validation verdict and the
/// files it references.
#[derive(Debug, Clone)]
pub struct SftoolParamParseResult {
    pub config: SftoolParamConfig,
    pub validation: ConfigValidationResult,
    pub extracted_files: Vec<ExtractedFile>,
}

/// The memory type a parameter file names, with its default.
pub open spec fn config_memory_view(config: SftoolParamConfig) -> Seq<char> {
    match config.memory {
        Some(m) => m@,
        None => "nor"@,
    }
}

/// The configured chip differs from the connected one, compared
/// case-insensitively.
pub open spec fn chip_mismatch_spec(config: SftoolParamConfig, current_chip: Option<String>) -> bool {
    match current_chip {
        Some(c) => lower_of(c@) != lower_of(config.chip@),
        None => false,
    }
}

/// The configured memory type differs from the connected one, compared
/// case-insensitively.
pub open spec fn memory_mismatch_spec(
    config: SftoolParamConfig,
    current_memory: Option<String>,
) -> bool {
    match current_memory {
        Some(m) => lower_of(m@) != lower_of(config_memory_view(config)),
        None => false,
    }
}

/// The parameter file has no write-flash command.
pub open spec fn write_flash_missing(config: SftoolParamConfig) -> bool {
    config.write_flash is None
}

/// The parameter file has a write-flash command with no files.
pub open spec fn write_flash_empty(config: SftoolParamConfig) -> bool {
    match config.write_flash {
        Some(wf) => wf.files@.len() == 0,
        None => false,
    }
}

/// The views of a list of strings.
pub open spec fn views_of(v: Seq<String>) -> Seq<Seq<char>> {
    Seq::new(v.len(), |i: int| v[i]@)
}

/// Validates a decoded parameter file against the connected device: the
/// chip and memory type must match case-insensitively where a device is
/// connected, and a non-empty write-flash command must be present.  Each
/// violation contributes one error, in a fixed order.
pub fn validate_config_with_device(
    config: &SftoolParamConfig,
    current_chip: Option<String>,
    current_memory: Option<String>,
) -> (r: ConfigValidationResult)
    ensures
        r.is_valid == !(chip_mismatch_spec(*config, current_chip) || memory_mismatch_spec(
            *config,
            current_memory,
        ) || write_flash_missing(*config) || write_flash_empty(*config)),
        r.chip_mismatch == if chip_mismatch_spec(*config, current_chip) {
            Some(true)
        } else {
            None::<bool>
        },
        r.memory_mismatch == if memory_mismatch_spec(*config, current_memory) {
            Some(true)
        } else {
            None::<bool>
        },
        r.current_chip == current_chip,
        r.current_memory == current_memory,
        (r.config_chip matches Some(c) && c@ == config.chip@),
        (r.config_memory matches Some(m) && m@ == config_memory_view(*config)),
        r.warnings@.len() == 0,
        views_of(r.errors@) == (if chip_mismatch_spec(*config, current_chip) {
            seq![
                "芯片类型不匹配: 当前设备 "@ + current_chip->Some_0@ + "，配置文件 "@
                    + config.chip@,
            ]
        } else {
            Seq::empty()
        }) + (if memory_mismatch_spec(*config, current_memory) {
            seq![
                "存储器类型不匹配: 当前设备 "@ + current_memory->Some_0@
                    + "，配置文件 "@ + config_memory_view(*config),
            ]
        } else {
            Seq::empty()
        }) + (if write_flash_missing(*config) {
            seq!["配置文件中没有找到有效的write_flash命令"@]
        } else if write_flash_empty(*config) {
            seq!["配置文件中write_flash命令的文件列表为空"@]
        } else {
            Seq::empty()
        }),
{
    let config_memory: String = match &config.memory {
        Some(m) => m.clone(),
        None => String::from_str("nor"),
    };
    let mut errors: Vec<String> = Vec::new();
    let mut is_valid = true;
    let mut chip_mismatch: Option<bool> = None;
    let mut memory_mismatch: Option<bool> = None;
    match &current_chip {
        Some(current) => {
            let lc = lowercase(current.as_str());
            let lk = lowercase(config.chip.as_str());
            if !(lc == lk) {
                chip_mismatch = Some(true);
                is_valid = false;
                let mut msg = String::from_str("芯片类型不匹配: 当前设备 ");
                msg.append(current.as_str());
                msg.append("，配置文件 ");
                msg.append(config.chip.as_str());
                errors.push(msg);
            }
        },
        None => {},
    }
    match &current_memory {
        Some(current) => {
            let lc = lowercase(current.as_str());
            let lk = lowercase(config_memory.as_str());
            if !(lc == lk) {
                memory_mismatch = Some(true);
                is_valid = false;
                let mut msg = String::from_str("存储器类型不匹配: 当前设备 ");
                msg.append(current.as_str());
                msg.append("，配置文件 ");
                msg.append(config_memory.as_str());
                errors.push(msg);
            }
        },
        None => {},
    }
    match &config.write_flash {
        None => {
            is_valid = false;
            errors.push(String::from_str("配置文件中没有找到有效的write_flash命令"));
        },
        Some(write_flash) => {
            if write_flash.files.len() == 0 {
                is_valid = false;
                errors.push(
                    String::from_str("配置文件中write_flash命令的文件列表为空"),
                );
            }
        },
    }
    let r = ConfigValidationResult {
        is_valid,
        chip_mismatch,
        memory_mismatch,
        current_chip,
        current_memory,
        config_chip: Some(config.chip.clone()),
        config_memory: Some(config_memory),
        errors,
        warnings: Vec::new(),
    };
    proof {
        assert(views_of(r.errors@) =~= (if chip_mismatch_spec(*config, r.current_chip) {
            seq![
                "芯片类型不匹配: 当前设备 "@ + r.current_chip->Some_0@
                    + "，配置文件 "@ + config.chip@,
            ]
        } else {
            Seq::<Seq<char>>::empty()
        }) + (if memory_mismatch_spec(*config, r.current_memory) {
            seq![
                "存储器类型不匹配: 当前设备 "@ + r.current_memory->Some_0@
                    + "，配置文件 "@ + config_memory_view(*config),
            ]
        } else {
            Seq::<Seq<char>>::empty()
        }) + (if write_flash_missing(*config) {
            seq!["配置文件中没有找到有效的write_flash命令"@]
        } else if write_flash_empty(*config) {
            seq!["配置文件中write_flash命令的文件列表为空"@]
        } else {
            Seq::<Seq<char>>::empty()
        }));
    }
    r
}

} // verus!
