use sftool_gui::config::validate_config_with_device;
use sftool_gui::config::SftoolParamConfig;
use sftool_gui::config::SftoolParamFile;
use sftool_gui::config::WriteFlashCommand;
use sftool_gui::device::chip_key;
use sftool_gui::device::parse_chip_model;
use sftool_gui::device::ChipKind;
use sftool_gui::flash::write_flash_file_spec;
use sftool_gui::logging::format_log_line;
use sftool_gui::logging::port_log_file_name;
use sftool_gui::logging::sanitize_log_filename_fragment;
use sftool_gui::progress::progress_percent;
use sftool_gui::progress::total_from_progress_type;
use sftool_gui::progress::PortProgressTracker;
use sftool_gui::progress::TauriProgressContext;
use sftool_gui::progress::TauriProgressOperation;
use sftool_gui::progress::TauriProgressStatus;
use sftool_gui::progress::TauriProgressType;
use sftool_gui::scanner::is_legacy_tty_alias;
use sftool_gui::scanner::scanned_from_transport;
use sftool_gui::scanner::TransportKind;
use sftool_gui::stub_config_spec::str_to_u32;
use sftool_gui::stub_config_spec::AddressValue;
use sftool_gui::stub_config_spec::PinLevelSpec;
use sftool_gui::stub_config_spec::PinPortSpec;
use sftool_gui::stub_config_spec::PinSpec;
use sftool_gui::stub_config_spec::SizeValue;
use sftool_gui::stub_config_spec::StubConfigSpec;
use sftool_gui::text::hex4;
use sftool_gui::text::hex8;
use sftool_gui::text::lowercase;
use sftool_gui::text::str_contains;
use sftool_gui::text::str_lt_exec;
use sftool_gui::text::str_starts_with;
use sftool_gui::text::u64_to_dec;

#[test]
fn hex_and_decimal_formatting() {
    assert_eq!(hex4(0x2E3C), "2E3C");
    assert_eq!(hex4(0x0001), "0001");
    assert_eq!(hex8(0x10000000), "10000000");
    assert_eq!(hex8(0xDEADBEEF), "DEADBEEF");
    assert_eq!(u64_to_dec(0), "0");
    assert_eq!(u64_to_dec(1234567890), "1234567890");
}

#[test]
fn string_search_and_order() {
    assert!(str_contains("hello world", "lo w"));
    assert!(str_contains("abc", ""));
    assert!(!str_contains("abc", "abcd"));
    assert!(str_lt_exec("COM1", "COM2"));
    assert!(str_lt_exec("COM", "COM1"));
    assert!(!str_lt_exec("COM2", "COM2"));
    assert!(str_starts_with("/dev/ttyUSB0", "/dev/tty"));
    assert!(!str_starts_with("/dev/cu.usb", "/dev/tty"));
    assert_eq!(lowercase("2E3C"), "2e3c");
}

#[test]
fn usb_identity_formatting() {
    let sp = scanned_from_transport(
        String::from("/dev/ttyACM0"),
        TransportKind::Usb { vid: 0x2E3C, pid: 0x0001, serial_number: Some(String::from("SN")) },
    );
    assert_eq!(sp.port_type, "USB (2E3C:0001)");
    assert_eq!(sp.vid.as_deref(), Some("2E3C"));
    assert_eq!(sp.pid.as_deref(), Some("0001"));
    assert_eq!(sp.location_path.as_deref(), Some("/dev/ttyACM0"));
    let bt = scanned_from_transport(String::from("X"), TransportKind::Bluetooth);
    assert_eq!(bt.port_type, "蓝牙");
    assert!(bt.vid.is_none());
    assert!(is_legacy_tty_alias("/dev/ttyS0"));
    assert!(!is_legacy_tty_alias("/dev/cu.usbmodem1"));
}

#[test]
fn progress_percentages() {
    assert_eq!(progress_percent(0, 0), 0);
    assert_eq!(progress_percent(50, 100), 50);
    assert_eq!(progress_percent(7, 3), 100);
    assert_eq!(progress_percent(u64::MAX, 1), 100);
    assert_eq!(
        total_from_progress_type(&TauriProgressType::Bar { total: 42 }),
        Some(42)
    );
    assert_eq!(total_from_progress_type(&TauriProgressType::Spinner), None);
}

#[test]
fn tracker_follows_a_write_flash_stream() {
    let mut tracker = PortProgressTracker::new();
    let ctx = TauriProgressContext {
        step: 1,
        progress_type: TauriProgressType::Bar { total: 200 },
        operation: TauriProgressOperation::WriteFlash,
    };
    let u = tracker.on_start(7, ctx, Some(0));
    assert_eq!(u.progress, Some(0));
    assert_eq!(u.message.as_deref(), Some("Flashing"));
    let u = tracker.on_advance(7, 100);
    assert_eq!(u.progress, Some(50));
    let u = tracker.on_advance(7, 100);
    assert_eq!(u.progress, Some(100));
    let done = tracker.on_finish(7, &TauriProgressStatus::Success);
    assert!(done);
    // an unknown stream or a non-write operation never completes the port
    assert!(!tracker.on_finish(7, &TauriProgressStatus::Success));
    let spin = TauriProgressContext {
        step: 2,
        progress_type: TauriProgressType::Spinner,
        operation: TauriProgressOperation::Connect,
    };
    let u = tracker.on_start(8, spin, None);
    assert_eq!(u.message.as_deref(), Some("Connecting"));
    assert!(!tracker.on_finish(8, &TauriProgressStatus::Success));
}

#[test]
fn log_names_and_lines() {
    assert_eq!(sanitize_log_filename_fragment("/dev/ttyUSB0"), "dev_ttyUSB0");
    assert_eq!(sanitize_log_filename_fragment("___"), "unknown-port");
    assert_eq!(sanitize_log_filename_fragment("COM3"), "COM3");
    assert_eq!(
        port_log_file_name(5, "COM3"),
        "mass-production-port-session-5-COM3.log"
    );
    assert_eq!(
        format_log_line(123, "INFO", "hello\r\nworld"),
        "[123][INFO] hello\nworld\n"
    );
}

#[test]
fn config_validation_reports_mismatches() {
    let config = SftoolParamConfig {
        chip: String::from("SF32LB52"),
        memory: None,
        port: None,
        baud: None,
        before: None,
        after: None,
        connect_attempts: None,
        compat: None,
        quiet: None,
        write_flash: Some(WriteFlashCommand {
            verify: None,
            erase_all: None,
            no_compress: None,
            files: vec![SftoolParamFile { path: String::from("a.bin"), address: None }],
        }),
    };
    let ok = validate_config_with_device(
        &config,
        Some(String::from("sf32lb52")),
        Some(String::from("NOR")),
    );
    assert!(ok.is_valid);
    assert!(ok.errors.is_empty());
    assert_eq!(ok.config_memory.as_deref(), Some("nor"));
    let bad = validate_config_with_device(
        &config,
        Some(String::from("SF32LB56")),
        Some(String::from("nand")),
    );
    assert!(!bad.is_valid);
    assert_eq!(bad.chip_mismatch, Some(true));
    assert_eq!(bad.memory_mismatch, Some(true));
    assert_eq!(bad.errors.len(), 2);
    assert_eq!(
        bad.errors[0],
        "芯片类型不匹配: 当前设备 SF32LB56，配置文件 SF32LB52"
    );
    let mut no_wf = config;
    no_wf.write_flash = None;
    let r = validate_config_with_device(&no_wf, None, None);
    assert!(!r.is_valid);
    assert_eq!(r.errors, vec![String::from("配置文件中没有找到有效的write_flash命令")]);
}

#[test]
fn chip_model_parsing() {
    assert_eq!(parse_chip_model("sf32lb52").unwrap(), ChipKind::Sf32lb52);
    assert_eq!(parse_chip_model("SF32LB56").unwrap(), ChipKind::Sf32lb56);
    assert_eq!(parse_chip_model("Sf32Lb58").unwrap(), ChipKind::Sf32lb58);
    match parse_chip_model("SF32LB55") {
        Err(e) => assert_eq!(e, "不支持的芯片型号: SF32LB55"),
        Ok(_) => panic!("expected an error"),
    }
    assert_eq!(chip_key(&ChipKind::Sf32lb55), "sf32lb55");
}

#[test]
fn write_flash_file_strings() {
    assert_eq!(write_flash_file_spec("app.elf", 0), "app.elf");
    assert_eq!(
        write_flash_file_spec("app.bin", 0x10000000),
        "app.bin@0x10000000"
    );
}

#[test]
fn number_parsing_with_radix_and_suffix() {
    assert_eq!(str_to_u32("0x10"), Some(16));
    assert_eq!(str_to_u32("0b101"), Some(5));
    assert_eq!(str_to_u32("0o17"), Some(15));
    assert_eq!(str_to_u32("12k"), Some(12_000));
    assert_eq!(str_to_u32("2M"), Some(2_000_000));
    assert_eq!(str_to_u32("1G"), Some(1_000_000_000));
    assert_eq!(str_to_u32(" 42 "), Some(42));
    assert_eq!(str_to_u32("+10"), Some(10));
    assert_eq!(str_to_u32("4294967295"), Some(u32::MAX));
    assert_eq!(str_to_u32("4294967296"), None);
    assert_eq!(str_to_u32("5G"), None);
    assert_eq!(str_to_u32("abc"), None);
    assert_eq!(str_to_u32(""), None);
    assert_eq!(str_to_u32("0x"), None);
}

#[test]
fn stub_config_round_trip() {
    let spec = StubConfigSpec {
        pins: vec![PinSpec { port: PinPortSpec::Pa, number: 3, level: PinLevelSpec::High }],
        flash: Vec::new(),
        pmic: None,
        sd0: None,
    };
    let resolved = spec.to_stub_config().unwrap();
    assert_eq!(resolved.pins.len(), 1);
    let back = StubConfigSpec::from_stub_config(&resolved);
    assert_eq!(back.pins.len(), 1);
    assert_eq!(back.pins[0].number, 3);
    // thirteen pins exceed the stub's limit
    let too_many = StubConfigSpec {
        pins: vec![PinSpec { port: PinPortSpec::Pb, number: 0, level: PinLevelSpec::Low }; 13],
        flash: Vec::new(),
        pmic: None,
        sd0: None,
    };
    assert!(too_many.to_stub_config().is_err());
    // a size in text form resolves through the number grammar
    assert_eq!(SizeValue::Number(4096).to_u32(), Some(4096));
    assert_eq!(SizeValue::Text(String::from("4k")).to_u32(), Some(4000));
    // addresses refuse magnitude suffixes
    assert_eq!(AddressValue::Text(String::from("4k")).to_u32(), None);
    assert_eq!(AddressValue::Text(String::from("0x60000000")).to_u32(), Some(0x6000_0000));
}
