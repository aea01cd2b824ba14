use sftool_gui::errors::MassProductionError;
use sftool_gui::filter::is_port_allowed;
use sftool_gui::mass_production::MassProductionFilterField;
use sftool_gui::mass_production::MassProductionFilterRule;
use sftool_gui::mass_production::MassProductionPortInfo;
use sftool_gui::mass_production::MassProductionPortStatus;
use sftool_gui::mass_production::MassProductionStartRequest;
use sftool_gui::mass_production::MassProductionWriteFileInfo;
use sftool_gui::scanner::ScannedPort;
use sftool_gui::session::dispatch_workers;
use sftool_gui::session::finish_task;
use sftool_gui::session::sanitize_request;
use sftool_gui::session::scan_ports;
use sftool_gui::session::set_auto_download;
use sftool_gui::session::start_session;
use sftool_gui::session::stop_session;
use sftool_gui::state::MassProductionState;

fn rule(field: MassProductionFilterField, value: &str, enabled: bool) -> MassProductionFilterRule {
    MassProductionFilterRule {
        id: String::from("r1"),
        field,
        value: String::from(value),
        enabled,
    }
}

fn port(name: &str, vid: Option<&str>, pid: Option<&str>) -> MassProductionPortInfo {
    MassProductionPortInfo {
        id: String::from(name),
        name: String::from(name),
        port_type: String::from("USB (2E3C:0001)"),
        vid: vid.map(String::from),
        pid: pid.map(String::from),
        serial_number: None,
        location_path: Some(String::from(name)),
        chip: None,
        status: MassProductionPortStatus::Idle,
        progress: 0,
        message: None,
        is_allowed: true,
        last_seen_at: 0,
        task_started_at: None,
        task_finished_at: None,
    }
}

fn request(auto_download: bool, max_concurrency: u8) -> MassProductionStartRequest {
    MassProductionStartRequest {
        chip_model: String::from("SF32LB52"),
        memory_type: String::from("nor"),
        baud_rate: Some(1_000_000),
        stub_path: String::from(""),
        before_operation: String::from("no_reset"),
        after_operation: String::from("no_reset"),
        files: vec![MassProductionWriteFileInfo { address: 0x10000000, file_path: String::from("app.bin") }],
        verify: false,
        no_compress: false,
        erase_all: false,
        auto_download,
        max_concurrency,
        is_filter_enabled: false,
        whitelist: Vec::new(),
        blacklist: Vec::new(),
    }
}

fn scanned(name: &str) -> ScannedPort {
    ScannedPort {
        name: String::from(name),
        port_type: String::from("USB (2E3C:0001)"),
        vid: Some(String::from("2E3C")),
        pid: Some(String::from("0001")),
        serial_number: Some(String::from("SN1")),
        location_path: Some(String::from(name)),
    }
}

fn status_of(state: &MassProductionState, name: &str) -> MassProductionPortStatus {
    state
        .ports
        .iter()
        .find(|p| p.name == name)
        .map(|p| p.status)
        .expect("port not in registry")
}

#[test]
fn whitelist_match_allows_port() {
    let p = port("COM3", Some("2E3C"), Some("0001"));
    let mut req = request(true, 2);
    req.is_filter_enabled = true;
    req.whitelist = vec![rule(MassProductionFilterField::VidPid, "2e3c", true)];
    assert!(is_port_allowed(&p, &req));
}

#[test]
fn blacklist_match_rejects_port_despite_whitelist() {
    let p = port("COM3", Some("2E3C"), Some("0001"));
    let mut req = request(true, 2);
    req.is_filter_enabled = true;
    req.whitelist = vec![rule(MassProductionFilterField::VidPid, "2e3c", true)];
    req.blacklist = vec![rule(MassProductionFilterField::VidPid, "0001", true)];
    assert!(!is_port_allowed(&p, &req));
}

#[test]
fn disabled_filter_allows_everything() {
    let p = port("COM3", None, None);
    let mut req = request(true, 2);
    req.is_filter_enabled = false;
    req.blacklist = vec![rule(MassProductionFilterField::PortName, "COM", true)];
    assert!(is_port_allowed(&p, &req));
}

#[test]
fn blank_rule_value_never_matches() {
    let p = port("COM3", Some("2E3C"), Some("0001"));
    let mut req = request(true, 2);
    req.is_filter_enabled = true;
    req.blacklist = vec![rule(MassProductionFilterField::VidPid, "   ", true)];
    assert!(is_port_allowed(&p, &req));
}

#[test]
fn active_whitelist_without_match_rejects() {
    let p = port("COM3", Some("1111", ), Some("2222"));
    let mut req = request(true, 2);
    req.is_filter_enabled = true;
    req.whitelist = vec![rule(MassProductionFilterField::SerialNumber, "xyz", true)];
    assert!(!is_port_allowed(&p, &req));
}

#[test]
fn sanitize_rejects_empty_file_list() {
    let mut req = request(true, 2);
    req.files = Vec::new();
    let r = sanitize_request(req, &Vec::new());
    match r {
        Err(e) => assert_eq!(
            e.message(),
            "未配置固件文件，无法启动量产"
        ),
        Ok(_) => panic!("expected an error"),
    }
}

#[test]
fn sanitize_reports_first_missing_file() {
    let mut req = request(true, 2);
    req.files = vec![
        MassProductionWriteFileInfo { address: 0, file_path: String::from("a.bin") },
        MassProductionWriteFileInfo { address: 4, file_path: String::from("b.bin") },
    ];
    let r = sanitize_request(req, &vec![true, false]);
    match r {
        Err(MassProductionError::FileMissing(p)) => {
            assert_eq!(p, "b.bin");
        },
        _ => panic!("expected a missing-file error"),
    }
}

#[test]
fn sanitize_clamps_concurrency() {
    let low = sanitize_request(request(true, 0), &vec![true]).unwrap();
    assert_eq!(low.max_concurrency, 1);
    let high = sanitize_request(request(true, 200), &vec![true]).unwrap();
    assert_eq!(high.max_concurrency, 32);
    let kept = sanitize_request(request(true, 8), &vec![true]).unwrap();
    assert_eq!(kept.max_concurrency, 8);
}

#[test]
fn priming_scan_and_dispatch_respect_concurrency() {
    // three eligible ports, a ceiling of two: after the priming scan and one
    // dispatch, two ports are flashing and one is queued
    let mut state = MassProductionState::default();
    let enumeration = vec![scanned("COM1"), scanned("COM2"), scanned("COM3")];
    start_session(&mut state, request(true, 2), &vec![true], &enumeration, 1000).unwrap();
    let tasks = dispatch_workers(&mut state, 1001);
    assert_eq!(tasks.len(), 2);
    assert_eq!(tasks[0], "COM1");
    assert_eq!(tasks[1], "COM2");
    assert_eq!(status_of(&state, "COM1"), MassProductionPortStatus::Flashing);
    assert_eq!(status_of(&state, "COM2"), MassProductionPortStatus::Flashing);
    assert_eq!(status_of(&state, "COM3"), MassProductionPortStatus::Queued);
    let snap = state.to_snapshot();
    assert_eq!(snap.active_count, 2);
    assert_eq!(snap.queued_count, 1);
    assert_eq!(snap.total_count, 3);
    // one worker finishes successfully: the queued port is admitted next
    finish_task(&mut state, &String::from("COM1"), true, String::new(), 2000);
    assert_eq!(status_of(&state, "COM1"), MassProductionPortStatus::Success);
    assert_eq!(state.success_count, 1);
    let tasks = dispatch_workers(&mut state, 2001);
    assert_eq!(tasks.len(), 1);
    assert_eq!(tasks[0], "COM3");
    assert_eq!(status_of(&state, "COM3"), MassProductionPortStatus::Flashing);
}

#[test]
fn start_while_running_is_rejected_and_harmless() {
    let mut state = MassProductionState::default();
    let enumeration = vec![scanned("COM1")];
    start_session(&mut state, request(true, 2), &vec![true], &enumeration, 1000).unwrap();
    let session_id = state.session_id;
    let queue_before: Vec<String> = state.queue.clone();
    let r = start_session(&mut state, request(true, 2), &vec![true], &enumeration, 2000);
    match r {
        Err(MassProductionError::AlreadyRunning) => {},
        _ => panic!("expected the already-running error"),
    }
    assert!(state.running);
    assert_eq!(state.session_id, session_id);
    assert_eq!(state.queue, queue_before);
    assert_eq!(state.started_at, Some(1000));
}

#[test]
fn stop_clears_queue_but_not_active_workers() {
    let mut state = MassProductionState::default();
    let enumeration = vec![scanned("COM1"), scanned("COM2"), scanned("COM3")];
    start_session(&mut state, request(true, 2), &vec![true], &enumeration, 1000).unwrap();
    dispatch_workers(&mut state, 1001);
    assert_eq!(state.active_ports.len(), 2);
    assert_eq!(state.queue.len(), 1);
    stop_session(&mut state, 1500);
    assert!(!state.running);
    assert_eq!(state.queue.len(), 0);
    assert_eq!(state.active_ports.len(), 2);
    assert_eq!(state.ended_at, None);
    // the end time appears only once the last worker drains
    finish_task(&mut state, &String::from("COM1"), true, String::new(), 1600);
    assert_eq!(state.ended_at, None);
    finish_task(&mut state, &String::from("COM2"), false, String::from("boom"), 1700);
    assert_eq!(state.ended_at, Some(1700));
    assert_eq!(state.failed_count, 1);
}

#[test]
fn disabling_auto_download_requeues_to_idle() {
    let mut state = MassProductionState::default();
    let enumeration = vec![scanned("COM1"), scanned("COM2"), scanned("COM3")];
    start_session(&mut state, request(true, 1), &vec![true], &enumeration, 1000).unwrap();
    dispatch_workers(&mut state, 1001);
    assert_eq!(status_of(&state, "COM1"), MassProductionPortStatus::Flashing);
    assert_eq!(status_of(&state, "COM2"), MassProductionPortStatus::Queued);
    assert_eq!(status_of(&state, "COM3"), MassProductionPortStatus::Queued);
    set_auto_download(&mut state, false).unwrap();
    assert_eq!(state.queue.len(), 0);
    assert_eq!(status_of(&state, "COM1"), MassProductionPortStatus::Flashing);
    assert_eq!(status_of(&state, "COM2"), MassProductionPortStatus::Idle);
    assert_eq!(status_of(&state, "COM3"), MassProductionPortStatus::Idle);
    let com2 = state.ports.iter().find(|p| p.name == "COM2").unwrap();
    assert_eq!(com2.progress, 0);
    assert_eq!(com2.task_started_at, None);
}

#[test]
fn set_auto_download_without_session_fails() {
    let mut state = MassProductionState::default();
    match set_auto_download(&mut state, true) {
        Err(MassProductionError::NotInitialized) => {},
        _ => panic!("expected the not-initialized error"),
    }
}

#[test]
fn active_port_survives_disappearing_mid_task() {
    let mut state = MassProductionState::default();
    let enumeration = vec![scanned("COM1")];
    start_session(&mut state, request(true, 2), &vec![true], &enumeration, 1000).unwrap();
    dispatch_workers(&mut state, 1001);
    assert_eq!(status_of(&state, "COM1"), MassProductionPortStatus::Flashing);
    // the device disappears while its worker is active: the port is protected
    scan_ports(&mut state, &Vec::new(), false, 2000);
    assert_eq!(status_of(&state, "COM1"), MassProductionPortStatus::Flashing);
    // after the worker completes, the next scan without it disconnects it
    finish_task(&mut state, &String::from("COM1"), true, String::new(), 3000);
    assert_eq!(status_of(&state, "COM1"), MassProductionPortStatus::Success);
    scan_ports(&mut state, &Vec::new(), false, 4000);
    assert_eq!(status_of(&state, "COM1"), MassProductionPortStatus::Disconnected);
}

#[test]
fn filtered_port_is_dropped_from_queue_and_returns() {
    let mut state = MassProductionState::default();
    let mut req = request(true, 1);
    req.is_filter_enabled = true;
    req.whitelist = vec![rule(MassProductionFilterField::VidPid, "2e3c", true)];
    let enumeration = vec![scanned("COM1"), scanned("COM2")];
    start_session(&mut state, req, &vec![true], &enumeration, 1000).unwrap();
    assert_eq!(status_of(&state, "COM1"), MassProductionPortStatus::Queued);
    assert_eq!(status_of(&state, "COM2"), MassProductionPortStatus::Queued);
    // the second device is replaced by one with a different vendor id
    let mut other = scanned("COM2");
    other.vid = Some(String::from("AAAA"));
    other.pid = Some(String::from("BBBB"));
    scan_ports(&mut state, &vec![scanned("COM1"), other], false, 2000);
    assert_eq!(status_of(&state, "COM2"), MassProductionPortStatus::Filtered);
    assert_eq!(state.queue.len(), 1);
    // with the original identity back it becomes idle and is re-queued
    scan_ports(&mut state, &vec![scanned("COM1"), scanned("COM2")], false, 3000);
    assert_eq!(status_of(&state, "COM2"), MassProductionPortStatus::Queued);
}

#[test]
fn snapshot_lists_ports_sorted_by_name() {
    let mut state = MassProductionState::default();
    let enumeration = vec![scanned("COM3"), scanned("COM1"), scanned("COM2")];
    start_session(&mut state, request(false, 2), &vec![true], &enumeration, 1000).unwrap();
    let snap = state.to_snapshot();
    let names: Vec<&str> = snap.ports.iter().map(|p| p.name.as_str()).collect();
    assert_eq!(names, vec!["COM1", "COM2", "COM3"]);
    assert!(snap.is_running);
    assert!(snap.is_enabled);
    assert_eq!(snap.chip_model.as_deref(), Some("SF32LB52"));
    assert_eq!(snap.max_concurrency, 2);
}

#[test]
fn active_count_never_exceeds_clamped_ceiling() {
    let mut state = MassProductionState::default();
    let enumeration: Vec<ScannedPort> =
        (0..40).map(|i| scanned(&format!("COM{i:02}"))).collect();
    start_session(&mut state, request(true, 200), &vec![true], &enumeration, 1000).unwrap();
    dispatch_workers(&mut state, 1001);
    let snap = state.to_snapshot();
    assert_eq!(snap.active_count, 32);
    assert_eq!(snap.queued_count, 8);
}

#[test]
fn error_messages_match_the_tool() {
    assert_eq!(
        MassProductionError::AlreadyRunning.message(),
        "量产任务正在运行，请先停止当前任务"
    );
    assert_eq!(
        MassProductionError::FileMissing(String::from("x.bin")).message(),
        "文件不存在: x.bin"
    );
    assert_eq!(
        MassProductionError::WorkersDraining.message(),
        "仍有端口任务在执行，请稍后再启动新的量产会话"
    );
}
