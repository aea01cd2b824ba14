//! Data model of the mass-production orchestrator: filter rules, the per-port
//! record with its status machine, the start request, and the read-only
//! snapshot handed to observers.

use vstd::prelude::*;

verus! {

/// Which attribute of a port a filter rule inspects.
#[derive(Debug, Clone, Copy, PartialEq, Eq, Structural)]
pub enum MassProductionFilterField {
    VidPid,
    SerialNumber,
    LocationPath,
    PortName,
}

/// One whitelist or blacklist entry.  A rule with an empty trimmed value
/// never matches; matching is case-insensitive substring containment.
#[derive(Debug, Clone)]
pub struct MassProductionFilterRule {
    pub id: String,
    pub field: MassProductionFilterField,
    pub value: String,
    pub enabled: bool,
}

/// The per-port state machine.  `Filtered` and `Disconnected` are reachable
/// from any non-active state and can return to `Idle` when the disqualifying
/// condition clears.
#[derive(Debug, Clone, Copy, PartialEq, Eq, Structural)]
pub enum MassProductionPortStatus {
    Idle,
    Queued,
    Flashing,
    Success,
    Error,
    Filtered,
    Disconnected,
}

/// One firmware image and the flash address it is written to.
#[derive(Debug, Clone)]
pub struct MassProductionWriteFileInfo {
    pub address: u32,
    pub file_path: String,
}

/// Everything a session needs to run.  Immutable once a session starts,
/// except for `auto_download`, which may be toggled live.
#[derive(Debug, Clone)]
pub struct MassProductionStartRequest {
    pub chip_model: String,
    pub memory_type: String,
    pub baud_rate: Option<u32>,
    pub stub_path: String,
    pub before_operation: String,
    pub after_operation: String,
    pub files: Vec<MassProductionWriteFileInfo>,
    pub verify: bool,
    pub no_compress: bool,
    pub erase_all: bool,
    pub auto_download: bool,
    pub max_concurrency: u8,
    pub is_filter_enabled: bool,
    pub whitelist: Vec<MassProductionFilterRule>,
    pub blacklist: Vec<MassProductionFilterRule>,
}

/// One attached or recently-seen serial device, keyed by its OS device name.
#[derive(Debug, Clone)]
pub struct MassProductionPortInfo {
    pub id: String,
    pub name: String,
    pub port_type: String,
    pub vid: Option<String>,
    pub pid: Option<String>,
    pub serial_number: Option<String>,
    pub location_path: Option<String>,
    pub chip: Option<String>,
    pub status: MassProductionPortStatus,
    pub progress: u8,
    pub message: Option<String>,
    pub is_allowed: bool,
    pub last_seen_at: u64,
    pub task_started_at: Option<u64>,
    pub task_finished_at: Option<u64>,
}

/// A read-only projection of the session state for observers.
#[derive(Debug, Clone)]
pub struct MassProductionSnapshot {
    pub is_running: bool,
    pub is_enabled: bool,
    pub session_id: u64,
    pub started_at: Option<u64>,
    pub ended_at: Option<u64>,
    pub manual_stopped: bool,
    pub chip_model: Option<String>,
    pub memory_type: Option<String>,
    pub auto_download: bool,
    pub max_concurrency: u8,
    pub queued_count: u32,
    pub active_count: u32,
    pub success_count: u32,
    pub failed_count: u32,
    pub total_count: u32,
    pub ports: Vec<MassProductionPortInfo>,
}

impl Default for MassProductionSnapshot {
    /// The snapshot of a session that has never been started.
    fn default() -> (r: MassProductionSnapshot)
        ensures
            !r.is_running,
            !r.is_enabled,
            r.session_id == 0,
            r.started_at is None,
            r.ended_at is None,
            !r.manual_stopped,
            r.chip_model is None,
            r.memory_type is None,
            !r.auto_download,
            r.max_concurrency == 8,
            r.queued_count == 0,
            r.active_count == 0,
            r.success_count == 0,
            r.failed_count == 0,
            r.total_count == 0,
            r.ports@.len() == 0,
    {
        MassProductionSnapshot {
            is_running: false,
            is_enabled: false,
            session_id: 0,
            started_at: None,
            ended_at: None,
            manual_stopped: false,
            chip_model: None,
            memory_type: None,
            auto_download: false,
            max_concurrency: 8,
            queued_count: 0,
            active_count: 0,
            success_count: 0,
            failed_count: 0,
            total_count: 0,
            ports: Vec::new(),
        }
    }
}

/// A per-port progress notification for observers.
#[derive(Debug, Clone)]
pub struct MassProductionProgressEvent {
    pub port_name: String,
    pub event: crate::progress::TauriProgressEvent,
}

/// Where the durable session and per-port logs live.
#[derive(Debug, Clone)]
pub struct MassProductionLogPaths {
    pub settings_path: String,
    pub session_log_path: String,
    pub runtime_log_dir: String,
    pub runtime_log_path: String,
}

} // verus!
