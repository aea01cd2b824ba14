//! Validation errors: the only failures the orchestrator reports to its
//! caller.  Everything else is absorbed into port state and counters.

use vstd::prelude::*;

verus! {

/// A rejected request or lifecycle call.  No state is mutated when one of
/// these is returned.
#[derive(Debug, Clone)]
pub enum MassProductionError {
    /// The start request names no firmware files.
    NoFiles,
    /// A referenced firmware file does not exist; carries its path.
    FileMissing(String),
    /// A session is already running.
    AlreadyRunning,
    /// Workers of a previous session are still draining.
    WorkersDraining,
    /// No session has been configured yet.
    NotInitialized,
}

impl MassProductionError {
    /// The human-readable description of the error.
    pub fn message(&self) -> (r: String)
        ensures
            match self {
                MassProductionError::NoFiles => r@ == "未配置固件文件，无法启动量产"@,
                MassProductionError::FileMissing(p) => r@ == "文件不存在: "@ + p@,
                MassProductionError::AlreadyRunning => r@
                    == "量产任务正在运行，请先停止当前任务"@,
                MassProductionError::WorkersDraining => r@
                    == "仍有端口任务在执行，请稍后再启动新的量产会话"@,
                MassProductionError::NotInitialized => r@
                    == "量产任务未初始化，无法更新插入自动下载配置"@,
            },
    {
        match self {
            MassProductionError::NoFiles => String::from_str(
                "未配置固件文件，无法启动量产",
            ),
            MassProductionError::FileMissing(p) => {
                let mut s = String::from_str("文件不存在: ");
                s.append(p.as_str());
                s
            },
            MassProductionError::AlreadyRunning => String::from_str(
                "量产任务正在运行，请先停止当前任务",
            ),
            MassProductionError::WorkersDraining => String::from_str(
                "仍有端口任务在执行，请稍后再启动新的量产会话",
            ),
            MassProductionError::NotInitialized => String::from_str(
                "量产任务未初始化，无法更新插入自动下载配置",
            ),
        }
    }
}

} // verus!
