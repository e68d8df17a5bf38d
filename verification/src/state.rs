//! The shared state's vocabulary: the health of the system, the state of
//! the network and of the connection to the backend, and the kinds of
//! change that widgets can follow.

use vstd::prelude::*;

verus! {

/// How the system is doing.
#[derive(Debug, Clone, Copy, PartialEq, Eq, Structural)]
pub enum SystemHealth {
    Healthy,
    Warning,
    Critical,
}

/// Whether the network can be reached.
#[derive(Debug, Clone, Copy, PartialEq, Eq, Structural)]
pub enum NetworkStatus {
    Connected,
    Disconnected,
    Limited,
}

/// The connection to the backend.
#[derive(Debug)]
pub enum ConnectionStatus {
    Connected,
    Connecting,
    Disconnected,
    Error(String),
}

/// The kinds of change to the shared state that a widget can follow.
#[derive(Debug, Clone, Copy, PartialEq, Eq, Structural, Hash)]
pub enum StateChangeEventType {
    Workflows,
    Executions,
    Tools,
    Plugins,
    SystemStatus,
    Logs,
    Connection,
    Metrics,
    All,
}

/// The text shown for the connection to the backend.
pub open spec fn connection_text(s: ConnectionStatus) -> Seq<char> {
    match s {
        ConnectionStatus::Connected => "已连接"@,
        ConnectionStatus::Connecting => "连接中..."@,
        ConnectionStatus::Disconnected => "未连接"@,
        ConnectionStatus::Error(e) => "错误: "@ + e@,
    }
}

/// The text shown for the connection to the backend.
pub fn connection_status_string(status: &ConnectionStatus) -> (res: String)
    ensures
        res@ == connection_text(*status),
{
    match status {
        ConnectionStatus::Connected => String::from_str("已连接"),
        ConnectionStatus::Connecting => String::from_str("连接中..."),
        ConnectionStatus::Disconnected => String::from_str("未连接"),
        ConnectionStatus::Error(e) => {
            let mut s = String::from_str("错误: ");
            s.append(e.as_str());
            s
        },
    }
}

} // verus!
