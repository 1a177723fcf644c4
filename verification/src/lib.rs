//! Decision and text-building logic of the RustConn main window: jump-host
//! chains, SSH command lines, credential plans, child-exit handling,
//! session logging, group trees, search filters and quick-connect rules.
pub mod actions;
pub mod commands;
pub mod credentials;
pub mod dispatch;
pub mod groups;
pub mod ids;
pub mod jump;
pub mod order;
pub mod quick_connect;
pub mod remote_desktop;
pub mod session_exit;
pub mod session_log;
pub mod ssh_args;
pub mod ssh_session;
pub mod text;
