//! Verified core of a first-setup tool for Windows Server: configuration
//! validation, task planning, PowerShell framing and the parsing of role queries.

pub mod config;
pub mod text;
pub mod roles;
pub mod powershell;
pub mod runner;
pub mod setup;
