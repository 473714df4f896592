//! The command-log machinery: following the log that the shell hook writes,
//! and installing that hook.
pub mod init;
pub mod realtime;
