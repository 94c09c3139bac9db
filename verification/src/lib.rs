//! Session lifecycle engine for a multi-service research honeypot.
//!
//! The library models and verifies the core pipeline: connection filtering
//! and protocol sniffing, sandbox container bookkeeping, the recording TCP
//! proxy, activity-log parsing into per-stream buffers, and the persistence
//! contract for sessions, interaction blobs and capture artifacts.

pub mod activity_log;
pub mod config;
pub mod container;
pub mod detector;
pub mod errors;
pub mod filter;
pub mod fmt_util;
pub mod ids;
pub mod memory_storage;
pub mod obfuscation;
pub mod recorder;
pub mod seq_util;
pub mod session;
pub mod session_manager;
pub mod session_record;
pub mod storage;
pub mod stdio_capture;
pub mod tcp_capture;
pub mod timefmt;
pub mod types;
