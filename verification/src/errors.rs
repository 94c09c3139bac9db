//! Error kinds for each subsystem. Payloads that the surrounding runtime
//! produces as I/O errors are carried as plain messages.

use vstd::prelude::*;

verus! {

/// Errors raised while loading or validating the configuration.
#[derive(Debug, Clone)]
pub enum ConfigError {
    IoError(String),
    TomlError(String),
    ServicesEmpty(String),
    BadIPFormatting(String),
    BadPortsRange(String),
    DirectoryDoesNotExist(String),
    NotInRange(String),
}

/// Errors raised by the storage backends.
#[derive(Debug, Clone, Copy)]
pub enum StorageError {
    ConnectionFailed,
    WriteFailed,
    ReadFailed,
}

/// Errors raised by the sandbox container lifecycle.
#[derive(Debug, Clone)]
pub enum ContainerError {
    RuntimeNotAvailable,
    CreationFailed(String),
    StartFailed(String),
    IoError(String),
    ProcessError(String),
    InsufficientPrivileges,
    ConnectionFailed(String),
}

/// Errors raised while recording a session's traffic.
#[derive(Debug, Clone)]
pub enum CaptureError {
    TcpStreamError(String),
    StdioError(String),
    StorageError(StorageError),
}

/// Errors raised by the session lifecycle engine.
#[derive(Debug, Clone)]
pub enum SessionError {
    CreationFailed,
    ContainerError(ContainerError),
    StorageError(StorageError),
    CaptureError(CaptureError),
    NotFound,
    SessionLimitReached,
}

/// Errors raised by the network listener.
#[derive(Debug, Clone)]
pub enum NetworkError {
    BindError(String),
    ChannelFailed,
    SockError(String),
    ConnectionFailed,
    ServiceDetectionFailed,
    BindFail(String),
}

/// Errors raised by the top-level controller.
#[derive(Debug, Clone)]
pub enum ControllerError {
    ConfigurationError(ConfigError),
    NetworkError(NetworkError),
    SessionError(SessionError),
    ContainerError(ContainerError),
    StorageError(StorageError),
    InitializationFailed(String),
}

} // verus!
