//! The UMEM: its configuration, its frames and the checks on access to them.
pub mod config;
pub mod frame;

pub use config::{UmemConfig, UmemConfigBuilder, UmemConfigError, UmemParams};
pub use frame::{AccessError, DataError, Frame, FrameStatus, WriteError};
