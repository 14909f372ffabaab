//! AF_XDP socket configuration.
pub mod config;

pub use config::{
    BindFlags, LibbpfFlags, SocketConfig, SocketConfigBuilder, SocketConfigError, SocketParams,
    XdpFlags,
};
