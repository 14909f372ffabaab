//! Configuration, frame bookkeeping and UMEM access logic for AF_XDP sockets.
//!
//! The UMEM is a region of memory divided into equal-sized frames that an
//! AF_XDP socket shares with the kernel. This crate checks the settings of
//! the UMEM and of the socket, lays out the frames, reads and writes the
//! data of a frame and keeps track of which frames are free, filled or
//! handed to the kernel on the sending and the receiving side.
use vstd::prelude::*;

pub mod iface;
pub mod socket;
pub mod umem;
pub mod util;
pub mod xsk;

pub use socket::{BindFlags, LibbpfFlags, SocketConfig, SocketConfigBuilder, XdpFlags};
pub use umem::{AccessError, DataError, Frame, UmemConfig, UmemConfigBuilder, WriteError};

verus! {

} // verus!
