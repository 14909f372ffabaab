use vstd::prelude::*;

use crate::umem::config::{XSK_RING_CONS_DEFAULT_NUM_DESCS, XSK_RING_PROD_DEFAULT_NUM_DESCS};
use crate::util::{is_pow_of_two, is_power_of_two};

verus! {

/// Flags handed to libbpf when the socket is created.
#[derive(Debug, Clone, Copy, PartialEq, Eq, Structural)]
pub struct LibbpfFlags {
    bits: u32,
}

impl View for LibbpfFlags {
    type V = u32;

    closed spec fn view(&self) -> u32 {
        self.bits
    }
}

impl LibbpfFlags {
    #[allow(non_snake_case)]
    pub fn XSK_LIBBPF_FLAGS__INHIBIT_PROG_LOAD() -> (r: LibbpfFlags)
        ensures
            r@ == 1,
    {
        LibbpfFlags { bits: 1 }
    }

    /// The flags that carry a name.
    pub open spec fn known_bits() -> u32 {
        1
    }

    /// The value with no flag set.
    pub closed spec fn none() -> Self {
        LibbpfFlags { bits: 0 }
    }

    /// No flag set.
    pub fn empty() -> (r: Self)
        ensures
            r == Self::none(),
            r@ == 0,
    {
        LibbpfFlags { bits: 0 }
    }

    /// Every named flag set.
    pub fn all() -> (r: Self)
        ensures
            r@ == Self::known_bits(),
    {
        LibbpfFlags { bits: 1 }
    }

    /// The raw bits of the flags.
    pub fn bits(&self) -> (r: u32)
        ensures
            r == self@,
    {
        self.bits
    }

    /// The named flags among `bits`; other bits are dropped.
    pub fn from_bits_truncate(bits: u32) -> (r: Self)
        ensures
            r@ == bits & Self::known_bits(),
    {
        LibbpfFlags { bits: bits & 1 }
    }

    /// Whether every flag of `other` is set in `self`.
    pub fn contains(&self, other: Self) -> (r: bool)
        ensures
            r == (self@ & other@ == other@),
    {
        self.bits & other.bits == other.bits
    }

    /// The flags set in `self` or in `other`.
    pub fn union(self, other: Self) -> (r: Self)
        ensures
            r@ == self@ | other@,
    {
        LibbpfFlags { bits: self.bits | other.bits }
    }
}

/// AF_XDP configuration flags.
#[derive(Debug, Clone, Copy, PartialEq, Eq, Structural)]
pub struct XdpFlags {
    bits: u32,
}

impl View for XdpFlags {
    type V = u32;

    closed spec fn view(&self) -> u32 {
        self.bits
    }
}

impl XdpFlags {
    #[allow(non_snake_case)]
    pub fn XDP_FLAGS_UPDATE_IF_NOEXIST() -> (r: XdpFlags)
        ensures
            r@ == 1,
    {
        XdpFlags { bits: 1 }
    }
    /// A socket buffer is allocated for each packet processed; a fall-back for drivers without XDP support, slower than DRV_MODE.
    #[allow(non_snake_case)]
    pub fn XDP_FLAGS_SKB_MODE() -> (r: XdpFlags)
        ensures
            r@ == 2,
    {
        XdpFlags { bits: 2 }
    }
    /// XDP driver mode, which bypasses the socket buffer path.
    #[allow(non_snake_case)]
    pub fn XDP_FLAGS_DRV_MODE() -> (r: XdpFlags)
        ensures
            r@ == 4,
    {
        XdpFlags { bits: 4 }
    }
    #[allow(non_snake_case)]
    pub fn XDP_FLAGS_HW_MODE() -> (r: XdpFlags)
        ensures
            r@ == 8,
    {
        XdpFlags { bits: 8 }
    }
    #[allow(non_snake_case)]
    pub fn XDP_FLAGS_REPLACE() -> (r: XdpFlags)
        ensures
            r@ == 16,
    {
        XdpFlags { bits: 16 }
    }

    /// The flags that carry a name.
    pub open spec fn known_bits() -> u32 {
        31
    }

    /// The value with no flag set.
    pub closed spec fn none() -> Self {
        XdpFlags { bits: 0 }
    }

    /// No flag set.
    pub fn empty() -> (r: Self)
        ensures
            r == Self::none(),
            r@ == 0,
    {
        XdpFlags { bits: 0 }
    }

    /// Every named flag set.
    pub fn all() -> (r: Self)
        ensures
            r@ == Self::known_bits(),
    {
        XdpFlags { bits: 31 }
    }

    /// The raw bits of the flags.
    pub fn bits(&self) -> (r: u32)
        ensures
            r == self@,
    {
        self.bits
    }

    /// The named flags among `bits`; other bits are dropped.
    pub fn from_bits_truncate(bits: u32) -> (r: Self)
        ensures
            r@ == bits & Self::known_bits(),
    {
        XdpFlags { bits: bits & 31 }
    }

    /// Whether every flag of `other` is set in `self`.
    pub fn contains(&self, other: Self) -> (r: bool)
        ensures
            r == (self@ & other@ == other@),
    {
        self.bits & other.bits == other.bits
    }

    /// The flags set in `self` or in `other`.
    pub fn union(self, other: Self) -> (r: Self)
        ensures
            r@ == self@ | other@,
    {
        XdpFlags { bits: self.bits | other.bits }
    }
}

/// AF_XDP bind flags.
#[derive(Debug, Clone, Copy, PartialEq, Eq, Structural)]
pub struct BindFlags {
    bits: u16,
}

impl View for BindFlags {
    type V = u16;

    closed spec fn view(&self) -> u16 {
        self.bits
    }
}

impl BindFlags {
    /// Allows binding multiple sockets to the same UMEM.
    #[allow(non_snake_case)]
    pub fn XDP_SHARED_UMEM() -> (r: BindFlags)
        ensures
            r@ == 1,
    {
        BindFlags { bits: 1 }
    }
    /// Packets are copied from userspace.
    #[allow(non_snake_case)]
    pub fn XDP_COPY() -> (r: BindFlags)
        ensures
            r@ == 2,
    {
        BindFlags { bits: 2 }
    }
    /// Packets are not copied from userspace.
    #[allow(non_snake_case)]
    pub fn XDP_ZEROCOPY() -> (r: BindFlags)
        ensures
            r@ == 4,
    {
        BindFlags { bits: 4 }
    }
    /// The kernel must be woken up by a system call to process packets.
    #[allow(non_snake_case)]
    pub fn XDP_USE_NEED_WAKEUP() -> (r: BindFlags)
        ensures
            r@ == 8,
    {
        BindFlags { bits: 8 }
    }

    /// The flags that carry a name.
    pub open spec fn known_bits() -> u16 {
        15
    }

    /// The value with no flag set.
    pub closed spec fn none() -> Self {
        BindFlags { bits: 0 }
    }

    /// No flag set.
    pub fn empty() -> (r: Self)
        ensures
            r == Self::none(),
            r@ == 0,
    {
        BindFlags { bits: 0 }
    }

    /// Every named flag set.
    pub fn all() -> (r: Self)
        ensures
            r@ == Self::known_bits(),
    {
        BindFlags { bits: 15 }
    }

    /// The raw bits of the flags.
    pub fn bits(&self) -> (r: u16)
        ensures
            r == self@,
    {
        self.bits
    }

    /// The named flags among `bits`; other bits are dropped.
    pub fn from_bits_truncate(bits: u16) -> (r: Self)
        ensures
            r@ == bits & Self::known_bits(),
    {
        BindFlags { bits: bits & 15 }
    }

    /// Whether every flag of `other` is set in `self`.
    pub fn contains(&self, other: Self) -> (r: bool)
        ensures
            r == (self@ & other@ == other@),
    {
        self.bits & other.bits == other.bits
    }

    /// The flags set in `self` or in `other`.
    pub fn union(self, other: Self) -> (r: Self)
        ensures
            r@ == self@ | other@,
    {
        BindFlags { bits: self.bits | other.bits }
    }
}

/// Reasons a [`SocketConfig`] is refused.
#[derive(Debug, Clone, PartialEq, Eq)]
pub enum SocketConfigError {
    TxSizeInvalid { reason: &'static str },
    RxSizeInvalid { reason: &'static str },
}

impl SocketConfigError {
    /// The human readable reason carried by the error.
    pub fn reason(&self) -> (r: &'static str)
        ensures
            r == match *self {
                SocketConfigError::TxSizeInvalid { reason } => reason,
                SocketConfigError::RxSizeInvalid { reason } => reason,
            },
    {
        match self {
            SocketConfigError::TxSizeInvalid { reason } => reason,
            SocketConfigError::RxSizeInvalid { reason } => reason,
        }
    }
}

/// The settings of a socket, as plain values.
#[derive(Debug, Clone, Copy, PartialEq, Eq, Structural)]
pub struct SocketParams {
    pub rx_queue_size: u32,
    pub tx_queue_size: u32,
    pub libbpf_flags: LibbpfFlags,
    pub xdp_flags: XdpFlags,
    pub bind_flags: BindFlags,
}

/// What [`SocketConfig::new`] answers for the given settings: the rx queue
/// size is checked before the tx queue size.
pub open spec fn socket_config_check(p: SocketParams) -> Result<SocketParams, SocketConfigError> {
    if !is_power_of_two(p.rx_queue_size) {
        Err(SocketConfigError::RxSizeInvalid { reason: "rx queue size must be a power of two" })
    } else if !is_power_of_two(p.tx_queue_size) {
        Err(SocketConfigError::TxSizeInvalid { reason: "tx queue size must be a power of two" })
    } else {
        Ok(p)
    }
}

/// Settings that [`SocketConfig::new`] accepts.
pub open spec fn socket_params_valid(p: SocketParams) -> bool {
    socket_config_check(p) is Ok
}

/// A socket config is accepted exactly when the rx and tx queue sizes are
/// powers of two, whatever the flags.
pub proof fn lemma_socket_config_acceptance(p: SocketParams)
    ensures
        socket_params_valid(p) <==> (is_power_of_two(p.rx_queue_size) && is_power_of_two(
            p.tx_queue_size,
        )),
{
}

/// The queue sizes that libbpf uses by default, with no flag set.
pub open spec fn default_socket_params() -> SocketParams {
    SocketParams {
        rx_queue_size: XSK_RING_CONS_DEFAULT_NUM_DESCS,
        tx_queue_size: XSK_RING_PROD_DEFAULT_NUM_DESCS,
        libbpf_flags: LibbpfFlags::none(),
        xdp_flags: XdpFlags::none(),
        bind_flags: BindFlags::none(),
    }
}

/// Config for a socket: `rx_queue_size` and `tx_queue_size` must be powers of two.
#[derive(Debug, PartialEq, Eq, Structural)]
pub struct SocketConfig {
    rx_queue_size: u32,
    tx_queue_size: u32,
    libbpf_flags: LibbpfFlags,
    xdp_flags: XdpFlags,
    bind_flags: BindFlags,
}

impl View for SocketConfig {
    type V = SocketParams;

    closed spec fn view(&self) -> SocketParams {
        SocketParams {
            rx_queue_size: self.rx_queue_size,
            tx_queue_size: self.tx_queue_size,
            libbpf_flags: self.libbpf_flags,
            xdp_flags: self.xdp_flags,
            bind_flags: self.bind_flags,
        }
    }
}

impl SocketConfig {
    /// Every config holds settings that [`SocketConfig::new`] accepts.
    #[verifier::type_invariant]
    pub closed spec fn inv(self) -> bool {
        socket_params_valid(self@)
    }

    /// Checks the settings and builds a config from them.
    pub fn new(
        rx_queue_size: u32,
        tx_queue_size: u32,
        libbpf_flags: LibbpfFlags,
        xdp_flags: XdpFlags,
        bind_flags: BindFlags,
    ) -> (r: Result<Self, SocketConfigError>)
        ensures
            ({
                let p = SocketParams {
                    rx_queue_size,
                    tx_queue_size,
                    libbpf_flags,
                    xdp_flags,
                    bind_flags,
                };
                match r {
                    Ok(c) => socket_config_check(p) == Ok::<SocketParams, SocketConfigError>(c@),
                    Err(e) => socket_config_check(p) == Err::<SocketParams, SocketConfigError>(e),
                }
            }),
            r is Ok <==> (is_power_of_two(rx_queue_size) && is_power_of_two(tx_queue_size)),
    {
        if !is_pow_of_two(rx_queue_size) {
            return Err(
                SocketConfigError::RxSizeInvalid { reason: "rx queue size must be a power of two" },
            );
        }
        if !is_pow_of_two(tx_queue_size) {
            return Err(
                SocketConfigError::TxSizeInvalid { reason: "tx queue size must be a power of two" },
            );
        }
        Ok(SocketConfig { rx_queue_size, tx_queue_size, libbpf_flags, xdp_flags, bind_flags })
    }

    pub fn rx_queue_size(&self) -> (r: u32)
        ensures
            r == self@.rx_queue_size,
    {
        self.rx_queue_size
    }

    pub fn tx_queue_size(&self) -> (r: u32)
        ensures
            r == self@.tx_queue_size,
    {
        self.tx_queue_size
    }

    pub fn libbpf_flags(&self) -> (r: &LibbpfFlags)
        ensures
            *r == self@.libbpf_flags,
    {
        &self.libbpf_flags
    }

    pub fn xdp_flags(&self) -> (r: &XdpFlags)
        ensures
            *r == self@.xdp_flags,
    {
        &self.xdp_flags
    }

    pub fn bind_flags(&self) -> (r: &BindFlags)
        ensures
            *r == self@.bind_flags,
    {
        &self.bind_flags
    }
}

impl Clone for SocketConfig {
    fn clone(&self) -> (r: Self)
        ensures
            r == *self,
    {
        proof {
            use_type_invariant(self);
        }
        SocketConfig {
            rx_queue_size: self.rx_queue_size,
            tx_queue_size: self.tx_queue_size,
            libbpf_flags: self.libbpf_flags,
            xdp_flags: self.xdp_flags,
            bind_flags: self.bind_flags,
        }
    }
}

/// The default settings pass every check of [`SocketConfig::new`].
pub proof fn lemma_default_socket_params_valid()
    ensures
        socket_params_valid(default_socket_params()),
{
    assert(2048u32 == 1u32 << 11u32) by (bit_vector);
}

impl Default for SocketConfig {
    /// Default configuration based on the constants set in the `libbpf`
    /// library with none of the flags set.
    fn default() -> (r: Self)
        ensures
            r@ == default_socket_params(),
    {
        proof {
            lemma_default_socket_params_valid();
        }
        SocketConfig {
            rx_queue_size: XSK_RING_CONS_DEFAULT_NUM_DESCS,
            tx_queue_size: XSK_RING_PROD_DEFAULT_NUM_DESCS,
            libbpf_flags: LibbpfFlags::empty(),
            xdp_flags: XdpFlags::empty(),
            bind_flags: BindFlags::empty(),
        }
    }
}

/// Feeding the settings of a config back to [`SocketConfig::new`] or to a
/// builder gives a config with the same settings.
pub proof fn lemma_socket_config_roundtrip(p: SocketParams)
    requires
        socket_params_valid(p),
    ensures
        socket_config_check(p) == Ok::<SocketParams, SocketConfigError>(p),
{
}

/// Two configs with the same settings are the same config.
pub proof fn lemma_socket_config_view_injective(a: SocketConfig, b: SocketConfig)
    requires
        a@ == b@,
    ensures
        a == b,
{
}

/// Builder for [`SocketConfig`].
#[derive(Debug, Clone)]
pub struct SocketConfigBuilder {
    rx_queue_size: u32,
    tx_queue_size: u32,
    libbpf_flags: LibbpfFlags,
    xdp_flags: XdpFlags,
    bind_flags: BindFlags,
}

impl View for SocketConfigBuilder {
    type V = SocketParams;

    closed spec fn view(&self) -> SocketParams {
        SocketParams {
            rx_queue_size: self.rx_queue_size,
            tx_queue_size: self.tx_queue_size,
            libbpf_flags: self.libbpf_flags,
            xdp_flags: self.xdp_flags,
            bind_flags: self.bind_flags,
        }
    }
}

impl Default for SocketConfigBuilder {
    /// Starts from the default queue sizes of the `libbpf` library with no flag set.
    fn default() -> (r: Self)
        ensures
            r@ == default_socket_params(),
    {
        SocketConfigBuilder {
            rx_queue_size: XSK_RING_CONS_DEFAULT_NUM_DESCS,
            tx_queue_size: XSK_RING_PROD_DEFAULT_NUM_DESCS,
            libbpf_flags: LibbpfFlags::empty(),
            xdp_flags: XdpFlags::empty(),
            bind_flags: BindFlags::empty(),
        }
    }
}

impl SocketConfigBuilder {
    pub fn new() -> (r: Self)
        ensures
            r@ == default_socket_params(),
    {
        Self::default()
    }

    pub fn rx_queue_size(&mut self, rx_queue_size: u32) -> (r: &mut Self)
        ensures
            (*r)@ == (SocketParams { rx_queue_size, ..old(self)@ }),
            *final(self) == *final(r),
    {
        self.rx_queue_size = rx_queue_size;
        self
    }

    pub fn tx_queue_size(&mut self, tx_queue_size: u32) -> (r: &mut Self)
        ensures
            (*r)@ == (SocketParams { tx_queue_size, ..old(self)@ }),
            *final(self) == *final(r),
    {
        self.tx_queue_size = tx_queue_size;
        self
    }

    pub fn libbpf_flags(&mut self, libbpf_flags: LibbpfFlags) -> (r: &mut Self)
        ensures
            (*r)@ == (SocketParams { libbpf_flags, ..old(self)@ }),
            *final(self) == *final(r),
    {
        self.libbpf_flags = libbpf_flags;
        self
    }

    pub fn xdp_flags(&mut self, xdp_flags: XdpFlags) -> (r: &mut Self)
        ensures
            (*r)@ == (SocketParams { xdp_flags, ..old(self)@ }),
            *final(self) == *final(r),
    {
        self.xdp_flags = xdp_flags;
        self
    }

    pub fn bind_flags(&mut self, bind_flags: BindFlags) -> (r: &mut Self)
        ensures
            (*r)@ == (SocketParams { bind_flags, ..old(self)@ }),
            *final(self) == *final(r),
    {
        self.bind_flags = bind_flags;
        self
    }

    /// Checks the collected settings and builds a config from them.
    pub fn build(&self) -> (r: Result<SocketConfig, SocketConfigError>)
        ensures
            match r {
                Ok(c) => socket_config_check(self@) == Ok::<SocketParams, SocketConfigError>(c@),
                Err(e) => socket_config_check(self@) == Err::<SocketParams, SocketConfigError>(e),
            },
            r is Ok <==> (is_power_of_two(self@.rx_queue_size) && is_power_of_two(
                self@.tx_queue_size,
            )),
    {
        SocketConfig::new(
            self.rx_queue_size,
            self.tx_queue_size,
            self.libbpf_flags,
            self.xdp_flags,
            self.bind_flags,
        )
    }
}

} // verus!
