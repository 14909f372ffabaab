use vstd::prelude::*;

use crate::util::{is_pow_of_two, is_power_of_two};

verus! {

/// Default number of descriptors of a producer ring (libbpf's `XSK_RING_PROD__DEFAULT_NUM_DESCS`).
pub const XSK_RING_PROD_DEFAULT_NUM_DESCS: u32 = 2048;

/// Default number of descriptors of a consumer ring (libbpf's `XSK_RING_CONS__DEFAULT_NUM_DESCS`).
pub const XSK_RING_CONS_DEFAULT_NUM_DESCS: u32 = 2048;

/// Default size of a UMEM frame (libbpf's `XSK_UMEM__DEFAULT_FRAME_SIZE`).
pub const XSK_UMEM_DEFAULT_FRAME_SIZE: u32 = 4096;

/// Default headroom of a UMEM frame (libbpf's `XSK_UMEM__DEFAULT_FRAME_HEADROOM`).
pub const XSK_UMEM_DEFAULT_FRAME_HEADROOM: u32 = 0;

/// Smallest frame size a UMEM accepts.
pub const MIN_FRAME_SIZE: u32 = 2048;

/// Reasons a [`UmemConfig`] is refused.
#[derive(Debug, Clone, PartialEq, Eq)]
pub enum UmemConfigError {
    FrameCountInvalid { reason: &'static str },
    CompSizeInvalid { reason: &'static str },
    FillSizeInvalid { reason: &'static str },
    FrameSizeInvalid { reason: &'static str },
}

impl UmemConfigError {
    /// The human readable reason carried by the error.
    pub fn reason(&self) -> (r: &'static str)
        ensures
            r == match *self {
                UmemConfigError::FrameCountInvalid { reason } => reason,
                UmemConfigError::CompSizeInvalid { reason } => reason,
                UmemConfigError::FillSizeInvalid { reason } => reason,
                UmemConfigError::FrameSizeInvalid { reason } => reason,
            },
    {
        match self {
            UmemConfigError::FrameCountInvalid { reason } => reason,
            UmemConfigError::CompSizeInvalid { reason } => reason,
            UmemConfigError::FillSizeInvalid { reason } => reason,
            UmemConfigError::FrameSizeInvalid { reason } => reason,
        }
    }
}

/// The settings of a UMEM, as plain values.
#[derive(Debug, Clone, Copy, PartialEq, Eq, Structural)]
pub struct UmemParams {
    pub frame_count: u32,
    pub frame_size: u32,
    pub fill_queue_size: u32,
    pub comp_queue_size: u32,
    pub frame_headroom: u32,
    pub use_huge_pages: bool,
}

/// What [`UmemConfig::new`] answers for the given settings: the first check that
/// fails, in the order frame count, fill size, completion size, frame size.
pub open spec fn umem_config_check(p: UmemParams) -> Result<UmemParams, UmemConfigError> {
    if p.frame_count == 0 {
        Err(UmemConfigError::FrameCountInvalid { reason: "frame count must be greater than 0" })
    } else if !is_power_of_two(p.fill_queue_size) {
        Err(UmemConfigError::FillSizeInvalid { reason: "fill queue size must be a power of two" })
    } else if !is_power_of_two(p.comp_queue_size) {
        Err(UmemConfigError::CompSizeInvalid { reason: "comp queue size must be a power of two" })
    } else if p.frame_size < MIN_FRAME_SIZE {
        Err(
            UmemConfigError::FrameSizeInvalid {
                reason: "frame size must be greater than or equal to 2048",
            },
        )
    } else {
        Ok(p)
    }
}

/// Settings that [`UmemConfig::new`] accepts.
pub open spec fn umem_params_valid(p: UmemParams) -> bool {
    umem_config_check(p) is Ok
}

/// The settings that libbpf uses by default, with 2048 frames.
pub open spec fn default_umem_params() -> UmemParams {
    UmemParams {
        frame_count: 2048,
        frame_size: XSK_UMEM_DEFAULT_FRAME_SIZE,
        fill_queue_size: XSK_RING_PROD_DEFAULT_NUM_DESCS,
        comp_queue_size: XSK_RING_CONS_DEFAULT_NUM_DESCS,
        frame_headroom: XSK_UMEM_DEFAULT_FRAME_HEADROOM,
        use_huge_pages: false,
    }
}

/// Config for a UMEM instance.
///
/// `fill_queue_size` and `comp_queue_size` must be powers of two, the
/// frame count must be positive and the frame size must not be less
/// than `2048`.
#[derive(Debug, PartialEq, Eq, Structural)]
pub struct UmemConfig {
    frame_count: u32,
    frame_size: u32,
    fill_queue_size: u32,
    comp_queue_size: u32,
    frame_headroom: u32,
    use_huge_pages: bool,
}

impl View for UmemConfig {
    type V = UmemParams;

    closed spec fn view(&self) -> UmemParams {
        UmemParams {
            frame_count: self.frame_count,
            frame_size: self.frame_size,
            fill_queue_size: self.fill_queue_size,
            comp_queue_size: self.comp_queue_size,
            frame_headroom: self.frame_headroom,
            use_huge_pages: self.use_huge_pages,
        }
    }
}

impl UmemConfig {
    /// Every config holds settings that [`UmemConfig::new`] accepts.
    #[verifier::type_invariant]
    pub closed spec fn inv(self) -> bool {
        umem_params_valid(self@)
    }

    /// Checks the settings and builds a config from them.
    pub fn new(
        frame_count: u32,
        frame_size: u32,
        fill_queue_size: u32,
        comp_queue_size: u32,
        frame_headroom: u32,
        use_huge_pages: bool,
    ) -> (r: Result<Self, UmemConfigError>)
        ensures
            ({
                let p = UmemParams {
                    frame_count,
                    frame_size,
                    fill_queue_size,
                    comp_queue_size,
                    frame_headroom,
                    use_huge_pages,
                };
                match r {
                    Ok(c) => umem_config_check(p) == Ok::<UmemParams, UmemConfigError>(c@),
                    Err(e) => umem_config_check(p) == Err::<UmemParams, UmemConfigError>(e),
                }
            }),
            r is Ok <==> (frame_count > 0 && is_power_of_two(fill_queue_size) && is_power_of_two(
                comp_queue_size,
            ) && frame_size >= 2048),
    {
        if frame_count == 0 {
            return Err(
                UmemConfigError::FrameCountInvalid { reason: "frame count must be greater than 0" },
            );
        }
        if !is_pow_of_two(fill_queue_size) {
            return Err(
                UmemConfigError::FillSizeInvalid { reason: "fill queue size must be a power of two" },
            );
        }
        if !is_pow_of_two(comp_queue_size) {
            return Err(
                UmemConfigError::CompSizeInvalid { reason: "comp queue size must be a power of two" },
            );
        }
        if frame_size < MIN_FRAME_SIZE {
            return Err(
                UmemConfigError::FrameSizeInvalid {
                    reason: "frame size must be greater than or equal to 2048",
                },
            );
        }
        Ok(
            UmemConfig {
                frame_count,
                frame_size,
                fill_queue_size,
                comp_queue_size,
                frame_headroom,
                use_huge_pages,
            },
        )
    }

    pub fn frame_count(&self) -> (r: u32)
        ensures
            r == self@.frame_count,
    {
        self.frame_count
    }

    pub fn frame_size(&self) -> (r: u32)
        ensures
            r == self@.frame_size,
    {
        self.frame_size
    }

    pub fn fill_queue_size(&self) -> (r: u32)
        ensures
            r == self@.fill_queue_size,
    {
        self.fill_queue_size
    }

    pub fn comp_queue_size(&self) -> (r: u32)
        ensures
            r == self@.comp_queue_size,
    {
        self.comp_queue_size
    }

    pub fn frame_headroom(&self) -> (r: u32)
        ensures
            r == self@.frame_headroom,
    {
        self.frame_headroom
    }

    pub fn use_huge_pages(&self) -> (r: bool)
        ensures
            r == self@.use_huge_pages,
    {
        self.use_huge_pages
    }

    /// Length in bytes of the memory the UMEM needs: frame count times frame size.
    pub fn umem_len(&self) -> (r: usize)
        requires
            self@.frame_count * self@.frame_size <= usize::MAX,
        ensures
            r == self@.frame_count * self@.frame_size,
    {
        let count = self.frame_count as usize;
        let size = self.frame_size as usize;
        proof {
            assert(count * size == self@.frame_count * self@.frame_size);
        }
        count * size
    }
}

impl Clone for UmemConfig {
    fn clone(&self) -> (r: Self)
        ensures
            r == *self,
    {
        proof {
            use_type_invariant(self);
        }
        UmemConfig {
            frame_count: self.frame_count,
            frame_size: self.frame_size,
            fill_queue_size: self.fill_queue_size,
            comp_queue_size: self.comp_queue_size,
            frame_headroom: self.frame_headroom,
            use_huge_pages: self.use_huge_pages,
        }
    }
}

impl Default for UmemConfig {
    /// Default configuration based on the constants set in the `libbpf` library.
    fn default() -> (r: Self)
        ensures
            r@ == default_umem_params(),
    {
        proof {
            lemma_default_umem_params_valid();
        }
        UmemConfig {
            frame_count: 2048,
            frame_size: XSK_UMEM_DEFAULT_FRAME_SIZE,
            fill_queue_size: XSK_RING_PROD_DEFAULT_NUM_DESCS,
            comp_queue_size: XSK_RING_CONS_DEFAULT_NUM_DESCS,
            frame_headroom: XSK_UMEM_DEFAULT_FRAME_HEADROOM,
            use_huge_pages: false,
        }
    }
}

/// The default settings pass every check of [`UmemConfig::new`].
pub proof fn lemma_default_umem_params_valid()
    ensures
        umem_params_valid(default_umem_params()),
{
    assert(2048u32 == 1u32 << 11u32) by (bit_vector);
}

/// A UMEM config is accepted exactly when the frame count is positive, the
/// fill and completion queue sizes are powers of two and frames hold at least
/// 2048 bytes; nothing else about the settings matters.
pub proof fn lemma_umem_config_acceptance(p: UmemParams)
    ensures
        umem_params_valid(p) <==> (p.frame_count > 0 && is_power_of_two(p.fill_queue_size)
            && is_power_of_two(p.comp_queue_size) && p.frame_size >= 2048),
{
}

/// Feeding the settings of a config back to [`UmemConfig::new`] or to a
/// builder gives a config with the same settings.
pub proof fn lemma_umem_config_roundtrip(p: UmemParams)
    requires
        umem_params_valid(p),
    ensures
        umem_config_check(p) == Ok::<UmemParams, UmemConfigError>(p),
{
}

/// Two configs with the same settings are the same config.
pub proof fn lemma_umem_config_view_injective(a: UmemConfig, b: UmemConfig)
    requires
        a@ == b@,
    ensures
        a == b,
{
}

/// Builder for [`UmemConfig`].
#[derive(Debug, Clone)]
pub struct UmemConfigBuilder {
    frame_count: u32,
    frame_size: u32,
    fill_queue_size: u32,
    comp_queue_size: u32,
    frame_headroom: u32,
    use_huge_pages: bool,
}

impl View for UmemConfigBuilder {
    type V = UmemParams;

    closed spec fn view(&self) -> UmemParams {
        UmemParams {
            frame_count: self.frame_count,
            frame_size: self.frame_size,
            fill_queue_size: self.fill_queue_size,
            comp_queue_size: self.comp_queue_size,
            frame_headroom: self.frame_headroom,
            use_huge_pages: self.use_huge_pages,
        }
    }
}

impl Default for UmemConfigBuilder {
    /// Starts from the default settings of the `libbpf` library.
    fn default() -> (r: Self)
        ensures
            r@ == default_umem_params(),
    {
        UmemConfigBuilder {
            frame_count: 2048,
            frame_size: XSK_UMEM_DEFAULT_FRAME_SIZE,
            fill_queue_size: XSK_RING_PROD_DEFAULT_NUM_DESCS,
            comp_queue_size: XSK_RING_CONS_DEFAULT_NUM_DESCS,
            frame_headroom: XSK_UMEM_DEFAULT_FRAME_HEADROOM,
            use_huge_pages: false,
        }
    }
}

impl UmemConfigBuilder {
    pub fn new() -> (r: Self)
        ensures
            r@ == default_umem_params(),
    {
        Self::default()
    }

    pub fn frame_count(&mut self, frame_count: u32) -> (r: &mut Self)
        ensures
            (*r)@ == (UmemParams { frame_count, ..old(self)@ }),
            *final(self) == *final(r),
    {
        self.frame_count = frame_count;
        self
    }

    pub fn frame_size(&mut self, frame_size: u32) -> (r: &mut Self)
        ensures
            (*r)@ == (UmemParams { frame_size, ..old(self)@ }),
            *final(self) == *final(r),
    {
        self.frame_size = frame_size;
        self
    }

    pub fn fill_queue_size(&mut self, fill_queue_size: u32) -> (r: &mut Self)
        ensures
            (*r)@ == (UmemParams { fill_queue_size, ..old(self)@ }),
            *final(self) == *final(r),
    {
        self.fill_queue_size = fill_queue_size;
        self
    }

    pub fn comp_queue_size(&mut self, comp_queue_size: u32) -> (r: &mut Self)
        ensures
            (*r)@ == (UmemParams { comp_queue_size, ..old(self)@ }),
            *final(self) == *final(r),
    {
        self.comp_queue_size = comp_queue_size;
        self
    }

    pub fn frame_headroom(&mut self, frame_headroom: u32) -> (r: &mut Self)
        ensures
            (*r)@ == (UmemParams { frame_headroom, ..old(self)@ }),
            *final(self) == *final(r),
    {
        self.frame_headroom = frame_headroom;
        self
    }

    pub fn use_huge_pages(&mut self, use_huge_pages: bool) -> (r: &mut Self)
        ensures
            (*r)@ == (UmemParams { use_huge_pages, ..old(self)@ }),
            *final(self) == *final(r),
    {
        self.use_huge_pages = use_huge_pages;
        self
    }

    /// Checks the collected settings and builds a config from them.
    pub fn build(&self) -> (r: Result<UmemConfig, UmemConfigError>)
        ensures
            match r {
                Ok(c) => umem_config_check(self@) == Ok::<UmemParams, UmemConfigError>(c@),
                Err(e) => umem_config_check(self@) == Err::<UmemParams, UmemConfigError>(e),
            },
            r is Ok <==> (self@.frame_count > 0 && is_power_of_two(self@.fill_queue_size)
                && is_power_of_two(self@.comp_queue_size) && self@.frame_size >= 2048),
    {
        UmemConfig::new(
            self.frame_count,
            self.frame_size,
            self.fill_queue_size,
            self.comp_queue_size,
            self.frame_headroom,
            self.use_huge_pages,
        )
    }
}

} // verus!
