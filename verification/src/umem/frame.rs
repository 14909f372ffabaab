use vstd::prelude::*;

use super::config::{UmemConfig, UmemParams, umem_params_valid};
use crate::util::{decimal, push_decimal};

verus! {

/// Headroom the kernel reserves at the start of every frame (the kernel's `XDP_PACKET_HEADROOM`).
pub const XDP_PACKET_HEADROOM: u32 = 256;

/// Where in the tx/rx lifecycle a frame is.
#[derive(Debug, Clone, Copy, PartialEq, Eq, Structural)]
pub enum FrameStatus {
    Free,
    Filled,
    OnTxQueue,
    OnFillQueue,
}

impl FrameStatus {
    pub fn is_free(&self) -> (r: bool)
        ensures
            r == (*self is Free),
    {
        match self {
            FrameStatus::Free => true,
            _ => false,
        }
    }

    /// Whether the frame holds received data.
    pub fn is_filled(&self) -> (r: bool)
        ensures
            r == (*self is Filled),
    {
        match self {
            FrameStatus::Filled => true,
            _ => false,
        }
    }
}

/// The descriptor of a frame as plain values.
#[derive(Debug, Clone, Copy, PartialEq, Eq, Structural)]
pub struct FrameDesc {
    pub addr: usize,
    pub len: usize,
    pub options: u32,
    pub mtu: usize,
    pub frame_start: usize,
    pub frame_size: usize,
    pub status: FrameStatus,
}

/// Describes a UMEM frame's address and the size of its current contents.
///
/// `addr` is an offset in bytes from the start of the UMEM and `len` is
/// the length in bytes of the data stored from `addr` on. `mtu` is the
/// largest amount of data that may be written to the frame for transmission.
/// The frame itself covers `frame_size` bytes from `frame_start` on; the
/// checked accessors keep to that extent.
#[derive(Debug, PartialEq, Eq, Structural)]
pub struct Frame {
    addr: usize,
    len: usize,
    options: u32,
    mtu: usize,
    frame_start: usize,
    frame_size: usize,
    pub status: FrameStatus,
}

impl Clone for Frame {
    fn clone(&self) -> (r: Self)
        ensures
            r == *self,
    {
        Frame {
            addr: self.addr,
            len: self.len,
            options: self.options,
            mtu: self.mtu,
            frame_start: self.frame_start,
            frame_size: self.frame_size,
            status: self.status,
        }
    }
}

impl View for Frame {
    type V = FrameDesc;

    closed spec fn view(&self) -> FrameDesc {
        FrameDesc {
            addr: self.addr,
            len: self.len,
            options: self.options,
            mtu: self.mtu,
            frame_start: self.frame_start,
            frame_size: self.frame_size,
            status: self.status,
        }
    }
}

/// UMEM access errors.
#[derive(Debug, Clone, PartialEq, Eq, Structural)]
pub enum AccessError {
    /// Attempted to access a region with zero length.
    NullRegion,
    /// Attempted to access a region outside of the UMEM.
    RegionOutOfBounds { addr: usize, len: usize, umem_len: usize },
    /// Attempted to access a region that intersects with two or more frames.
    CrossesFrameBoundary { addr: usize, len: usize },
}

/// Data related errors.
#[derive(Debug, Clone, PartialEq, Eq, Structural)]
pub enum DataError {
    /// Size of data written to UMEM for tx exceeds the MTU.
    SizeExceedsMtu { data_len: usize, mtu: usize },
}

/// Errors that may occur when writing data to the UMEM.
#[derive(Debug, Clone, PartialEq, Eq, Structural)]
pub enum WriteError {
    Access(AccessError),
    Data(DataError),
}

/// The last byte of the region an access error names lies within `usize`:
/// the region is not empty and its end does not overflow.
pub open spec fn access_error_region_fits(e: AccessError) -> bool {
    match e {
        AccessError::NullRegion => true,
        AccessError::RegionOutOfBounds { addr, len, .. } => len >= 1 && addr + len - 1
            <= usize::MAX,
        AccessError::CrossesFrameBoundary { addr, len } => len >= 1 && addr + len - 1
            <= usize::MAX,
    }
}

/// The text describing an access error, with the region given by its first
/// and its last byte.
pub open spec fn access_error_text(e: AccessError) -> Seq<char> {
    match e {
        AccessError::NullRegion => "region has zero length"@,
        AccessError::RegionOutOfBounds { addr, len, umem_len } => "UMEM region ["@ + decimal(
            addr as nat,
        ) + ", "@ + decimal((addr + len - 1) as nat) + "] is out of bounds (UMEM length is "@
            + decimal(umem_len as nat) + ")"@,
        AccessError::CrossesFrameBoundary { addr, len } => "UMEM region ["@ + decimal(
            addr as nat,
        ) + ", "@ + decimal((addr + len - 1) as nat) + "] intersects with more then one frame"@,
    }
}

/// The text describing a data error.
pub open spec fn data_error_text(e: DataError) -> Seq<char> {
    match e {
        DataError::SizeExceedsMtu { data_len, mtu } => "data length ("@ + decimal(data_len as nat)
            + " bytes) cannot be greater than the MTU ("@ + decimal(mtu as nat) + " bytes)"@,
    }
}

/// The text describing a write error: that of the error it wraps.
pub open spec fn write_error_text(e: WriteError) -> Seq<char> {
    match e {
        WriteError::Access(a) => access_error_text(a),
        WriteError::Data(d) => data_error_text(d),
    }
}

impl AccessError {
    /// A description of the error for people to read.
    pub fn message(&self) -> (r: String)
        requires
            access_error_region_fits(*self),
        ensures
            r@ == access_error_text(*self),
    {
        match self {
            AccessError::NullRegion => String::from_str("region has zero length"),
            AccessError::RegionOutOfBounds { addr, len, umem_len } => {
                let mut text = String::from_str("UMEM region [");
                push_decimal(&mut text, *addr);
                text.append(", ");
                push_decimal(&mut text, *addr + (*len - 1));
                text.append("] is out of bounds (UMEM length is ");
                push_decimal(&mut text, *umem_len);
                text.append(")");
                text
            },
            AccessError::CrossesFrameBoundary { addr, len } => {
                let mut text = String::from_str("UMEM region [");
                push_decimal(&mut text, *addr);
                text.append(", ");
                push_decimal(&mut text, *addr + (*len - 1));
                text.append("] intersects with more then one frame");
                text
            },
        }
    }
}

impl DataError {
    /// A description of the error for people to read.
    pub fn message(&self) -> (r: String)
        ensures
            r@ == data_error_text(*self),
    {
        match self {
            DataError::SizeExceedsMtu { data_len, mtu } => {
                let mut text = String::from_str("data length (");
                push_decimal(&mut text, *data_len);
                text.append(" bytes) cannot be greater than the MTU (");
                push_decimal(&mut text, *mtu);
                text.append(" bytes)");
                text
            },
        }
    }
}

impl WriteError {
    /// A description of the error for people to read: that of the error it wraps.
    pub fn message(&self) -> (r: String)
        requires
            *self matches WriteError::Access(a) ==> access_error_region_fits(a),
        ensures
            r@ == write_error_text(*self),
    {
        match self {
            WriteError::Access(a) => a.message(),
            WriteError::Data(d) => d.message(),
        }
    }
}

/// The `len` bytes from the frame's address on lie within the frame.
pub open spec fn region_in_frame(d: FrameDesc, len: int) -> bool {
    &&& d.frame_start <= d.addr
    &&& d.addr + len <= d.frame_start + d.frame_size
}

/// The `len` bytes of the UMEM `mem` from `addr` on.
pub open spec fn umem_read(mem: Seq<u8>, addr: int, len: int) -> Seq<u8> {
    mem.subrange(addr, addr + len)
}

/// The UMEM `mem` once `data` has been copied to it from `addr` on.
pub open spec fn umem_write(mem: Seq<u8>, addr: int, data: Seq<u8>) -> Seq<u8> {
    mem.subrange(0, addr) + data + mem.subrange(addr + data.len(), mem.len() as int)
}

/// The UMEM `mem` with its `len` bytes from `addr` on replaced by `region`.
pub open spec fn umem_splice(mem: Seq<u8>, addr: int, len: int, region: Seq<u8>) -> Seq<u8> {
    mem.subrange(0, addr) + region + mem.subrange(addr + len, mem.len() as int)
}

/// Maximum transmission unit of the frames of a UMEM with these settings:
/// the frame size less the kernel's and the configured headroom.
pub open spec fn umem_mtu(p: UmemParams) -> int {
    p.frame_size - (XDP_PACKET_HEADROOM + p.frame_headroom)
}

/// The descriptor of frame `i` of a freshly created UMEM with these settings.
pub open spec fn initial_frame(p: UmemParams, i: int) -> FrameDesc {
    FrameDesc {
        addr: (i * p.frame_size) as usize,
        len: 0,
        options: 0,
        mtu: umem_mtu(p) as usize,
        frame_start: (i * p.frame_size) as usize,
        frame_size: p.frame_size as usize,
        status: FrameStatus::Free,
    }
}

impl Frame {
    #[inline]
    pub fn addr(&self) -> (r: usize)
        ensures
            r == self@.addr,
    {
        self.addr
    }

    #[inline]
    pub fn len(&self) -> (r: usize)
        ensures
            r == self@.len,
    {
        self.len
    }

    #[inline]
    pub fn options(&self) -> (r: u32)
        ensures
            r == self@.options,
    {
        self.options
    }

    /// The largest amount of data that may be written to this frame for transmission.
    #[inline]
    pub fn mtu(&self) -> (r: usize)
        ensures
            r == self@.mtu,
    {
        self.mtu
    }

    /// Set the frame descriptor's address, which determines where in the UMEM it references.
    #[inline]
    pub fn set_addr(&mut self, addr: usize)
        ensures
            final(self)@ == (FrameDesc { addr, ..old(self)@ }),
    {
        self.addr = addr
    }

    /// Set the frame descriptor's length: the length of the data stored at `addr`.
    #[inline]
    pub fn set_len(&mut self, len: usize)
        ensures
            final(self)@ == (FrameDesc { len, ..old(self)@ }),
    {
        self.len = len
    }

    /// The frame's place in the tx/rx lifecycle.
    #[inline]
    pub fn status(&self) -> (r: FrameStatus)
        ensures
            r == self@.status,
    {
        self.status
    }

    /// Moves the frame to another place in the tx/rx lifecycle.
    #[inline]
    pub fn set_status(&mut self, status: FrameStatus)
        ensures
            final(self)@ == (FrameDesc { status, ..old(self)@ }),
    {
        self.status = status
    }

    /// Set the frame descriptor options.
    #[inline]
    pub fn set_options(&mut self, options: u32)
        ensures
            final(self)@ == (FrameDesc { options, ..old(self)@ }),
    {
        self.options = options
    }

    /// The first byte of the frame.
    #[inline]
    pub fn frame_start(&self) -> (r: usize)
        ensures
            r == self@.frame_start,
    {
        self.frame_start
    }

    /// The number of bytes the frame covers.
    #[inline]
    pub fn frame_size(&self) -> (r: usize)
        ensures
            r == self@.frame_size,
    {
        self.frame_size
    }

    /// Whether the `len` bytes from `addr` on lie within the frame.
    #[inline]
    pub fn region_fits(&self, len: usize) -> (r: bool)
        ensures
            r == region_in_frame(self@, len as int),
    {
        self.frame_start <= self.addr && len <= self.frame_size && self.addr - self.frame_start
            <= self.frame_size - len
    }

    /// Check that the `len` bytes from `addr` on lie within a single frame:
    /// this frame.
    #[inline]
    pub fn is_access_valid(&self, len: usize) -> (r: Result<(), AccessError>)
        ensures
            region_in_frame(self@, len as int) ==> r == Ok::<(), AccessError>(()),
            !region_in_frame(self@, len as int) ==> r == Err::<(), AccessError>(
                AccessError::CrossesFrameBoundary { addr: self@.addr, len },
            ),
    {
        if !self.region_fits(len) {
            Err(AccessError::CrossesFrameBoundary { addr: self.addr, len })
        } else {
            Ok(())
        }
    }

    /// Check that `data` is small enough to be written to the UMEM for transmission.
    #[inline]
    pub fn is_data_valid(&self, data: &[u8]) -> (r: Result<(), DataError>)
        ensures
            data@.len() <= self@.mtu ==> r == Ok::<(), DataError>(()),
            data@.len() > self@.mtu ==> r == Err::<(), DataError>(
                DataError::SizeExceedsMtu { data_len: data@.len() as usize, mtu: self@.mtu },
            ),
    {
        if data.len() > self.mtu {
            return Err(DataError::SizeExceedsMtu { data_len: data.len(), mtu: self.mtu });
        }
        Ok(())
    }

    /// The UMEM region of length `len` starting at `addr`.
    #[inline]
    pub fn read_from_umem<'a>(&self, umem: &'a [u8], len: usize) -> (r: &'a [u8])
        requires
            self@.addr + len <= umem@.len(),
        ensures
            r@ == umem_read(umem@, self@.addr as int, len as int),
    {
        let _umem_len = umem.len();
        &umem[self.addr..self.addr + len]
    }

    /// Checked version of `read_from_umem`: the region must lie within a
    /// single frame, this one.
    #[inline]
    pub fn read_from_umem_checked<'a>(&self, umem: &'a [u8], len: usize) -> (r: Result<
        &'a [u8],
        AccessError,
    >)
        requires
            region_in_frame(self@, len as int) ==> self@.addr + len <= umem@.len(),
        ensures
            region_in_frame(self@, len as int) ==> r is Ok && r->Ok_0@ == umem_read(
                umem@,
                self@.addr as int,
                len as int,
            ),
            !region_in_frame(self@, len as int) ==> r == Err::<&[u8], AccessError>(
                AccessError::CrossesFrameBoundary { addr: self@.addr, len },
            ),
    {
        let _umem_len = umem.len();
        match self.is_access_valid(len) {
            Err(e) => Err(e),
            Ok(()) => Ok(&umem[self.addr..self.addr + len]),
        }
    }

    /// Copy `data` to the UMEM from `addr` on and set the frame's length to
    /// the length of `data`.
    #[inline]
    pub fn write_to_umem(&mut self, umem: &mut [u8], data: &[u8])
        requires
            old(self)@.addr + data@.len() <= old(umem)@.len(),
        ensures
            final(umem)@ == umem_write(old(umem)@, old(self)@.addr as int, data@),
            final(self)@ == (FrameDesc { len: data@.len() as usize, ..old(self)@ }),
    {
        let data_len = data.len();
        if data_len > 0 {
            copy_to_umem(umem, self.addr, data);
        } else {
            proof {
                assert(umem_write(umem@, self.addr as int, data@) =~= umem@);
            }
        }
        self.set_len(data_len);
    }

    /// Checked version of `write_to_umem`: data that is not empty must not
    /// exceed the frame's MTU and must lie completely within this frame. On
    /// an error neither the frame nor the UMEM changes.
    #[inline]
    pub fn write_to_umem_checked(&mut self, umem: &mut [u8], data: &[u8]) -> (r: Result<
        (),
        WriteError,
    >)
        requires
            (data@.len() > 0 && data@.len() <= old(self)@.mtu && region_in_frame(
                old(self)@,
                data@.len() as int,
            )) ==> old(self)@.addr + data@.len() <= old(umem)@.len(),
        ensures
            data@.len() > 0 && data@.len() > old(self)@.mtu ==> {
                &&& r == Err::<(), WriteError>(
                    WriteError::Data(
                        DataError::SizeExceedsMtu {
                            data_len: data@.len() as usize,
                            mtu: old(self)@.mtu,
                        },
                    ),
                )
                &&& final(umem)@ == old(umem)@
                &&& final(self)@ == old(self)@
            },
            data@.len() > 0 && data@.len() <= old(self)@.mtu && !region_in_frame(
                old(self)@,
                data@.len() as int,
            ) ==> {
                &&& r == Err::<(), WriteError>(
                    WriteError::Access(
                        AccessError::CrossesFrameBoundary {
                            addr: old(self)@.addr,
                            len: data@.len() as usize,
                        },
                    ),
                )
                &&& final(umem)@ == old(umem)@
                &&& final(self)@ == old(self)@
            },
            data@.len() == 0 ==> {
                &&& r == Ok::<(), WriteError>(())
                &&& final(umem)@ == old(umem)@
                &&& final(self)@ == (FrameDesc { len: 0, ..old(self)@ })
            },
            data@.len() > 0 && data@.len() <= old(self)@.mtu && region_in_frame(
                old(self)@,
                data@.len() as int,
            ) ==> {
                &&& r == Ok::<(), WriteError>(())
                &&& final(umem)@ == umem_write(old(umem)@, old(self)@.addr as int, data@)
                &&& final(self)@ == (FrameDesc { len: data@.len() as usize, ..old(self)@ })
            },
    {
        let data_len = data.len();
        if data_len > 0 {
            match self.is_data_valid(data) {
                Err(e) => {
                    return Err(WriteError::Data(e));
                },
                Ok(()) => {},
            }
            match self.is_access_valid(data_len) {
                Err(e) => {
                    return Err(WriteError::Access(e));
                },
                Ok(()) => {},
            }
            copy_to_umem(umem, self.addr, data);
        }
        self.set_len(data_len);
        Ok(())
    }

    /// The UMEM region of length `len` starting at `addr`, to be written to directly.
    #[inline]
    pub fn umem_region_mut<'a>(&mut self, umem: &'a mut [u8], len: usize) -> (r: &'a mut [u8])
        requires
            old(self)@.addr + len <= old(umem)@.len(),
        ensures
            *final(self) == *old(self),
            r@ == umem_read(old(umem)@, old(self)@.addr as int, len as int),
            final(umem)@ == umem_splice(old(umem)@, old(self)@.addr as int, len as int, final(r)@),
    {
        region_mut(umem, self.addr, len)
    }

    /// Checked version of `umem_region_mut`: the region is handed out only
    /// when it lies within a single frame, this one.
    #[inline]
    pub fn umem_region_mut_checked<'a>(&mut self, umem: &'a mut [u8], len: usize) -> (r: Result<
        &'a mut [u8],
        AccessError,
    >)
        requires
            region_in_frame(old(self)@, len as int) ==> old(self)@.addr + len <= old(umem)@.len(),
        ensures
            *final(self) == *old(self),
            region_in_frame(old(self)@, len as int) ==> {
                &&& r is Ok
                &&& r->Ok_0@ == umem_read(old(umem)@, old(self)@.addr as int, len as int)
                &&& final(umem)@ == umem_splice(
                    old(umem)@,
                    old(self)@.addr as int,
                    len as int,
                    final(r->Ok_0)@,
                )
            },
            !region_in_frame(old(self)@, len as int) ==> {
                &&& r == Err::<&mut [u8], AccessError>(
                    AccessError::CrossesFrameBoundary { addr: old(self)@.addr, len },
                )
                &&& final(umem)@ == old(umem)@
            },
    {
        if !self.region_fits(len) {
            return Err(AccessError::CrossesFrameBoundary { addr: self.addr, len });
        }
        Ok(region_mut(umem, self.addr, len))
    }
}

/// Splits the memory of a UMEM with the given config into its frames.
///
/// Frame `i` starts at byte `i * frame_size`, holds no data, has no options
/// set and is free; every frame's MTU is the frame size less the kernel's
/// packet headroom and the configured frame headroom. Returns the MTU and
/// the frames in address order.
pub fn umem_frames(config: &UmemConfig) -> (r: (usize, Vec<Frame>))
    requires
        config@.frame_count * config@.frame_size <= usize::MAX,
        XDP_PACKET_HEADROOM + config@.frame_headroom <= config@.frame_size,
    ensures
        r.0 == umem_mtu(config@),
        r.1@.len() == config@.frame_count,
        forall|i: int| 0 <= i < r.1@.len() ==> #[trigger] r.1@[i]@ == initial_frame(config@, i),
{
    let frame_size = config.frame_size() as usize;
    let frame_count = config.frame_count() as usize;
    let frame_headroom = config.frame_headroom() as usize;
    let xdp_packet_headroom = XDP_PACKET_HEADROOM as usize;
    let mtu = frame_size - (xdp_packet_headroom + frame_headroom);

    let mut frames: Vec<Frame> = Vec::with_capacity(frame_count);
    let mut i: usize = 0;
    while i < frame_count
        invariant
            frame_size == config@.frame_size,
            frame_count == config@.frame_count,
            frame_count * frame_size <= usize::MAX,
            mtu == umem_mtu(config@),
            i <= frame_count,
            frames@.len() == i,
            forall|j: int| 0 <= j < i ==> #[trigger] frames@[j]@ == initial_frame(config@, j),
        decreases frame_count - i,
    {
        proof {
            assert(i * frame_size <= frame_count * frame_size) by (nonlinear_arith)
                requires
                    i < frame_count,
            ;
        }
        let frame = Frame {
            addr: i * frame_size,
            len: 0,
            options: 0,
            mtu,
            frame_start: i * frame_size,
            frame_size,
            status: FrameStatus::Free,
        };
        frames.push(frame);
        i = i + 1;
    }
    (mtu, frames)
}

/// A change made through one of the setters other than `set_addr`.
pub enum FrameEdit {
    Len(usize),
    Options(u32),
    Status(FrameStatus),
}

/// The descriptor once the edit `e` is made, as the setters state it.
pub open spec fn apply_edit(d: FrameDesc, e: FrameEdit) -> FrameDesc {
    match e {
        FrameEdit::Len(len) => FrameDesc { len, ..d },
        FrameEdit::Options(options) => FrameDesc { options, ..d },
        FrameEdit::Status(status) => FrameDesc { status, ..d },
    }
}

/// The descriptor once the edits `es` are made, in order.
pub open spec fn apply_edits(d: FrameDesc, es: Seq<FrameEdit>) -> FrameDesc
    decreases es.len(),
{
    if es.len() == 0 {
        d
    } else {
        apply_edit(apply_edits(d, es.drop_last()), es.last())
    }
}

/// After `set_addr(a)`, any later changes of the length, the options or the
/// status leave the address at `a`, and the frame's MTU and extent as they were.
pub proof fn lemma_edits_keep_addr(d: FrameDesc, a: usize, es: Seq<FrameEdit>)
    ensures
        apply_edits(FrameDesc { addr: a, ..d }, es).addr == a,
        apply_edits(FrameDesc { addr: a, ..d }, es).mtu == d.mtu,
        apply_edits(FrameDesc { addr: a, ..d }, es).frame_start == d.frame_start,
        apply_edits(FrameDesc { addr: a, ..d }, es).frame_size == d.frame_size,
    decreases es.len(),
{
    if es.len() > 0 {
        lemma_edits_keep_addr(d, a, es.drop_last());
    }
}

/// Reading back the region just written gives the data that was written,
/// and a write never changes the length of the UMEM.
pub proof fn lemma_read_after_write(mem: Seq<u8>, addr: int, data: Seq<u8>)
    requires
        0 <= addr,
        addr + data.len() <= mem.len(),
    ensures
        umem_write(mem, addr, data).len() == mem.len(),
        umem_read(umem_write(mem, addr, data), addr, data.len() as int) == data,
{
    assert(umem_read(umem_write(mem, addr, data), addr, data.len() as int) =~= data);
}

/// A write leaves every region that does not overlap it as it was: data
/// written to one frame is never seen in another.
pub proof fn lemma_write_keeps_disjoint_region(
    mem: Seq<u8>,
    addr: int,
    data: Seq<u8>,
    other_addr: int,
    other_len: int,
)
    requires
        0 <= addr,
        addr + data.len() <= mem.len(),
        0 <= other_addr,
        0 <= other_len,
        other_addr + other_len <= mem.len(),
        other_addr + other_len <= addr || addr + data.len() <= other_addr,
    ensures
        umem_read(umem_write(mem, addr, data), other_addr, other_len) == umem_read(
            mem,
            other_addr,
            other_len,
        ),
{
    assert(umem_read(umem_write(mem, addr, data), other_addr, other_len) =~= umem_read(
        mem,
        other_addr,
        other_len,
    ));
}

/// The frames of a fresh UMEM lie one after the other without gaps: frame
/// `i` ends where frame `i + 1` starts, the last one ends at the end of the
/// UMEM, and the data a frame can carry for transmission fits in it.
pub proof fn lemma_frames_tile_umem(p: UmemParams, i: int)
    requires
        umem_params_valid(p),
        p.frame_count * p.frame_size <= usize::MAX,
        XDP_PACKET_HEADROOM + p.frame_headroom <= p.frame_size,
        0 <= i < p.frame_count,
    ensures
        initial_frame(p, i).addr == i * p.frame_size,
        i + 1 < p.frame_count ==> initial_frame(p, i).addr + p.frame_size == initial_frame(
            p,
            i + 1,
        ).addr,
        initial_frame(p, i).addr + p.frame_size <= p.frame_count * p.frame_size,
        initial_frame(p, i).addr + initial_frame(p, i).mtu <= initial_frame(p, i).addr
            + p.frame_size,
{
    let fs = p.frame_size as int;
    let fc = p.frame_count as int;
    assert(0 <= i * fs && (i + 1) * fs <= fc * fs && (i + 1) * fs == i * fs + fs) by (nonlinear_arith)
        requires
            0 <= i < fc,
            0 <= fs,
    ;
}

/// Copies `data` into `umem` from `addr` on.
fn copy_to_umem(umem: &mut [u8], addr: usize, data: &[u8])
    requires
        addr + data@.len() <= old(umem)@.len(),
    ensures
        final(umem)@ == umem_write(old(umem)@, addr as int, data@),
{
    let n = data.len();
    let umem_len = umem.len();
    let mut i: usize = 0;
    while i < n
        invariant
            n == data@.len(),
            umem_len == umem@.len(),
            i <= n,
            addr + n <= umem@.len(),
            umem@.len() == old(umem)@.len(),
            forall|j: int| 0 <= j < addr ==> umem@[j] == old(umem)@[j],
            forall|j: int| addr + n <= j < umem@.len() ==> umem@[j] == old(umem)@[j],
            forall|j: int| 0 <= j < i ==> umem@[addr + j] == data@[j],
        decreases n - i,
    {
        umem[addr + i] = data[i];
        i = i + 1;
    }
    assert(umem@ =~= umem_write(old(umem)@, addr as int, data@));
}

/// The part of `umem` of length `len` starting at `addr`.
fn region_mut<'a>(umem: &'a mut [u8], addr: usize, len: usize) -> (r: &'a mut [u8])
    requires
        addr + len <= old(umem)@.len(),
    ensures
        r@ == umem_read(old(umem)@, addr as int, len as int),
        final(umem)@ == umem_splice(old(umem)@, addr as int, len as int, final(r)@),
{
    let (before, rest) = umem.split_at_mut(addr);
    let (region, after) = rest.split_at_mut(len);
    region
}

} // verus!
