//! Bookkeeping of the frames used to receive.
use vstd::prelude::*;

use super::{count_status, frame_descs, lemma_count_status_bound, lemma_count_status_update};
use super::tx::lemma_offset_in_frame;
use crate::umem::frame::{Frame, FrameDesc, FrameStatus, region_in_frame, umem_read};

verus! {

/// Makes `std::time::Instant` known to the verifier as an opaque type.
#[verifier::external_type_specification]
#[verifier::external_body]
pub struct ExInstant(std::time::Instant);

/// Reads the clock through `std::time::Instant::now`; nothing is known of
/// the instant it returns.
#[verifier::external_body]
fn instant_now() -> std::time::Instant {
    std::time::Instant::now()
}

/// The time elapsed from `earlier` to `later`, zero when `earlier` is the
/// later one, as `std::time::Instant::duration_since` computes it.
pub uninterp spec fn elapsed_between(
    later: std::time::Instant,
    earlier: std::time::Instant,
) -> std::time::Duration;

/// Calls `std::time::Instant::duration_since`, whose result depends on the two
/// instants alone: it is named [`elapsed_between`] of them.
#[verifier::external_body]
fn duration_since(later: &std::time::Instant, earlier: &std::time::Instant) -> (d:
    std::time::Duration)
    ensures
        d == elapsed_between(*later, *earlier),
{
    later.duration_since(*earlier)
}

/// Packet counters of the receiving side over a span of time.
#[derive(Debug)]
pub struct RxStats {
    pub pkts_rx: u64,
    pub pkts_rx_delivered: u64,
    pub start_time: std::time::Instant,
    pub end_time: std::time::Instant,
}

impl Clone for RxStats {
    fn clone(&self) -> (r: Self)
        ensures
            r == *self,
    {
        RxStats {
            pkts_rx: self.pkts_rx,
            pkts_rx_delivered: self.pkts_rx_delivered,
            start_time: self.start_time,
            end_time: self.end_time,
        }
    }
}

impl RxStats {
    /// No packet counted; both ends of the span are the current time.
    pub fn new() -> (r: Self)
        ensures
            r.pkts_rx == 0,
            r.pkts_rx_delivered == 0,
    {
        let start_time = instant_now();
        let end_time = instant_now();
        Self { pkts_rx: 0, pkts_rx_delivered: 0, start_time, end_time }
    }

    /// The length of the span the counters cover: the time elapsed from the
    /// start to the end.
    pub fn duration(&self) -> (d: std::time::Duration)
        ensures
            d == elapsed_between(self.end_time, self.start_time),
    {
        duration_since(&self.end_time, &self.start_time)
    }
}

/// Statistics of the receiving side.
pub struct ReceiverStats {}

/// Configuration of the receiving side.
#[derive(Debug)]
pub struct RxConfig {}

/// A descriptor the rx queue hands back: address, length and options.
pub type RxDesc = (usize, usize, u32);

/// Index of the rx frame that a received address belongs to: the distance,
/// taken in `u32`, from the address of the first rx frame, divided by the
/// frame size.
pub open spec fn rx_frame_index(addr: usize, offset: usize, frame_size: u32) -> int {
    (((addr as u32) - (offset as u32)) / (frame_size as int)) as int
}

/// The received descriptor `d` can be mapped onto one of `len` rx frames.
pub open spec fn rx_desc_in_range(d: RxDesc, offset: usize, frame_size: u32, len: int) -> bool {
    &&& (offset as u32) <= (d.0 as u32)
    &&& 0 <= rx_frame_index(d.0, offset, frame_size) < len
}

/// The descriptors once each received descriptor of `filled` has been
/// copied onto its frame, in order; with `mark_filled` the frames are also
/// marked as filled.
pub open spec fn apply_rx_descs(
    frames: Seq<FrameDesc>,
    filled: Seq<RxDesc>,
    offset: usize,
    frame_size: u32,
    mark_filled: bool,
) -> Seq<FrameDesc>
    decreases filled.len(),
{
    if filled.len() == 0 {
        frames
    } else {
        let prev = apply_rx_descs(frames, filled.drop_last(), offset, frame_size, mark_filled);
        let d = filled.last();
        let j = rx_frame_index(d.0, offset, frame_size);
        prev.update(
            j,
            FrameDesc {
                addr: d.0,
                len: d.1,
                options: d.2,
                status: if mark_filled {
                    FrameStatus::Filled
                } else {
                    prev[j].status
                },
                ..prev[j]
            },
        )
    }
}

/// A received descriptor whose address lies within rx frame `j`, the rx
/// frames being laid out back to back from `offset` with `frame_size` bytes
/// each, is copied onto frame `j`, which is marked filled when asked for, and
/// every other frame is left as it was.
pub proof fn lemma_received_desc_lands_in_containing_frame(
    frames: Seq<FrameDesc>,
    d: RxDesc,
    offset: usize,
    frame_size: u32,
    j: int,
    mark_filled: bool,
)
    requires
        frame_size > 0,
        0 <= j < frames.len(),
        frames[j].frame_start == offset + j * frame_size,
        frames[j].frame_start <= d.0 < frames[j].frame_start + frame_size,
        d.0 <= u32::MAX,
    ensures
        rx_frame_index(d.0, offset, frame_size) == j,
        apply_rx_descs(frames, seq![d], offset, frame_size, mark_filled).len() == frames.len(),
        apply_rx_descs(frames, seq![d], offset, frame_size, mark_filled)[j] == (FrameDesc {
            addr: d.0,
            len: d.1,
            options: d.2,
            status: if mark_filled {
                FrameStatus::Filled
            } else {
                frames[j].status
            },
            ..frames[j]
        }),
        forall|k: int|
            0 <= k < frames.len() && k != j ==> #[trigger] apply_rx_descs(
                frames,
                seq![d],
                offset,
                frame_size,
                mark_filled,
            )[k] == frames[k],
{
    assert((d.0 as u32) == d.0);
    assert((offset as u32) == offset);
    lemma_offset_in_frame(d.0 - offset, frame_size as int, j);
    let filled = seq![d];
    assert(filled.drop_last() =~= Seq::<RxDesc>::empty());
    assert(filled.last() == d);
    assert(apply_rx_descs(frames, filled.drop_last(), offset, frame_size, mark_filled) == frames);
}

/// The state of the receiving side as plain values.
pub struct RxView {
    pub frames: Seq<FrameDesc>,
    pub offset: usize,
    pub to_be_filled: u64,
    pub frame_size: u32,
    pub cursor: usize,
    pub pkts_rx: u64,
    pub pkts_rx_delivered: u64,
}

/// Well-formed state: there are frames and the cursor points into them.
pub open spec fn rx_wf(v: RxView) -> bool {
    &&& v.frames.len() > 0
    &&& v.cursor < v.frames.len()
}

/// The state of the receiving side is consistent when every frame is
/// either counted as to be filled by the kernel or holds received data, and
/// every packet received is either delivered or held in a filled frame.
pub open spec fn rx_consistent(v: RxView) -> bool {
    &&& v.to_be_filled + count_status(v.frames, FrameStatus::Filled) == v.frames.len()
    &&& v.pkts_rx == v.pkts_rx_delivered + count_status(v.frames, FrameStatus::Filled)
}

/// The received descriptors map to distinct frames that were waiting to be
/// filled, as the kernel hands back each frame of the fill queue once.
pub open spec fn rx_descs_fresh(
    frames: Seq<FrameDesc>,
    filled: Seq<RxDesc>,
    offset: usize,
    frame_size: u32,
) -> bool {
    &&& forall|k: int|
        0 <= k < filled.len() ==> !(frames[rx_frame_index(
            (#[trigger] filled[k]).0,
            offset,
            frame_size,
        )].status is Filled)
    &&& forall|k: int, l: int|
        0 <= k < l < filled.len() ==> rx_frame_index((#[trigger] filled[k]).0, offset, frame_size)
            != rx_frame_index((#[trigger] filled[l]).0, offset, frame_size)
}

/// The state once the descriptors `filled` were received: that many more
/// packets counted, that many fewer frames for the kernel to fill, and each
/// descriptor applied to its frame, which is marked filled.
pub open spec fn rx_after_receive(v: RxView, filled: Seq<RxDesc>) -> RxView {
    RxView {
        frames: apply_rx_descs(v.frames, filled, v.offset, v.frame_size, true),
        to_be_filled: (v.to_be_filled - filled.len()) as u64,
        pkts_rx: (v.pkts_rx + filled.len()) as u64,
        ..v
    }
}

/// Every received descriptor maps onto one of the frames.
pub open spec fn rx_descs_in_range(v: RxView, filled: Seq<RxDesc>) -> bool {
    &&& filled.len() > 0 ==> v.frame_size > 0
    &&& forall|k: int|
        0 <= k < filled.len() ==> rx_desc_in_range(
            #[trigger] filled[k],
            v.offset,
            v.frame_size,
            v.frames.len() as int,
        )
}

/// When the frame under the cursor holds received data, that data lies
/// within the frame, within a UMEM of `umem_len` bytes and fits a buffer of
/// `buf_len` bytes.
pub open spec fn rx_deliver_fits(v: RxView, umem_len: int, buf_len: int) -> bool {
    let f = v.frames[v.cursor as int];
    f.status is Filled ==> {
        &&& region_in_frame(f, f.len as int)
        &&& f.len <= buf_len
        &&& f.addr + f.len <= umem_len
    }
}

/// Applying received descriptors keeps the number of frames.
pub proof fn lemma_apply_rx_descs_len(
    frames: Seq<FrameDesc>,
    filled: Seq<RxDesc>,
    offset: usize,
    frame_size: u32,
    mark_filled: bool,
)
    requires
        frame_size > 0,
        forall|k: int|
            0 <= k < filled.len() ==> rx_desc_in_range(
                #[trigger] filled[k],
                offset,
                frame_size,
                frames.len() as int,
            ),
    ensures
        apply_rx_descs(frames, filled, offset, frame_size, mark_filled).len() == frames.len(),
    decreases filled.len(),
{
    if filled.len() > 0 {
        let rest = filled.drop_last();
        assert forall|k: int| 0 <= k < rest.len() implies rx_desc_in_range(
            #[trigger] rest[k],
            offset,
            frame_size,
            frames.len() as int,
        ) by {
            assert(rest[k] == filled[k]);
        }
        lemma_apply_rx_descs_len(frames, rest, offset, frame_size, mark_filled);
        assert(filled.last() == filled[filled.len() - 1]);
    }
}

/// A frame that none of the received descriptors maps to is left as it was.
pub proof fn lemma_apply_rx_descs_other(
    frames: Seq<FrameDesc>,
    filled: Seq<RxDesc>,
    offset: usize,
    frame_size: u32,
    mark_filled: bool,
    j: int,
)
    requires
        frame_size > 0,
        0 <= j < frames.len(),
        forall|k: int|
            0 <= k < filled.len() ==> rx_desc_in_range(
                #[trigger] filled[k],
                offset,
                frame_size,
                frames.len() as int,
            ),
        forall|k: int|
            0 <= k < filled.len() ==> rx_frame_index((#[trigger] filled[k]).0, offset, frame_size)
                != j,
    ensures
        apply_rx_descs(frames, filled, offset, frame_size, mark_filled)[j] == frames[j],
    decreases filled.len(),
{
    if filled.len() > 0 {
        let rest = filled.drop_last();
        assert forall|k: int| 0 <= k < rest.len() implies rx_desc_in_range(
            #[trigger] rest[k],
            offset,
            frame_size,
            frames.len() as int,
        ) && rx_frame_index(rest[k].0, offset, frame_size) != j by {
            assert(rest[k] == filled[k]);
        }
        lemma_apply_rx_descs_other(frames, rest, offset, frame_size, mark_filled, j);
        lemma_apply_rx_descs_len(frames, rest, offset, frame_size, mark_filled);
        assert(filled.last() == filled[filled.len() - 1]);
    }
}

/// How the number of filled frames changes when received descriptors are
/// applied: unchanged when frames are not marked, and up by the number of
/// descriptors when they map to distinct frames that were not yet filled.
pub proof fn lemma_apply_rx_descs_count(
    frames: Seq<FrameDesc>,
    filled: Seq<RxDesc>,
    offset: usize,
    frame_size: u32,
    mark_filled: bool,
)
    requires
        frame_size > 0,
        forall|k: int|
            0 <= k < filled.len() ==> rx_desc_in_range(
                #[trigger] filled[k],
                offset,
                frame_size,
                frames.len() as int,
            ),
        mark_filled ==> forall|k: int|
            0 <= k < filled.len() ==> !(frames[rx_frame_index(
                (#[trigger] filled[k]).0,
                offset,
                frame_size,
            )].status is Filled),
        mark_filled ==> forall|k: int, l: int|
            0 <= k < l < filled.len() ==> rx_frame_index((#[trigger] filled[k]).0, offset, frame_size)
                != rx_frame_index((#[trigger] filled[l]).0, offset, frame_size),
    ensures
        mark_filled ==> count_status(
            apply_rx_descs(frames, filled, offset, frame_size, mark_filled),
            FrameStatus::Filled,
        ) == count_status(frames, FrameStatus::Filled) + filled.len(),
        !mark_filled ==> count_status(
            apply_rx_descs(frames, filled, offset, frame_size, mark_filled),
            FrameStatus::Filled,
        ) == count_status(frames, FrameStatus::Filled),
    decreases filled.len(),
{
    if filled.len() > 0 {
        let rest = filled.drop_last();
        let last = filled.len() - 1;
        let j = rx_frame_index(filled[last].0, offset, frame_size);
        assert forall|k: int| 0 <= k < rest.len() implies rx_desc_in_range(
            #[trigger] rest[k],
            offset,
            frame_size,
            frames.len() as int,
        ) && (mark_filled ==> !(frames[rx_frame_index(rest[k].0, offset, frame_size)].status is Filled)
            && rx_frame_index(rest[k].0, offset, frame_size) != j) by {
            assert(rest[k] == filled[k]);
        }
        assert forall|k: int, l: int| mark_filled && 0 <= k < l < rest.len() implies rx_frame_index(
            (#[trigger] rest[k]).0,
            offset,
            frame_size,
        ) != rx_frame_index((#[trigger] rest[l]).0, offset, frame_size) by {
            assert(rest[k] == filled[k]);
            assert(rest[l] == filled[l]);
        }
        lemma_apply_rx_descs_count(frames, rest, offset, frame_size, mark_filled);
        lemma_apply_rx_descs_len(frames, rest, offset, frame_size, mark_filled);
        if mark_filled {
            lemma_apply_rx_descs_other(frames, rest, offset, frame_size, mark_filled, j);
        }
        let prev = apply_rx_descs(frames, rest, offset, frame_size, mark_filled);
        let d = filled[last];
        assert(filled.last() == d);
        lemma_count_status_update(
            prev,
            j,
            FrameDesc {
                addr: d.0,
                len: d.1,
                options: d.2,
                status: if mark_filled {
                    FrameStatus::Filled
                } else {
                    prev[j].status
                },
                ..prev[j]
            },
            FrameStatus::Filled,
        );
    }
}

/// A fresh receiving side, with no frame holding received data, every frame
/// to be filled by the kernel and no packet counted, is consistent.
pub proof fn lemma_rx_new_consistent(v: RxView)
    requires
        v.to_be_filled == v.frames.len(),
        v.pkts_rx == 0,
        v.pkts_rx_delivered == 0,
        forall|i: int| 0 <= i < v.frames.len() ==> !(#[trigger] v.frames[i].status is Filled),
    ensures
        rx_consistent(v),
{
    lemma_no_filled(v.frames);
}

proof fn lemma_no_filled(s: Seq<FrameDesc>)
    requires
        forall|i: int| 0 <= i < s.len() ==> !(#[trigger] s[i].status is Filled),
    ensures
        count_status(s, FrameStatus::Filled) == 0,
    decreases s.len(),
{
    if s.len() > 0 {
        let rest = s.drop_last();
        assert forall|i: int| 0 <= i < rest.len() implies !(#[trigger] rest[i].status is Filled) by {
            assert(rest[i] == s[i]);
        }
        lemma_no_filled(rest);
        assert(s.last() == s[s.len() - 1]);
    }
}

/// Receiving keeps the state consistent: when the rx queue hands back
/// descriptors of distinct frames that were waiting to be filled, the kernel
/// may fill that many fewer frames (never fewer than zero), that many more
/// packets are counted as received and that many more frames hold them.
pub proof fn lemma_receive_keeps_consistency(before: RxView, filled: Seq<RxDesc>)
    requires
        rx_wf(before),
        rx_consistent(before),
        before.pkts_rx + filled.len() <= u64::MAX,
        rx_descs_in_range(before, filled),
        rx_descs_fresh(before.frames, filled, before.offset, before.frame_size),
    ensures
        filled.len() <= before.to_be_filled,
        rx_consistent(
            RxView {
                frames: apply_rx_descs(
                    before.frames,
                    filled,
                    before.offset,
                    before.frame_size,
                    true,
                ),
                to_be_filled: (before.to_be_filled - filled.len()) as u64,
                pkts_rx: (before.pkts_rx + filled.len()) as u64,
                ..before
            },
        ),
{
    if filled.len() == 0 {
        return;
    }
    lemma_apply_rx_descs_count(before.frames, filled, before.offset, before.frame_size, true);
    lemma_apply_rx_descs_len(before.frames, filled, before.offset, before.frame_size, true);
    lemma_count_status_bound(
        apply_rx_descs(before.frames, filled, before.offset, before.frame_size, true),
        FrameStatus::Filled,
    );
}

/// Handing a received batch straight back to the fill queue keeps the state
/// consistent: the statuses of the frames do not change, the kernel may fill
/// as many frames as before and the batch counts as received and delivered.
pub proof fn lemma_batch_keeps_consistency(before: RxView, filled: Seq<RxDesc>)
    requires
        rx_wf(before),
        rx_consistent(before),
        filled.len() <= before.to_be_filled,
        before.pkts_rx + filled.len() <= u64::MAX,
        rx_descs_in_range(before, filled),
    ensures
        rx_consistent(
            RxView {
                frames: apply_rx_descs(
                    before.frames,
                    filled,
                    before.offset,
                    before.frame_size,
                    false,
                ),
                pkts_rx: (before.pkts_rx + filled.len()) as u64,
                pkts_rx_delivered: (before.pkts_rx_delivered + filled.len()) as u64,
                ..before
            },
        ),
{
    if filled.len() == 0 {
        return;
    }
    lemma_apply_rx_descs_count(before.frames, filled, before.offset, before.frame_size, false);
    lemma_apply_rx_descs_len(before.frames, filled, before.offset, before.frame_size, false);
}

/// Delivering the filled frame under the cursor and handing it back to the
/// fill queue keeps the state consistent; there is then always room in the
/// counters for it.
pub proof fn lemma_release_keeps_consistency(before: RxView)
    requires
        rx_wf(before),
        rx_consistent(before),
        before.frames.len() <= usize::MAX,
        before.frames[before.cursor as int].status is Filled,
    ensures
        before.to_be_filled < before.frames.len(),
        before.pkts_rx_delivered < before.pkts_rx,
        rx_consistent(
            RxView {
                frames: before.frames.update(
                    before.cursor as int,
                    FrameDesc { status: FrameStatus::Free, ..before.frames[before.cursor as int] },
                ),
                to_be_filled: (before.to_be_filled + 1) as u64,
                pkts_rx_delivered: (before.pkts_rx_delivered + 1) as u64,
                cursor: ((before.cursor + 1) % (before.frames.len() as int)) as usize,
                ..before
            },
        ),
{
    let c = before.cursor as int;
    lemma_count_status_update(
        before.frames,
        c,
        FrameDesc { status: FrameStatus::Free, ..before.frames[c] },
        FrameStatus::Filled,
    );
}

/// The frames an AF_XDP socket receives with, the frame to deliver next and
/// how many frames the kernel may still fill.
pub struct RxFrames {
    rx_frames: Vec<Frame>,
    rx_frame_offset: usize,
    n_frames_to_be_filled: u64,
    frame_size: u32,
    rx_cursor: usize,
    pkts_rx: u64,
    pkts_rx_delivered: u64,
}

impl View for RxFrames {
    type V = RxView;

    closed spec fn view(&self) -> RxView {
        RxView {
            frames: frame_descs(self.rx_frames@),
            offset: self.rx_frame_offset,
            to_be_filled: self.n_frames_to_be_filled,
            frame_size: self.frame_size,
            cursor: self.rx_cursor,
            pkts_rx: self.pkts_rx,
            pkts_rx_delivered: self.pkts_rx_delivered,
        }
    }
}

impl RxFrames {
    /// Starts with every frame to be filled by the kernel, the cursor on the
    /// first frame and the address of the first frame as the base of the
    /// frame indices.
    pub fn new(rx_frames: Vec<Frame>, frame_size: u32) -> (r: Self)
        requires
            rx_frames@.len() > 0,
        ensures
            rx_wf(r@),
            r@.frames == frame_descs(rx_frames@),
            r@.offset == rx_frames@[0]@.addr,
            r@.to_be_filled == rx_frames@.len(),
            r@.frame_size == frame_size,
            r@.cursor == 0,
            r@.pkts_rx == 0,
            r@.pkts_rx_delivered == 0,
    {
        let n_rx_frames = rx_frames.len();
        let rx_frame_offset = rx_frames[0].addr();
        RxFrames {
            rx_frames,
            rx_frame_offset,
            n_frames_to_be_filled: n_rx_frames as u64,
            frame_size,
            rx_cursor: 0,
            pkts_rx: 0,
            pkts_rx_delivered: 0,
        }
    }

    pub fn frames(&self) -> (r: &Vec<Frame>)
        ensures
            frame_descs(r@) == self@.frames,
    {
        &self.rx_frames
    }

    /// How many frames the kernel may still fill.
    pub fn n_frames_to_be_filled(&self) -> (r: u64)
        ensures
            r == self@.to_be_filled,
    {
        self.n_frames_to_be_filled
    }

    pub fn cursor(&self) -> (r: usize)
        ensures
            r == self@.cursor,
    {
        self.rx_cursor
    }

    /// The address of the first rx frame, from which frame indices are counted.
    pub fn offset(&self) -> (r: usize)
        ensures
            r == self@.offset,
    {
        self.rx_frame_offset
    }

    pub fn frame_size(&self) -> (r: u32)
        ensures
            r == self@.frame_size,
    {
        self.frame_size
    }

    pub fn pkts_rx(&self) -> (r: u64)
        ensures
            r == self@.pkts_rx,
    {
        self.pkts_rx
    }

    pub fn pkts_rx_delivered(&self) -> (r: u64)
        ensures
            r == self@.pkts_rx_delivered,
    {
        self.pkts_rx_delivered
    }

    /// Records that the rx queue handed back `n` frames: that many more
    /// packets were received and the kernel may fill that many fewer frames.
    pub fn consumed(&mut self, n: usize)
        requires
            n <= old(self)@.to_be_filled,
            old(self)@.pkts_rx + n <= u64::MAX,
        ensures
            final(self)@ == (RxView {
                to_be_filled: (old(self)@.to_be_filled - n) as u64,
                pkts_rx: (old(self)@.pkts_rx + n) as u64,
                ..old(self)@
            }),
    {
        self.pkts_rx = self.pkts_rx + n as u64;
        self.n_frames_to_be_filled = self.n_frames_to_be_filled - n as u64;
    }

    /// Copies each received descriptor onto its frame, in order; with
    /// `mark_filled` the frame is also marked as holding received data.
    /// Returns a copy of each frame as it stood right after its descriptor
    /// was applied.
    fn apply_descs(&mut self, filled: &[RxDesc], mark_filled: bool) -> (r: Vec<Frame>)
        requires
            rx_wf(old(self)@),
            rx_descs_in_range(old(self)@, filled@),
        ensures
            final(self)@ == (RxView {
                frames: apply_rx_descs(
                    old(self)@.frames,
                    filled@,
                    old(self)@.offset,
                    old(self)@.frame_size,
                    mark_filled,
                ),
                ..old(self)@
            }),
            r@.len() == filled@.len(),
            forall|k: int|
                0 <= k < filled@.len() ==> (#[trigger] r@[k])@ == apply_rx_descs(
                    old(self)@.frames,
                    filled@.take(k + 1),
                    old(self)@.offset,
                    old(self)@.frame_size,
                    mark_filled,
                )[rx_frame_index(filled@[k].0, old(self)@.offset, old(self)@.frame_size)],
    {
        let n = filled.len();
        let ghost start = frame_descs(self.rx_frames@);
        let mut processed: Vec<Frame> = Vec::new();
        let mut i: usize = 0;
        assert(filled@.take(0) =~= Seq::<RxDesc>::empty());
        while i < n
            invariant
                n == filled@.len(),
                i <= n,
                self.rx_frame_offset == old(self)@.offset,
                self.frame_size == old(self)@.frame_size,
                n > 0 ==> self.frame_size > 0,
                self.n_frames_to_be_filled == old(self)@.to_be_filled,
                self.rx_cursor == old(self)@.cursor,
                self.pkts_rx == old(self)@.pkts_rx,
                self.pkts_rx_delivered == old(self)@.pkts_rx_delivered,
                start == old(self)@.frames,
                self.rx_frames@.len() == start.len(),
                frame_descs(self.rx_frames@) == apply_rx_descs(
                    start,
                    filled@.take(i as int),
                    self.rx_frame_offset,
                    self.frame_size,
                    mark_filled,
                ),
                processed@.len() == i,
                forall|k: int|
                    0 <= k < i ==> (#[trigger] processed@[k])@ == apply_rx_descs(
                        start,
                        filled@.take(k + 1),
                        self.rx_frame_offset,
                        self.frame_size,
                        mark_filled,
                    )[rx_frame_index(filled@[k].0, self.rx_frame_offset, self.frame_size)],
                forall|k: int|
                    0 <= k < filled@.len() ==> rx_desc_in_range(
                        #[trigger] filled@[k],
                        self.rx_frame_offset,
                        self.frame_size,
                        start.len() as int,
                    ),
            decreases n - i,
        {
            let (addr, len, options) = filled[i];
            assert(rx_desc_in_range(filled@[i as int], self.rx_frame_offset, self.frame_size, start.len() as int));
            let idx = ((addr as u32 - self.rx_frame_offset as u32) / self.frame_size) as usize;
            let mut frame = self.rx_frames[idx].clone();
            frame.set_addr(addr);
            frame.set_len(len);
            frame.set_options(options);
            if mark_filled {
                frame.set_status(FrameStatus::Filled);
            }
            self.rx_frames.set(idx, frame.clone());
            processed.push(frame);
            proof {
                let taken = filled@.take(i + 1);
                assert(taken.drop_last() =~= filled@.take(i as int));
                assert(taken.last() == filled@[i as int]);
                assert(frame_descs(self.rx_frames@) =~= apply_rx_descs(
                    start,
                    taken,
                    self.rx_frame_offset,
                    self.frame_size,
                    mark_filled,
                ));
            }
            i = i + 1;
        }
        assert(filled@.take(n as int) =~= filled@);
        processed
    }

    /// Copies each received descriptor onto its frame and marks the frame as
    /// holding received data.
    pub fn update_rx_frames(&mut self, filled: &[RxDesc])
        requires
            rx_wf(old(self)@),
            rx_descs_in_range(old(self)@, filled@),
        ensures
            final(self)@ == (RxView {
                frames: apply_rx_descs(
                    old(self)@.frames,
                    filled@,
                    old(self)@.offset,
                    old(self)@.frame_size,
                    true,
                ),
                ..old(self)@
            }),
    {
        let _ = self.apply_descs(filled, true);
    }

    /// Copies each received descriptor of a batch onto its frame, leaving
    /// the frame's status alone, and returns the frames of the batch, in
    /// order, as they are to be handed back to the fill queue.
    pub fn apply_batch(&mut self, filled: &[RxDesc]) -> (r: Vec<Frame>)
        requires
            rx_wf(old(self)@),
            rx_descs_in_range(old(self)@, filled@),
        ensures
            final(self)@ == (RxView {
                frames: apply_rx_descs(
                    old(self)@.frames,
                    filled@,
                    old(self)@.offset,
                    old(self)@.frame_size,
                    false,
                ),
                ..old(self)@
            }),
            r@.len() == filled@.len(),
            forall|k: int|
                0 <= k < filled@.len() ==> (#[trigger] r@[k])@ == apply_rx_descs(
                    old(self)@.frames,
                    filled@.take(k + 1),
                    old(self)@.offset,
                    old(self)@.frame_size,
                    false,
                )[rx_frame_index(filled@[k].0, old(self)@.offset, old(self)@.frame_size)],
    {
        self.apply_descs(filled, false)
    }

    /// Records that the `n` frames of a batch went back to the fill queue:
    /// that many more packets were delivered and the kernel may fill that
    /// many more frames.
    pub fn batch_recycled(&mut self, n: usize)
        requires
            old(self)@.to_be_filled + n <= u64::MAX,
            old(self)@.pkts_rx_delivered + n <= u64::MAX,
        ensures
            final(self)@ == (RxView {
                to_be_filled: (old(self)@.to_be_filled + n) as u64,
                pkts_rx_delivered: (old(self)@.pkts_rx_delivered + n) as u64,
                ..old(self)@
            }),
    {
        self.pkts_rx_delivered = self.pkts_rx_delivered + n as u64;
        self.n_frames_to_be_filled = self.n_frames_to_be_filled + n as u64;
    }

    /// When the frame under the cursor holds received data, copies that data
    /// to the start of `pkt_receiver` and returns its length; otherwise
    /// returns 0 and copies nothing.
    pub fn deliver_cursor_frame(&self, umem: &[u8], pkt_receiver: &mut [u8]) -> (r: usize)
        requires
            rx_wf(self@),
            rx_deliver_fits(self@, umem@.len() as int, old(pkt_receiver)@.len() as int),
        ensures
            ({
                let f = self@.frames[self@.cursor as int];
                if f.status is Filled {
                    &&& r == f.len
                    &&& final(pkt_receiver)@ == umem_read(umem@, f.addr as int, f.len as int)
                        + old(pkt_receiver)@.subrange(f.len as int, old(pkt_receiver)@.len() as int)
                } else {
                    &&& r == 0
                    &&& final(pkt_receiver)@ == old(pkt_receiver)@
                }
            }),
    {
        let c = self.rx_cursor;
        let frame = &self.rx_frames[c];
        match frame.status() {
            FrameStatus::Filled => {
                let len = frame.len();
                let data = frame.read_from_umem(umem, len);
                copy_prefix(pkt_receiver, data);
                len
            },
            _ => 0,
        }
    }

    /// One receive: records the descriptors the rx queue handed back: that
    /// many more packets received, that many fewer frames for the kernel to
    /// fill, and each frame updated and marked filled. The filled frame
    /// under the cursor, if any, is then delivered with
    /// [`RxFrames::deliver_cursor_frame`], handed back to the fill queue and
    /// released with [`RxFrames::release_cursor_frame`].
    pub fn receive(&mut self, filled: &[RxDesc])
        requires
            rx_wf(old(self)@),
            filled@.len() <= old(self)@.to_be_filled,
            old(self)@.pkts_rx + filled@.len() <= u64::MAX,
            rx_descs_in_range(old(self)@, filled@),
        ensures
            final(self)@ == rx_after_receive(old(self)@, filled@),
            rx_wf(final(self)@),
            rx_consistent(old(self)@) && rx_descs_fresh(
                old(self)@.frames,
                filled@,
                old(self)@.offset,
                old(self)@.frame_size,
            ) ==> rx_consistent(final(self)@),
    {
        proof {
            if rx_consistent(old(self)@) && rx_descs_fresh(
                old(self)@.frames,
                filled@,
                old(self)@.offset,
                old(self)@.frame_size,
            ) {
                lemma_receive_keeps_consistency(old(self)@, filled@);
            }
            if filled@.len() > 0 {
                lemma_apply_rx_descs_len(
                    old(self)@.frames,
                    filled@,
                    old(self)@.offset,
                    old(self)@.frame_size,
                    true,
                );
            }
        }
        self.consumed(filled.len());
        self.update_rx_frames(filled);
    }

    /// One received batch: records the descriptors the rx queue handed back
    /// and copies each onto its frame, leaving the frames' statuses alone, and
    /// counts the batch as received and delivered; the kernel may fill as many
    /// frames as before. Returns the frames of the batch, in order, as they
    /// are to be read and handed back to the fill queue.
    pub fn receive_batch(&mut self, filled: &[RxDesc]) -> (r: Vec<Frame>)
        requires
            rx_wf(old(self)@),
            filled@.len() <= old(self)@.to_be_filled,
            old(self)@.pkts_rx + filled@.len() <= u64::MAX,
            old(self)@.pkts_rx_delivered + filled@.len() <= u64::MAX,
            rx_descs_in_range(old(self)@, filled@),
        ensures
            final(self)@ == (RxView {
                frames: apply_rx_descs(
                    old(self)@.frames,
                    filled@,
                    old(self)@.offset,
                    old(self)@.frame_size,
                    false,
                ),
                pkts_rx: (old(self)@.pkts_rx + filled@.len()) as u64,
                pkts_rx_delivered: (old(self)@.pkts_rx_delivered + filled@.len()) as u64,
                ..old(self)@
            }),
            r@.len() == filled@.len(),
            forall|k: int|
                0 <= k < filled@.len() ==> (#[trigger] r@[k])@ == apply_rx_descs(
                    old(self)@.frames,
                    filled@.take(k + 1),
                    old(self)@.offset,
                    old(self)@.frame_size,
                    false,
                )[rx_frame_index(filled@[k].0, old(self)@.offset, old(self)@.frame_size)],
            rx_consistent(old(self)@) ==> rx_consistent(final(self)@),
    {
        proof {
            if rx_consistent(old(self)@) {
                lemma_batch_keeps_consistency(old(self)@, filled@);
            }
        }
        let n = filled.len();
        self.consumed(n);
        let processed = self.apply_batch(filled);
        self.batch_recycled(n);
        processed
    }

    /// Records that the frame under the cursor went back to the fill queue:
    /// it is free again, one more packet was delivered, the kernel may fill
    /// one more frame and the cursor moves on to the next frame, round robin.
    pub fn release_cursor_frame(&mut self)
        requires
            rx_wf(old(self)@),
            old(self)@.frames[old(self)@.cursor as int].status is Filled,
            old(self)@.to_be_filled < u64::MAX,
            old(self)@.pkts_rx_delivered < u64::MAX,
        ensures
            rx_wf(final(self)@),
            final(self)@ == (RxView {
                frames: old(self)@.frames.update(
                    old(self)@.cursor as int,
                    FrameDesc {
                        status: FrameStatus::Free,
                        ..old(self)@.frames[old(self)@.cursor as int]
                    },
                ),
                to_be_filled: (old(self)@.to_be_filled + 1) as u64,
                pkts_rx_delivered: (old(self)@.pkts_rx_delivered + 1) as u64,
                cursor: ((old(self)@.cursor + 1) % (old(self)@.frames.len() as int)) as usize,
                ..old(self)@
            }),
            rx_consistent(old(self)@) ==> rx_consistent(final(self)@),
    {
        let c = self.rx_cursor;
        let len = self.rx_frames.len();
        proof {
            if rx_consistent(old(self)@) {
                lemma_release_keeps_consistency(old(self)@);
            }
        }
        let mut frame = self.rx_frames[c].clone();
        frame.set_status(FrameStatus::Free);
        self.rx_frames.set(c, frame);
        self.pkts_rx_delivered = self.pkts_rx_delivered + 1;
        self.n_frames_to_be_filled = self.n_frames_to_be_filled + 1;
        self.rx_cursor = (c + 1) % len;
        proof {
            assert(frame_descs(self.rx_frames@) =~= old(self)@.frames.update(
                c as int,
                FrameDesc { status: FrameStatus::Free, ..old(self)@.frames[c as int] },
            ));
        }
    }
}

/// Copies `src` to the start of `dst`.
fn copy_prefix(dst: &mut [u8], src: &[u8])
    requires
        src@.len() <= old(dst)@.len(),
    ensures
        final(dst)@ == src@ + old(dst)@.subrange(src@.len() as int, old(dst)@.len() as int),
{
    let n = src.len();
    let mut i: usize = 0;
    while i < n
        invariant
            n == src@.len(),
            i <= n,
            n <= dst@.len(),
            dst@.len() == old(dst)@.len(),
            forall|j: int| n <= j < dst@.len() ==> dst@[j] == old(dst)@[j],
            forall|j: int| 0 <= j < i ==> dst@[j] == src@[j],
        decreases n - i,
    {
        dst[i] = src[i];
        i = i + 1;
    }
    assert(dst@ =~= src@ + old(dst)@.subrange(n as int, old(dst)@.len() as int));
}

} // verus!
