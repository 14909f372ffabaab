//! Bookkeeping of the frames used to transmit.
use vstd::prelude::*;

use super::{count_status, frame_descs, lemma_count_status_bound, lemma_count_status_update};
use crate::umem::frame::{Frame, FrameDesc, FrameStatus, region_in_frame, umem_write};

verus! {

/// Send error of an AF_XDP socket.
#[derive(Debug, Clone, Copy, PartialEq, Eq, Structural)]
pub enum XskSendError {
    NoFreeTxFrames,
}

impl XskSendError {
    /// The human readable description of the error.
    pub fn message(&self) -> (r: &'static str)
        ensures
            r == "there are no free tx frames, try again later",
    {
        match self {
            XskSendError::NoFreeTxFrames => "there are no free tx frames, try again later",
        }
    }
}

/// Statistics of the sending side.
pub struct SenderStats {}

/// Index of the tx frame that a completed address belongs to: the address,
/// taken as a `u32`, divided by the frame size.
pub open spec fn tx_frame_index(addr: u64, frame_size: u32) -> int {
    ((addr as u32) / frame_size) as int
}

/// The descriptors once each frame that `addrs` points to is marked free,
/// in the order of `addrs`.
pub open spec fn mark_free(frames: Seq<FrameDesc>, addrs: Seq<u64>, frame_size: u32) -> Seq<
    FrameDesc,
>
    decreases addrs.len(),
{
    if addrs.len() == 0 {
        frames
    } else {
        let prev = mark_free(frames, addrs.drop_last(), frame_size);
        let j = tx_frame_index(addrs.last(), frame_size);
        prev.update(j, FrameDesc { status: FrameStatus::Free, ..prev[j] })
    }
}

/// The state of the sending side as plain values.
pub struct TxView {
    pub frames: Seq<FrameDesc>,
    pub outstanding: u64,
    pub cursor: usize,
    pub frame_size: u32,
}

/// Well-formed state: the cursor points into the frames when there are any.
pub open spec fn tx_wf(v: TxView) -> bool {
    &&& v.frames.len() > 0 ==> v.cursor < v.frames.len()
    &&& v.frames.len() == 0 ==> v.cursor == 0
}

/// When the frame under the cursor is free, `data` can be written to it: if
/// it is not empty, it fits the frame's MTU, lies within the frame and
/// within a UMEM of `umem_len` bytes.
pub open spec fn tx_write_fits(v: TxView, umem_len: int, data_len: int) -> bool {
    let f = v.frames[v.cursor as int];
    f.status is Free && data_len > 0 ==> {
        &&& data_len <= f.mtu
        &&& region_in_frame(f, data_len)
        &&& f.addr + data_len <= umem_len
    }
}

/// The state of the sending side is consistent when the count of frames
/// handed to the kernel equals the number of frames on the tx queue.
pub open spec fn tx_consistent(v: TxView) -> bool {
    v.outstanding == count_status(v.frames, FrameStatus::OnTxQueue)
}

/// The addresses the completion queue returned point to distinct frames that
/// are all on the tx queue, as the kernel hands back each submitted frame once.
pub open spec fn completions_match(frames: Seq<FrameDesc>, addrs: Seq<u64>, frame_size: u32) -> bool {
    &&& forall|k: int|
        0 <= k < addrs.len() ==> tx_frame_index(#[trigger] addrs[k], frame_size) < frames.len()
    &&& forall|k: int|
        0 <= k < addrs.len() ==> frames[tx_frame_index(#[trigger] addrs[k], frame_size)].status is OnTxQueue
    &&& forall|k: int, l: int|
        0 <= k < l < addrs.len() ==> tx_frame_index(#[trigger] addrs[k], frame_size)
            != tx_frame_index(#[trigger] addrs[l], frame_size)
}

/// Marking frames free keeps the number of frames.
pub proof fn lemma_mark_free_len(frames: Seq<FrameDesc>, addrs: Seq<u64>, frame_size: u32)
    requires
        frame_size > 0,
        forall|k: int|
            0 <= k < addrs.len() ==> tx_frame_index(#[trigger] addrs[k], frame_size)
                < frames.len(),
    ensures
        mark_free(frames, addrs, frame_size).len() == frames.len(),
    decreases addrs.len(),
{
    if addrs.len() > 0 {
        let rest = addrs.drop_last();
        assert forall|k: int| 0 <= k < rest.len() implies tx_frame_index(#[trigger] rest[k], frame_size)
            < frames.len() by {
            assert(rest[k] == addrs[k]);
        }
        lemma_mark_free_len(frames, rest, frame_size);
        assert(addrs.last() == addrs[addrs.len() - 1]);
    }
}

/// A frame that none of `addrs` points to is left as it was.
pub proof fn lemma_mark_free_other(
    frames: Seq<FrameDesc>,
    addrs: Seq<u64>,
    frame_size: u32,
    j: int,
)
    requires
        frame_size > 0,
        0 <= j < frames.len(),
        forall|k: int|
            0 <= k < addrs.len() ==> tx_frame_index(#[trigger] addrs[k], frame_size)
                < frames.len(),
        forall|k: int| 0 <= k < addrs.len() ==> tx_frame_index(#[trigger] addrs[k], frame_size) != j,
    ensures
        mark_free(frames, addrs, frame_size)[j] == frames[j],
    decreases addrs.len(),
{
    if addrs.len() > 0 {
        let rest = addrs.drop_last();
        assert forall|k: int| 0 <= k < rest.len() implies tx_frame_index(#[trigger] rest[k], frame_size)
            != j && tx_frame_index(rest[k], frame_size) < frames.len() by {
            assert(rest[k] == addrs[k]);
        }
        lemma_mark_free_other(frames, rest, frame_size, j);
        lemma_mark_free_len(frames, rest, frame_size);
        assert(addrs.last() == addrs[addrs.len() - 1]);
    }
}

/// Dividing an offset into frames of `frame_size` bytes gives the frame the
/// offset falls in.
pub proof fn lemma_offset_in_frame(x: int, frame_size: int, j: int)
    requires
        frame_size > 0,
        0 <= j,
        j * frame_size <= x < j * frame_size + frame_size,
    ensures
        x / frame_size == j,
{
    assert(x / frame_size == j) by (nonlinear_arith)
        requires
            frame_size > 0,
            0 <= j,
            j * frame_size <= x,
            x < j * frame_size + frame_size,
    ;
}

/// A completed address that lies within tx frame `j`, the frames being laid
/// out back to back from address 0 with `frame_size` bytes each, frees frame
/// `j` and leaves every other frame as it was.
pub proof fn lemma_completion_frees_containing_frame(
    frames: Seq<FrameDesc>,
    frame_size: u32,
    j: int,
    addr: u64,
)
    requires
        frame_size > 0,
        0 <= j < frames.len(),
        frames[j].frame_start == j * frame_size,
        frames[j].frame_start <= addr < frames[j].frame_start + frame_size,
        addr <= u32::MAX,
    ensures
        tx_frame_index(addr, frame_size) == j,
        mark_free(frames, seq![addr], frame_size).len() == frames.len(),
        mark_free(frames, seq![addr], frame_size)[j] == (FrameDesc {
            status: FrameStatus::Free,
            ..frames[j]
        }),
        forall|k: int|
            0 <= k < frames.len() && k != j ==> #[trigger] mark_free(frames, seq![addr], frame_size)[k]
                == frames[k],
{
    assert((addr as u32) == addr);
    lemma_offset_in_frame(addr as int, frame_size as int, j);
    let addrs = seq![addr];
    assert(addrs.drop_last() =~= Seq::<u64>::empty());
    assert(addrs.last() == addr);
    assert(mark_free(frames, addrs.drop_last(), frame_size) == frames);
}

/// When the addresses the completion queue returns point to distinct frames
/// that are all on the tx queue, taking them back lowers the number of
/// frames on the tx queue by the number of addresses.
pub proof fn lemma_mark_free_count(frames: Seq<FrameDesc>, addrs: Seq<u64>, frame_size: u32)
    requires
        frame_size > 0,
        forall|k: int|
            0 <= k < addrs.len() ==> tx_frame_index(#[trigger] addrs[k], frame_size)
                < frames.len(),
        forall|k: int|
            0 <= k < addrs.len() ==> frames[tx_frame_index(#[trigger] addrs[k], frame_size)].status
                is OnTxQueue,
        forall|k: int, l: int|
            0 <= k < l < addrs.len() ==> tx_frame_index(#[trigger] addrs[k], frame_size)
                != tx_frame_index(#[trigger] addrs[l], frame_size),
    ensures
        count_status(mark_free(frames, addrs, frame_size), FrameStatus::OnTxQueue) + addrs.len()
            == count_status(frames, FrameStatus::OnTxQueue),
    decreases addrs.len(),
{
    if addrs.len() > 0 {
        let rest = addrs.drop_last();
        let last = addrs.len() - 1;
        let j = tx_frame_index(addrs[last], frame_size);
        assert forall|k: int| 0 <= k < rest.len() implies tx_frame_index(#[trigger] rest[k], frame_size)
            < frames.len() && frames[tx_frame_index(rest[k], frame_size)].status is OnTxQueue
            && tx_frame_index(rest[k], frame_size) != j by {
            assert(rest[k] == addrs[k]);
        }
        assert forall|k: int, l: int| 0 <= k < l < rest.len() implies tx_frame_index(
            #[trigger] rest[k],
            frame_size,
        ) != tx_frame_index(#[trigger] rest[l], frame_size) by {
            assert(rest[k] == addrs[k]);
            assert(rest[l] == addrs[l]);
        }
        lemma_mark_free_count(frames, rest, frame_size);
        lemma_mark_free_len(frames, rest, frame_size);
        lemma_mark_free_other(frames, rest, frame_size, j);
        let prev = mark_free(frames, rest, frame_size);
        assert(addrs.last() == addrs[last]);
        lemma_count_status_update(
            prev,
            j,
            FrameDesc { status: FrameStatus::Free, ..prev[j] },
            FrameStatus::OnTxQueue,
        );
    }
}

/// Taking back completed frames keeps the state consistent, provided the
/// completion queue returns distinct frames that are on the tx queue; such
/// a batch is never larger than the count of outstanding frames.
pub proof fn lemma_complete_keeps_consistency(before: TxView, addrs: Seq<u64>)
    requires
        before.frame_size > 0,
        tx_consistent(before),
        forall|k: int|
            0 <= k < addrs.len() ==> tx_frame_index(#[trigger] addrs[k], before.frame_size)
                < before.frames.len(),
        forall|k: int|
            0 <= k < addrs.len() ==> before.frames[tx_frame_index(
                #[trigger] addrs[k],
                before.frame_size,
            )].status is OnTxQueue,
        forall|k: int, l: int|
            0 <= k < l < addrs.len() ==> tx_frame_index(#[trigger] addrs[k], before.frame_size)
                != tx_frame_index(#[trigger] addrs[l], before.frame_size),
    ensures
        addrs.len() <= before.outstanding,
        tx_consistent(
            TxView {
                frames: mark_free(before.frames, addrs, before.frame_size),
                outstanding: (before.outstanding - addrs.len()) as u64,
                ..before
            },
        ),
{
    lemma_mark_free_count(before.frames, addrs, before.frame_size);
}

/// Handing the free frame under the cursor to the tx queue keeps the state
/// consistent.
pub proof fn lemma_submitted_keeps_consistency(before: TxView)
    requires
        tx_wf(before),
        tx_consistent(before),
        before.frames.len() <= usize::MAX,
        before.frames.len() > 0,
        before.frames[before.cursor as int].status is Free,
    ensures
        before.outstanding < u64::MAX,
        tx_consistent(
            TxView {
                frames: before.frames.update(
                    before.cursor as int,
                    FrameDesc {
                        status: FrameStatus::OnTxQueue,
                        ..before.frames[before.cursor as int]
                    },
                ),
                outstanding: (before.outstanding + 1) as u64,
                cursor: ((before.cursor + 1) % (before.frames.len() as int)) as usize,
                frame_size: before.frame_size,
            },
        ),
{
    let c = before.cursor as int;
    lemma_count_status_update(
        before.frames,
        c,
        FrameDesc { status: FrameStatus::OnTxQueue, ..before.frames[c] },
        FrameStatus::OnTxQueue,
    );
    lemma_count_status_bound(before.frames, FrameStatus::OnTxQueue);
    lemma_count_status_update(
        before.frames,
        c,
        FrameDesc { status: FrameStatus::OnTxQueue, ..before.frames[c] },
        FrameStatus::Free,
    );
    lemma_count_below_len_when_other(before.frames, c);
}

/// A freshly started sending side, with every frame free and none
/// outstanding, is consistent.
pub proof fn lemma_new_consistent(v: TxView)
    requires
        v.outstanding == 0,
        forall|i: int| 0 <= i < v.frames.len() ==> #[trigger] v.frames[i].status is Free,
    ensures
        tx_consistent(v),
{
    lemma_all_free_none_on_tx_queue(v.frames);
}

proof fn lemma_all_free_none_on_tx_queue(frames: Seq<FrameDesc>)
    requires
        forall|i: int| 0 <= i < frames.len() ==> #[trigger] frames[i].status is Free,
    ensures
        count_status(frames, FrameStatus::OnTxQueue) == 0,
    decreases frames.len(),
{
    if frames.len() > 0 {
        let rest = frames.drop_last();
        assert forall|i: int| 0 <= i < rest.len() implies #[trigger] rest[i].status is Free by {
            assert(rest[i] == frames[i]);
        }
        lemma_all_free_none_on_tx_queue(rest);
        assert(frames.last() == frames[frames.len() - 1]);
    }
}

/// When one descriptor does not have a status, fewer descriptors than there
/// are have it.
proof fn lemma_count_below_len_when_other(s: Seq<FrameDesc>, j: int)
    requires
        0 <= j < s.len(),
        s[j].status is Free,
    ensures
        count_status(s, FrameStatus::OnTxQueue) < s.len(),
    decreases s.len(),
{
    if j == s.len() - 1 {
        lemma_count_status_bound(s.drop_last(), FrameStatus::OnTxQueue);
    } else {
        assert(s.drop_last()[j] == s[j]);
        lemma_count_below_len_when_other(s.drop_last(), j);
    }
}

/// The frames an AF_XDP socket transmits with, the frame to use next and
/// how many frames the kernel has not returned yet.
pub struct TxFrames {
    tx_frames: Vec<Frame>,
    outstanding_tx_frames: u64,
    tx_cursor: usize,
    frame_size: u32,
}

impl View for TxFrames {
    type V = TxView;

    closed spec fn view(&self) -> TxView {
        TxView {
            frames: frame_descs(self.tx_frames@),
            outstanding: self.outstanding_tx_frames,
            cursor: self.tx_cursor,
            frame_size: self.frame_size,
        }
    }
}

impl TxFrames {
    /// Starts with every frame free, none outstanding and the cursor on the first frame.
    pub fn new(tx_frames: Vec<Frame>, frame_size: u32) -> (r: Self)
        ensures
            tx_wf(r@),
            r@.frames == frame_descs(tx_frames@),
            r@.outstanding == 0,
            r@.cursor == 0,
            r@.frame_size == frame_size,
    {
        TxFrames { tx_frames, outstanding_tx_frames: 0, tx_cursor: 0, frame_size }
    }

    pub fn frames(&self) -> (r: &Vec<Frame>)
        ensures
            frame_descs(r@) == self@.frames,
    {
        &self.tx_frames
    }

    pub fn frame_size(&self) -> (r: u32)
        ensures
            r == self@.frame_size,
    {
        self.frame_size
    }

    pub fn outstanding(&self) -> (r: u64)
        ensures
            r == self@.outstanding,
    {
        self.outstanding_tx_frames
    }

    pub fn cursor(&self) -> (r: usize)
        requires
            tx_wf(self@),
        ensures
            r == self@.cursor,
            self@.frames.len() > 0 ==> r < self@.frames.len(),
    {
        self.tx_cursor
    }

    /// Takes back the frames whose addresses the completion queue returned:
    /// each of them is marked free and the count of outstanding frames drops
    /// by the number of addresses.
    pub fn complete(&mut self, free_addrs: &[u64])
        requires
            tx_wf(old(self)@),
            free_addrs@.len() > 0 ==> old(self)@.frame_size > 0,
            free_addrs@.len() <= old(self)@.outstanding,
            forall|k: int|
                0 <= k < free_addrs@.len() ==> tx_frame_index(
                    #[trigger] free_addrs@[k],
                    old(self)@.frame_size,
                ) < old(self)@.frames.len(),
        ensures
            tx_wf(final(self)@),
            final(self)@.frames == mark_free(
                old(self)@.frames,
                free_addrs@,
                old(self)@.frame_size,
            ),
            final(self)@.frames.len() == old(self)@.frames.len(),
            final(self)@.outstanding == old(self)@.outstanding - free_addrs@.len(),
            final(self)@.cursor == old(self)@.cursor,
            final(self)@.frame_size == old(self)@.frame_size,
            tx_consistent(old(self)@) && completions_match(
                old(self)@.frames,
                free_addrs@,
                old(self)@.frame_size,
            ) ==> tx_consistent(final(self)@),
    {
        let n = free_addrs.len();
        self.outstanding_tx_frames = self.outstanding_tx_frames - n as u64;
        let ghost start = frame_descs(self.tx_frames@);
        let mut i: usize = 0;
        assert(free_addrs@.take(0) =~= Seq::<u64>::empty());
        while i < n
            invariant
                n == free_addrs@.len(),
                i <= n,
                self.frame_size == old(self)@.frame_size,
                n > 0 ==> self.frame_size > 0,
                self.tx_cursor == old(self)@.cursor,
                self.outstanding_tx_frames == old(self)@.outstanding - n,
                self.tx_frames@.len() == start.len(),
                start == old(self)@.frames,
                frame_descs(self.tx_frames@) == mark_free(
                    start,
                    free_addrs@.take(i as int),
                    self.frame_size,
                ),
                forall|k: int|
                    0 <= k < free_addrs@.len() ==> tx_frame_index(
                        #[trigger] free_addrs@[k],
                        self.frame_size,
                    ) < start.len(),
            decreases n - i,
        {
            let addr = free_addrs[i];
            assert(tx_frame_index(free_addrs@[i as int], self.frame_size) < start.len());
            let idx = (addr as u32 / self.frame_size) as usize;
            let mut frame = self.tx_frames[idx].clone();
            frame.set_status(FrameStatus::Free);
            self.tx_frames.set(idx, frame);
            proof {
                let taken = free_addrs@.take(i + 1);
                assert(taken.drop_last() =~= free_addrs@.take(i as int));
                assert(frame_descs(self.tx_frames@) =~= mark_free(start, taken, self.frame_size));
            }
            i = i + 1;
        }
        assert(free_addrs@.take(n as int) =~= free_addrs@);
        proof {
            if n > 0 && tx_consistent(old(self)@) && completions_match(
                old(self)@.frames,
                free_addrs@,
                old(self)@.frame_size,
            ) {
                lemma_complete_keeps_consistency(old(self)@, free_addrs@);
            }
        }
    }

    /// Writes `data` to the frame under the cursor when that frame is free;
    /// otherwise refuses, and nothing changes.
    pub fn write_next(&mut self, umem: &mut [u8], data: &[u8]) -> (r: Result<(), XskSendError>)
        requires
            tx_wf(old(self)@),
            old(self)@.frames.len() > 0,
            tx_write_fits(old(self)@, old(umem)@.len() as int, data@.len() as int),
        ensures
            tx_wf(final(self)@),
            final(self)@.outstanding == old(self)@.outstanding,
            final(self)@.cursor == old(self)@.cursor,
            final(self)@.frame_size == old(self)@.frame_size,
            !(old(self)@.frames[old(self)@.cursor as int].status is Free) ==> {
                &&& r == Err::<(), XskSendError>(XskSendError::NoFreeTxFrames)
                &&& final(self)@.frames == old(self)@.frames
                &&& final(umem)@ == old(umem)@
            },
            old(self)@.frames[old(self)@.cursor as int].status is Free ==> {
                let f = old(self)@.frames[old(self)@.cursor as int];
                &&& r is Ok
                &&& final(self)@.frames == old(self)@.frames.update(
                    old(self)@.cursor as int,
                    FrameDesc { len: data@.len() as usize, ..f },
                )
                &&& data@.len() > 0 ==> final(umem)@ == umem_write(
                    old(umem)@,
                    f.addr as int,
                    data@,
                )
                &&& data@.len() == 0 ==> final(umem)@ == old(umem)@
            },
            tx_consistent(old(self)@) ==> tx_consistent(final(self)@),
    {
        let c = self.tx_cursor;
        if !self.tx_frames[c].status().is_free() {
            return Err(XskSendError::NoFreeTxFrames);
        }
        let mut frame = self.tx_frames[c].clone();
        let _ = frame.write_to_umem_checked(umem, data);
        self.tx_frames.set(c, frame);
        proof {
            let f = old(self)@.frames[c as int];
            let g = FrameDesc { len: data@.len() as usize, ..f };
            assert(frame_descs(self.tx_frames@) =~= old(self)@.frames.update(c as int, g));
            lemma_count_status_update(old(self)@.frames, c as int, g, FrameStatus::OnTxQueue);
        }
        Ok(())
    }

    /// Records that the frame under the cursor went onto the tx queue: it is
    /// marked as such, one more frame is outstanding and the cursor moves on
    /// to the next frame, round robin.
    pub fn submitted(&mut self)
        requires
            tx_wf(old(self)@),
            old(self)@.frames.len() > 0,
            old(self)@.frames[old(self)@.cursor as int].status is Free,
            old(self)@.outstanding < u64::MAX,
        ensures
            tx_wf(final(self)@),
            final(self)@.frames == old(self)@.frames.update(
                old(self)@.cursor as int,
                FrameDesc {
                    status: FrameStatus::OnTxQueue,
                    ..old(self)@.frames[old(self)@.cursor as int]
                },
            ),
            final(self)@.outstanding == old(self)@.outstanding + 1,
            final(self)@.cursor == (old(self)@.cursor + 1) % (old(self)@.frames.len() as int),
            final(self)@.frame_size == old(self)@.frame_size,
            tx_consistent(old(self)@) ==> tx_consistent(final(self)@),
    {
        let c = self.tx_cursor;
        let len = self.tx_frames.len();
        proof {
            if tx_consistent(old(self)@) {
                lemma_submitted_keeps_consistency(old(self)@);
            }
        }
        assert(c < len);
        let mut frame = self.tx_frames[c].clone();
        frame.set_status(FrameStatus::OnTxQueue);
        self.tx_frames.set(c, frame);
        self.outstanding_tx_frames = self.outstanding_tx_frames + 1;
        self.tx_cursor = (c + 1) % len;
        proof {
            assert(frame_descs(self.tx_frames@) =~= old(self)@.frames.update(
                c as int,
                FrameDesc { status: FrameStatus::OnTxQueue, ..old(self)@.frames[c as int] },
            ));
        }
    }

    /// Statistics of the sending side.
    pub fn stats(&self) -> SenderStats {
        SenderStats {}
    }
}

} // verus!
