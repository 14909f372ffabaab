//! Bookkeeping of the frames an AF_XDP socket sends and receives with.
pub mod rx;
pub mod tx;

use vstd::prelude::*;

use crate::socket::config::SocketConfig;
use crate::umem::config::UmemConfig;
use crate::umem::frame::{Frame, FrameDesc, FrameStatus};

verus! {

/// The descriptors of `frames`.
pub open spec fn frame_descs(frames: Seq<Frame>) -> Seq<FrameDesc> {
    frames.map_values(|f: Frame| f@)
}

/// How many of the descriptors in `s` have status `st`.
pub open spec fn count_status(s: Seq<FrameDesc>, st: FrameStatus) -> nat
    decreases s.len(),
{
    if s.len() == 0 {
        0
    } else {
        count_status(s.drop_last(), st) + if s.last().status == st {
            1nat
        } else {
            0nat
        }
    }
}

/// Replacing one descriptor changes the count of a status by what the old
/// and the new descriptor contribute to it.
pub proof fn lemma_count_status_update(s: Seq<FrameDesc>, j: int, d: FrameDesc, st: FrameStatus)
    requires
        0 <= j < s.len(),
    ensures
        count_status(s.update(j, d), st) + (if s[j].status == st {
            1int
        } else {
            0int
        }) == count_status(s, st) + (if d.status == st {
            1int
        } else {
            0int
        }),
    decreases s.len(),
{
    let t = s.update(j, d);
    if j == s.len() - 1 {
        assert(t.drop_last() =~= s.drop_last());
    } else {
        assert(t.drop_last() =~= s.drop_last().update(j, d));
        lemma_count_status_update(s.drop_last(), j, d, st);
    }
}

/// No more descriptors have a status than there are descriptors.
pub proof fn lemma_count_status_bound(s: Seq<FrameDesc>, st: FrameStatus)
    ensures
        count_status(s, st) <= s.len(),
    decreases s.len(),
{
    if s.len() > 0 {
        lemma_count_status_bound(s.drop_last(), st);
    }
}

/// Configuration of an AF_XDP socket with its own UMEM.
pub struct Xsk2Config {
    pub if_name: String,
    pub queue_id: u32,
    pub n_tx_frames: usize,
    pub tx_batch_size: usize,
    pub umem_config: UmemConfig,
    pub socket_config: SocketConfig,
}

/// Checks that a tx batch fits in the tx queue: the batch size, taken as a
/// `u32`, must not exceed the tx queue size.
pub fn check_tx_batch_size(socket_config: &SocketConfig, tx_batch_size: usize) -> (r: Result<
    (),
    &'static str,
>)
    ensures
        socket_config@.tx_queue_size < (tx_batch_size as u32) ==> r == Err::<(), &'static str>(
            "tx batch size too large",
        ),
        socket_config@.tx_queue_size >= (tx_batch_size as u32) ==> r is Ok,
{
    if socket_config.tx_queue_size() < tx_batch_size as u32 {
        return Err("tx batch size too large");
    }
    Ok(())
}

/// Splits the frames of a UMEM into the first `n_tx_frames`, used to send,
/// and the rest, used to receive.
pub fn split_frames(frames: Vec<Frame>, n_tx_frames: usize) -> (r: (Vec<Frame>, Vec<Frame>))
    requires
        n_tx_frames <= frames@.len(),
    ensures
        r.0@ == frames@.subrange(0, n_tx_frames as int),
        r.1@ == frames@.subrange(n_tx_frames as int, frames@.len() as int),
{
    let mut tx_frames = frames;
    let rx_frames = tx_frames.split_off(n_tx_frames);
    (tx_frames, rx_frames)
}

} // verus!
