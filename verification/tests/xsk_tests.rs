use xdpsock::socket::config::SocketConfigBuilder;
use xdpsock::umem::config::UmemConfig;
use xdpsock::umem::frame::{umem_frames, Frame, FrameStatus};
use xdpsock::xsk::rx::{RxFrames, RxStats};
use xdpsock::xsk::tx::{TxFrames, XskSendError};
use xdpsock::xsk::{check_tx_batch_size, split_frames};

fn frames(count: u32) -> (Vec<u8>, Vec<Frame>) {
    let config = UmemConfig::new(count, 2048, 4, 4, 0, false).unwrap();
    let (_mtu, frames) = umem_frames(&config);
    (vec![0u8; config.umem_len()], frames)
}

#[test]
fn split_frames_takes_tx_frames_first() {
    let (_mem, all) = frames(8);
    let (tx, rx) = split_frames(all, 4);
    assert_eq!(tx.len(), 4);
    assert_eq!(rx.len(), 4);
    assert_eq!(tx[3].addr(), 3 * 2048);
    assert_eq!(rx[0].addr(), 4 * 2048);
    let (_mem, all) = frames(2);
    let (tx, rx) = split_frames(all, 0);
    assert!(tx.is_empty());
    assert_eq!(rx.len(), 2);
}

#[test]
fn tx_batch_size_must_fit_tx_queue() {
    let config = SocketConfigBuilder::new().tx_queue_size(4).build().unwrap();
    assert!(check_tx_batch_size(&config, 4).is_ok());
    assert_eq!(check_tx_batch_size(&config, 5), Err("tx batch size too large"));
    // the batch size is taken as a u32
    assert!(check_tx_batch_size(&config, (1usize << 32) + 1).is_ok());
}

#[test]
fn tx_frames_send_cycle() {
    let (mut mem, all) = frames(4);
    let (tx, _rx) = split_frames(all, 2);
    let mut state = TxFrames::new(tx, 2048);
    assert_eq!(state.outstanding(), 0);
    assert_eq!(state.cursor(), 0);

    state.write_next(&mut mem, &[1, 2, 3]).unwrap();
    assert_eq!(state.frames()[0].len(), 3);
    assert_eq!(&mem[0..3], &[1, 2, 3]);
    state.submitted();
    assert_eq!(state.outstanding(), 1);
    assert_eq!(state.cursor(), 1);
    assert_eq!(state.frames()[0].status(), FrameStatus::OnTxQueue);

    state.write_next(&mut mem, &[4]).unwrap();
    state.submitted();
    assert_eq!(state.cursor(), 0);
    assert_eq!(state.outstanding(), 2);

    // the next frame is still on the tx queue: refused, nothing written
    assert_eq!(state.write_next(&mut mem, &[9, 9]), Err(XskSendError::NoFreeTxFrames));
    assert_eq!(&mem[0..3], &[1, 2, 3]);
    assert_eq!(XskSendError::NoFreeTxFrames.message(), "there are no free tx frames, try again later");

    // the completion queue returns the first frame
    state.complete(&[0]);
    assert_eq!(state.outstanding(), 1);
    assert_eq!(state.frames()[0].status(), FrameStatus::Free);
    assert_eq!(state.frames()[1].status(), FrameStatus::OnTxQueue);
    state.write_next(&mut mem, &[9, 9]).unwrap();
    assert_eq!(&mem[0..3], &[9, 9, 3]);

    // an address inside the second frame maps to it
    state.complete(&[2048 + 100]);
    assert_eq!(state.outstanding(), 0);
    assert_eq!(state.frames()[1].status(), FrameStatus::Free);
    let _ = state.stats();
}

#[test]
fn rx_frames_receive_and_deliver() {
    let (mut mem, all) = frames(4);
    let (_tx, rx) = split_frames(all, 2);
    let mut state = RxFrames::new(rx, 2048);
    assert_eq!(state.n_frames_to_be_filled(), 2);
    assert_eq!(state.cursor(), 0);

    // nothing received yet
    let mut pkt = [0u8; 16];
    assert_eq!(state.deliver_cursor_frame(&mem, &mut pkt), 0);

    // the kernel hands back the first rx frame with 4 bytes at an offset
    mem[4096 + 256..4096 + 260].copy_from_slice(&[5, 6, 7, 8]);
    let filled = [(4096 + 256, 4usize, 0u32)];
    state.consumed(filled.len());
    state.update_rx_frames(&filled);
    assert_eq!(state.pkts_rx(), 1);
    assert_eq!(state.n_frames_to_be_filled(), 1);
    assert_eq!(state.frames()[0].status(), FrameStatus::Filled);
    assert_eq!(state.frames()[0].addr(), 4096 + 256);

    assert_eq!(state.deliver_cursor_frame(&mem, &mut pkt), 4);
    assert_eq!(&pkt[..5], &[5, 6, 7, 8, 0]);
    state.release_cursor_frame();
    assert_eq!(state.pkts_rx_delivered(), 1);
    assert_eq!(state.n_frames_to_be_filled(), 2);
    assert_eq!(state.cursor(), 1);
    assert_eq!(state.frames()[0].status(), FrameStatus::Free);
}

#[test]
fn rx_frames_batch() {
    let (_mem, all) = frames(4);
    let (_tx, rx) = split_frames(all, 1);
    let mut state = RxFrames::new(rx, 2048);
    let filled = [(3 * 2048 + 10, 7usize, 1u32), (2048, 3usize, 0u32)];
    state.consumed(filled.len());
    assert_eq!(state.n_frames_to_be_filled(), 1);
    let batch = state.apply_batch(&filled);
    assert_eq!(batch.len(), 2);
    assert_eq!(batch[0].addr(), 3 * 2048 + 10);
    assert_eq!(batch[0].len(), 7);
    assert_eq!(batch[0].options(), 1);
    assert_eq!(batch[1].addr(), 2048);
    assert_eq!(state.frames()[2].len(), 7);
    assert_eq!(state.frames()[2].status(), FrameStatus::Free);
    state.batch_recycled(batch.len());
    assert_eq!(state.n_frames_to_be_filled(), 3);
    assert_eq!(state.pkts_rx_delivered(), 2);
    assert_eq!(state.pkts_rx(), 2);
}

#[test]
fn rx_stats_start_empty() {
    let stats = RxStats::new();
    assert_eq!(stats.pkts_rx, 0);
    assert_eq!(stats.pkts_rx_delivered, 0);
    let copy = stats.clone();
    assert_eq!(copy.pkts_rx, 0);
    assert!(stats.duration() < std::time::Duration::from_secs(1));
}

#[test]
fn rx_frames_receive_step() {
    let (_mem, all) = frames(4);
    let (_tx, rx) = split_frames(all, 2);
    let mut state = RxFrames::new(rx, 2048);
    let filled = [(3 * 2048 + 64, 9usize, 2u32)];
    state.receive(&filled);
    assert_eq!(state.pkts_rx(), 1);
    assert_eq!(state.pkts_rx_delivered(), 0);
    assert_eq!(state.n_frames_to_be_filled(), 1);
    assert!(state.frames()[1].status().is_filled());
    assert!(!state.frames()[0].status().is_filled());
    assert_eq!(state.frames()[1].addr(), 3 * 2048 + 64);
    assert_eq!(state.frames()[1].len(), 9);
    assert_eq!(state.frames()[1].options(), 2);
    assert_eq!(state.cursor(), 0);
}

#[test]
fn rx_frames_receive_batch_step() {
    let (_mem, all) = frames(4);
    let (_tx, rx) = split_frames(all, 2);
    let mut state = RxFrames::new(rx, 2048);
    let filled = [(2 * 2048, 5usize, 0u32), (3 * 2048 + 1, 6usize, 0u32)];
    let batch = state.receive_batch(&filled);
    assert_eq!(batch.len(), 2);
    assert_eq!(batch[0].addr(), 2 * 2048);
    assert_eq!(batch[0].len(), 5);
    assert_eq!(batch[1].addr(), 3 * 2048 + 1);
    assert_eq!(batch[1].len(), 6);
    assert_eq!(state.pkts_rx(), 2);
    assert_eq!(state.pkts_rx_delivered(), 2);
    assert_eq!(state.n_frames_to_be_filled(), 2);
    assert_eq!(state.frames()[0].status(), FrameStatus::Free);
    assert_eq!(state.frames()[1].status(), FrameStatus::Free);
}

#[test]
fn rx_stats_duration_is_end_minus_start() {
    let mut stats = RxStats::new();
    stats.end_time = stats.start_time + std::time::Duration::from_millis(10);
    assert_eq!(stats.duration(), std::time::Duration::from_millis(10));
    // an end before the start gives no time at all
    stats.start_time = stats.end_time + std::time::Duration::from_millis(10);
    assert_eq!(stats.duration(), std::time::Duration::ZERO);
}
