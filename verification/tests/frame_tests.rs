use xdpsock::umem::config::UmemConfig;
use xdpsock::umem::frame::{
    umem_frames, AccessError, DataError, Frame, FrameStatus, WriteError, XDP_PACKET_HEADROOM,
};

const FRAME_COUNT: u32 = 8;
const FRAME_SIZE: u32 = 2048;

fn generate_random_bytes(len: u32) -> Vec<u8> {
    (0..len).map(|_| rand::random::<u8>()).collect()
}

fn umem_config() -> UmemConfig {
    UmemConfig::new(FRAME_COUNT, FRAME_SIZE, 4, 4, 0, false).unwrap()
}

/// The memory of a UMEM with the given config and its frames.
fn umem_with(config: &UmemConfig) -> (Vec<u8>, usize, Vec<Frame>) {
    let (mtu, frames) = umem_frames(config);
    (vec![0u8; config.umem_len()], mtu, frames)
}

fn umem() -> (Vec<u8>, usize, Vec<Frame>) {
    umem_with(&umem_config())
}

#[test]
fn umem_create_succeeds_when_frame_count_is_one() {
    let config = UmemConfig::new(1, 4096, 4, 4, 0, false).unwrap();
    let (mem, _mtu, frames) = umem_with(&config);
    assert_eq!(mem.len(), 4096);
    assert_eq!(frames.len(), 1);
}

#[test]
fn umem_create_succeeds_when_fill_size_is_one() {
    let config = UmemConfig::new(16, 4096, 1, 4, 0, false).unwrap();
    let (_mem, _mtu, frames) = umem_with(&config);
    assert_eq!(frames.len(), 16);
}

#[test]
fn umem_create_succeeds_when_comp_size_is_one() {
    let config = UmemConfig::new(16, 4096, 4, 1, 0, false).unwrap();
    let (_mem, _mtu, frames) = umem_with(&config);
    assert_eq!(frames.len(), 16);
}

#[test]
fn mtu_is_correct() {
    let config = UmemConfig::new(1, 2048, 4, 4, 512, false).unwrap();
    let (_mem, mtu, frames) = umem_with(&config);
    assert_eq!(mtu, (2048 - XDP_PACKET_HEADROOM - 512) as usize);
    assert_eq!(frames[0].mtu(), mtu);
}

#[test]
fn umem_access_checks_ok() {
    let (_mem, _mtu, frames) = umem();

    let max_len = FRAME_SIZE as usize;

    assert!(frames[0].is_access_valid(1).is_ok());

    assert!(frames[0].is_access_valid(max_len).is_ok());

    assert!(matches!(
        frames[0].is_access_valid(max_len + 1),
        Err(AccessError::CrossesFrameBoundary { .. })
    ));

    let last_frame_addr = ((FRAME_COUNT - 1) * FRAME_SIZE) as usize;
    assert_eq!(frames[frames.len() - 1].addr(), last_frame_addr);

    assert!(frames[frames.len() - 1].is_access_valid(max_len).is_ok());

    assert!(matches!(
        frames[frames.len() - 1].is_access_valid(max_len + 1),
        Err(AccessError::CrossesFrameBoundary { .. })
    ));
}

#[test]
fn data_checks_ok() {
    let (_mem, _mtu, frames) = umem();

    // Empty data ok
    let empty_data: Vec<u8> = Vec::new();

    assert!(frames[0].is_data_valid(&empty_data).is_ok());

    let mtu = FRAME_SIZE - XDP_PACKET_HEADROOM;

    // Data within mtu ok
    let data = generate_random_bytes(mtu - 1);

    assert!(frames[0].is_data_valid(&data).is_ok());

    // Data exactly frame size is ok
    let data = generate_random_bytes(mtu);

    assert!(frames[0].is_data_valid(&data).is_ok());

    // Data greater than frame size fails
    let data = generate_random_bytes(mtu + 1);

    assert!(matches!(
        frames[0].is_data_valid(&data),
        Err(DataError::SizeExceedsMtu { .. })
    ));
}

#[test]
fn write_no_data_to_umem() {
    let (mut mem, _mtu, mut frames) = umem();

    let data = [];

    frames[0].write_to_umem_checked(&mut mem, &data[..]).unwrap();

    assert_eq!(frames[0].len(), 0);
}

#[test]
fn write_to_umem_frame_then_read_small_byte_array() {
    let (mut mem, _mtu, mut frames) = umem();

    let data = [b'H', b'e', b'l', b'l', b'o'];

    frames[0].write_to_umem_checked(&mut mem, &data[..]).unwrap();

    assert_eq!(frames[0].len(), 5);

    let umem_region = frames[0].read_from_umem_checked(&mem, frames[0].len()).unwrap();

    assert_eq!(data, umem_region[..data.len()]);
}

#[test]
fn write_max_bytes_to_neighbouring_umem_frames() {
    let (mut mem, _mtu, mut frames) = umem();

    let data_len = FRAME_SIZE;

    // Create random data and write to adjacent frames
    let fst_data = generate_random_bytes(data_len);
    let snd_data = generate_random_bytes(data_len);

    let umem_region = frames[0]
        .umem_region_mut_checked(&mut mem, data_len as usize)
        .unwrap();
    umem_region.copy_from_slice(&fst_data[..]);
    frames[0].set_len(data_len as usize);

    let umem_region = frames[1]
        .umem_region_mut_checked(&mut mem, data_len as usize)
        .unwrap();
    umem_region.copy_from_slice(&snd_data[..]);
    frames[1].set_len(data_len as usize);

    let fst_frame_ref = frames[0].read_from_umem(&mem, frames[0].len());
    let snd_frame_ref = frames[1].read_from_umem(&mem, frames[1].len());

    assert_eq!(fst_data[..], fst_frame_ref[..fst_data.len()]);
    assert_eq!(snd_data[..], snd_frame_ref[..snd_data.len()]);

    // Ensure there are no gaps and the frames lie snugly
    let mem_len = (FRAME_SIZE * 2) as usize;

    let mem_range = &mem[0..mem_len];

    let mut data_vec = Vec::with_capacity(mem_len);

    data_vec.extend_from_slice(&fst_data);
    data_vec.extend_from_slice(&snd_data);

    assert_eq!(&data_vec[..], mem_range);
}

#[test]
fn frames_are_laid_out_back_to_back() {
    let (mem, mtu, frames) = umem();
    assert_eq!(mem.len(), 16384);
    assert_eq!(mtu, 1792);
    assert_eq!(frames.len(), 8);
    for (i, frame) in frames.iter().enumerate() {
        assert_eq!(frame.addr(), i * 2048);
        assert_eq!(frame.len(), 0);
        assert_eq!(frame.options(), 0);
        assert_eq!(frame.mtu(), 1792);
        assert_eq!(frame.status(), FrameStatus::Free);
        assert!(frame.status.is_free());
    }
}

#[test]
fn checked_write_refuses_data_over_mtu_and_changes_nothing() {
    let (mut mem, mtu, mut frames) = umem();
    let data = vec![7u8; mtu + 1];
    let before = frames[2].clone();
    let err = frames[2].write_to_umem_checked(&mut mem, &data).unwrap_err();
    assert_eq!(
        err,
        WriteError::Data(DataError::SizeExceedsMtu { data_len: mtu + 1, mtu })
    );
    assert_eq!(frames[2], before);
    assert!(mem.iter().all(|b| *b == 0));
}

#[test]
fn read_after_write_gives_data_back_and_leaves_neighbours() {
    let (mut mem, _mtu, mut frames) = umem();
    let data: Vec<u8> = (0..100u8).collect();
    frames[3].write_to_umem_checked(&mut mem, &data).unwrap();
    assert_eq!(frames[3].read_from_umem_checked(&mem, 100).unwrap(), &data[..]);
    assert!(mem[..3 * 2048].iter().all(|b| *b == 0));
    assert!(mem[3 * 2048 + 100..].iter().all(|b| *b == 0));
    assert_eq!(frames[3].read_from_umem_checked(&mem, 101).unwrap().len(), 101);
    assert!(matches!(
        frames[3].read_from_umem_checked(&mem, 2049),
        Err(AccessError::CrossesFrameBoundary { addr: 6144, len: 2049 })
    ));
}

#[test]
fn frames_know_their_extent() {
    let (_mem, _mtu, frames) = umem();
    for (i, frame) in frames.iter().enumerate() {
        assert_eq!(frame.frame_start(), i * 2048);
        assert_eq!(frame.frame_size(), 2048);
        assert!(frame.region_fits(2048));
        assert!(!frame.region_fits(2049));
    }
}

#[test]
fn checked_region_refuses_more_than_a_frame() {
    let (mut mem, _mtu, mut frames) = umem();
    let before = frames[0].clone();
    let err = frames[0].umem_region_mut_checked(&mut mem, 2049).unwrap_err();
    assert_eq!(err, AccessError::CrossesFrameBoundary { addr: 0, len: 2049 });
    assert_eq!(frames[0], before);
    frames[5].set_addr(5 * 2048 + 2000);
    assert!(matches!(
        frames[5].umem_region_mut_checked(&mut mem, 49),
        Err(AccessError::CrossesFrameBoundary { addr: 12240, len: 49 })
    ));
    assert_eq!(frames[5].umem_region_mut_checked(&mut mem, 48).unwrap().len(), 48);
}

#[test]
fn checked_write_at_frame_end_refuses_to_cross_into_next_frame() {
    let (mut mem, _mtu, mut frames) = umem();
    frames[0].set_addr(2047);
    let before = frames[0].clone();
    let err = frames[0].write_to_umem_checked(&mut mem, &[1, 2]).unwrap_err();
    assert_eq!(
        err,
        WriteError::Access(AccessError::CrossesFrameBoundary { addr: 2047, len: 2 })
    );
    assert_eq!(frames[0], before);
    assert!(mem.iter().all(|b| *b == 0));
    frames[0].write_to_umem_checked(&mut mem, &[9]).unwrap();
    assert_eq!(frames[0].len(), 1);
    assert_eq!(mem[2047], 9);
    assert_eq!(mem[2048], 0);
}

#[test]
fn unchecked_write_sets_len() {
    let (mut mem, _mtu, mut frames) = umem();
    frames[1].write_to_umem(&mut mem, &[1, 2, 3]);
    assert_eq!(frames[1].len(), 3);
    assert_eq!(&mem[2048..2051], &[1, 2, 3]);
    let region = frames[1].umem_region_mut(&mut mem, 2);
    region[0] = 9;
    assert_eq!(mem[2048], 9);
}

#[test]
fn setters_change_one_field() {
    let (_mem, _mtu, mut frames) = umem();
    let f = &mut frames[0];
    f.set_addr(300);
    f.set_len(20);
    f.set_options(5);
    f.set_status(FrameStatus::OnFillQueue);
    assert_eq!(f.addr(), 300);
    assert_eq!(f.len(), 20);
    assert_eq!(f.options(), 5);
    assert_eq!(f.status(), FrameStatus::OnFillQueue);
    assert!(!f.status.is_free());
    assert_eq!(f.mtu(), 1792);
}

#[test]
fn error_messages_name_the_region_by_its_ends() {
    assert_eq!(AccessError::NullRegion.message(), "region has zero length");
    assert_eq!(
        AccessError::RegionOutOfBounds { addr: 4096, len: 10, umem_len: 4100 }.message(),
        "UMEM region [4096, 4105] is out of bounds (UMEM length is 4100)"
    );
    assert_eq!(
        AccessError::CrossesFrameBoundary { addr: 2047, len: 2 }.message(),
        "UMEM region [2047, 2048] intersects with more then one frame"
    );
    assert_eq!(
        AccessError::CrossesFrameBoundary { addr: 0, len: 1 }.message(),
        "UMEM region [0, 0] intersects with more then one frame"
    );
    let data = DataError::SizeExceedsMtu { data_len: 1793, mtu: 1792 };
    assert_eq!(
        data.message(),
        "data length (1793 bytes) cannot be greater than the MTU (1792 bytes)"
    );
    assert_eq!(WriteError::Data(data.clone()).message(), data.message());
    assert_eq!(
        WriteError::Access(AccessError::NullRegion).message(),
        "region has zero length"
    );
    assert_eq!(
        AccessError::CrossesFrameBoundary { addr: usize::MAX - 1, len: 2 }.message(),
        format!("UMEM region [{}, {}] intersects with more then one frame", usize::MAX - 1, usize::MAX)
    );
}
