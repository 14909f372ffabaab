use xdpsock::umem::config::{UmemConfig, UmemConfigBuilder, UmemConfigError};

#[test]
fn ensure_usize_and_u64_are_same_size() {
    assert_eq!(std::mem::size_of::<usize>(), std::mem::size_of::<u64>());
}

#[test]
fn umem_len_doesnt_panic_when_frame_count_and_size_are_u32_max() {
    UmemConfig::new(u32::MAX, u32::MAX, 8, 8, 0, false)
        .unwrap()
        .umem_len();
}

#[test]
fn umem_config_builder_test() {
    let umem_config_default = UmemConfig::default();

    let umem_config = UmemConfigBuilder::new()
        .frame_count(umem_config_default.frame_count())
        .frame_size(umem_config_default.frame_size())
        .fill_queue_size(umem_config_default.fill_queue_size())
        .comp_queue_size(umem_config_default.comp_queue_size())
        .frame_headroom(umem_config_default.frame_headroom())
        .use_huge_pages(umem_config_default.use_huge_pages())
        .build()
        .expect("failed to build umem config");

    assert_eq!(umem_config_default, umem_config);
}

#[test]
#[should_panic]
fn umem_create_fails_when_frame_size_is_lt_2048() {
    let config = UmemConfig::new(1, 2047, 4, 4, 0, false).unwrap();
    let _frames = xdpsock::umem::frame::umem_frames(&config);
}

#[test]
fn umem_len_is_frame_count_times_frame_size() {
    let config = UmemConfig::new(u32::MAX, u32::MAX, 8, 8, 0, false).unwrap();
    assert_eq!(config.umem_len(), (u32::MAX as usize) * (u32::MAX as usize));
    let config = UmemConfig::new(8, 2048, 4, 4, 0, false).unwrap();
    assert_eq!(config.umem_len(), 16384);
}

#[test]
fn umem_config_default_values() {
    let config = UmemConfig::default();
    assert_eq!(config.frame_count(), 2048);
    assert_eq!(config.frame_size(), 4096);
    assert_eq!(config.fill_queue_size(), 2048);
    assert_eq!(config.comp_queue_size(), 2048);
    assert_eq!(config.frame_headroom(), 0);
    assert!(!config.use_huge_pages());
}

#[test]
fn umem_config_rejects_zero_frames() {
    let err = UmemConfig::new(0, 2048, 4, 4, 0, false).unwrap_err();
    assert_eq!(
        err,
        UmemConfigError::FrameCountInvalid { reason: "frame count must be greater than 0" }
    );
    assert_eq!(err.reason(), "frame count must be greater than 0");
}

#[test]
fn umem_config_rejects_fill_size_not_power_of_two() {
    let err = UmemConfig::new(8, 2048, 3, 4, 0, false).unwrap_err();
    assert_eq!(
        err,
        UmemConfigError::FillSizeInvalid { reason: "fill queue size must be a power of two" }
    );
    let err = UmemConfig::new(8, 2048, 0, 4, 0, false).unwrap_err();
    assert!(matches!(err, UmemConfigError::FillSizeInvalid { .. }));
}

#[test]
fn umem_config_rejects_comp_size_not_power_of_two() {
    let err = UmemConfig::new(8, 2048, 4, 6, 0, false).unwrap_err();
    assert_eq!(
        err,
        UmemConfigError::CompSizeInvalid { reason: "comp queue size must be a power of two" }
    );
    assert_eq!(err.reason(), "comp queue size must be a power of two");
}

#[test]
fn umem_config_rejects_small_frame_size() {
    let err = UmemConfig::new(8, 2047, 4, 4, 0, false).unwrap_err();
    assert_eq!(
        err,
        UmemConfigError::FrameSizeInvalid {
            reason: "frame size must be greater than or equal to 2048"
        }
    );
    assert!(UmemConfig::new(8, 2048, 4, 4, 0, false).is_ok());
}

#[test]
fn umem_config_checks_in_order() {
    // frame count is checked first, the frame size last
    let err = UmemConfig::new(0, 1, 3, 3, 0, false).unwrap_err();
    assert!(matches!(err, UmemConfigError::FrameCountInvalid { .. }));
    let err = UmemConfig::new(1, 1, 3, 3, 0, false).unwrap_err();
    assert!(matches!(err, UmemConfigError::FillSizeInvalid { .. }));
    let err = UmemConfig::new(1, 1, 4, 3, 0, false).unwrap_err();
    assert!(matches!(err, UmemConfigError::CompSizeInvalid { .. }));
}

#[test]
fn umem_config_roundtrips_through_builder() {
    let config = UmemConfig::new(16, 4096, 1, 8, 128, true).unwrap();
    let rebuilt = UmemConfigBuilder::new()
        .frame_count(config.frame_count())
        .frame_size(config.frame_size())
        .fill_queue_size(config.fill_queue_size())
        .comp_queue_size(config.comp_queue_size())
        .frame_headroom(config.frame_headroom())
        .use_huge_pages(config.use_huge_pages())
        .build()
        .unwrap();
    assert_eq!(config, rebuilt);
    assert_eq!(config.clone(), config);
}

#[test]
fn umem_config_builder_reports_errors() {
    let err = UmemConfigBuilder::new().frame_count(0).build().unwrap_err();
    assert!(matches!(err, UmemConfigError::FrameCountInvalid { .. }));
}
