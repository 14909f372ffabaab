use xdpsock::util::is_pow_of_two;
use xdpsock::socket::config::{
    BindFlags, LibbpfFlags, SocketConfig, SocketConfigBuilder, SocketConfigError, XdpFlags,
};

#[test]
fn socket_config_builder_test() {
    let socket_config_default = SocketConfig::default();

    let socket_config = SocketConfigBuilder::new()
        .rx_queue_size(socket_config_default.rx_queue_size())
        .tx_queue_size(socket_config_default.tx_queue_size())
        .libbpf_flags(*socket_config_default.libbpf_flags())
        .xdp_flags(*socket_config_default.xdp_flags())
        .bind_flags(*socket_config_default.bind_flags())
        .build()
        .expect("failed to create socket config");

    assert_eq!(socket_config_default, socket_config);
}

#[test]
fn socket_config_default_values() {
    let config = SocketConfig::default();
    assert_eq!(config.rx_queue_size(), 2048);
    assert_eq!(config.tx_queue_size(), 2048);
    assert_eq!(config.libbpf_flags().bits(), 0);
    assert_eq!(config.xdp_flags().bits(), 0);
    assert_eq!(config.bind_flags().bits(), 0);
}

#[test]
fn socket_config_rejects_rx_size_not_power_of_two() {
    let err = SocketConfig::new(3, 4, LibbpfFlags::empty(), XdpFlags::empty(), BindFlags::empty())
        .unwrap_err();
    assert_eq!(
        err,
        SocketConfigError::RxSizeInvalid { reason: "rx queue size must be a power of two" }
    );
    assert_eq!(err.reason(), "rx queue size must be a power of two");
}

#[test]
fn socket_config_rejects_tx_size_not_power_of_two() {
    let err = SocketConfig::new(4, 0, LibbpfFlags::empty(), XdpFlags::empty(), BindFlags::empty())
        .unwrap_err();
    assert_eq!(
        err,
        SocketConfigError::TxSizeInvalid { reason: "tx queue size must be a power of two" }
    );
    // the rx size is checked first
    let err = SocketConfig::new(5, 0, LibbpfFlags::empty(), XdpFlags::empty(), BindFlags::empty())
        .unwrap_err();
    assert!(matches!(err, SocketConfigError::RxSizeInvalid { .. }));
}

#[test]
fn socket_config_keeps_flags() {
    let config = SocketConfigBuilder::new()
        .tx_queue_size(4)
        .rx_queue_size(1)
        .bind_flags(BindFlags::XDP_COPY())
        .xdp_flags(XdpFlags::XDP_FLAGS_SKB_MODE())
        .libbpf_flags(LibbpfFlags::XSK_LIBBPF_FLAGS__INHIBIT_PROG_LOAD())
        .build()
        .unwrap();
    assert_eq!(config.tx_queue_size(), 4);
    assert_eq!(config.rx_queue_size(), 1);
    assert_eq!(config.bind_flags().bits(), 2);
    assert_eq!(config.xdp_flags().bits(), 2);
    assert_eq!(config.libbpf_flags().bits(), 1);
    assert_eq!(config.clone(), config);
}

#[test]
fn flags_operations() {
    let both = BindFlags::XDP_COPY().union(BindFlags::XDP_USE_NEED_WAKEUP());
    assert_eq!(both.bits(), 10);
    assert!(both.contains(BindFlags::XDP_COPY()));
    assert!(!both.contains(BindFlags::XDP_ZEROCOPY()));
    assert_eq!(BindFlags::all().bits(), 15);
    assert_eq!(BindFlags::from_bits_truncate(0xff).bits(), 15);
    assert_eq!(XdpFlags::all().bits(), 31);
    assert_eq!(XdpFlags::from_bits_truncate(0x24).bits(), 4);
    assert_eq!(XdpFlags::XDP_FLAGS_DRV_MODE().bits(), 4);
    assert_eq!(XdpFlags::XDP_FLAGS_HW_MODE().bits(), 8);
    assert_eq!(XdpFlags::XDP_FLAGS_REPLACE().bits(), 16);
    assert_eq!(XdpFlags::XDP_FLAGS_UPDATE_IF_NOEXIST().bits(), 1);
    assert_eq!(BindFlags::XDP_SHARED_UMEM().bits(), 1);
    assert_eq!(LibbpfFlags::all().bits(), 1);
}

#[test]
fn is_pow_of_two_cases() {
    assert!(!is_pow_of_two(0));
    assert!(is_pow_of_two(1));
    assert!(is_pow_of_two(2));
    assert!(!is_pow_of_two(3));
    assert!(is_pow_of_two(4096));
    assert!(!is_pow_of_two(4097));
    assert!(is_pow_of_two(1 << 31));
    assert!(!is_pow_of_two(u32::MAX));
}
