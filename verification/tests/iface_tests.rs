use xdpsock::iface::{parse_counter, InterfaceStats, InterfaceStatsRx, InterfaceStatsTx};

const RX: [&str; 12] = [
    "rx_bytes",
    "rx_compressed",
    "rx_crc_errors",
    "rx_dropped",
    "rx_errors",
    "rx_fifo_errors",
    "rx_frame_errors",
    "rx_length_errors",
    "rx_missed_errors",
    "rx_nohandler",
    "rx_over_errors",
    "rx_packets",
];

const TX: [&str; 10] = [
    "tx_aborted_errors",
    "tx_bytes",
    "tx_carrier_errors",
    "tx_compressed",
    "tx_dropped",
    "tx_errors",
    "tx_fifo_errors",
    "tx_heartbeat_errors",
    "tx_packets",
    "tx_window_errors",
];

fn entries(names: &[&str], base: u64) -> Vec<(String, u64)> {
    names.iter().enumerate().map(|(i, n)| (n.to_string(), base + i as u64)).collect()
}

#[test]
fn from_map_needs_every_counter() {
    let mut rx = entries(&RX, 100);
    assert!(InterfaceStatsRx::from_map(&rx).is_some());
    rx.remove(5);
    assert!(InterfaceStatsRx::from_map(&rx).is_none());
    let mut tx = entries(&TX, 0);
    assert!(InterfaceStatsTx::from_map(&tx).is_some());
    tx.pop();
    assert!(InterfaceStatsTx::from_map(&tx).is_none());
}

#[test]
fn from_map_takes_first_entry_of_a_name() {
    let mut rx = entries(&RX, 0);
    rx.insert(0, ("rx_packets".to_string(), 1000));
    rx.push(("unrelated".to_string(), 5));
    let earlier = InterfaceStatsRx::from_map(&entries(&RX, 0)).unwrap();
    let later = InterfaceStatsRx::from_map(&rx).unwrap();
    let d = later.difference(&earlier);
    let text = format!("{:?}", d);
    assert!(text.contains("rx_packets: 989"));
    assert!(text.contains("rx_bytes: 0"));
}

#[test]
fn difference_is_per_counter() {
    let rx0 = InterfaceStatsRx::from_map(&entries(&RX, 1)).unwrap();
    let rx1 = InterfaceStatsRx::from_map(&entries(&RX, 11)).unwrap();
    let tx0 = InterfaceStatsTx::from_map(&entries(&TX, 2)).unwrap();
    let tx1 = InterfaceStatsTx::from_map(&entries(&TX, 5)).unwrap();
    let s0 = InterfaceStats::new(rx0, tx0);
    let s1 = InterfaceStats::new(rx1, tx1);
    let d = s1.difference(&s0);
    let rx_text = format!("{:?}", d.rx);
    let tx_text = format!("{:?}", d.tx);
    for name in RX.iter() {
        assert!(rx_text.contains(&format!("{}: 10", name)));
    }
    for name in TX.iter() {
        assert!(tx_text.contains(&format!("{}: 3", name)));
    }
    let zero = InterfaceStatsRx::default();
    assert!(format!("{:?}", zero).contains("rx_packets: 0"));
    let zero = InterfaceStatsTx::default();
    assert!(format!("{:?}", zero).contains("tx_packets: 0"));
}

#[test]
fn counter_text_is_read_after_trimming() {
    assert_eq!(parse_counter("12345\n"), Some(12345));
    assert_eq!(parse_counter("  0 \t\r\n"), Some(0));
    assert_eq!(parse_counter("+7"), Some(7));
    assert_eq!(parse_counter("\u{a0}42\u{3000}"), Some(42));
    assert_eq!(parse_counter("18446744073709551615\n"), Some(u64::MAX));
}

#[test]
fn counter_text_that_is_no_number_gives_nothing() {
    assert_eq!(parse_counter(""), None);
    assert_eq!(parse_counter(" \n"), None);
    assert_eq!(parse_counter("+"), None);
    assert_eq!(parse_counter("-1"), None);
    assert_eq!(parse_counter("12 3"), None);
    assert_eq!(parse_counter("1a"), None);
    assert_eq!(parse_counter("18446744073709551616"), None);
    assert_eq!(parse_counter("99999999999999999999x"), None);
}

#[test]
fn counter_parse_agrees_with_std() {
    for text in ["5", " 5 ", "+0", "007", "x", "", "1_000", "\u{85}9\u{2029}", "١"] {
        assert_eq!(parse_counter(text), text.trim().parse::<u64>().ok(), "{:?}", text);
    }
}
