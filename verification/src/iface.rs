//! Counters of a network interface, as found under /sys/class/net/IFACE/statistics/.
use vstd::prelude::*;

verus! {

/// `c` is white space as `char::is_whitespace` has it: a character with the
/// Unicode `White_Space` property.
pub open spec fn is_white_space(c: char) -> bool {
    let u = c as u32;
    ||| 0x9 <= u <= 0xd
    ||| u == 0x20 || u == 0x85 || u == 0xa0 || u == 0x1680
    ||| 0x2000 <= u <= 0x200a
    ||| u == 0x2028 || u == 0x2029 || u == 0x202f || u == 0x205f || u == 0x3000
}

/// `s` without its leading white space.
pub open spec fn trim_start(s: Seq<char>) -> Seq<char>
    decreases s.len(),
{
    if s.len() > 0 && is_white_space(s[0]) {
        trim_start(s.drop_first())
    } else {
        s
    }
}

/// `s` without its trailing white space.
pub open spec fn trim_end(s: Seq<char>) -> Seq<char>
    decreases s.len(),
{
    if s.len() > 0 && is_white_space(s.last()) {
        trim_end(s.drop_last())
    } else {
        s
    }
}

/// `s` without leading and trailing white space, as `str::trim` gives it.
pub open spec fn trim(s: Seq<char>) -> Seq<char> {
    trim_end(trim_start(s))
}

/// `c` is one of the ASCII digits `0` to `9`.
pub open spec fn is_digit(c: char) -> bool {
    48 <= (c as u32) <= 57
}

/// The number the decimal digits `s` spell, most significant first.
pub open spec fn digits_value(s: Seq<char>) -> nat
    decreases s.len(),
{
    if s.len() == 0 {
        0
    } else {
        digits_value(s.drop_last()) * 10 + ((s.last() as u32) - 48) as nat
    }
}

/// `s` without a leading `+`, if it has one.
pub open spec fn without_plus(s: Seq<char>) -> Seq<char> {
    if s.len() > 0 && s[0] == '+' {
        s.drop_first()
    } else {
        s
    }
}

/// Every character of `s` is a digit.
pub open spec fn all_digits(s: Seq<char>) -> bool {
    forall|k: int| 0 <= k < s.len() ==> is_digit(#[trigger] s[k])
}

/// A `u64` written in decimal, as `u64::from_str` reads it: an optional `+`,
/// then one or more ASCII digits, of a value that fits in a `u64`; anything
/// else is no number.
pub open spec fn parse_u64(s: Seq<char>) -> Option<u64> {
    let digits = without_plus(s);
    if digits.len() > 0 && all_digits(digits) && digits_value(digits) <= u64::MAX {
        Some(digits_value(digits) as u64)
    } else {
        None
    }
}

/// The value of a counter file's text: the number it holds once leading and
/// trailing white space is removed.
pub open spec fn counter_value(text: Seq<char>) -> Option<u64> {
    parse_u64(trim(text))
}

/// The characters of `text`, in order.
fn chars_of(text: &str) -> (r: Vec<char>)
    ensures
        r@ == text@,
{
    broadcast use vstd::string::group_string_axioms;
    let mut v: Vec<char> = Vec::new();
    for c in it: text.chars()
        invariant
            v@ == it.seq().take(it.index() as int),
            it.seq() == text@,
    {
        v.push(c);
    }
    v
}

/// Whether `c` is white space.
fn white_space(c: char) -> (r: bool)
    ensures
        r == is_white_space(c),
{
    let u = c as u32;
    (0x9 <= u && u <= 0xd) || u == 0x20 || u == 0x85 || u == 0xa0 || u == 0x1680 || (0x2000 <= u
        && u <= 0x200a) || u == 0x2028 || u == 0x2029 || u == 0x202f || u == 0x205f || u == 0x3000
}

/// A prefix of digits never spells more than the whole.
proof fn lemma_digits_value_prefix(s: Seq<char>, m: int)
    requires
        0 <= m <= s.len(),
    ensures
        digits_value(s.take(m)) <= digits_value(s),
    decreases s.len(),
{
    if m < s.len() {
        assert(s.drop_last().take(m) =~= s.take(m));
        lemma_digits_value_prefix(s.drop_last(), m);
    } else {
        assert(s.take(m) =~= s);
    }
}

/// Reads the value of a counter from the text of its file: the text with
/// leading and trailing white space removed must be a decimal `u64`, else
/// there is no value.
pub fn parse_counter(text: &str) -> (r: Option<u64>)
    ensures
        r == counter_value(text@),
{
    let v = chars_of(text);
    let n = v.len();
    // leading white space
    let mut i: usize = 0;
    assert(v@.skip(0) =~= v@);
    while i < n && white_space(v[i])
        invariant
            n == v@.len(),
            i <= n,
            trim_start(v@) == trim_start(v@.skip(i as int)),
        decreases n - i,
    {
        assert(v@.skip(i as int).drop_first() =~= v@.skip(i + 1));
        i = i + 1;
    }
    assert(trim_start(v@) == v@.skip(i as int));
    // trailing white space
    let mut j: usize = n;
    assert(v@.skip(i as int) =~= v@.subrange(i as int, n as int));
    while j > i && white_space(v[j - 1])
        invariant
            n == v@.len(),
            i <= j <= n,
            trim(v@) == trim_end(v@.subrange(i as int, j as int)),
        decreases j - i,
    {
        assert(v@.subrange(i as int, j as int).drop_last() =~= v@.subrange(i as int, j - 1));
        j = j - 1;
    }
    let ghost t = v@.subrange(i as int, j as int);
    assert(trim(v@) == t);
    // an optional plus sign, then the digits
    let mut k: usize = i;
    if k < j && v[k] == '+' {
        k = k + 1;
    }
    let ds = k;
    let ghost digits = v@.subrange(ds as int, j as int);
    assert(digits =~= without_plus(t));
    if ds == j {
        return None;
    }
    let mut value: u64 = 0;
    assert(digits.take(0) =~= Seq::<char>::empty());
    while k < j
        invariant
            n == v@.len(),
            ds <= k <= j <= n,
            v@ == text@,
            trim(v@) == t,
            digits == v@.subrange(ds as int, j as int),
            digits == without_plus(t),
            digits.len() > 0,
            value == digits_value(digits.take(k - ds)),
            forall|m: int| 0 <= m < k - ds ==> is_digit(#[trigger] digits[m]),
        decreases j - k,
    {
        let c = v[k];
        assert(c == digits[k - ds]);
        let u = c as u32;
        if u < 48 || u > 57 {
            assert(!is_digit(digits[k - ds]));
            return None;
        }
        let d = (u - 48) as u64;
        assert(digits.take(k - ds + 1).drop_last() =~= digits.take(k - ds));
        assert(digits_value(digits.take(k - ds + 1)) == value * 10 + d);
        if value > (u64::MAX - d) / 10 {
            proof {
                assert(value * 10 + d > u64::MAX) by (nonlinear_arith)
                    requires
                        value > (u64::MAX - d) / 10,
                        d <= 9,
                ;
                lemma_digits_value_prefix(digits, k - ds + 1);
            }
            return None;
        }
        assert(value * 10 + d <= u64::MAX) by (nonlinear_arith)
            requires
                value <= (u64::MAX - d) / 10,
                d <= 9,
        ;
        value = value * 10 + d;
        k = k + 1;
    }
    assert(digits.take(k - ds) =~= digits);
    Some(value)
}

/// The value of the first entry of `entries` named `key`.
pub open spec fn lookup(entries: Seq<(String, u64)>, key: Seq<char>) -> Option<u64>
    decreases entries.len(),
{
    if entries.len() == 0 {
        None
    } else if entries[0].0@ == key {
        Some(entries[0].1)
    } else {
        lookup(entries.drop_first(), key)
    }
}

/// Finds the value of the first entry of `map` named `key`.
fn find(map: &Vec<(String, u64)>, key: &str) -> (r: Option<u64>)
    ensures
        r == lookup(map@, key@),
{
    let wanted: String = key.to_owned();
    let n = map.len();
    let mut i: usize = 0;
    assert(map@.skip(0) =~= map@);
    while i < n
        invariant
            n == map@.len(),
            i <= n,
            wanted@ == key@,
            lookup(map@, key@) == lookup(map@.skip(i as int), key@),
        decreases n - i,
    {
        if map[i].0 == wanted {
            return Some(map[i].1);
        }
        assert(map@.skip(i as int).drop_first() =~= map@.skip(i + 1));
        i = i + 1;
    }
    None
}

/// Counters of both directions of a network interface.
#[derive(Debug, Clone)]
pub struct InterfaceStats {
    pub tx: InterfaceStatsTx,
    pub rx: InterfaceStatsRx,
}

impl InterfaceStats {
    /// Gathers the counters of both directions.
    pub fn new(rx: InterfaceStatsRx, tx: InterfaceStatsTx) -> (r: Self)
        ensures
            r.rx@ == rx@,
            r.tx@ == tx@,
    {
        Self { rx, tx }
    }

    /// The change of every counter from `earlier` to `self`.
    pub fn difference(&self, earlier: &Self) -> (r: Self)
        requires
            forall|i: int| 0 <= i < 12 ==> earlier.rx@[i] <= #[trigger] self.rx@[i],
            forall|i: int| 0 <= i < 10 ==> earlier.tx@[i] <= #[trigger] self.tx@[i],
        ensures
            r.rx@.len() == 12,
            r.tx@.len() == 10,
            forall|i: int| 0 <= i < 12 ==> #[trigger] r.rx@[i] == self.rx@[i] - earlier.rx@[i],
            forall|i: int| 0 <= i < 10 ==> #[trigger] r.tx@[i] == self.tx@[i] - earlier.tx@[i],
    {
        Self { tx: self.tx.difference(&earlier.tx), rx: self.rx.difference(&earlier.rx) }
    }
}

/// Receive counters of a network interface.
#[derive(Debug, Clone)]
pub struct InterfaceStatsRx {
    rx_bytes: u64,
    rx_compressed: u64,
    rx_crc_errors: u64,
    rx_dropped: u64,
    rx_errors: u64,
    rx_fifo_errors: u64,
    rx_frame_errors: u64,
    rx_length_errors: u64,
    rx_missed_errors: u64,
    rx_nohandler: u64,
    rx_over_errors: u64,
    rx_packets: u64,
}

/// The names of the rx counters, in the order of the view of [`InterfaceStatsRx`].
pub open spec fn rx_field_names() -> Seq<Seq<char>> {
    seq!["rx_bytes"@, "rx_compressed"@, "rx_crc_errors"@, "rx_dropped"@, "rx_errors"@, "rx_fifo_errors"@, "rx_frame_errors"@, "rx_length_errors"@, "rx_missed_errors"@, "rx_nohandler"@, "rx_over_errors"@, "rx_packets"@]
}

/// The rx counters named in `entries`, in the order of [`rx_field_names`],
/// or nothing when one of them is missing.
pub open spec fn rx_counters(entries: Seq<(String, u64)>) -> Option<Seq<u64>> {
    if lookup(entries, "rx_bytes"@) is Some && lookup(entries, "rx_compressed"@) is Some && lookup(entries, "rx_crc_errors"@) is Some && lookup(entries, "rx_dropped"@) is Some && lookup(entries, "rx_errors"@) is Some && lookup(entries, "rx_fifo_errors"@) is Some && lookup(entries, "rx_frame_errors"@) is Some && lookup(entries, "rx_length_errors"@) is Some && lookup(entries, "rx_missed_errors"@) is Some && lookup(entries, "rx_nohandler"@) is Some && lookup(entries, "rx_over_errors"@) is Some && lookup(entries, "rx_packets"@) is Some {
        Some(seq![lookup(entries, "rx_bytes"@)->0, lookup(entries, "rx_compressed"@)->0, lookup(entries, "rx_crc_errors"@)->0, lookup(entries, "rx_dropped"@)->0, lookup(entries, "rx_errors"@)->0, lookup(entries, "rx_fifo_errors"@)->0, lookup(entries, "rx_frame_errors"@)->0, lookup(entries, "rx_length_errors"@)->0, lookup(entries, "rx_missed_errors"@)->0, lookup(entries, "rx_nohandler"@)->0, lookup(entries, "rx_over_errors"@)->0, lookup(entries, "rx_packets"@)->0])
    } else {
        None
    }
}

/// Each rx counter read from `entries` is the value of the first entry
/// carrying that counter's name, and the counters can be read exactly when
/// every name has an entry.
pub proof fn lemma_rx_counters_by_name(entries: Seq<(String, u64)>)
    ensures
        rx_counters(entries) is Some <==> (forall|i: int|
            0 <= i < 12 ==> lookup(entries, #[trigger] rx_field_names()[i]) is Some),
        rx_counters(entries) matches Some(s) ==> s.len() == 12 && (forall|i: int|
            0 <= i < 12 ==> #[trigger] s[i] == lookup(entries, rx_field_names()[i])->0),
{
    let names = rx_field_names();
    assert(names[0] == "rx_bytes"@);
    assert(names[1] == "rx_compressed"@);
    assert(names[2] == "rx_crc_errors"@);
    assert(names[3] == "rx_dropped"@);
    assert(names[4] == "rx_errors"@);
    assert(names[5] == "rx_fifo_errors"@);
    assert(names[6] == "rx_frame_errors"@);
    assert(names[7] == "rx_length_errors"@);
    assert(names[8] == "rx_missed_errors"@);
    assert(names[9] == "rx_nohandler"@);
    assert(names[10] == "rx_over_errors"@);
    assert(names[11] == "rx_packets"@);
    if rx_counters(entries) is Some {
        let s = rx_counters(entries)->0;
        assert forall|i: int| 0 <= i < 12 implies #[trigger] s[i] == lookup(entries, names[i])->0 by {
            assert(i == 0 || i == 1 || i == 2 || i == 3 || i == 4 || i == 5 || i == 6 || i == 7 || i == 8 || i == 9 || i == 10 || i == 11);
        }
    }
    if forall|i: int| 0 <= i < 12 ==> lookup(entries, #[trigger] names[i]) is Some {
        assert(lookup(entries, names[0]) is Some);
        assert(lookup(entries, names[1]) is Some);
        assert(lookup(entries, names[2]) is Some);
        assert(lookup(entries, names[3]) is Some);
        assert(lookup(entries, names[4]) is Some);
        assert(lookup(entries, names[5]) is Some);
        assert(lookup(entries, names[6]) is Some);
        assert(lookup(entries, names[7]) is Some);
        assert(lookup(entries, names[8]) is Some);
        assert(lookup(entries, names[9]) is Some);
        assert(lookup(entries, names[10]) is Some);
        assert(lookup(entries, names[11]) is Some);
    }
    if rx_counters(entries) is Some {
        assert forall|i: int| 0 <= i < 12 implies lookup(entries, #[trigger] names[i]) is Some by {
            assert(i == 0 || i == 1 || i == 2 || i == 3 || i == 4 || i == 5 || i == 6 || i == 7 || i == 8 || i == 9 || i == 10 || i == 11);
        }
    }
}

impl View for InterfaceStatsRx {
    type V = Seq<u64>;

    /// The counters in the order of [`rx_field_names`].
    closed spec fn view(&self) -> Seq<u64> {
        seq![self.rx_bytes, self.rx_compressed, self.rx_crc_errors, self.rx_dropped, self.rx_errors, self.rx_fifo_errors, self.rx_frame_errors, self.rx_length_errors, self.rx_missed_errors, self.rx_nohandler, self.rx_over_errors, self.rx_packets]
    }
}

impl Default for InterfaceStatsRx {
    fn default() -> (r: Self)
        ensures
            r@.len() == 12,
            forall|i: int| 0 <= i < 12 ==> #[trigger] r@[i] == 0,
    {
        InterfaceStatsRx { rx_bytes: 0, rx_compressed: 0, rx_crc_errors: 0, rx_dropped: 0, rx_errors: 0, rx_fifo_errors: 0, rx_frame_errors: 0, rx_length_errors: 0, rx_missed_errors: 0, rx_nohandler: 0, rx_over_errors: 0, rx_packets: 0 }
    }
}

impl InterfaceStatsRx {
    /// Builds the counters from `(name, value)` entries; `None` when a counter is missing.
    pub fn from_map(map: &Vec<(String, u64)>) -> (r: Option<Self>)
        ensures
            match r {
                Some(s) => rx_counters(map@) == Some(s@),
                None => rx_counters(map@) is None,
            },
            r is Some <==> (forall|i: int|
                0 <= i < 12 ==> lookup(map@, #[trigger] rx_field_names()[i]) is Some),
            r matches Some(s) ==> s@.len() == 12 && (forall|i: int|
                0 <= i < 12 ==> #[trigger] s@[i] == lookup(map@, rx_field_names()[i])->0),
    {
        proof {
            lemma_rx_counters_by_name(map@);
        }
        let rx_bytes = find(map, "rx_bytes")?;
        let rx_compressed = find(map, "rx_compressed")?;
        let rx_crc_errors = find(map, "rx_crc_errors")?;
        let rx_dropped = find(map, "rx_dropped")?;
        let rx_errors = find(map, "rx_errors")?;
        let rx_fifo_errors = find(map, "rx_fifo_errors")?;
        let rx_frame_errors = find(map, "rx_frame_errors")?;
        let rx_length_errors = find(map, "rx_length_errors")?;
        let rx_missed_errors = find(map, "rx_missed_errors")?;
        let rx_nohandler = find(map, "rx_nohandler")?;
        let rx_over_errors = find(map, "rx_over_errors")?;
        let rx_packets = find(map, "rx_packets")?;
        Some(InterfaceStatsRx { rx_bytes, rx_compressed, rx_crc_errors, rx_dropped, rx_errors, rx_fifo_errors, rx_frame_errors, rx_length_errors, rx_missed_errors, rx_nohandler, rx_over_errors, rx_packets })
    }

    /// The change of every counter from `earlier` to `self`.
    pub fn difference(&self, earlier: &Self) -> (r: Self)
        requires
            forall|i: int| 0 <= i < 12 ==> earlier@[i] <= #[trigger] self@[i],
        ensures
            r@.len() == 12,
            forall|i: int| 0 <= i < 12 ==> #[trigger] r@[i] == self@[i] - earlier@[i],
    {
        proof {
            assert(earlier@[0] <= self@[0]);
            assert(earlier@[1] <= self@[1]);
            assert(earlier@[2] <= self@[2]);
            assert(earlier@[3] <= self@[3]);
            assert(earlier@[4] <= self@[4]);
            assert(earlier@[5] <= self@[5]);
            assert(earlier@[6] <= self@[6]);
            assert(earlier@[7] <= self@[7]);
            assert(earlier@[8] <= self@[8]);
            assert(earlier@[9] <= self@[9]);
            assert(earlier@[10] <= self@[10]);
            assert(earlier@[11] <= self@[11]);
        }
        InterfaceStatsRx {
            rx_bytes: self.rx_bytes - earlier.rx_bytes,
            rx_compressed: self.rx_compressed - earlier.rx_compressed,
            rx_crc_errors: self.rx_crc_errors - earlier.rx_crc_errors,
            rx_dropped: self.rx_dropped - earlier.rx_dropped,
            rx_errors: self.rx_errors - earlier.rx_errors,
            rx_fifo_errors: self.rx_fifo_errors - earlier.rx_fifo_errors,
            rx_frame_errors: self.rx_frame_errors - earlier.rx_frame_errors,
            rx_length_errors: self.rx_length_errors - earlier.rx_length_errors,
            rx_missed_errors: self.rx_missed_errors - earlier.rx_missed_errors,
            rx_nohandler: self.rx_nohandler - earlier.rx_nohandler,
            rx_over_errors: self.rx_over_errors - earlier.rx_over_errors,
            rx_packets: self.rx_packets - earlier.rx_packets,
        }
    }
}

/// Transmit counters of a network interface.
#[derive(Debug, Clone)]
pub struct InterfaceStatsTx {
    tx_aborted_errors: u64,
    tx_bytes: u64,
    tx_carrier_errors: u64,
    tx_compressed: u64,
    tx_dropped: u64,
    tx_errors: u64,
    tx_fifo_errors: u64,
    tx_heartbeat_errors: u64,
    tx_packets: u64,
    tx_window_errors: u64,
}

/// The names of the tx counters, in the order of the view of [`InterfaceStatsTx`].
pub open spec fn tx_field_names() -> Seq<Seq<char>> {
    seq!["tx_aborted_errors"@, "tx_bytes"@, "tx_carrier_errors"@, "tx_compressed"@, "tx_dropped"@, "tx_errors"@, "tx_fifo_errors"@, "tx_heartbeat_errors"@, "tx_packets"@, "tx_window_errors"@]
}

/// The tx counters named in `entries`, in the order of [`tx_field_names`],
/// or nothing when one of them is missing.
pub open spec fn tx_counters(entries: Seq<(String, u64)>) -> Option<Seq<u64>> {
    if lookup(entries, "tx_aborted_errors"@) is Some && lookup(entries, "tx_bytes"@) is Some && lookup(entries, "tx_carrier_errors"@) is Some && lookup(entries, "tx_compressed"@) is Some && lookup(entries, "tx_dropped"@) is Some && lookup(entries, "tx_errors"@) is Some && lookup(entries, "tx_fifo_errors"@) is Some && lookup(entries, "tx_heartbeat_errors"@) is Some && lookup(entries, "tx_packets"@) is Some && lookup(entries, "tx_window_errors"@) is Some {
        Some(seq![lookup(entries, "tx_aborted_errors"@)->0, lookup(entries, "tx_bytes"@)->0, lookup(entries, "tx_carrier_errors"@)->0, lookup(entries, "tx_compressed"@)->0, lookup(entries, "tx_dropped"@)->0, lookup(entries, "tx_errors"@)->0, lookup(entries, "tx_fifo_errors"@)->0, lookup(entries, "tx_heartbeat_errors"@)->0, lookup(entries, "tx_packets"@)->0, lookup(entries, "tx_window_errors"@)->0])
    } else {
        None
    }
}

/// Each tx counter read from `entries` is the value of the first entry
/// carrying that counter's name, and the counters can be read exactly when
/// every name has an entry.
pub proof fn lemma_tx_counters_by_name(entries: Seq<(String, u64)>)
    ensures
        tx_counters(entries) is Some <==> (forall|i: int|
            0 <= i < 10 ==> lookup(entries, #[trigger] tx_field_names()[i]) is Some),
        tx_counters(entries) matches Some(s) ==> s.len() == 10 && (forall|i: int|
            0 <= i < 10 ==> #[trigger] s[i] == lookup(entries, tx_field_names()[i])->0),
{
    let names = tx_field_names();
    assert(names[0] == "tx_aborted_errors"@);
    assert(names[1] == "tx_bytes"@);
    assert(names[2] == "tx_carrier_errors"@);
    assert(names[3] == "tx_compressed"@);
    assert(names[4] == "tx_dropped"@);
    assert(names[5] == "tx_errors"@);
    assert(names[6] == "tx_fifo_errors"@);
    assert(names[7] == "tx_heartbeat_errors"@);
    assert(names[8] == "tx_packets"@);
    assert(names[9] == "tx_window_errors"@);
    if tx_counters(entries) is Some {
        let s = tx_counters(entries)->0;
        assert forall|i: int| 0 <= i < 10 implies #[trigger] s[i] == lookup(entries, names[i])->0 by {
            assert(i == 0 || i == 1 || i == 2 || i == 3 || i == 4 || i == 5 || i == 6 || i == 7 || i == 8 || i == 9);
        }
    }
    if forall|i: int| 0 <= i < 10 ==> lookup(entries, #[trigger] names[i]) is Some {
        assert(lookup(entries, names[0]) is Some);
        assert(lookup(entries, names[1]) is Some);
        assert(lookup(entries, names[2]) is Some);
        assert(lookup(entries, names[3]) is Some);
        assert(lookup(entries, names[4]) is Some);
        assert(lookup(entries, names[5]) is Some);
        assert(lookup(entries, names[6]) is Some);
        assert(lookup(entries, names[7]) is Some);
        assert(lookup(entries, names[8]) is Some);
        assert(lookup(entries, names[9]) is Some);
    }
    if tx_counters(entries) is Some {
        assert forall|i: int| 0 <= i < 10 implies lookup(entries, #[trigger] names[i]) is Some by {
            assert(i == 0 || i == 1 || i == 2 || i == 3 || i == 4 || i == 5 || i == 6 || i == 7 || i == 8 || i == 9);
        }
    }
}

impl View for InterfaceStatsTx {
    type V = Seq<u64>;

    /// The counters in the order of [`tx_field_names`].
    closed spec fn view(&self) -> Seq<u64> {
        seq![self.tx_aborted_errors, self.tx_bytes, self.tx_carrier_errors, self.tx_compressed, self.tx_dropped, self.tx_errors, self.tx_fifo_errors, self.tx_heartbeat_errors, self.tx_packets, self.tx_window_errors]
    }
}

impl Default for InterfaceStatsTx {
    fn default() -> (r: Self)
        ensures
            r@.len() == 10,
            forall|i: int| 0 <= i < 10 ==> #[trigger] r@[i] == 0,
    {
        InterfaceStatsTx { tx_aborted_errors: 0, tx_bytes: 0, tx_carrier_errors: 0, tx_compressed: 0, tx_dropped: 0, tx_errors: 0, tx_fifo_errors: 0, tx_heartbeat_errors: 0, tx_packets: 0, tx_window_errors: 0 }
    }
}

impl InterfaceStatsTx {
    /// Builds the counters from `(name, value)` entries; `None` when a counter is missing.
    pub fn from_map(map: &Vec<(String, u64)>) -> (r: Option<Self>)
        ensures
            match r {
                Some(s) => tx_counters(map@) == Some(s@),
                None => tx_counters(map@) is None,
            },
            r is Some <==> (forall|i: int|
                0 <= i < 10 ==> lookup(map@, #[trigger] tx_field_names()[i]) is Some),
            r matches Some(s) ==> s@.len() == 10 && (forall|i: int|
                0 <= i < 10 ==> #[trigger] s@[i] == lookup(map@, tx_field_names()[i])->0),
    {
        proof {
            lemma_tx_counters_by_name(map@);
        }
        let tx_aborted_errors = find(map, "tx_aborted_errors")?;
        let tx_bytes = find(map, "tx_bytes")?;
        let tx_carrier_errors = find(map, "tx_carrier_errors")?;
        let tx_compressed = find(map, "tx_compressed")?;
        let tx_dropped = find(map, "tx_dropped")?;
        let tx_errors = find(map, "tx_errors")?;
        let tx_fifo_errors = find(map, "tx_fifo_errors")?;
        let tx_heartbeat_errors = find(map, "tx_heartbeat_errors")?;
        let tx_packets = find(map, "tx_packets")?;
        let tx_window_errors = find(map, "tx_window_errors")?;
        Some(InterfaceStatsTx { tx_aborted_errors, tx_bytes, tx_carrier_errors, tx_compressed, tx_dropped, tx_errors, tx_fifo_errors, tx_heartbeat_errors, tx_packets, tx_window_errors })
    }

    /// The change of every counter from `earlier` to `self`.
    pub fn difference(&self, earlier: &Self) -> (r: Self)
        requires
            forall|i: int| 0 <= i < 10 ==> earlier@[i] <= #[trigger] self@[i],
        ensures
            r@.len() == 10,
            forall|i: int| 0 <= i < 10 ==> #[trigger] r@[i] == self@[i] - earlier@[i],
    {
        proof {
            assert(earlier@[0] <= self@[0]);
            assert(earlier@[1] <= self@[1]);
            assert(earlier@[2] <= self@[2]);
            assert(earlier@[3] <= self@[3]);
            assert(earlier@[4] <= self@[4]);
            assert(earlier@[5] <= self@[5]);
            assert(earlier@[6] <= self@[6]);
            assert(earlier@[7] <= self@[7]);
            assert(earlier@[8] <= self@[8]);
            assert(earlier@[9] <= self@[9]);
        }
        InterfaceStatsTx {
            tx_aborted_errors: self.tx_aborted_errors - earlier.tx_aborted_errors,
            tx_bytes: self.tx_bytes - earlier.tx_bytes,
            tx_carrier_errors: self.tx_carrier_errors - earlier.tx_carrier_errors,
            tx_compressed: self.tx_compressed - earlier.tx_compressed,
            tx_dropped: self.tx_dropped - earlier.tx_dropped,
            tx_errors: self.tx_errors - earlier.tx_errors,
            tx_fifo_errors: self.tx_fifo_errors - earlier.tx_fifo_errors,
            tx_heartbeat_errors: self.tx_heartbeat_errors - earlier.tx_heartbeat_errors,
            tx_packets: self.tx_packets - earlier.tx_packets,
            tx_window_errors: self.tx_window_errors - earlier.tx_window_errors,
        }
    }
}

} // verus!
