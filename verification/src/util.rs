use vstd::prelude::*;

verus! {

/// `val` is a power of two: `2^k` for some `k` below the width of `u32`.
pub open spec fn is_power_of_two(val: u32) -> bool {
    exists|k: u32| k < 32 && val == #[trigger] (1u32 << k)
}

/// A non-zero `u32` with a single bit set is one of the 32 powers of two.
proof fn lemma_single_bit_is_power_of_two(val: u32)
    requires
        val != 0,
        val & sub_one(val) == 0,
    ensures
        is_power_of_two(val),
{
    assert(val != 0 && val & sub_one(val) == 0 ==> (val == 1u32 << 0u32 || val == 1u32 << 1u32 || val == 1u32 << 2u32 || val == 1u32 << 3u32 || val == 1u32 << 4u32 || val == 1u32 << 5u32 || val == 1u32 << 6u32 || val == 1u32 << 7u32 || val == 1u32 << 8u32 || val == 1u32 << 9u32 || val == 1u32 << 10u32 || val == 1u32 << 11u32 || val == 1u32 << 12u32 || val == 1u32 << 13u32 || val == 1u32 << 14u32 || val == 1u32 << 15u32 || val == 1u32 << 16u32 || val == 1u32 << 17u32 || val == 1u32 << 18u32 || val == 1u32 << 19u32 || val == 1u32 << 20u32 || val == 1u32 << 21u32 || val == 1u32 << 22u32 || val == 1u32 << 23u32 || val == 1u32 << 24u32 || val == 1u32 << 25u32 || val == 1u32 << 26u32 || val == 1u32 << 27u32 || val == 1u32 << 28u32 || val == 1u32 << 29u32 || val == 1u32 << 30u32 || val == 1u32 << 31u32)) by (bit_vector);
}

/// A power of two has exactly one bit set.
proof fn lemma_power_of_two_single_bit(val: u32, k: u32)
    requires
        k < 32,
        val == 1u32 << k,
    ensures
        val != 0,
        val & sub_one(val) == 0,
{
    assert(k < 32 && val == 1u32 << k ==> val != 0 && val & sub_one(val) == 0) by (bit_vector);
}

/// `val - 1`, or zero when `val` is zero.
pub open spec fn sub_one(val: u32) -> u32 {
    if val == 0 { 0 } else { (val - 1) as u32 }
}

/// Checks whether `val` is a power of two; zero is not.
pub fn is_pow_of_two(val: u32) -> (r: bool)
    ensures
        r == is_power_of_two(val),
{
    if val == 0 {
        proof {
            if is_power_of_two(val) {
                let k = choose|k: u32| k < 32 && val == #[trigger] (1u32 << k);
                lemma_power_of_two_single_bit(val, k);
            }
        }
        return false;
    }
    let r = (val & (val - 1)) == 0;
    proof {
        if r {
            lemma_single_bit_is_power_of_two(val);
        } else if is_power_of_two(val) {
            let k = choose|k: u32| k < 32 && val == #[trigger] (1u32 << k);
            lemma_power_of_two_single_bit(val, k);
        }
    }
    r
}

/// The character of the decimal digit `d`.
pub open spec fn digit_char(d: nat) -> char {
    if d == 0 {
        '0'
    } else if d == 1 {
        '1'
    } else if d == 2 {
        '2'
    } else if d == 3 {
        '3'
    } else if d == 4 {
        '4'
    } else if d == 5 {
        '5'
    } else if d == 6 {
        '6'
    } else if d == 7 {
        '7'
    } else if d == 8 {
        '8'
    } else {
        '9'
    }
}

/// The decimal digits of `n`, most significant first, without leading zeros:
/// how an unsigned integer is displayed.
pub open spec fn decimal(n: nat) -> Seq<char>
    decreases n,
{
    if n < 10 {
        seq![digit_char(n)]
    } else {
        decimal(n / 10).push(digit_char(n % 10))
    }
}

/// The text of the decimal digit `d`.
fn digit_text(d: usize) -> (s: &'static str)
    requires
        d < 10,
    ensures
        s@ == seq![digit_char(d as nat)],
{
    proof {
        reveal_strlit("0");
        reveal_strlit("1");
        reveal_strlit("2");
        reveal_strlit("3");
        reveal_strlit("4");
        reveal_strlit("5");
        reveal_strlit("6");
        reveal_strlit("7");
        reveal_strlit("8");
        reveal_strlit("9");
    }
    let s = if d == 0 {
        "0"
    } else if d == 1 {
        "1"
    } else if d == 2 {
        "2"
    } else if d == 3 {
        "3"
    } else if d == 4 {
        "4"
    } else if d == 5 {
        "5"
    } else if d == 6 {
        "6"
    } else if d == 7 {
        "7"
    } else if d == 8 {
        "8"
    } else {
        "9"
    };
    assert(s@ =~= seq![digit_char(d as nat)]);
    s
}

/// Appends the decimal digits of `n` to `text`.
pub fn push_decimal(text: &mut String, n: usize)
    ensures
        final(text)@ == old(text)@ + decimal(n as nat),
    decreases n,
{
    if n >= 10 {
        push_decimal(text, n / 10);
    }
    text.append(digit_text(n % 10));
    proof {
        if n >= 10 {
            assert(decimal(n as nat) == decimal((n / 10) as nat).push(digit_char((n % 10) as nat)));
            assert(text@ =~= old(text)@ + decimal(n as nat));
        } else {
            assert(text@ =~= old(text)@ + decimal(n as nat));
        }
    }
}

} // verus!
