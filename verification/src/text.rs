//! Numbers and race times as text.
use vstd::prelude::*;

use crate::buffer::{put, TextBuffer};

verus! {

/// The digit `d`.
pub open spec fn digit(d: int) -> char {
    (48 + d) as char
}

/// The decimal digits of `n`, without leading zeros.
pub open spec fn digits(n: nat) -> Seq<char>
    decreases n,
{
    if n < 10 {
        seq![digit(n as int)]
    } else {
        digits(n / 10).push(digit(n as int % 10))
    }
}

/// The decimal notation of `n`.
pub open spec fn decimal(n: int) -> Seq<char> {
    if n < 0 {
        seq!['-'] + digits((-n) as nat)
    } else {
        digits(n as nat)
    }
}

/// A race time of `ms` milliseconds: at least two digits of seconds, a point, and three
/// digits of milliseconds.
pub open spec fn race_time(ms: u64) -> Seq<char> {
    let secs = ms / 1000;
    let millis = ms % 1000;
    let lead = if secs < 10 {
        seq!['0']
    } else {
        Seq::<char>::empty()
    };
    let fill = if millis < 10 {
        seq!['0', '0']
    } else if millis < 100 {
        seq!['0']
    } else {
        Seq::<char>::empty()
    };
    lead + digits((secs as usize) as nat) + seq!['.'] + fill + digits(millis as nat)
}

/// The digits of `n`, none for zero.
spec fn digits_above_zero(n: nat) -> Seq<char> {
    if n == 0 {
        Seq::empty()
    } else {
        digits(n)
    }
}

/// The first `i` bytes of `temp`, last first, as characters.
spec fn reversed(temp: Seq<u8>, i: int) -> Seq<char> {
    Seq::new(i as nat, |k: int| temp[i - 1 - k] as char)
}

/// Digits are ASCII, and there is at least one.
pub proof fn lemma_digits_are_ascii(n: nat)
    ensures
        digits(n).len() >= 1,
        forall|i: int| 0 <= i < digits(n).len() ==> '0' <= #[trigger] digits(n)[i] <= '9',
    decreases n,
{
    if n >= 10 {
        lemma_digits_are_ascii(n / 10);
    }
}

/// Appends the digits of `num`, which is not zero.
fn put_digits(num: usize, buf: &mut heapless::String<16>)
    requires
        num > 0,
        crate::buffer::byte_len(old(buf).text()) + digits(num as nat).len() <= 16,
    ensures
        final(buf).text() == old(buf).text() + digits(num as nat),
        crate::buffer::byte_len(final(buf).text()) == crate::buffer::byte_len(old(buf).text())
            + digits(num as nat).len(),
{
    let ghost all = digits(num as nat);
    let mut temp: [u8; 16] = [0u8; 16];
    let mut i: usize = 0;
    let mut n: usize = num;
    assert(digits_above_zero(num as nat) + reversed(temp@, 0) =~= all);
    while n > 0
        invariant
            i <= all.len() <= 16,
            digits_above_zero(n as nat) + reversed(temp@, i as int) == all,
            forall|k: int| 0 <= k < i ==> 48 <= #[trigger] temp@[k] <= 57,
        decreases n,
    {
        proof {
            lemma_digits_are_ascii(n as nat);
            assert(all.len() == digits_above_zero(n as nat).len() + i);
        }
        let ghost before = temp@;
        temp[i] = (n % 10) as u8 + 48;
        assert(digits_above_zero(n as nat) =~= digits_above_zero((n / 10) as nat).push(
            digit(n as int % 10),
        ));
        assert(digits_above_zero(n as nat) + reversed(before, i as int) =~= digits_above_zero(
            (n / 10) as nat,
        ) + reversed(temp@, i + 1));
        n = n / 10;
        i = i + 1;
    }
    assert(reversed(temp@, i as int) =~= all);
    assert(old(buf).text() + all.take(0) =~= old(buf).text());
    while i > 0
        invariant
            i <= all.len() <= 16,
            reversed(temp@, all.len() as int) == all,
            forall|k: int| 0 <= k < all.len() ==> 48 <= #[trigger] temp@[k] <= 57,
            crate::buffer::byte_len(old(buf).text()) + all.len() <= 16,
            buf.text() == old(buf).text() + all.take(all.len() - i),
            crate::buffer::byte_len(buf.text()) == crate::buffer::byte_len(old(buf).text())
                + all.len() - i,
        decreases i,
    {
        i = i - 1;
        proof {
            let k: int = all.len() - 1 - i;
            assert(all[k] == reversed(temp@, all.len() as int)[k]);
            assert(all.take(k).push(all[k]) =~= all.take(k + 1));
        }
        put(buf, temp[i] as char);
        assert(buf.text() =~= old(buf).text() + all.take(all.len() - i));
    }
    assert(all.take(all.len() as int) =~= all);
}

/// Appends the decimal notation of `num`, which must fit.
pub fn int_to_str(num: i16, buf: &mut heapless::String<16>)
    requires
        crate::buffer::byte_len(old(buf).text()) + decimal(num as int).len() <= 16,
    ensures
        final(buf).text() == old(buf).text() + decimal(num as int),
        crate::buffer::byte_len(final(buf).text()) == crate::buffer::byte_len(old(buf).text())
            + decimal(num as int).len(),
{
    if num == 0 {
        put(buf, '0');
        assert(buf.text() =~= old(buf).text() + decimal(0));
        return ;
    }
    let negative = num < 0;
    let magnitude: i32 = if negative {
        -(num as i32)
    } else {
        num as i32
    };
    if negative {
        put(buf, '-');
    }
    put_digits(magnitude as usize, buf);
    assert(buf.text() =~= old(buf).text() + decimal(num as int));
}

/// Appends the digits of `num`, which must fit.
pub fn usize_to_str(num: usize, buf: &mut heapless::String<16>)
    requires
        crate::buffer::byte_len(old(buf).text()) + digits(num as nat).len() <= 16,
    ensures
        final(buf).text() == old(buf).text() + digits(num as nat),
        crate::buffer::byte_len(final(buf).text()) == crate::buffer::byte_len(old(buf).text())
            + digits(num as nat).len(),
{
    if num == 0 {
        put(buf, '0');
        assert(buf.text() =~= old(buf).text() + digits(0));
        return ;
    }
    put_digits(num, buf);
}

/// Appends a race time of `ms` milliseconds, which must fit.
pub fn format_race_time(ms: u64, buf: &mut heapless::String<16>)
    requires
        crate::buffer::byte_len(old(buf).text()) + race_time(ms).len() <= 16,
    ensures
        final(buf).text() == old(buf).text() + race_time(ms),
        crate::buffer::byte_len(final(buf).text()) == crate::buffer::byte_len(old(buf).text())
            + race_time(ms).len(),
{
    let secs: u64 = ms / 1000;
    let millis: u64 = ms % 1000;
    if secs < 10 {
        put(buf, '0');
    }
    usize_to_str(secs as usize, buf);
    put(buf, '.');
    if millis < 100 {
        put(buf, '0');
    }
    if millis < 10 {
        put(buf, '0');
    }
    usize_to_str(millis as usize, buf);
    assert(buf.text() =~= old(buf).text() + race_time(ms));
}

/// The number that a row of digits denotes.
pub open spec fn digits_value(text: Seq<char>) -> int
    decreases text.len(),
{
    if text.len() == 0 {
        0
    } else {
        digits_value(text.drop_last()) * 10 + (text.last() as int - 48)
    }
}

/// The number that decimal notation denotes.
pub open spec fn decimal_value(text: Seq<char>) -> int {
    if text.len() > 0 && text[0] == '-' {
        -digits_value(text.skip(1))
    } else {
        digits_value(text)
    }
}

/// Digits denote the number that they were written for.
pub proof fn law_digits_read_back(n: nat)
    ensures
        digits_value(digits(n)) == n,
    decreases n,
{
    if n < 10 {
        assert(digits(n).drop_last() =~= Seq::<char>::empty());
        assert(digits_value(digits(n).drop_last()) == 0);
    } else {
        law_digits_read_back(n / 10);
        assert(digits(n).drop_last() =~= digits(n / 10));
    }
}

/// Decimal notation denotes the number that it was written for.
pub proof fn law_decimal_reads_back(n: int)
    ensures
        decimal_value(decimal(n)) == n,
{
    if n < 0 {
        law_digits_read_back((-n) as nat);
        assert(decimal(n).skip(1) =~= digits((-n) as nat));
    } else {
        law_digits_read_back(n as nat);
        lemma_digits_are_ascii(n as nat);
    }
}

/// Zeros in front of digits do not change the number.
proof fn lemma_leading_zero(text: Seq<char>)
    ensures
        digits_value(seq!['0'] + text) == digits_value(text),
    decreases text.len(),
{
    let zero = seq!['0'];
    if text.len() == 0 {
        assert((zero + text).drop_last() =~= Seq::<char>::empty());
        assert(digits_value((zero + text).drop_last()) == 0);
    } else {
        assert((zero + text).drop_last() =~= zero + text.drop_last());
        lemma_leading_zero(text.drop_last());
    }
}

/// Numbers below a thousand have one, two or three digits.
proof fn lemma_digit_counts(n: nat)
    requires
        n < 1000,
    ensures
        digits(n).len() == if n < 10 {
            1int
        } else if n < 100 {
            2
        } else {
            3
        },
{
    reveal_with_fuel(digits, 3);
}

/// The numbers below 10^16, and no others, have at most sixteen digits.
pub proof fn lemma_digits_fit(n: nat)
    ensures
        n < 10_000_000_000_000_000 <==> digits(n).len() <= 16,
{
    reveal_with_fuel(digits, 18);
    if n >= 10_000_000_000_000_000 {
        lemma_digits_are_ascii(n / 10_000_000_000_000_000);
    }
}

/// A race time below a hundred seconds is six characters wide, and every race time
/// whose seconds fit in a `usize` reads back: the seconds stand before the point and
/// the milliseconds, three digits, after it.
pub proof fn law_race_time_reads_back(ms: u64)
    requires
        ms / 1000 <= usize::MAX,
    ensures
        ({
            let text = race_time(ms);
            let point = text.len() - 4;
            &&& ms < 100_000 ==> text.len() == 6
            &&& point >= 2
            &&& text[point] == '.'
            &&& digits_value(text.take(point)) == ms / 1000
            &&& digits_value(text.skip(point + 1)) == ms % 1000
        }),
{
    let text = race_time(ms);
    let point: int = text.len() - 4;
    let secs = (ms / 1000) as nat;
    let millis = (ms % 1000) as nat;
    let zero = seq!['0'];
    lemma_digit_counts(millis);
    lemma_digits_are_ascii(secs);
    law_digits_read_back(secs);
    law_digits_read_back(millis);
    lemma_leading_zero(digits(secs));
    lemma_leading_zero(digits(millis));
    lemma_leading_zero(zero + digits(millis));
    if secs < 100 {
        lemma_digit_counts(secs);
    }
    if secs < 10 {
        assert(text.take(point) =~= zero + digits(secs));
    } else {
        assert(text.take(point) =~= digits(secs));
        assert(digits(secs).len() >= 2) by {
            lemma_digits_are_ascii(secs / 10);
        }
    }
    if millis < 10 {
        assert(text.skip(point + 1) =~= zero + (zero + digits(millis)));
    } else if millis < 100 {
        assert(text.skip(point + 1) =~= zero + digits(millis));
    } else {
        assert(text.skip(point + 1) =~= digits(millis));
    }
}

/// Numbers are written in the one way there is: only digits, no zero in front unless it
/// is the number zero, and worth the number; a minus sign in front makes it negative.
#[verifier::rlimit(50)]
pub proof fn law_numbers_are_written_canonically(n: int)
    ensures
        ({
            let text = decimal(n);
            let sign: int = if n < 0 {
                1
            } else {
                0
            };
            &&& n < 0 ==> text[0] == '-'
            &&& text.len() > sign
            &&& forall|i: int| sign <= i < text.len() ==> 48 <= #[trigger] text[i] as int <= 57
            &&& text[sign] == '0' ==> n == 0 && text.len() == 1
            &&& digits_value(text.skip(sign)) == if n < 0 {
                -n
            } else {
                n
            }
        }),
{
    let m: nat = if n < 0 {
        (-n) as nat
    } else {
        n as nat
    };
    lemma_digits_are_ascii(m);
    lemma_no_leading_zero(m);
    law_digits_read_back(m);
    if n < 0 {
        assert(decimal(n).skip(1) =~= digits(m));
        assert forall|i: int| 1 <= i < decimal(n).len() implies 48 <= #[trigger] decimal(n)[i] as int
            <= 57 by {
            assert(decimal(n)[i] == digits(m)[i - 1]);
        }
    } else {
        assert(decimal(n).skip(0) =~= digits(m));
    }
}

/// Only zero is written with a zero in front.
proof fn lemma_no_leading_zero(n: nat)
    ensures
        digits(n)[0] == '0' ==> n == 0,
        n == 0 ==> digits(n).len() == 1,
    decreases n,
{
    if n >= 10 {
        lemma_no_leading_zero(n / 10);
        lemma_digits_are_ascii(n / 10);
        assert(digits(n)[0] == digits(n / 10)[0]);
    }
}

/// A race time has exactly two digits of seconds below a hundred seconds and no zero in
/// front from there on; then a point and three digits of milliseconds.
#[verifier::rlimit(50)]
pub proof fn law_race_times_have_fixed_width(ms: u64)
    requires
        ms / 1000 <= usize::MAX,
    ensures
        ({
            let text = race_time(ms);
            let point = text.len() - 4;
            &&& ms < 100_000 ==> point == 2
            &&& ms >= 100_000 ==> point >= 3 && text[0] != '0'
            &&& text[point] == '.'
            &&& forall|i: int|
                0 <= i < text.len() && i != point ==> 48 <= #[trigger] text[i] as int <= 57
        }),
{
    law_race_time_reads_back(ms);
    let text = race_time(ms);
    let secs = (ms / 1000) as nat;
    let millis = (ms % 1000) as nat;
    lemma_digits_are_ascii(secs);
    lemma_digits_are_ascii(millis);
    lemma_no_leading_zero(secs);
    lemma_digit_counts(millis);
    if secs >= 100 {
        lemma_digits_are_ascii(secs / 10 / 10);
        assert(digits(secs) == digits(secs / 10).push(digit(secs as int % 10)));
        assert(digits(secs / 10) == digits(secs / 10 / 10).push(digit((secs / 10) as int % 10)));
        assert(text[0] == digits(secs)[0]);
    }
}

} // verus!
