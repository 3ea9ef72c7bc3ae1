//! Parsing of compact durations such as `1d2h30m15s` into milliseconds.
use vstd::prelude::*;
use crate::text::{all_digits, chars_of, char_is_digit, digits_value, is_digit, lemma_digits_value_push};

verus! {

/// Milliseconds in one unit named by `c` (`d`, `h`, `m`, `s`, either case).
pub open spec fn unit_factor(c: char) -> Option<nat> {
    if c == 'd' || c == 'D' {
        Some(86_400_000)
    } else if c == 'h' || c == 'H' {
        Some(3_600_000)
    } else if c == 'm' || c == 'M' {
        Some(60_000)
    } else if c == 's' || c == 'S' {
        Some(1_000)
    } else {
        None
    }
}

/// Reads `s` as groups of digits each closed by a unit letter. `None` when a
/// non-digit is not a unit, has no digits before it, or closes a group whose
/// number exceeds `u64::MAX`; otherwise the exact sum of the closed groups in
/// milliseconds and the digits read since the last unit.
pub open spec fn scan_duration(s: Seq<char>) -> Option<(nat, Seq<char>)>
    decreases s.len(),
{
    if s.len() == 0 {
        Some((0, Seq::empty()))
    } else {
        match scan_duration(s.drop_last()) {
            None => None,
            Some((sum, pending)) => {
                let c = s.last();
                if is_digit(c) {
                    Some((sum, pending.push(c)))
                } else if pending.len() == 0 || digits_value(pending) > u64::MAX {
                    None
                } else {
                    match unit_factor(c) {
                        Some(f) => Some((sum + digits_value(pending) * f, Seq::empty())),
                        None => None,
                    }
                }
            },
        }
    }
}

/// Total duration of `s` in milliseconds: trailing digits without a unit count as
/// milliseconds, and the total saturates at `u64::MAX`.
pub open spec fn milliseconds_of(s: Seq<char>) -> Option<u64> {
    match scan_duration(s) {
        None => None,
        Some((sum, pending)) => {
            if digits_value(pending) > u64::MAX {
                None
            } else {
                let total = sum + digits_value(pending);
                Some(if total > u64::MAX { u64::MAX } else { total as u64 })
            }
        },
    }
}

proof fn lemma_scan_rejects_extensions(s: Seq<char>, i: int, j: int)
    requires
        0 <= i <= j <= s.len(),
        scan_duration(s.take(i)) is None,
    ensures
        scan_duration(s.take(j)) is None,
    decreases j - i,
{
    if j > i {
        lemma_scan_rejects_extensions(s, i, j - 1);
        assert(s.take(j).drop_last() =~= s.take(j - 1));
    }
}

fn unit_factor_of(c: char) -> (r: Option<u64>)
    ensures
        match unit_factor(c) {
            Some(f) => r == Some(f as u64),
            None => r is None,
        },
{
    if c == 'd' || c == 'D' {
        Some(86_400_000)
    } else if c == 'h' || c == 'H' {
        Some(3_600_000)
    } else if c == 'm' || c == 'M' {
        Some(60_000)
    } else if c == 's' || c == 'S' {
        Some(1_000)
    } else {
        None
    }
}

/// Converts a compact duration (`"1h30m"`, `"90s"`, `"2d"`, `"1500"`) into milliseconds.
/// Digit groups are closed by `d`, `h`, `m` or `s` (either case); digits left at the
/// end count as milliseconds. Any other character, a unit with no digits before it,
/// or a group whose number does not fit in `u64` gives `None`. The sum saturates at
/// `u64::MAX`. Durations written one after the other add up
/// (`concatenated_durations_add`).
pub fn milisecond_calculator(input: &str) -> (r: Option<u64>)
    ensures
        r == milliseconds_of(input@),
{
    let v = chars_of(input);
    let mut total_ms: u64 = 0;
    let mut pend_empty = true;
    let mut pend_val: u64 = 0;
    let mut pend_over = false;
    let ghost mut sum: nat = 0;
    let ghost mut pending: Seq<char> = Seq::empty();
    let mut i: usize = 0;
    assert(v@.take(0) =~= Seq::<char>::empty());
    while i < v.len()
        invariant
            v@ == input@,
            i <= v@.len(),
            scan_duration(v@.take(i as int)) == Some((sum, pending)),
            total_ms == (if sum > u64::MAX { u64::MAX as nat } else { sum }),
            pend_empty == (pending.len() == 0),
            pend_over == (digits_value(pending) > u64::MAX),
            !pend_over ==> pend_val == digits_value(pending),
        decreases v.len() - i,
    {
        let ch = v[i];
        assert(v@.take(i + 1).drop_last() =~= v@.take(i as int));
        if char_is_digit(ch) {
            let d = (ch as u32 - 48) as u64;
            proof {
                lemma_digits_value_push(pending, ch);
            }
            if !pend_over {
                match pend_val.checked_mul(10) {
                    Some(t) => match t.checked_add(d) {
                        Some(n) => {
                            pend_val = n;
                        },
                        None => {
                            pend_over = true;
                        },
                    },
                    None => {
                        pend_over = true;
                    },
                }
            }
            pend_empty = false;
            proof {
                pending = pending.push(ch);
            }
        } else {
            if pend_empty || pend_over {
                proof {
                    lemma_scan_rejects_extensions(v@, i + 1, v@.len() as int);
                    assert(v@.take(v@.len() as int) =~= v@);
                }
                return None;
            }
            let factor = match unit_factor_of(ch) {
                Some(f) => f,
                None => {
                    proof {
                        lemma_scan_rejects_extensions(v@, i + 1, v@.len() as int);
                        assert(v@.take(v@.len() as int) =~= v@);
                    }
                    return None;
                },
            };
            let product = match pend_val.checked_mul(factor) {
                Some(p) => p,
                None => u64::MAX,
            };
            total_ms = total_ms.saturating_add(product);
            proof {
                sum = sum + digits_value(pending) * (factor as nat);
                pending = Seq::empty();
            }
            pend_empty = true;
            pend_val = 0;
            pend_over = false;
        }
        i = i + 1;
    }
    assert(v@.take(v@.len() as int) =~= v@);
    if pend_over {
        return None;
    }
    Some(total_ms.saturating_add(pend_val))
}

proof fn lemma_scan_concat(a: Seq<char>, b: Seq<char>, sa: nat)
    requires
        scan_duration(a) == Some((sa, Seq::<char>::empty())),
    ensures
        scan_duration(a + b) == match scan_duration(b) {
            None => None,
            Some((sb, pb)) => Some((sa + sb, pb)),
        },
    decreases b.len(),
{
    if b.len() == 0 {
        assert(a + b =~= a);
        assert(scan_duration(b) == Some((0nat, Seq::<char>::empty())));
    } else {
        lemma_scan_concat(a, b.drop_last(), sa);
        assert((a + b).drop_last() =~= a + b.drop_last());
        assert((a + b).last() == b.last());
    }
}

/// Durations can be written one after the other: when the first, worth `x`, is
/// empty or ends in a unit letter and the second is worth `y`, the two together are
/// worth `x + y`, saturating at `u64::MAX`; when the second does not parse, neither
/// does the whole.
pub proof fn concatenated_durations_add(a: Seq<char>, b: Seq<char>, x: u64)
    requires
        milliseconds_of(a) == Some(x),
        a.len() == 0 || unit_factor(a.last()) is Some,
    ensures
        match milliseconds_of(b) {
            Some(y) => milliseconds_of(a + b) == Some(
                if x + y > u64::MAX {
                    u64::MAX
                } else {
                    (x + y) as u64
                },
            ),
            None => milliseconds_of(a + b) is None,
        },
{
    let (sa, pa) = scan_duration(a)->0;
    if a.len() > 0 {
        assert(!is_digit(a.last()));
        assert(pa.len() == 0);
    }
    assert(pa =~= Seq::<char>::empty());
    assert(digits_value(pa) == 0);
    lemma_scan_concat(a, b, sa);
}

/// `n` milliseconds, or `u64::MAX` when that does not fit.
pub open spec fn saturated(n: nat) -> u64 {
    if n > u64::MAX {
        u64::MAX
    } else {
        n as u64
    }
}

proof fn lemma_scan_digits(n: Seq<char>)
    requires
        all_digits(n),
    ensures
        scan_duration(n) == Some((0nat, n)),
    decreases n.len(),
{
    if n.len() > 0 {
        assert(is_digit(n[n.len() - 1]));
        lemma_scan_digits(n.drop_last());
        assert(n.drop_last().push(n.last()) =~= n);
    }
}

proof fn lemma_number_then_unit(n: Seq<char>, u: char, f: nat)
    requires
        all_digits(n),
        n.len() > 0,
        !is_digit(u),
        unit_factor(u) == Some(f),
    ensures
        digits_value(n) <= u64::MAX ==> milliseconds_of(n.push(u)) == Some(
            saturated(digits_value(n) * f),
        ),
        digits_value(n) > u64::MAX ==> milliseconds_of(n.push(u)) is None,
{
    lemma_scan_digits(n);
    assert(n.push(u).drop_last() =~= n);
    assert(digits_value(Seq::<char>::empty()) == 0);
}

/// A number followed by a unit letter is that many days (86 400 000 ms), hours
/// (3 600 000 ms), minutes (60 000 ms) or seconds (1 000 ms), saturating at
/// `u64::MAX`, and the letter counts the same in upper and lower case; a number
/// too large for `u64` is refused whatever the unit.
pub proof fn unit_letters_in_either_case(n: Seq<char>)
    requires
        all_digits(n),
        n.len() > 0,
    ensures
        milliseconds_of(n.push('D')) == milliseconds_of(n.push('d')),
        milliseconds_of(n.push('H')) == milliseconds_of(n.push('h')),
        milliseconds_of(n.push('M')) == milliseconds_of(n.push('m')),
        milliseconds_of(n.push('S')) == milliseconds_of(n.push('s')),
        digits_value(n) <= u64::MAX ==> milliseconds_of(n.push('d')) == Some(
            saturated(digits_value(n) * 86_400_000),
        ),
        digits_value(n) <= u64::MAX ==> milliseconds_of(n.push('h')) == Some(
            saturated(digits_value(n) * 3_600_000),
        ),
        digits_value(n) <= u64::MAX ==> milliseconds_of(n.push('m')) == Some(
            saturated(digits_value(n) * 60_000),
        ),
        digits_value(n) <= u64::MAX ==> milliseconds_of(n.push('s')) == Some(
            saturated(digits_value(n) * 1_000),
        ),
        digits_value(n) > u64::MAX ==> milliseconds_of(n.push('h')) is None,
{
    lemma_number_then_unit(n, 'd', 86_400_000);
    lemma_number_then_unit(n, 'D', 86_400_000);
    lemma_number_then_unit(n, 'h', 3_600_000);
    lemma_number_then_unit(n, 'H', 3_600_000);
    lemma_number_then_unit(n, 'm', 60_000);
    lemma_number_then_unit(n, 'M', 60_000);
    lemma_number_then_unit(n, 's', 1_000);
    lemma_number_then_unit(n, 'S', 1_000);
}

/// `1h` and `1H` are both one hour.
pub proof fn one_hour_either_case()
    ensures
        milliseconds_of(seq!['1', 'h']) == Some(3_600_000u64),
        milliseconds_of(seq!['1', 'H']) == Some(3_600_000u64),
{
    let n = seq!['1'];
    assert(is_digit(n[0]));
    assert(digits_value(n) == 1) by {
        assert(n.drop_last() =~= Seq::<char>::empty());
        assert(digits_value(n.drop_last()) == 0);
        assert(n.last() == '1');
        assert(('1' as u32) == 49);
    }
    lemma_number_then_unit(n, 'h', 3_600_000);
    lemma_number_then_unit(n, 'H', 3_600_000);
    assert(n.push('h') =~= seq!['1', 'h']);
    assert(n.push('H') =~= seq!['1', 'H']);
}

} // verus!
