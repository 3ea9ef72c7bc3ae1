//! Character-level helpers shared by the parsers and formatters of the library:
//! decimal digits, Unicode whitespace, trimming and prefixes, all over `Seq<char>`.
use vstd::prelude::*;

verus! {

broadcast use vstd::string::group_string_axioms;

// ---------------------------------------------------------------------------
// Specifications
// ---------------------------------------------------------------------------

/// ASCII decimal digit.
pub open spec fn is_digit(c: char) -> bool {
    48 <= (c as u32) <= 57
}

/// Numeric value of an ASCII decimal digit.
pub open spec fn digit_of(c: char) -> nat {
    ((c as u32) - 48) as nat
}

/// The digit character for `d < 10`.
pub open spec fn digit_char(d: nat) -> char {
    ((d + 48) as u32) as char
}

/// Every character of `s` is an ASCII decimal digit.
pub open spec fn all_digits(s: Seq<char>) -> bool {
    forall|i: int| 0 <= i < s.len() ==> #[trigger] is_digit(s[i])
}

/// The number that a string of decimal digits denotes (most significant first).
pub open spec fn digits_value(s: Seq<char>) -> nat
    decreases s.len(),
{
    if s.len() == 0 {
        0
    } else {
        digits_value(s.drop_last()) * 10 + digit_of(s.last())
    }
}

/// Shortest decimal representation of `n`, without sign or leading zeros ("0" for zero).
pub open spec fn decimal(n: nat) -> Seq<char>
    decreases n,
{
    if n < 10 {
        seq![digit_char(n)]
    } else {
        decimal(n / 10).push(digit_char(n % 10))
    }
}

/// Decimal representation of `n` left-padded with zeros to at least two characters.
pub open spec fn decimal_pad2(n: nat) -> Seq<char> {
    if n < 10 {
        seq!['0'].push(digit_char(n))
    } else {
        decimal(n)
    }
}

/// Characters with the Unicode `White_Space` property.
pub open spec fn is_whitespace(c: char) -> bool {
    let u = c as u32;
    ||| 0x9 <= u <= 0xD
    ||| u == 0x20
    ||| u == 0x85
    ||| u == 0xA0
    ||| u == 0x1680
    ||| 0x2000 <= u <= 0x200A
    ||| u == 0x2028
    ||| u == 0x2029
    ||| u == 0x202F
    ||| u == 0x205F
    ||| u == 0x3000
}

/// `s` without its leading whitespace.
pub open spec fn trim_start(s: Seq<char>) -> Seq<char>
    decreases s.len(),
{
    if s.len() > 0 && is_whitespace(s[0]) {
        trim_start(s.drop_first())
    } else {
        s
    }
}

/// `s` without its trailing whitespace.
pub open spec fn trim_end(s: Seq<char>) -> Seq<char>
    decreases s.len(),
{
    if s.len() > 0 && is_whitespace(s.last()) {
        trim_end(s.drop_last())
    } else {
        s
    }
}

/// `s` without leading and trailing whitespace.
pub open spec fn trim(s: Seq<char>) -> Seq<char> {
    trim_end(trim_start(s))
}

/// `p` is a prefix of `s`.
pub open spec fn has_prefix(s: Seq<char>, p: Seq<char>) -> bool {
    p.len() <= s.len() && s.subrange(0, p.len() as int) == p
}

/// `c` occurs in `s`.
pub open spec fn contains_char(s: Seq<char>, c: char) -> bool {
    exists|i: int| 0 <= i < s.len() && s[i] == c
}

// ---------------------------------------------------------------------------
// Lemmas
// ---------------------------------------------------------------------------

/// Appending a digit multiplies the value by ten and adds the digit.
pub proof fn lemma_digits_value_push(s: Seq<char>, c: char)
    ensures
        digits_value(s.push(c)) == digits_value(s) * 10 + digit_of(c),
{
    assert(s.push(c).drop_last() =~= s);
}

/// Digit characters round-trip through their value.
pub proof fn lemma_digit_char_of(d: nat)
    requires
        d < 10,
    ensures
        is_digit(digit_char(d)),
        digit_of(digit_char(d)) == d,
{
}

/// A decimal representation is all digits and denotes its number.
pub proof fn lemma_decimal_value(n: nat)
    ensures
        all_digits(decimal(n)),
        digits_value(decimal(n)) == n,
        decimal(n).len() >= 1,
    decreases n,
{
    if n < 10 {
        lemma_digit_char_of(n);
        assert(decimal(n).drop_last() =~= Seq::<char>::empty());
        assert(digits_value(Seq::<char>::empty()) == 0);
        assert(digits_value(decimal(n)) == digits_value(decimal(n).drop_last()) * 10 + digit_of(
            decimal(n).last(),
        ));
    } else {
        assert(n == (n / 10) * 10 + n % 10);
        lemma_decimal_value(n / 10);
        lemma_digit_char_of(n % 10);
        lemma_digits_value_push(decimal(n / 10), digit_char(n % 10));
        let d = decimal(n);
        assert forall|i: int| 0 <= i < d.len() implies #[trigger] is_digit(d[i]) by {
            if i < d.len() - 1 {
                assert(d[i] == decimal(n / 10)[i]);
            }
        }
    }
}

// ---------------------------------------------------------------------------
// Executable helpers
// ---------------------------------------------------------------------------

/// Appends one character to a `String` (`String::push`).
#[verifier::external_body]
pub fn push_char(s: &mut String, c: char)
    ensures
        final(s)@ == old(s)@.push(c),
{
    s.push(c)
}

/// Collects the characters of `s` into a vector.
pub fn chars_of(s: &str) -> (out: Vec<char>)
    ensures
        out@ == s@,
{
    let mut out: Vec<char> = Vec::new();
    for c in it: s.chars()
        invariant
            out@ == it.seq().take(it.index()),
            it.seq() == s@,
    {
        out.push(c);
    }
    out
}

/// Appends the characters of `v[from..to]` to `out`.
pub fn push_chars(out: &mut String, v: &Vec<char>, from: usize, to: usize)
    requires
        from <= to <= v@.len(),
    ensures
        final(out)@ == old(out)@ + v@.subrange(from as int, to as int),
{
    let mut i = from;
    while i < to
        invariant
            from <= i <= to <= v@.len(),
            out@ == old(out)@ + v@.subrange(from as int, i as int),
        decreases to - i,
    {
        push_char(out, v[i]);
        assert(v@.subrange(from as int, i + 1) =~= v@.subrange(from as int, i as int).push(
            v@[i as int],
        ));
        i = i + 1;
    }
}

/// A `String` holding the characters `v[from..to]`.
pub fn string_of_range(v: &Vec<char>, from: usize, to: usize) -> (s: String)
    requires
        from <= to <= v@.len(),
    ensures
        s@ == v@.subrange(from as int, to as int),
{
    let mut s = String::new();
    push_chars(&mut s, v, from, to);
    s
}

/// Whether `c` is an ASCII decimal digit.
pub fn char_is_digit(c: char) -> (b: bool)
    ensures
        b == is_digit(c),
{
    let u = c as u32;
    48 <= u && u <= 57
}

/// Whether `c` has the Unicode `White_Space` property.
pub fn char_is_whitespace(c: char) -> (b: bool)
    ensures
        b == is_whitespace(c),
{
    let u = c as u32;
    (0x9 <= u && u <= 0xD) || u == 0x20 || u == 0x85 || u == 0xA0 || u == 0x1680 || (0x2000
        <= u && u <= 0x200A) || u == 0x2028 || u == 0x2029 || u == 0x202F || u == 0x205F || u
        == 0x3000
}

/// The digit character for `d < 10`.
pub fn digit_to_char(d: u64) -> (c: char)
    requires
        d < 10,
    ensures
        c == digit_char(d as nat),
{
    let b: u8 = 48u8 + (d as u8);
    b as char
}

/// Appends the decimal representation of `n` to `out`.
pub fn push_decimal(out: &mut String, n: u64)
    ensures
        final(out)@ == old(out)@ + decimal(n as nat),
    decreases n,
{
    if n >= 10 {
        push_decimal(out, n / 10);
    }
    let c = digit_to_char(n % 10);
    push_char(out, c);
    assert(decimal(n as nat) == if n < 10 {
        seq![digit_char(n as nat)]
    } else {
        decimal((n / 10) as nat).push(digit_char((n % 10) as nat))
    });
}

/// Appends `n` in decimal, zero-padded to at least two digits.
pub fn push_decimal_pad2(out: &mut String, n: u64)
    ensures
        final(out)@ == old(out)@ + decimal_pad2(n as nat),
{
    if n < 10 {
        push_char(out, '0');
        let c = digit_to_char(n);
        push_char(out, c);
    } else {
        push_decimal(out, n);
    }
}

/// Whether `v[from..to]` starts with the characters of `p`.
pub fn range_has_prefix(v: &Vec<char>, from: usize, to: usize, p: &Vec<char>) -> (b: bool)
    requires
        from <= to <= v@.len(),
    ensures
        b == has_prefix(v@.subrange(from as int, to as int), p@),
{
    if p.len() > to - from {
        return false;
    }
    let mut i: usize = 0;
    while i < p.len()
        invariant
            from <= to <= v@.len(),
            p@.len() <= to - from,
            i <= p@.len(),
            forall|k: int| 0 <= k < i ==> v@[from + k] == p@[k],
        decreases p.len() - i,
    {
        if v[from + i] != p[i] {
            assert(v@.subrange(from as int, to as int).subrange(0, p@.len() as int)[i as int]
                != p@[i as int]);
            return false;
        }
        i = i + 1;
    }
    assert(v@.subrange(from as int, to as int).subrange(0, p@.len() as int) =~= p@);
    true
}

/// Whether `v` starts with `p`.
pub fn chars_have_prefix(v: &Vec<char>, p: &Vec<char>) -> (b: bool)
    ensures
        b == has_prefix(v@, p@),
{
    assert(v@.subrange(0, v@.len() as int) =~= v@);
    range_has_prefix(v, 0, v.len(), p)
}

/// Whether `c` occurs in `v`.
pub fn chars_contain(v: &Vec<char>, c: char) -> (b: bool)
    ensures
        b == contains_char(v@, c),
{
    let mut i: usize = 0;
    while i < v.len()
        invariant
            i <= v@.len(),
            forall|k: int| 0 <= k < i ==> v@[k] != c,
        decreases v.len() - i,
    {
        if v[i] == c {
            return true;
        }
        i = i + 1;
    }
    false
}

/// Bounds `(start, end)` of `v[from..to]` with its leading and trailing whitespace removed.
pub fn trim_bounds(v: &Vec<char>, from: usize, to: usize) -> (r: (usize, usize))
    requires
        from <= to <= v@.len(),
    ensures
        from <= r.0 <= r.1 <= to,
        v@.subrange(r.0 as int, r.1 as int) == trim(v@.subrange(from as int, to as int)),
{
    let ghost s = v@.subrange(from as int, to as int);
    let mut i = from;
    while i < to && char_is_whitespace(v[i])
        invariant
            from <= i <= to <= v@.len(),
            s == v@.subrange(from as int, to as int),
            trim_start(s) == trim_start(v@.subrange(i as int, to as int)),
        decreases to - i,
    {
        let ghost t = v@.subrange(i as int, to as int);
        assert(t.drop_first() =~= v@.subrange(i + 1, to as int));
        i = i + 1;
    }
    let ghost ts = v@.subrange(i as int, to as int);
    assert(trim_start(ts) == ts);
    let mut j = to;
    while j > i && char_is_whitespace(v[j - 1])
        invariant
            from <= i <= j <= to <= v@.len(),
            ts == v@.subrange(i as int, to as int),
            trim_end(ts) == trim_end(v@.subrange(i as int, j as int)),
        decreases j - i,
    {
        let ghost t = v@.subrange(i as int, j as int);
        assert(t.drop_last() =~= v@.subrange(i as int, j - 1));
        j = j - 1;
    }
    (i, j)
}

} // verus!

verus! {

/// The digits of an unsigned integer literal: `s` without one leading `+`.
pub open spec fn unsigned_digits(s: Seq<char>) -> Seq<char> {
    if s.len() > 0 && s[0] == '+' {
        s.drop_first()
    } else {
        s
    }
}

/// What `str::parse` gives for an unsigned integer type whose largest value is
/// `max`: an optional `+`, then at least one ASCII digit and nothing else, with a
/// value that fits.
pub open spec fn parse_unsigned(s: Seq<char>, max: nat) -> Option<nat> {
    let d = unsigned_digits(s);
    if d.len() > 0 && all_digits(d) && digits_value(d) <= max {
        Some(digits_value(d))
    } else {
        None
    }
}

/// A prefix longer by one character of a digit string is all digits too.
proof fn lemma_all_digits_take(s: Seq<char>, i: int)
    requires
        0 <= i < s.len(),
        all_digits(s.take(i)),
        is_digit(s[i]),
    ensures
        all_digits(s.take(i + 1)),
{
    assert forall|k: int| 0 <= k < i + 1 implies #[trigger] is_digit(s.take(i + 1)[k]) by {
        if k < i {
            assert(s.take(i + 1)[k] == s.take(i)[k]);
        }
    }
}

/// The value of a digit string is at least the value of any prefix.
proof fn lemma_digits_value_grows(s: Seq<char>, i: int)
    requires
        0 <= i <= s.len(),
    ensures
        digits_value(s.take(i)) <= digits_value(s),
    decreases s.len() - i,
{
    if i < s.len() {
        lemma_digits_value_grows(s, i + 1);
        assert(s.take(i + 1).drop_last() =~= s.take(i));
    } else {
        assert(s.take(i) =~= s);
    }
}

/// Parses `v[from..to]` as an unsigned integer no larger than `max`, as `str::parse` does.
pub fn parse_unsigned_range(v: &Vec<char>, from: usize, to: usize, max: u64) -> (r: Option<u64>)
    requires
        from <= to <= v@.len(),
    ensures
        match parse_unsigned(v@.subrange(from as int, to as int), max as nat) {
            Some(n) => r == Some(n as u64),
            None => r is None,
        },
{
    let ghost s = v@.subrange(from as int, to as int);
    let mut start = from;
    if from < to && v[from] == '+' {
        start = from + 1;
    }
    let ghost d = v@.subrange(start as int, to as int);
    assert(d =~= unsigned_digits(s));
    if start == to {
        return None;
    }
    let mut val: u64 = 0;
    let mut i = start;
    assert(d.take(0) =~= Seq::<char>::empty());
    while i < to
        invariant
            from <= start < to <= v@.len(),
            d == v@.subrange(start as int, to as int),
            d == unsigned_digits(v@.subrange(from as int, to as int)),
            start <= i <= to,
            all_digits(d.take(i - start)),
            digits_value(d.take(i - start)) <= max,
            val == digits_value(d.take(i - start)),
        decreases to - i,
    {
        let c = v[i];
        let ghost k: int = i - start;
        assert(d[k] == c);
        if !char_is_digit(c) {
            assert(!all_digits(d));
            return None;
        }
        assert(d.take(k + 1) =~= d.take(k).push(c));
        proof {
            lemma_digits_value_push(d.take(k), c);
            lemma_all_digits_take(d, k);
        }
        let dv = (c as u32 - 48) as u64;
        assert(dv == digit_of(c));
        let next = match val.checked_mul(10) {
            Some(t) => match t.checked_add(dv) {
                Some(n) => n,
                None => {
                    proof {
                        lemma_digits_value_grows(d, k + 1);
                    }
                    return None;
                },
            },
            None => {
                proof {
                    lemma_digits_value_grows(d, k + 1);
                }
                return None;
            },
        };
        if next > max {
            proof {
                lemma_digits_value_grows(d, k + 1);
            }
            return None;
        }
        val = next;
        i = i + 1;
    }
    assert(d.take(to - start) =~= d);
    Some(val)
}

} // verus!

verus! {

/// The set of a prefix one element longer gains that element.
pub proof fn lemma_take_to_set_step<T>(s: Seq<T>, k: int)
    requires
        0 <= k < s.len(),
    ensures
        s.take(k + 1).to_set() == s.take(k).to_set().insert(s[k]),
{
    assert forall|y: T| #[trigger] s.take(k + 1).to_set().contains(y) <==> s.take(k).to_set().insert(
        s[k],
    ).contains(y) by {
        if s.take(k + 1).to_set().contains(y) && y != s[k] {
            let j = choose|j: int| 0 <= j < k + 1 && #[trigger] s.take(k + 1)[j] == y;
            assert(s.take(k)[j] == y);
        }
        if s.take(k).to_set().contains(y) {
            let j = choose|j: int| 0 <= j < k && #[trigger] s.take(k)[j] == y;
            assert(s.take(k + 1)[j] == y);
        }
        if y == s[k] {
            assert(s.take(k + 1)[k] == y);
        }
    }
    assert(s.take(k + 1).to_set() =~= s.take(k).to_set().insert(s[k]));
}

} // verus!

verus! {

/// Whether two strings hold the same characters.
pub fn str_eq(a: &str, b: &str) -> (r: bool)
    ensures
        r == (a@ == b@),
{
    let x = chars_of(a);
    let y = chars_of(b);
    if x.len() != y.len() {
        return false;
    }
    let mut i: usize = 0;
    while i < x.len()
        invariant
            x@ == a@,
            y@ == b@,
            x@.len() == y@.len(),
            i <= x@.len(),
            forall|k: int| 0 <= k < i ==> x@[k] == y@[k],
        decreases x.len() - i,
    {
        if x[i] != y[i] {
            return false;
        }
        i = i + 1;
    }
    assert(x@ =~= y@);
    true
}

} // verus!

verus! {

/// Whether `v[from..to]` holds exactly the characters of `lit`.
pub fn range_eq(v: &Vec<char>, from: usize, to: usize, lit: &Vec<char>) -> (r: bool)
    requires
        from <= to <= v@.len(),
    ensures
        r == (v@.subrange(from as int, to as int) == lit@),
{
    if to - from != lit.len() {
        return false;
    }
    let b = range_has_prefix(v, from, to, lit);
    assert(v@.subrange(from as int, to as int).subrange(0, lit@.len() as int) =~= v@.subrange(
        from as int,
        to as int,
    ));
    b
}

} // verus!

verus! {

/// `10^k`.
pub open spec fn pow10(k: nat) -> nat
    decreases k,
{
    if k == 0 {
        1
    } else {
        10 * pow10((k - 1) as nat)
    }
}

/// A number below `10^k` takes at most `k` decimal digits (and at least one).
pub proof fn lemma_decimal_len(n: nat, k: nat)
    requires
        k >= 1,
        n < pow10(k),
    ensures
        decimal(n).len() <= k,
    decreases k,
{
    if n >= 10 {
        assert(k >= 2) by {
            if k == 1 {
                assert(pow10(1) == 10 * pow10(0));
            }
        }
        let p = pow10((k - 1) as nat);
        assert(pow10(k) == 10 * p);
        assert(n / 10 < p) by (nonlinear_arith)
            requires
                n < 10 * p,
        ;
        lemma_decimal_len(n / 10, (k - 1) as nat);
    }
}

/// Every `u64` takes at most twenty decimal digits.
pub proof fn lemma_decimal_len_u64(n: u64)
    ensures
        decimal(n as nat).len() <= 20,
{
    reveal_with_fuel(pow10, 21);
    assert(pow10(20) == 100_000_000_000_000_000_000);
    lemma_decimal_len(n as nat, 20);
}

} // verus!

verus! {

/// Lexicographic order of strings by code point (the order of their UTF-8 bytes,
/// which is how `String`s compare).
pub open spec fn text_le(a: Seq<char>, b: Seq<char>) -> bool
    decreases a.len(),
{
    if a.len() == 0 {
        true
    } else if b.len() == 0 {
        false
    } else if a[0] != b[0] {
        a[0] < b[0]
    } else {
        text_le(a.drop_first(), b.drop_first())
    }
}

/// `text_le` as a relation.
pub open spec fn text_order() -> spec_fn(Seq<char>, Seq<char>) -> bool {
    |a: Seq<char>, b: Seq<char>| text_le(a, b)
}

proof fn lemma_text_le_refl(a: Seq<char>)
    ensures
        text_le(a, a),
    decreases a.len(),
{
    if a.len() > 0 {
        lemma_text_le_refl(a.drop_first());
    }
}

proof fn lemma_text_le_total(a: Seq<char>, b: Seq<char>)
    ensures
        text_le(a, b) || text_le(b, a),
    decreases a.len(),
{
    if a.len() > 0 && b.len() > 0 {
        if a[0] == b[0] {
            lemma_text_le_total(a.drop_first(), b.drop_first());
        }
    }
}

proof fn lemma_text_le_antisym(a: Seq<char>, b: Seq<char>)
    requires
        text_le(a, b),
        text_le(b, a),
    ensures
        a == b,
    decreases a.len(),
{
    if a.len() > 0 {
        lemma_text_le_antisym(a.drop_first(), b.drop_first());
        assert(a =~= seq![a[0]] + a.drop_first());
        assert(b =~= seq![b[0]] + b.drop_first());
    } else {
        assert(a =~= b);
    }
}

proof fn lemma_text_le_trans(a: Seq<char>, b: Seq<char>, c: Seq<char>)
    requires
        text_le(a, b),
        text_le(b, c),
    ensures
        text_le(a, c),
    decreases a.len(),
{
    if a.len() > 0 && a[0] == b[0] && b[0] == c[0] {
        lemma_text_le_trans(a.drop_first(), b.drop_first(), c.drop_first());
    }
}

/// `text_le` is a total order.
pub proof fn lemma_text_order_total()
    ensures
        vstd::relations::total_ordering(text_order()),
{
    assert forall|a: Seq<char>| #[trigger] text_order()(a, a) by {
        lemma_text_le_refl(a);
    }
    assert forall|a: Seq<char>, b: Seq<char>|
        #[trigger] text_order()(a, b) && #[trigger] text_order()(b, a) implies a == b by {
        lemma_text_le_antisym(a, b);
    }
    assert forall|a: Seq<char>, b: Seq<char>, c: Seq<char>|
        #[trigger] text_order()(a, b) && #[trigger] text_order()(b, c) implies text_order()(
        a,
        c,
    ) by {
        lemma_text_le_trans(a, b, c);
    }
    assert forall|a: Seq<char>, b: Seq<char>|
        #[trigger] text_order()(a, b) || #[trigger] text_order()(b, a) by {
        lemma_text_le_total(a, b);
    }
}

/// Whether `a` comes before or equals `b` in the order of strings.
pub fn text_le_exec(a: &Vec<char>, b: &Vec<char>) -> (r: bool)
    ensures
        r == text_le(a@, b@),
{
    let mut i: usize = 0;
    assert(a@.skip(0) =~= a@);
    assert(b@.skip(0) =~= b@);
    while i < a.len() && i < b.len()
        invariant
            i <= a@.len(),
            i <= b@.len(),
            text_le(a@, b@) == text_le(a@.skip(i as int), b@.skip(i as int)),
        decreases a.len() - i,
    {
        let x = a[i];
        let y = b[i];
        assert(a@.skip(i as int)[0] == x);
        assert(b@.skip(i as int)[0] == y);
        if x != y {
            return x < y;
        }
        assert(a@.skip(i as int).drop_first() =~= a@.skip(i + 1));
        assert(b@.skip(i as int).drop_first() =~= b@.skip(i + 1));
        i = i + 1;
    }
    i == a.len()
}

} // verus!

verus! {

/// Appends the characters of `t` to `out`.
pub fn push_text(out: &mut String, t: &str)
    ensures
        final(out)@ == old(out)@ + t@,
{
    let v = chars_of(t);
    push_chars(out, &v, 0, v.len());
    assert(v@.subrange(0, v@.len() as int) =~= t@);
}

} // verus!

verus! {

/// `needle` occurs somewhere in `s`.
pub open spec fn contains_text(s: Seq<char>, needle: Seq<char>) -> bool {
    exists|i: int|
        0 <= i && i + needle.len() <= s.len() && #[trigger] s.subrange(i, i + needle.len()) == needle
}

/// Whether `needle` occurs in `v`.
pub fn chars_contain_text(v: &Vec<char>, needle: &Vec<char>) -> (b: bool)
    ensures
        b == contains_text(v@, needle@),
{
    if needle.len() > v.len() {
        return false;
    }
    let last = v.len() - needle.len();
    let mut i: usize = 0;
    loop
        invariant
            last == v@.len() - needle@.len(),
            i <= last,
            forall|k: int| 0 <= k < i ==> #[trigger] v@.subrange(k, k + needle@.len()) != needle@,
        decreases last - i,
    {
        assert(v@.subrange(i as int, v@.len() as int).subrange(0, needle@.len() as int)
            =~= v@.subrange(i as int, i + needle@.len()));
        if range_has_prefix(v, i, v.len(), needle) {
            return true;
        }
        if i == last {
            return false;
        }
        i = i + 1;
    }
}

} // verus!

verus! {

proof fn lemma_trim_start_shape(s: Seq<char>)
    ensures
        trim_start(s).len() <= s.len(),
        forall|k: int|
            0 <= k < trim_start(s).len() ==> #[trigger] trim_start(s)[k] == s[k + (s.len()
                - trim_start(s).len())],
        trim_start(s).len() > 0 ==> !is_whitespace(trim_start(s)[0]),
    decreases s.len(),
{
    if s.len() > 0 && is_whitespace(s[0]) {
        lemma_trim_start_shape(s.drop_first());
    }
}

proof fn lemma_trim_end_shape(s: Seq<char>)
    ensures
        trim_end(s).len() <= s.len(),
        forall|k: int| 0 <= k < trim_end(s).len() ==> #[trigger] trim_end(s)[k] == s[k],
        trim_end(s).len() > 0 ==> !is_whitespace(trim_end(s).last()),
    decreases s.len(),
{
    if s.len() > 0 && is_whitespace(s.last()) {
        lemma_trim_end_shape(s.drop_last());
    }
}

/// Trimming keeps only characters of `s`, leaves no whitespace at either end, and
/// trimming again changes nothing.
pub proof fn lemma_trim_shape(s: Seq<char>)
    ensures
        forall|k: int| 0 <= k < trim(s).len() ==> s.contains(#[trigger] trim(s)[k]),
        trim(s).len() > 0 ==> !is_whitespace(trim(s)[0]) && !is_whitespace(trim(s).last()),
        trim(trim(s)) == trim(s),
{
    let t = trim_start(s);
    let h = trim(s);
    lemma_trim_start_shape(s);
    lemma_trim_end_shape(t);
    assert forall|k: int| 0 <= k < h.len() implies s.contains(#[trigger] h[k]) by {
        assert(h[k] == t[k]);
        assert(t[k] == s[k + (s.len() - t.len())]);
    }
    if h.len() > 0 {
        assert(h[0] == t[0]);
    }
    assert(trim_start(h) == h);
    assert(trim_end(h) == h);
}

} // verus!
