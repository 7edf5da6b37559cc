//! Character and string helpers shared by the parsers and formatters of this crate.
//!
//! Everything that turns numbers into text (hex dumps, CDTOC strings, GUIDs, tags) goes through
//! the spec functions here, so that all contracts talk about one definition of "lower-case hex"
//! and "decimal".
use vstd::prelude::*;

verus! {

/// Collect the characters of `s` into a vector.
pub fn chars_of(s: &str) -> (r: Vec<char>)
    ensures
        r@ == s@,
{
    let mut r: Vec<char> = Vec::new();
    for c in it: s.chars()
        invariant
            it.seq() == s@,
            r@ == s@.take(it.index() as int),
    {
        r.push(c);
    }
    r
}

/// Append one character to a `String` (`String::push`).
#[verifier::external_body]
pub(crate) fn push_char(s: &mut String, c: char)
    ensures
        final(s)@ == old(s)@.push(c),
{
    s.push(c);
}

/// Build a `String` from a vector of characters.
pub fn string_from_chars(cs: &Vec<char>) -> (r: String)
    ensures
        r@ == cs@,
{
    let mut r = String::new();
    let mut i: usize = 0;
    while i < cs.len()
        invariant
            i <= cs.len(),
            r@ == cs@.take(i as int),
        decreases cs.len() - i,
    {
        push_char(&mut r, cs[i]);
        i = i + 1;
        assert(r@ =~= cs@.take(i as int));
    }
    assert(cs@.take(cs@.len() as int) =~= cs@);
    r
}

/// Append the characters of `tail` to `s`.
pub fn push_chars(s: &mut String, tail: &Vec<char>)
    ensures
        final(s)@ == old(s)@ + tail@,
{
    let mut i: usize = 0;
    while i < tail.len()
        invariant
            i <= tail.len(),
            s@ == old(s)@ + tail@.take(i as int),
        decreases tail.len() - i,
    {
        push_char(s, tail[i]);
        i = i + 1;
        assert(s@ =~= old(s)@ + tail@.take(i as int));
    }
    assert(tail@.take(tail@.len() as int) =~= tail@);
}

/// Append a string slice to `s`.
pub fn push_str(s: &mut String, tail: &str)
    ensures
        final(s)@ == old(s)@ + tail@,
{
    let cs = chars_of(tail);
    push_chars(s, &cs);
}

/// `c` is an ASCII decimal digit.
pub open spec fn is_dec_digit(c: char) -> bool {
    '0' <= c <= '9'
}

/// `c` is an ASCII hexadecimal digit, in either case.
pub open spec fn is_hex_digit(c: char) -> bool {
    ||| '0' <= c <= '9'
    ||| 'a' <= c <= 'f'
    ||| 'A' <= c <= 'F'
}

/// `c` is an ASCII letter or digit.
pub open spec fn is_ascii_alnum(c: char) -> bool {
    ||| '0' <= c <= '9'
    ||| 'a' <= c <= 'z'
    ||| 'A' <= c <= 'Z'
}

/// The value of a hexadecimal digit.
pub open spec fn hex_digit_value(c: char) -> int {
    if '0' <= c <= '9' {
        c as int - '0' as int
    } else if 'a' <= c <= 'f' {
        c as int - 'a' as int + 10
    } else {
        c as int - 'A' as int + 10
    }
}

/// The lower-case hexadecimal digit for `n` (`0 <= n < 16`).
pub open spec fn lower_hex_char(n: int) -> char {
    if n < 10 {
        ('0' as int + n) as char
    } else {
        ('a' as int + n - 10) as char
    }
}

/// The decimal digit for `n` (`0 <= n < 10`).
pub open spec fn dec_char(n: int) -> char {
    ('0' as int + n) as char
}

/// The lower-case hexadecimal digits of `n`, without leading zeros ("0" for zero).
pub open spec fn hex_digits(n: nat) -> Seq<char>
    decreases n,
{
    if n < 16 {
        seq![lower_hex_char(n as int)]
    } else {
        hex_digits(n / 16).push(lower_hex_char((n % 16) as int))
    }
}

/// The decimal digits of `n`, without leading zeros ("0" for zero).
pub open spec fn dec_digits(n: nat) -> Seq<char>
    decreases n,
{
    if n < 10 {
        seq![dec_char(n as int)]
    } else {
        dec_digits(n / 10).push(dec_char((n % 10) as int))
    }
}

/// `count` copies of the character `c`.
pub open spec fn repeat_char(c: char, count: nat) -> Seq<char> {
    Seq::new(count, |i: int| c)
}

/// `digits`, left-padded with `'0'` to at least `width` characters (as `{:0width$}` does).
pub open spec fn zero_pad(digits: Seq<char>, width: nat) -> Seq<char> {
    if digits.len() < width {
        repeat_char('0', (width - digits.len()) as nat) + digits
    } else {
        digits
    }
}

/// `n` as lower-case hex, zero-padded to `width` (the text of `format!("{:0width$x}", n)`).
pub open spec fn fmt_hex(n: nat, width: nat) -> Seq<char> {
    zero_pad(hex_digits(n), width)
}

/// `n` in decimal, zero-padded to `width` (the text of `format!("{:0width$}", n)`).
pub open spec fn fmt_dec(n: nat, width: nat) -> Seq<char> {
    zero_pad(dec_digits(n), width)
}

/// The lower-case hex digit for a nibble.
pub fn nibble_char(n: u8) -> (c: char)
    requires
        n < 16,
    ensures
        c == lower_hex_char(n as int),
        is_hex_digit(c),
        hex_digit_value(c) == n,
{
    if n < 10 {
        let c = (48u8 + n) as char;
        c
    } else {
        let c = (87u8 + n) as char;
        c
    }
}

/// The decimal digit for a value below ten.
pub fn digit_char(n: u8) -> (c: char)
    requires
        n < 10,
    ensures
        c == dec_char(n as int),
        is_dec_digit(c),
{
    (48u8 + n) as char
}

/// Number of hex digits that `n` needs.
pub fn hex_len(n: u64) -> (r: usize)
    ensures
        r == hex_digits(n as nat).len(),
        1 <= r <= 16,
    decreases n,
{
    if n < 16 {
        1
    } else {
        let r = hex_len(n / 16);
        proof {
            lemma_hex_digits_len_bound(n as nat);
        }
        r + 1
    }
}

/// `base` raised to `k`.
pub open spec fn pow_nat(base: nat, k: nat) -> nat
    decreases k,
{
    if k == 0 {
        1
    } else {
        base * pow_nat(base, (k - 1) as nat)
    }
}

proof fn lemma_hex_digits_len_pow(n: nat, k: nat)
    requires
        k >= 1,
        n < pow_nat(16, k),
    ensures
        1 <= hex_digits(n).len() <= k,
    decreases n,
{
    if n >= 16 {
        assert(k >= 2) by {
            if k == 1 {
                reveal_with_fuel(pow_nat, 2);
            }
        }
        assert(n / 16 < pow_nat(16, (k - 1) as nat)) by (nonlinear_arith)
            requires
                n < pow_nat(16, k),
                pow_nat(16, k) == 16 * pow_nat(16, (k - 1) as nat),
        ;
        lemma_hex_digits_len_pow(n / 16, (k - 1) as nat);
    }
}

proof fn lemma_hex_digits_len_bound(n: nat)
    requires
        n <= u64::MAX,
    ensures
        1 <= hex_digits(n).len() <= 16,
        n < 0x1_0000_0000 ==> hex_digits(n).len() <= 8,
{
    reveal_with_fuel(pow_nat, 17);
    assert(pow_nat(16, 16) == 0x1_0000_0000_0000_0000);
    assert(pow_nat(16, 8) == 0x1_0000_0000);
    lemma_hex_digits_len_pow(n, 16);
    if n < 0x1_0000_0000 {
        lemma_hex_digits_len_pow(n, 8);
    }
}

/// Number of decimal digits that `n` needs.
pub fn dec_len(n: u64) -> (r: usize)
    ensures
        r == dec_digits(n as nat).len(),
        1 <= r <= 20,
    decreases n,
{
    if n < 10 {
        1
    } else {
        let r = dec_len(n / 10);
        proof {
            lemma_dec_digits_len_bound(n as nat);
        }
        r + 1
    }
}

proof fn lemma_dec_digits_len_pow(n: nat, k: nat)
    requires
        k >= 1,
        n < pow_nat(10, k),
    ensures
        1 <= dec_digits(n).len() <= k,
    decreases n,
{
    if n >= 10 {
        assert(k >= 2) by {
            if k == 1 {
                reveal_with_fuel(pow_nat, 2);
            }
        }
        assert(n / 10 < pow_nat(10, (k - 1) as nat)) by (nonlinear_arith)
            requires
                n < pow_nat(10, k),
                pow_nat(10, k) == 10 * pow_nat(10, (k - 1) as nat),
        ;
        lemma_dec_digits_len_pow(n / 10, (k - 1) as nat);
    }
}

proof fn lemma_dec_digits_len_bound(n: nat)
    requires
        n <= u64::MAX,
    ensures
        1 <= dec_digits(n).len() <= 20,
{
    reveal_with_fuel(pow_nat, 21);
    assert(pow_nat(10, 20) == 100_000_000_000_000_000_000);
    lemma_dec_digits_len_pow(n, 20);
}

/// Append the minimal lower-case hex digits of `n`.
pub fn push_hex_digits(s: &mut String, n: u64)
    ensures
        final(s)@ == old(s)@ + hex_digits(n as nat),
    decreases n,
{
    if n >= 16 {
        push_hex_digits(s, n / 16);
    }
    let c = nibble_char((n % 16) as u8);
    push_char(s, c);
    assert(s@ =~= old(s)@ + hex_digits(n as nat));
}

/// Append the minimal decimal digits of `n`.
pub fn push_dec_digits(s: &mut String, n: u64)
    ensures
        final(s)@ == old(s)@ + dec_digits(n as nat),
    decreases n,
{
    if n >= 10 {
        push_dec_digits(s, n / 10);
    }
    let c = digit_char((n % 10) as u8);
    push_char(s, c);
    assert(s@ =~= old(s)@ + dec_digits(n as nat));
}

/// Append `count` copies of `c`.
pub fn push_repeat(s: &mut String, c: char, count: usize)
    ensures
        final(s)@ == old(s)@ + repeat_char(c, count as nat),
{
    let mut i: usize = 0;
    while i < count
        invariant
            i <= count,
            s@ == old(s)@ + repeat_char(c, i as nat),
        decreases count - i,
    {
        push_char(s, c);
        i = i + 1;
        assert(s@ =~= old(s)@ + repeat_char(c, i as nat));
    }
}

/// Append `n` as zero-padded lower-case hex (`{:0width$x}`).
pub fn push_hex(s: &mut String, n: u64, width: usize)
    ensures
        final(s)@ == old(s)@ + fmt_hex(n as nat, width as nat),
{
    let len = hex_len(n);
    if len < width {
        push_repeat(s, '0', width - len);
    }
    push_hex_digits(s, n);
    assert(s@ =~= old(s)@ + fmt_hex(n as nat, width as nat));
}

/// Append `n` as zero-padded decimal (`{:0width$}`).
pub fn push_dec(s: &mut String, n: u64, width: usize)
    ensures
        final(s)@ == old(s)@ + fmt_dec(n as nat, width as nat),
{
    let len = dec_len(n);
    if len < width {
        push_repeat(s, '0', width - len);
    }
    push_dec_digits(s, n);
    assert(s@ =~= old(s)@ + fmt_dec(n as nat, width as nat));
}

/// `n` in decimal (the text of `n.to_string()`).
pub fn dec_string(n: u64) -> (r: String)
    ensures
        r@ == dec_digits(n as nat),
{
    let mut s = String::new();
    push_dec_digits(&mut s, n);
    assert(s@ =~= dec_digits(n as nat));
    s
}

/// The value of a string of decimal digits.
pub open spec fn dec_value(s: Seq<char>) -> nat
    decreases s.len(),
{
    if s.len() == 0 {
        0
    } else {
        (dec_value(s.drop_last()) * 10 + (s.last() as int - '0' as int)) as nat
    }
}

/// `s` is a non-empty run of decimal digits.
pub open spec fn all_dec_digits(s: Seq<char>) -> bool {
    s.len() > 0 && forall|i: int| 0 <= i < s.len() ==> is_dec_digit(#[trigger] s[i])
}

/// What `str::parse` gives for an unsigned integer type whose largest value is `max`: an
/// optional `+` followed by decimal digits, with a value that fits.
pub open spec fn parse_unsigned(s: Seq<char>, max: nat) -> Option<nat> {
    let digits = if s.len() > 0 && s[0] == '+' {
        s.drop_first()
    } else {
        s
    };
    if all_dec_digits(digits) && dec_value(digits) <= max {
        Some(dec_value(digits))
    } else {
        None
    }
}

/// Parse a `usize` the way `str::parse::<usize>` does.
pub fn parse_usize(s: &str) -> (r: Option<usize>)
    ensures
        r matches Some(v) ==> parse_unsigned(s@, usize::MAX as nat) == Some(v as nat),
        r is None ==> parse_unsigned(s@, usize::MAX as nat) is None,
{
    let cs = chars_of(s);
    let mut start: usize = 0;
    if cs.len() > 0 && cs[0] == '+' {
        start = 1;
    }
    let ghost digits = if cs@.len() > 0 && cs@[0] == '+' {
        cs@.drop_first()
    } else {
        cs@
    };
    assert(digits =~= cs@.subrange(start as int, cs@.len() as int));
    if start >= cs.len() {
        return None;
    }
    let mut value: usize = 0;
    let mut i: usize = start;
    while i < cs.len()
        invariant
            cs@ == s@,
            digits == (if s@.len() > 0 && s@[0] == '+' {
                s@.drop_first()
            } else {
                s@
            }),
            start <= i <= cs.len(),
            start < cs.len(),
            digits =~= cs@.subrange(start as int, cs@.len() as int),
            forall|k: int| start <= k < i ==> is_dec_digit(#[trigger] cs@[k]),
            value == dec_value(cs@.subrange(start as int, i as int)),
        decreases cs.len() - i,
    {
        let c = cs[i];
        if !('0' <= c && c <= '9') {
            assert(!is_dec_digit(digits[i - start]));
            assert(!all_dec_digits(digits));
            return None;
        }
        let d = (c as u32 - '0' as u32) as usize;
        assert(cs@.subrange(start as int, i + 1).drop_last() =~= cs@.subrange(start as int, i as int));
        if value > (usize::MAX - d) / 10 {
            proof {
                let p = cs@.subrange(start as int, i + 1);
                assert(p =~= digits.take(i + 1 - start));
                assert(dec_value(p) == value * 10 + d);
                assert(value * 10 + d > usize::MAX) by (nonlinear_arith)
                    requires
                        value > (usize::MAX - d) / 10,
                        d <= 9,
                ;
                assert forall|k: int| 0 <= k < i + 1 - start implies is_dec_digit(
                    #[trigger] digits[k],
                ) by {
                    assert(digits[k] == cs@[k + start]);
                }
                lemma_dec_value_prefix_monotone(digits, (i + 1 - start) as nat);
            }
            return None;
        }
        value = value * 10 + d;
        i = i + 1;
    }
    Some(value)
}

/// A longer prefix of a digit string never has a smaller value.
pub proof fn lemma_dec_value_prefix_monotone(s: Seq<char>, k: nat)
    requires
        k <= s.len(),
        forall|i: int| 0 <= i < k ==> is_dec_digit(#[trigger] s[i]),
    ensures
        all_dec_digits(s) ==> dec_value(s.take(k as int)) <= dec_value(s),
    decreases s.len(),
{
    if all_dec_digits(s) && k < s.len() {
        let t = s.drop_last();
        assert(t.take(k as int) =~= s.take(k as int));
        if t.len() > 0 {
            assert forall|i: int| 0 <= i < t.len() implies is_dec_digit(#[trigger] t[i]) by {
                assert(t[i] == s[i]);
            }
        }
        lemma_dec_value_prefix_monotone(t, k);
        if t.len() == 0 {
            assert(s.take(k as int) =~= Seq::<char>::empty());
        }
    } else if k == s.len() {
        assert(s.take(k as int) =~= s);
    }
}

/// Whether two strings are equal.
pub(crate) fn same_text(a: &str, b: &str) -> (r: bool)
    ensures
        r == (a@ == b@),
{
    let x = chars_of(a);
    let y = chars_of(b);
    if x.len() != y.len() {
        return false;
    }
    let mut i: usize = 0;
    while i < x.len()
        invariant
            x@ == a@,
            y@ == b@,
            x@.len() == y@.len(),
            i <= x@.len(),
            forall|j: int| 0 <= j < i ==> x@[j] == y@[j],
        decreases x.len() - i,
    {
        if x[i] != y[i] {
            return false;
        }
        i = i + 1;
    }
    assert(x@ =~= y@);
    true
}


/// The digits of `n` are decimal digits whose value is `n`.
pub proof fn lemma_dec_digits_value(n: nat)
    ensures
        all_dec_digits(dec_digits(n)),
        dec_value(dec_digits(n)) == n,
    decreases n,
{
    let s = dec_digits(n);
    if n >= 10 {
        lemma_dec_digits_value(n / 10);
        assert(s.drop_last() =~= dec_digits(n / 10));
        assert(s.last() == dec_char((n % 10) as int));
        assert(dec_char((n % 10) as int) as int == '0' as int + n % 10);
        assert(n == (n / 10) * 10 + n % 10);
        assert(dec_value(s) == (dec_value(s.drop_last()) * 10 + (s.last() as int - '0' as int)) as nat);
        assert(dec_value(s) == n);
        assert forall|i: int| 0 <= i < s.len() implies is_dec_digit(#[trigger] s[i]) by {
            if i < s.len() - 1 {
                assert(s[i] == dec_digits(n / 10)[i]);
            }
        }
    } else {
        assert(s.drop_last() =~= Seq::<char>::empty());
        assert(dec_char(n as int) as int == '0' as int + n);
        assert(dec_value(s.drop_last()) == 0);
        assert(dec_value(s) == n);
    }
}

/// A run of `'0'` has the value zero.
proof fn lemma_zeros_value(k: nat)
    ensures
        dec_value(repeat_char('0', k)) == 0,
    decreases k,
{
    if k > 0 {
        assert(repeat_char('0', k).drop_last() =~= repeat_char('0', (k - 1) as nat));
        lemma_zeros_value((k - 1) as nat);
    }
}

/// Leading `'0'` characters do not change the value of a digit string.
proof fn lemma_zero_prefix_value(k: nat, s: Seq<char>)
    ensures
        dec_value(repeat_char('0', k) + s) == dec_value(s),
    decreases s.len(),
{
    if s.len() == 0 {
        assert(repeat_char('0', k) + s =~= repeat_char('0', k));
        lemma_zeros_value(k);
    } else {
        assert((repeat_char('0', k) + s).drop_last() =~= repeat_char('0', k) + s.drop_last());
        lemma_zero_prefix_value(k, s.drop_last());
    }
}

/// `n` written in decimal and zero-padded to `width` is a run of at least `width` decimal digits
/// whose value is `n`; exactly `width` of them when `n` has no more digits than that.
pub proof fn lemma_fmt_dec_value(n: nat, width: nat)
    ensures
        all_dec_digits(fmt_dec(n, width)),
        dec_value(fmt_dec(n, width)) == n,
        fmt_dec(n, width).len() >= width,
        dec_digits(n).len() <= width ==> fmt_dec(n, width).len() == width,
{
    lemma_dec_digits_value(n);
    let d = dec_digits(n);
    if d.len() < width {
        let z = repeat_char('0', (width - d.len()) as nat);
        lemma_zero_prefix_value((width - d.len()) as nat, d);
        assert forall|i: int| 0 <= i < (z + d).len() implies is_dec_digit(#[trigger] (z + d)[i]) by {
            if i >= z.len() {
                assert((z + d)[i] == d[i - z.len()]);
            }
        }
    }
}

/// A number below 100 has at most two decimal digits.
pub proof fn lemma_dec_digits_two(n: nat)
    requires
        n < 100,
    ensures
        dec_digits(n).len() <= 2,
{
    if n >= 10 {
        assert(dec_digits(n / 10).len() == 1);
    }
}

/// `c` is a lower-case hexadecimal digit.
pub open spec fn is_lower_hex_digit(c: char) -> bool {
    '0' <= c <= '9' || 'a' <= c <= 'f'
}

/// A number below 256 written in lower-case hex, zero-padded to two digits, is two lower-case
/// hex digits whose value is the number.
pub proof fn lemma_fmt_hex_two_digits(n: nat)
    requires
        n < 256,
    ensures
        fmt_hex(n, 2).len() == 2,
        is_lower_hex_digit(fmt_hex(n, 2)[0]),
        is_lower_hex_digit(fmt_hex(n, 2)[1]),
        16 * hex_digit_value(fmt_hex(n, 2)[0]) + hex_digit_value(fmt_hex(n, 2)[1]) == n,
{
    let s = fmt_hex(n, 2);
    if n < 16 {
        assert(hex_digits(n) =~= seq![lower_hex_char(n as int)]);
        assert(s =~= seq!['0', lower_hex_char(n as int)]);
    } else {
        assert(hex_digits(n / 16) =~= seq![lower_hex_char((n / 16) as int)]);
        assert(s =~= seq![lower_hex_char((n / 16) as int), lower_hex_char((n % 16) as int)]);
    }
}

} // verus!
