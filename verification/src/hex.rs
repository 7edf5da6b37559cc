//! Hex parsing utilities for CD TOC data.
//!
//! A hex dump is written as `00 01 02 ...`; the parser ignores everything that is not an ASCII
//! letter or digit, so that spaces and line breaks may separate the pairs.
use std::num::{IntErrorKind, ParseIntError};
use vstd::prelude::*;
use vstd::std_specs::convert::FromSpecImpl;

use crate::text::{
    chars_of, hex_digit_value, is_ascii_alnum, is_hex_digit, lower_hex_char, nibble_char,
    push_char,
};

verus! {

#[verifier::external_type_specification]
#[verifier::external_body]
pub struct ExParseIntError(ParseIntError);

/// `ParseIntError::clone`: a duplicate of the error; nothing is stated of it, as the type is
/// opaque here.
pub assume_specification[ <ParseIntError as Clone>::clone ](error: &ParseIntError) -> ParseIntError;

/// The error returned by [`hex_to_bytes`].
#[derive(Debug, Clone, PartialEq, Eq)]
pub struct ParseHexError {
    kind: HexErrorKind,
}

/// The detailed cause of a [`ParseHexError`].
#[derive(Debug, Clone, PartialEq, Eq)]
#[non_exhaustive]
pub enum HexErrorKind {
    /// A [`ParseIntError`] occured while parsing a pair of digits.
    InvalidValue(ParseIntError),
    /// The input does not contain a series of digit pairs.
    NotPairs,
}

impl ParseHexError {
    /// The cause of the error, as a spec value.
    pub closed spec fn spec_kind(self) -> HexErrorKind {
        self.kind
    }

    /// Outputs the detailed cause of parsing failing.
    pub fn kind(&self) -> (r: &HexErrorKind)
        ensures
            *r == self.spec_kind(),
    {
        &self.kind
    }

    /// The message that `Display` shows for this error: that of its kind.
    pub fn message(&self) -> (r: String)
        ensures
            r@ == kind_message(self.spec_kind()),
    {
        self.kind.message()
    }

    /// The error of the given kind, as a spec value.
    pub closed spec fn of_kind(kind: HexErrorKind) -> ParseHexError {
        ParseHexError { kind }
    }
}

/// The kind of an error built by [`ParseHexError::of_kind`] is that kind.
pub broadcast proof fn lemma_of_kind(kind: HexErrorKind)
    ensures
        #[trigger] ParseHexError::of_kind(kind).spec_kind() == kind,
{
}

impl HexErrorKind {
    /// Why the integer parse failed, for [`HexErrorKind::InvalidValue`]; `None` for
    /// [`HexErrorKind::NotPairs`].
    pub fn int_error_cause(&self) -> (r: Option<IntErrorCause>)
        ensures
            r == match self {
                HexErrorKind::InvalidValue(e) => Some(int_error_cause(*e)),
                HexErrorKind::NotPairs => None,
            },
    {
        match self {
            HexErrorKind::InvalidValue(e) => Some(parse_int_error_kind(e)),
            HexErrorKind::NotPairs => None,
        }
    }

    /// The message that `Display` shows for this cause.
    pub fn message(&self) -> (r: String)
        ensures
            r@ == kind_message(*self),
    {
        match self {
            HexErrorKind::InvalidValue(error) => parse_int_error_message(error),
            HexErrorKind::NotPairs => {
                let mut s = String::new();
                crate::text::push_str(&mut s, "does not consist of exact pairs of hex digits");
                proof {
                    reveal_strlit("does not consist of exact pairs of hex digits");
                }
                s
            },
        }
    }
}

impl From<ParseIntError> for ParseHexError {
    fn from(error: ParseIntError) -> (r: ParseHexError) {
        ParseHexError { kind: HexErrorKind::InvalidValue(error) }
    }
}

impl FromSpecImpl<ParseIntError> for ParseHexError {
    open spec fn obeys_from_spec() -> bool {
        true
    }

    open spec fn from_spec(error: ParseIntError) -> ParseHexError {
        ParseHexError::of_kind(HexErrorKind::InvalidValue(error))
    }
}

/// The message shown for a cause of failure: the text of the integer error, or that of
/// [`not_pairs_message`].
pub open spec fn kind_message(kind: HexErrorKind) -> Seq<char> {
    match kind {
        HexErrorKind::InvalidValue(e) => parse_int_error_text(e),
        HexErrorKind::NotPairs => not_pairs_message(),
    }
}

/// The message shown for [`HexErrorKind::NotPairs`].
pub open spec fn not_pairs_message() -> Seq<char> {
    "does not consist of exact pairs of hex digits"@
}

/// The `Display` text of a `ParseIntError`, e.g. `invalid digit found in string`.
pub uninterp spec fn parse_int_error_text(error: ParseIntError) -> Seq<char>;

/// `ParseIntError::to_string`: the `Display` text of the error.
#[verifier::external_body]
fn parse_int_error_message(error: &ParseIntError) -> (r: String)
    ensures
        r@ == parse_int_error_text(*error),
{
    error.to_string()
}

/// Why parsing an integer failed: the variants of `std::num::IntErrorKind`, and `Other` for a
/// variant that a later std may add.
#[derive(Debug, Clone, Copy, PartialEq, Eq, Structural)]
pub enum IntErrorCause {
    /// The text is empty.
    Empty,
    /// The text holds a character that is not a digit of the radix.
    InvalidDigit,
    /// The value is too large for the type.
    PosOverflow,
    /// The value is too small for the type.
    NegOverflow,
    /// The value is zero where the type cannot be.
    Zero,
    /// A cause that std adds later.
    Other,
}

/// The cause that `ParseIntError::kind` reports for an error.
pub uninterp spec fn int_error_cause(error: ParseIntError) -> IntErrorCause;

/// `ParseIntError::kind`: why the parse failed.
#[verifier::external_body]
fn parse_int_error_kind(error: &ParseIntError) -> (r: IntErrorCause)
    ensures
        r == int_error_cause(*error),
{
    match error.kind() {
        IntErrorKind::Empty => IntErrorCause::Empty,
        IntErrorKind::InvalidDigit => IntErrorCause::InvalidDigit,
        IntErrorKind::PosOverflow => IntErrorCause::PosOverflow,
        IntErrorKind::NegOverflow => IntErrorCause::NegOverflow,
        IntErrorKind::Zero => IntErrorCause::Zero,
        _ => IntErrorCause::Other,
    }
}

/// Parse two ASCII letters or digits as one hex byte (`u8::from_str_radix(.., 16)`).
///
/// Only letters and digits reach this function, so the sign that `from_str_radix` would accept
/// never occurs: the result is `Ok` exactly when both characters are hex digits, and is then the
/// value of the pair; otherwise a character is no digit of the radix, and the error says so
/// (two hex digits cannot overflow a `u8`).
#[verifier::external_body]
fn parse_hex_pair(hi: char, lo: char) -> (r: Result<u8, ParseIntError>)
    requires
        is_ascii_alnum(hi),
        is_ascii_alnum(lo),
    ensures
        r is Ok <==> (is_hex_digit(hi) && is_hex_digit(lo)),
        r matches Ok(v) ==> v == 16 * hex_digit_value(hi) + hex_digit_value(lo),
        r matches Err(e) ==> int_error_cause(e) == IntErrorCause::InvalidDigit,
{
    let mut pair = String::with_capacity(2);
    pair.push(hi);
    pair.push(lo);
    u8::from_str_radix(&pair, 16)
}

/// The ASCII letters and digits of `s`, in order.
pub open spec fn alnum_only(s: Seq<char>) -> Seq<char>
    decreases s.len(),
{
    if s.len() == 0 {
        s
    } else if is_ascii_alnum(s.last()) {
        alnum_only(s.drop_last()).push(s.last())
    } else {
        alnum_only(s.drop_last())
    }
}

/// Every character of `s` is a hex digit.
pub open spec fn all_hex_digits(s: Seq<char>) -> bool {
    forall|i: int| 0 <= i < s.len() ==> is_hex_digit(#[trigger] s[i])
}

/// The bytes that consecutive pairs of hex digits stand for.
pub open spec fn decode_hex_pairs(s: Seq<char>) -> Seq<u8> {
    Seq::new(
        s.len() / 2,
        |k: int| (16 * hex_digit_value(s[2 * k]) + hex_digit_value(s[2 * k + 1])) as u8,
    )
}

/// What a hex dump stands for: `None` when its letters and digits do not form pairs of hex
/// digits.
pub open spec fn parsed_hex(s: Seq<char>) -> Option<Seq<u8>> {
    let digits = alnum_only(s);
    if digits.len() % 2 == 0 && all_hex_digits(digits) {
        Some(decode_hex_pairs(digits))
    } else {
        None
    }
}

/// Convert hex in form `00 01 02` to bytes
pub fn hex_to_bytes(hex: &str) -> (r: Result<Vec<u8>, ParseHexError>)
    ensures
        match r {
            Ok(bytes) => parsed_hex(hex@) == Some(bytes@),
            Err(e) => {
                &&& parsed_hex(hex@) is None
                &&& (e.spec_kind() is NotPairs <==> alnum_only(hex@).len() % 2 == 1)
                &&& e.spec_kind() matches HexErrorKind::InvalidValue(p) ==> int_error_cause(p)
                    == IntErrorCause::InvalidDigit
            },
        },
{
    let cs = chars_of(hex);
    let mut digits: Vec<char> = Vec::new();
    let mut i: usize = 0;
    while i < cs.len()
        invariant
            i <= cs.len(),
            digits@ == alnum_only(cs@.take(i as int)),
            forall|j: int| 0 <= j < digits@.len() ==> is_ascii_alnum(#[trigger] digits@[j]),
        decreases cs.len() - i,
    {
        let c = cs[i];
        assert(cs@.take(i + 1).drop_last() =~= cs@.take(i as int));
        if ('0' <= c && c <= '9') || ('a' <= c && c <= 'z') || ('A' <= c && c <= 'Z') {
            digits.push(c);
        }
        i = i + 1;
    }
    assert(cs@.take(cs@.len() as int) =~= hex@);
    if digits.len() % 2 == 1 {
        return Err(ParseHexError { kind: HexErrorKind::NotPairs });
    }
    let pairs = digits.len() / 2;
    let mut out: Vec<u8> = Vec::new();
    let mut k: usize = 0;
    while k < pairs
        invariant
            digits@ == alnum_only(hex@),
            digits@.len() == 2 * pairs,
            digits.len() == 2 * pairs,
            forall|j: int| 0 <= j < digits@.len() ==> is_ascii_alnum(#[trigger] digits@[j]),
            k <= pairs,
            forall|j: int| 0 <= j < 2 * k ==> is_hex_digit(#[trigger] digits@[j]),
            out@ == decode_hex_pairs(digits@).take(k as int),
        decreases pairs - k,
    {
        let hi = digits[2 * k];
        let lo = digits[2 * k + 1];
        match parse_hex_pair(hi, lo) {
            Ok(v) => {
                out.push(v);
                assert(out@ =~= decode_hex_pairs(digits@).take(k + 1));
            },
            Err(e) => {
                assert(!all_hex_digits(digits@)) by {
                    if is_hex_digit(hi) {
                        assert(!is_hex_digit(digits@[2 * k + 1]));
                    } else {
                        assert(!is_hex_digit(digits@[2 * k as int]));
                    }
                }
                return Err(ParseHexError { kind: HexErrorKind::InvalidValue(e) });
            },
        }
        k = k + 1;
    }
    assert(out@ =~= decode_hex_pairs(digits@));
    Ok(out)
}

/// The two lower-case hex digits of a byte.
pub open spec fn hex_byte(b: u8) -> Seq<char> {
    seq![lower_hex_char(b as int / 16), lower_hex_char(b as int % 16)]
}

/// The hex dump of `bytes`: the pairs of lower-case digits, separated by single spaces.
pub open spec fn hex_dump_text(bytes: Seq<u8>) -> Seq<char>
    decreases bytes.len(),
{
    if bytes.len() == 0 {
        Seq::empty()
    } else if bytes.len() == 1 {
        hex_byte(bytes[0])
    } else {
        hex_dump_text(bytes.drop_last()) + seq![' '] + hex_byte(bytes.last())
    }
}

/// Convert bytes to a hex dump string in the form `00 01 02 ...`
pub fn hex_dump(bytes: &[u8]) -> (r: String)
    ensures
        r@ == hex_dump_text(bytes@),
{
    let mut s = String::new();
    let mut i: usize = 0;
    while i < bytes.len()
        invariant
            i <= bytes@.len(),
            s@ == hex_dump_text(bytes@.take(i as int)),
        decreases bytes.len() - i,
    {
        let b = bytes[i];
        if i > 0 {
            push_char(&mut s, ' ');
        }
        push_char(&mut s, nibble_char(b / 16));
        push_char(&mut s, nibble_char(b % 16));
        assert(bytes@.take(i + 1).drop_last() =~= bytes@.take(i as int));
        assert(s@ =~= hex_dump_text(bytes@.take(i + 1)));
        i = i + 1;
    }
    assert(bytes@.take(bytes@.len() as int) =~= bytes@);
    s
}

/// The hex pairs of `bytes`, without separators.
pub open spec fn hex_pairs(bytes: Seq<u8>) -> Seq<char>
    decreases bytes.len(),
{
    if bytes.len() == 0 {
        Seq::empty()
    } else {
        hex_pairs(bytes.drop_last()) + hex_byte(bytes.last())
    }
}

proof fn lemma_alnum_only_add(a: Seq<char>, b: Seq<char>)
    ensures
        alnum_only(a + b) == alnum_only(a) + alnum_only(b),
    decreases b.len(),
{
    if b.len() == 0 {
        assert(a + b =~= a);
        assert(alnum_only(a) + alnum_only(b) =~= alnum_only(a));
    } else {
        assert((a + b).drop_last() =~= a + b.drop_last());
        assert((a + b).last() == b.last());
        lemma_alnum_only_add(a, b.drop_last());
        if is_ascii_alnum(b.last()) {
            assert(alnum_only(a) + alnum_only(b) =~= (alnum_only(a) + alnum_only(
                b.drop_last(),
            )).push(b.last()));
        }
    }
}

proof fn lemma_lower_hex_char(n: int)
    requires
        0 <= n < 16,
    ensures
        is_ascii_alnum(lower_hex_char(n)),
        is_hex_digit(lower_hex_char(n)),
        hex_digit_value(lower_hex_char(n)) == n,
{
}

proof fn lemma_alnum_only_hex_byte(b: u8)
    ensures
        alnum_only(hex_byte(b)) == hex_byte(b),
{
    lemma_lower_hex_char(b as int / 16);
    lemma_lower_hex_char(b as int % 16);
    reveal_with_fuel(alnum_only, 3);
    let h = hex_byte(b);
    assert(h.drop_last() =~= seq![h[0]]);
    assert(seq![h[0]].drop_last() =~= Seq::<char>::empty());
    assert(alnum_only(seq![h[0]]) =~= seq![h[0]]);
    assert(alnum_only(h) =~= h);
}

proof fn lemma_alnum_only_hex_dump(bytes: Seq<u8>)
    ensures
        alnum_only(hex_dump_text(bytes)) == hex_pairs(bytes),
    decreases bytes.len(),
{
    if bytes.len() == 0 {
    } else if bytes.len() == 1 {
        reveal_with_fuel(hex_pairs, 2);
        lemma_alnum_only_hex_byte(bytes[0]);
        assert(bytes.drop_last() =~= Seq::<u8>::empty());
        assert(hex_pairs(bytes) =~= hex_byte(bytes[0]));
    } else {
        let init = bytes.drop_last();
        lemma_alnum_only_hex_dump(init);
        lemma_alnum_only_add(hex_dump_text(init) + seq![' '], hex_byte(bytes.last()));
        lemma_alnum_only_add(hex_dump_text(init), seq![' ']);
        assert(seq![' '].drop_last() =~= Seq::<char>::empty());
        reveal_with_fuel(alnum_only, 2);
        assert(alnum_only(seq![' ']) =~= Seq::<char>::empty());
        lemma_alnum_only_hex_byte(bytes.last());
        assert(alnum_only(hex_dump_text(init)) + alnum_only(seq![' ']) =~= alnum_only(
            hex_dump_text(init),
        ));
    }
}

proof fn lemma_hex_pairs_shape(bytes: Seq<u8>)
    ensures
        hex_pairs(bytes).len() == 2 * bytes.len(),
        forall|k: int|
            0 <= k < bytes.len() ==> {
                &&& #[trigger] hex_pairs(bytes)[2 * k] == lower_hex_char(bytes[k] as int / 16)
                &&& hex_pairs(bytes)[2 * k + 1] == lower_hex_char(bytes[k] as int % 16)
            },
    decreases bytes.len(),
{
    if bytes.len() > 0 {
        let init = bytes.drop_last();
        lemma_hex_pairs_shape(init);
        assert forall|k: int| 0 <= k < bytes.len() implies {
            &&& #[trigger] hex_pairs(bytes)[2 * k] == lower_hex_char(bytes[k] as int / 16)
            &&& hex_pairs(bytes)[2 * k + 1] == lower_hex_char(bytes[k] as int % 16)
        } by {
            if k < init.len() {
                assert(hex_pairs(init)[2 * k] == lower_hex_char(init[k] as int / 16));
            }
        }
    }
}

/// Parsing a hex dump gives back the bytes that were dumped.
pub proof fn lemma_hex_dump_parses_back(bytes: Seq<u8>)
    ensures
        parsed_hex(hex_dump_text(bytes)) == Some(bytes),
{
    lemma_alnum_only_hex_dump(bytes);
    lemma_hex_pairs_shape(bytes);
    let p = hex_pairs(bytes);
    assert forall|i: int| 0 <= i < p.len() implies is_hex_digit(#[trigger] p[i]) by {
        let k = i / 2;
        assert(hex_pairs(bytes)[2 * k] == lower_hex_char(bytes[k] as int / 16));
        if i % 2 == 0 {
            assert(i == 2 * k);
            lemma_lower_hex_char(bytes[k] as int / 16);
        } else {
            assert(i == 2 * k + 1);
            lemma_lower_hex_char(bytes[k] as int % 16);
        }
    }
    assert forall|k: int| 0 <= k < bytes.len() implies decode_hex_pairs(p)[k] == bytes[k] by {
        assert(hex_pairs(bytes)[2 * k] == lower_hex_char(bytes[k] as int / 16));
        lemma_lower_hex_char(bytes[k] as int / 16);
        lemma_lower_hex_char(bytes[k] as int % 16);
    }
    assert(decode_hex_pairs(p) =~= bytes);
}

} // verus!
