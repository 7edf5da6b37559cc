//! Conversions around Windows idiosyncrasies: GUIDs as text, the pseudo-sectors of raw reads,
//! device paths and UTF-16 strings.
use std::path::PathBuf;
use vstd::prelude::*;
use vstd::std_specs::convert::FromSpecImpl;

use super::bindings::GUID;
use crate::text::{fmt_hex, push_char, push_hex, push_str};
use crate::toc::Frame;

verus! {

broadcast use {crate::toc::group_frame, vstd::utf8::char_is_scalar, vstd::utf8::char_u32_cast};

/// A Windows GUID, e.g. `53f56308-b6bf-11d0-94f2-00a0c91efb8b`.
pub struct Guid(pub GUID);

/// The big-endian value of the first two bytes of a GUID's `data4`.
pub open spec fn guid_clock_seq(g: GUID) -> nat {
    g.data4@[0] as nat * 256 + g.data4@[1] as nat
}

/// The big-endian value of the last six bytes of a GUID's `data4`.
pub open spec fn guid_node(g: GUID) -> nat {
    ((((g.data4@[2] as nat * 256 + g.data4@[3] as nat) * 256 + g.data4@[4] as nat) * 256
        + g.data4@[5] as nat) * 256 + g.data4@[6] as nat) * 256 + g.data4@[7] as nat
}

/// The text of a GUID: `{:08x}-{:04x}-{:04x}-{:04x}-{:012x}` of its fields, the last two from
/// the bytes of `data4`.
pub open spec fn guid_text(g: GUID) -> Seq<char> {
    fmt_hex(g.data1 as nat, 8) + "-"@ + fmt_hex(g.data2 as nat, 4) + "-"@ + fmt_hex(
        g.data3 as nat,
        4,
    ) + "-"@ + fmt_hex(guid_clock_seq(g), 4) + "-"@ + fmt_hex(guid_node(g), 12)
}

impl Guid {
    /// The GUID as text, e.g. `53f56308-b6bf-11d0-94f2-00a0c91efb8b`.
    pub fn to_string(&self) -> (r: String)
        ensures
            r@ == guid_text(self.0),
    {
        let g = self.0;
        let d = g.data4;
        let clock: u64 = d[0] as u64 * 256 + d[1] as u64;
        let node: u64 = ((((d[2] as u64 * 256 + d[3] as u64) * 256 + d[4] as u64) * 256
            + d[5] as u64) * 256 + d[6] as u64) * 256 + d[7] as u64;
        let mut s = String::new();
        push_hex(&mut s, g.data1 as u64, 8);
        push_str(&mut s, "-");
        push_hex(&mut s, g.data2 as u64, 4);
        push_str(&mut s, "-");
        push_hex(&mut s, g.data3 as u64, 4);
        push_str(&mut s, "-");
        push_hex(&mut s, clock, 4);
        push_str(&mut s, "-");
        push_hex(&mut s, node, 12);
        assert(s@ =~= guid_text(g));
        s
    }
}

/// A pseudo-sector on an audio CD: `DeviceIoControl` wants offsets which pretend that each
/// 2352-byte frame is a 2048-byte sector. Holds the frame relative to the lead-in.
#[derive(Debug, Clone, Copy, PartialEq, Eq, Structural)]
pub struct Sector(i64);

impl Sector {
    /// The relative frame, as a spec value.
    pub closed spec fn frame(self) -> i64 {
        self.0
    }

    /// The sector of an absolute frame (which includes the lead-in): the frame 150 earlier,
    /// as an `i64`.
    pub fn from_frame(frame: Frame) -> (r: Self)
        requires
            frame.count() >= 150,
        ensures
            r.frame() == (frame.count() - 150) as i64,
    {
        Sector(frame.relative_to_leadin().as_usize() as i64)
    }

    /// The byte offset for `DeviceIoControl(.., IOCTL_CDROM_RAW_READ, ..)`, relative to the
    /// start of the audio: 2048 bytes for each frame.
    pub fn offset(&self) -> (r: i64)
        requires
            i64::MIN <= self.frame() * 2048 <= i64::MAX,
        ensures
            r == self.frame() * 2048,
    {
        self.0 * 2048
    }
}

/// `c` is a UTF-16 surrogate code unit.
pub open spec fn is_surrogate(u: u16) -> bool {
    0xD800 <= u <= 0xDFFF
}

/// The UTF-16 code units of a character.
pub open spec fn utf16_of_char(c: char) -> Seq<u16> {
    let n = c as u32;
    if n < 0x10000 {
        seq![n as u16]
    } else {
        let m = (n - 0x10000) as nat;
        seq![(0xD800 + m / 1024) as u16, (0xDC00 + m % 1024) as u16]
    }
}

/// The UTF-16 code units of a string (`str::encode_utf16`).
pub open spec fn utf16_of(s: Seq<char>) -> Seq<u16>
    decreases s.len(),
{
    if s.len() == 0 {
        Seq::empty()
    } else {
        utf16_of_char(s[0]) + utf16_of(s.drop_first())
    }
}

/// The characters of UTF-16 code units, with U+FFFD for each unpaired surrogate
/// (`String::from_utf16_lossy`).
pub open spec fn utf16_decode(w: Seq<u16>) -> Seq<char>
    decreases w.len(),
{
    if w.len() == 0 {
        Seq::empty()
    } else if !is_surrogate(w[0]) {
        seq![(w[0] as u32) as char] + utf16_decode(w.drop_first())
    } else if w[0] <= 0xDBFF && w.len() >= 2 && 0xDC00 <= w[1] <= 0xDFFF {
        seq![(0x10000 + (w[0] - 0xD800) * 1024 + (w[1] - 0xDC00)) as char] + utf16_decode(
            w.subrange(2, w.len() as int),
        )
    } else {
        seq!['\u{FFFD}'] + utf16_decode(w.drop_first())
    }
}

/// The code units of a null-terminated string, without the terminator.
pub open spec fn without_terminator(w: Seq<u16>) -> Seq<u16> {
    if w.len() > 0 {
        w.drop_last()
    } else {
        w
    }
}

/// The code units of `w` before its first zero.
pub open spec fn before_nul(w: Seq<u16>) -> Seq<u16>
    decreases w.len(),
{
    if w.len() == 0 || w[0] == 0 {
        Seq::empty()
    } else {
        seq![w[0]] + before_nul(w.drop_first())
    }
}

/// `char::from_u32`: the character with this code point, if it is one (not a surrogate, at
/// most `0x10FFFF`).
pub assume_specification[ char::from_u32 ](i: u32) -> (r: Option<char>)
    ensures
        r == (if i <= 0x10FFFF && !(0xD800 <= i <= 0xDFFF) {
            Some(i as char)
        } else {
            None
        }),
;

#[verifier::external_type_specification]
#[verifier::external_body]
pub struct ExPathBuf(PathBuf);

/// `PathBuf::clone`: an equal path.
pub assume_specification[ <PathBuf as Clone>::clone ](p: &PathBuf) -> (r: PathBuf)
    ensures
        r == *p,
;

/// The text that `Path::display` shows for a path (its characters, with any invalid Unicode
/// replaced).
pub uninterp spec fn path_display_text(p: PathBuf) -> Seq<char>;

/// `Path::display` of a path, as a `String`.
#[verifier::external_body]
fn path_display(p: &PathBuf) -> (r: String)
    ensures
        r@ == path_display_text(*p),
{
    p.display().to_string()
}

/// The text of a path: the displayed path, or the string of a device path.
pub open spec fn win_path_text(p: WinPath) -> Seq<char> {
    match p {
        WinPath::FilePath(f) => path_display_text(f),
        WinPath::DevicePath(w) => utf16_decode(without_terminator(w.spec_words())),
    }
}

/// A path, as Windows has them.
///
/// See <https://learn.microsoft.com/en-us/windows/win32/fileio/naming-a-file>.
#[derive(Debug, Clone, PartialEq, Eq, PartialOrd, Ord)]
pub enum WinPath {
    /// A standard file system path, e.g. `D:\`.
    FilePath(PathBuf),
    /// A `\\.\`-prefixed Win32 device namespace path.
    DevicePath(WinString),
}

/// A null-terminated string of UTF-16 code units, as the Windows API takes and gives them
/// (`PCWSTR`, `PWSTR`).
#[derive(Debug, Clone, PartialEq, Eq, PartialOrd, Ord, Hash)]
pub struct WinString {
    words: Vec<u16>,
}

impl WinString {
    /// The code units, including the terminating zero, as a spec value.
    pub closed spec fn spec_words(&self) -> Seq<u16> {
        self.words@
    }

    /// The code units of `utf8` in UTF-16, followed by a terminating zero.
    pub fn from_str(utf8: &str) -> (r: Self)
        ensures
            r.spec_words() == utf16_of(utf8@).push(0),
    {
        let cs = crate::text::chars_of(utf8);
        let mut words: Vec<u16> = Vec::new();
        let mut i: usize = 0;
        while i < cs.len()
            invariant
                i <= cs@.len(),
                cs@ == utf8@,
                words@ == utf16_of(cs@.take(i as int)),
            decreases cs.len() - i,
        {
            let n = cs[i] as u32;
            if n < 0x10000 {
                words.push(n as u16);
            } else {
                let m = n - 0x10000;
                words.push((0xD800 + m / 1024) as u16);
                words.push((0xDC00 + m % 1024) as u16);
            }
            proof {
                lemma_utf16_of_push(cs@.take(i as int), cs@[i as int]);
                assert(cs@.take(i + 1) =~= cs@.take(i as int).push(cs@[i as int]));
            }
            i = i + 1;
            assert(words@ =~= utf16_of(cs@.take(i as int)));
        }
        assert(cs@.take(cs@.len() as int) =~= utf8@);
        words.push(0);
        WinString { words }
    }

    /// The code units of `words` before the first zero, followed by a terminating zero, as
    /// the Windows API writes strings into fixed buffers.
    pub fn from_words(words: &[u16]) -> (r: Self)
        ensures
            r.spec_words() == before_nul(words@).push(0),
    {
        let mut out: Vec<u16> = Vec::new();
        let mut i: usize = 0;
        while i < words.len() && words[i] != 0
            invariant
                i <= words@.len(),
                out@ == words@.take(i as int),
                forall|j: int| 0 <= j < i ==> words@[j] != 0,
            decreases words.len() - i,
        {
            out.push(words[i]);
            i = i + 1;
            assert(out@ =~= words@.take(i as int));
        }
        proof {
            lemma_before_nul_prefix(words@, i as int);
        }
        out.push(0);
        WinString { words: out }
    }

    /// The null-terminated code units, for a `PCWSTR` parameter of the Windows API (a pointer
    /// to the first of them, valid while `self` lives).
    pub fn as_pcwstr(&self) -> (r: &[u16])
        ensures
            r@ == self.spec_words(),
    {
        self.words.as_slice()
    }

    /// The string, decoded from UTF-16 without its terminating zero, with U+FFFD for each
    /// unpaired surrogate.
    pub fn to_string(&self) -> (r: String)
        ensures
            r@ == utf16_decode(without_terminator(self.spec_words())),
    {
        if self.words.len() == 0 {
            return String::new();
        }
        let end = self.words.len() - 1;
        let mut out = String::new();
        let mut i: usize = 0;
        assert(self.words@.subrange(0, end as int) =~= self.words@.drop_last());
        while i < end
            invariant
                end == self.words@.len() - 1,
                i <= end,
                out@ + utf16_decode(self.words@.subrange(i as int, end as int)) == utf16_decode(
                    without_terminator(self.words@),
                ),
            decreases end - i,
        {
            let ghost rest = self.words@.subrange(i as int, end as int);
            let u = self.words[i];
            if u < 0xD800 || u > 0xDFFF {
                let c = char::from_u32(u as u32).unwrap();
                assert(rest.drop_first() =~= self.words@.subrange(i + 1, end as int));
                assert(out@ + seq![c] + utf16_decode(rest.drop_first()) == out@ + utf16_decode(
                    rest,
                ));
                push_char(&mut out, c);
                i = i + 1;
            } else if u <= 0xDBFF && i + 1 < end && 0xDC00 <= self.words[i + 1]
                && self.words[i + 1] <= 0xDFFF {
                let v = self.words[i + 1];
                let code: u32 = 0x10000 + (u as u32 - 0xD800) * 1024 + (v as u32 - 0xDC00);
                let c = char::from_u32(code).unwrap();
                assert(rest.subrange(2, rest.len() as int) =~= self.words@.subrange(
                    i + 2,
                    end as int,
                ));
                assert(out@ + seq![c] + utf16_decode(rest.subrange(2, rest.len() as int)) == out@
                    + utf16_decode(rest));
                push_char(&mut out, c);
                i = i + 2;
            } else {
                assert(rest.drop_first() =~= self.words@.subrange(i + 1, end as int));
                assert(out@ + seq!['\u{FFFD}'] + utf16_decode(rest.drop_first()) == out@
                    + utf16_decode(rest));
                push_char(&mut out, '\u{FFFD}');
                i = i + 1;
            }
        }
        assert(self.words@.subrange(i as int, end as int) =~= Seq::<u16>::empty());
        out
    }
}

/// Encoding a string after another appends their code units.
proof fn lemma_utf16_of_push(s: Seq<char>, c: char)
    ensures
        utf16_of(s.push(c)) == utf16_of(s) + utf16_of_char(c),
    decreases s.len(),
{
    if s.len() == 0 {
        assert(s.push(c).drop_first() =~= Seq::<char>::empty());
        assert(s.push(c)[0] == c);
        assert(utf16_of(Seq::<char>::empty()) =~= Seq::<u16>::empty());
        assert(utf16_of(s.push(c)) =~= utf16_of_char(c));
    } else {
        assert(s.push(c).drop_first() =~= s.drop_first().push(c));
        lemma_utf16_of_push(s.drop_first(), c);
        assert(utf16_of(s.push(c)) =~= utf16_of(s) + utf16_of_char(c));
    }
}

/// The code units before the first zero are the prefix up to it.
proof fn lemma_before_nul_prefix(w: Seq<u16>, k: int)
    requires
        0 <= k <= w.len(),
        forall|j: int| 0 <= j < k ==> w[j] != 0,
        k == w.len() || w[k] == 0,
    ensures
        before_nul(w) == w.take(k),
    decreases k,
{
    if k == 0 {
        assert(w.take(0) =~= Seq::<u16>::empty());
    } else {
        assert forall|j: int| 0 <= j < k - 1 implies w.drop_first()[j] != 0 by {
            assert(w.drop_first()[j] == w[j + 1]);
        }
        if k - 1 < w.drop_first().len() {
            assert(w.drop_first()[k - 1] == w[k]);
        }
        lemma_before_nul_prefix(w.drop_first(), k - 1);
        assert(seq![w[0]] + w.drop_first().take(k - 1) =~= w.take(k));
    }
}

/// Decoding the UTF-16 encoding of a string gives the string back.
pub proof fn lemma_utf16_roundtrip(s: Seq<char>)
    ensures
        utf16_decode(utf16_of(s)) == s,
    decreases s.len(),
{
    if s.len() > 0 {
        let c = s[0];
        let n = c as u32;
        let w = utf16_of(s);
        let rest = utf16_of(s.drop_first());
        vstd::utf8::char_is_scalar(c);
        lemma_utf16_roundtrip(s.drop_first());
        assert(w == utf16_of_char(c) + rest);
        if n < 0x10000 {
            assert(w[0] == n as u16);
            assert((n as u16) as u32 == n) by (bit_vector)
                requires
                    n < 0x10000,
            ;
            assert(!(0xD800 <= n <= 0xDFFF));
            assert(!is_surrogate(w[0]));
            assert(w.drop_first() =~= rest);
            assert(w[0] as u32 == n);
            vstd::utf8::char_u32_cast(c, n);
            assert((w[0] as u32) as char == c);
            assert(utf16_decode(w) == seq![c] + utf16_decode(rest));
        } else {
            let m = (n - 0x10000) as nat;
            assert(m < 0x100000);
            assert(w[0] == (0xD800 + m / 1024) as u16);
            assert(w[1] == (0xDC00 + m % 1024) as u16);
            assert(0xD800 <= w[0] <= 0xDBFF);
            assert(0xDC00 <= w[1] <= 0xDFFF);
            assert(w.subrange(2, w.len() as int) =~= rest);
            assert(0x10000 + (w[0] - 0xD800) * 1024 + (w[1] - 0xDC00) == n);
            vstd::utf8::char_u32_cast(c, n);
            assert((0x10000 + (w[0] - 0xD800) * 1024 + (w[1] - 0xDC00)) as char == c);
            assert(utf16_decode(w) == seq![c] + utf16_decode(rest));
        }
        assert(s =~= seq![c] + s.drop_first());
    }
}

/// The string of a [`WinString`] made from a `&str` is that `&str`.
pub proof fn lemma_win_string_roundtrip(s: Seq<char>)
    ensures
        utf16_decode(without_terminator(utf16_of(s).push(0))) == s,
{
    assert(without_terminator(utf16_of(s).push(0)) =~= utf16_of(s));
    lemma_utf16_roundtrip(s);
}

impl WinPath {
    /// The path as text: a file system path as it displays, a device path as its string.
    pub fn to_string(&self) -> (r: String)
        ensures
            r@ == win_path_text(*self),
    {
        match self {
            WinPath::FilePath(p) => path_display(p),
            WinPath::DevicePath(w) => w.to_string(),
        }
    }
}

impl From<PathBuf> for WinPath {
    fn from(path: PathBuf) -> (r: WinPath) {
        WinPath::FilePath(path)
    }
}

impl FromSpecImpl<PathBuf> for WinPath {
    open spec fn obeys_from_spec() -> bool {
        true
    }

    open spec fn from_spec(path: PathBuf) -> WinPath {
        WinPath::FilePath(path)
    }
}

impl<'a> From<&'a str> for WinString {
    /// See [`WinString::from_str`].
    fn from(utf8: &'a str) -> (r: WinString)
        ensures
            r.spec_words() == utf16_of(utf8@).push(0),
    {
        WinString::from_str(utf8)
    }
}

impl<'a> FromSpecImpl<&'a str> for WinString {
    /// A `WinString` is not determined by its code units alone, so no `from_spec` is given;
    /// [`WinString::from_str`] states what `from` builds.
    open spec fn obeys_from_spec() -> bool {
        false
    }

    open spec fn from_spec(utf8: &'a str) -> WinString {
        arbitrary()
    }
}

impl From<String> for WinString {
    /// See [`WinString::from_str`].
    fn from(utf8: String) -> (r: WinString)
        ensures
            r.spec_words() == utf16_of(utf8@).push(0),
    {
        WinString::from_str(utf8.as_str())
    }
}

impl FromSpecImpl<String> for WinString {
    /// A `WinString` is not determined by its code units alone, so no `from_spec` is given;
    /// [`WinString::from_str`] states what `from` builds.
    open spec fn obeys_from_spec() -> bool {
        false
    }

    open spec fn from_spec(utf8: String) -> WinString {
        arbitrary()
    }
}

impl<'a> From<&'a [u16]> for WinString {
    /// See [`WinString::from_words`].
    fn from(words: &'a [u16]) -> (r: WinString)
        ensures
            r.spec_words() == before_nul(words@).push(0),
    {
        WinString::from_words(words)
    }
}

impl<'a> FromSpecImpl<&'a [u16]> for WinString {
    /// A `WinString` is not determined by its code units alone, so no `from_spec` is given;
    /// [`WinString::from_words`] states what `from` builds.
    open spec fn obeys_from_spec() -> bool {
        false
    }

    open spec fn from_spec(words: &'a [u16]) -> WinString {
        arbitrary()
    }
}

} // verus!
