//! Positions on an audio CD: [`Frame`], [`Msf`], [`TocEntry`], and the parsing of raw TOC data.
use core::ops::{Add, Rem, Sub};
use core::time::Duration;
use vstd::prelude::*;
use vstd::std_specs::convert::FromSpecImpl;
use vstd::std_specs::ops::{AddSpecImpl, RemSpecImpl, SubSpecImpl};

use crate::sort::{lemma_sorted_by_key_is_sorted, sort_by_key, sorted_by_key, SortKey};
use crate::text::{fmt_hex, hex_digit_value, is_lower_hex_digit, lemma_fmt_hex_two_digits, push_char, push_hex};

verus! {

/// CD audio frame (1/75 sec). Basic unit of time for CD audio.
///
/// - 75 frames = 1 second of audio
/// - Each frame contains 2352 bytes of raw audio data
#[derive(Debug, Clone, Copy, PartialEq, Eq, PartialOrd, Ord, Hash, Default, Structural)]
pub struct Frame(usize);

/// Standard CD lead-in duration in frames (2 seconds at 75 frames per second).
pub const LEADIN_FRAMES: usize = 150;

/// The standard CD lead-in as a [`Frame`]: 2 seconds, 150 frames.
pub fn leadin() -> (r: Frame)
    ensures
        r == Frame::of(150),
{
    Frame(LEADIN_FRAMES)
}

impl Frame {
    /// The number of frames, as a spec value.
    pub closed spec fn count(self) -> nat {
        self.0 as nat
    }

    /// The frame with the given count, as a spec value.
    pub closed spec fn of(frames: usize) -> Frame {
        Frame(frames)
    }

    /// Creates a new `Frame` from a frame count.
    pub fn new(frames: usize) -> (r: Self)
        ensures
            r == Frame::of(frames),
    {
        Frame(frames)
    }

    /// Returns the frame count as a `usize`.
    pub fn as_usize(self) -> (r: usize)
        ensures
            r == self.count(),
    {
        self.0
    }

    /// Returns a frame relative to the lead-in position: 150 frames earlier.
    pub fn relative_to_leadin(self) -> (r: Self)
        requires
            self.count() >= 150,
        ensures
            r == Frame::of((self.count() - 150) as usize),
    {
        Frame(self.0 - 150)
    }
}

/// The count of a frame fits a `usize`, and a frame is determined by its count.
pub broadcast proof fn lemma_frame_count(f: Frame)
    ensures
        #[trigger] f.count() <= usize::MAX,
        Frame::of(f.count() as usize) == f,
{
}

/// A frame built from a count has that count.
pub broadcast proof fn lemma_frame_of(n: usize)
    ensures
        #[trigger] Frame::of(n).count() == n,
{
}

pub broadcast group group_frame {
    lemma_frame_count,
    lemma_frame_of,
}

impl Add<Frame> for Frame {
    type Output = Frame;

    fn add(self, rhs: Frame) -> (r: Frame) {
        Frame(self.0 + rhs.0)
    }
}

impl AddSpecImpl<Frame> for Frame {
    open spec fn obeys_add_spec() -> bool {
        true
    }

    open spec fn add_req(self, rhs: Frame) -> bool {
        self.count() + rhs.count() <= usize::MAX
    }

    open spec fn add_spec(self, rhs: Frame) -> Frame {
        Frame::of((self.count() + rhs.count()) as usize)
    }
}

impl Add<usize> for Frame {
    type Output = Frame;

    fn add(self, rhs: usize) -> (r: Frame) {
        Frame(self.0 + rhs)
    }
}

impl AddSpecImpl<usize> for Frame {
    open spec fn obeys_add_spec() -> bool {
        true
    }

    open spec fn add_req(self, rhs: usize) -> bool {
        self.count() + rhs <= usize::MAX
    }

    open spec fn add_spec(self, rhs: usize) -> Frame {
        Frame::of((self.count() + rhs) as usize)
    }
}

impl Sub<Frame> for Frame {
    type Output = Frame;

    fn sub(self, rhs: Frame) -> (r: Frame) {
        Frame(self.0 - rhs.0)
    }
}

impl SubSpecImpl<Frame> for Frame {
    open spec fn obeys_sub_spec() -> bool {
        true
    }

    open spec fn sub_req(self, rhs: Frame) -> bool {
        self.count() >= rhs.count()
    }

    open spec fn sub_spec(self, rhs: Frame) -> Frame {
        Frame::of((self.count() - rhs.count()) as usize)
    }
}

impl Sub<usize> for Frame {
    type Output = Frame;

    fn sub(self, rhs: usize) -> (r: Frame) {
        Frame(self.0 - rhs)
    }
}

impl SubSpecImpl<usize> for Frame {
    open spec fn obeys_sub_spec() -> bool {
        true
    }

    open spec fn sub_req(self, rhs: usize) -> bool {
        self.count() >= rhs
    }

    open spec fn sub_spec(self, rhs: usize) -> Frame {
        Frame::of((self.count() - rhs) as usize)
    }
}

impl Rem<usize> for Frame {
    type Output = Frame;

    fn rem(self, rhs: usize) -> (r: Frame) {
        Frame(self.0 % rhs)
    }
}

impl RemSpecImpl<usize> for Frame {
    open spec fn obeys_rem_spec() -> bool {
        true
    }

    open spec fn rem_req(self, rhs: usize) -> bool {
        rhs != 0
    }

    open spec fn rem_spec(self, rhs: usize) -> Frame {
        Frame::of((self.count() % (rhs as nat)) as usize)
    }
}

/// CD audio position or duration in min:sec:frame format (75 frames/sec).
#[derive(Debug, Clone, Copy, PartialEq, Eq, PartialOrd, Ord, Hash, Structural)]
pub struct Msf {
    /// Minutes component (0-59).
    min: u8,
    /// Seconds component (0-59).
    sec: u8,
    /// Frames component (0-74).
    frame: u8,
}

impl Msf {
    /// The minutes component, as a spec value.
    pub closed spec fn minutes(self) -> u8 {
        self.min
    }

    /// The seconds component, as a spec value.
    pub closed spec fn seconds(self) -> u8 {
        self.sec
    }

    /// The frames component, as a spec value.
    pub closed spec fn frames(self) -> u8 {
        self.frame
    }

    /// The `Msf` with the given components, as a spec value.
    pub closed spec fn of(min: u8, sec: u8, frame: u8) -> Msf {
        Msf { min, sec, frame }
    }

    /// Creates a new `Msf` from minute, second, and frame components.
    pub fn new(min: u8, sec: u8, frame: u8) -> (r: Self)
        ensures
            r == Msf::of(min, sec, frame),
    {
        Msf { min, sec, frame }
    }

    /// The minutes component.
    pub fn minute(&self) -> (r: u8)
        ensures
            r == self.minutes(),
    {
        self.min
    }

    /// The seconds component.
    pub fn second(&self) -> (r: u8)
        ensures
            r == self.seconds(),
    {
        self.sec
    }

    /// The frames component.
    pub fn frame(&self) -> (r: u8)
        ensures
            r == self.frames(),
    {
        self.frame
    }

    /// Returns an MSF value relative to the lead-in position: 150 frames earlier.
    pub fn relative_to_leadin(self) -> (r: Self)
        requires
            msf_frames(self) >= 150,
        ensures
            r == msf_of_frames((msf_frames(self) - 150) as nat),
    {
        let frames = Frame::from(self);
        Msf::from(frames - leadin())
    }
}

/// An `Msf` is determined by its components.
pub broadcast proof fn lemma_msf_parts(m: Msf)
    ensures
        #[trigger] Msf::of(m.minutes(), m.seconds(), m.frames()) == m,
{
}

/// An `Msf` built from components has those components.
pub broadcast proof fn lemma_msf_of(min: u8, sec: u8, frame: u8)
    ensures
        #[trigger] Msf::of(min, sec, frame).minutes() == min,
        Msf::of(min, sec, frame).seconds() == sec,
        Msf::of(min, sec, frame).frames() == frame,
{
}

pub broadcast group group_msf {
    lemma_msf_parts,
    lemma_msf_of,
}

/// The number of frames an `Msf` stands for.
pub open spec fn msf_frames(m: Msf) -> nat {
    ((m.minutes() as nat * 60 + m.seconds() as nat) * 75 + m.frames() as nat) as nat
}

/// The `Msf` for a frame count: minutes (modulo 256, as the byte keeps them), seconds, frames.
pub open spec fn msf_of_frames(frames: nat) -> Msf {
    Msf::of(
        ((frames / 75 / 60) % 256) as u8,
        ((frames / 75) % 60) as u8,
        (frames % 75) as u8,
    )
}

/// Converting a frame count to minutes, seconds and frames and back gives the count, for counts
/// whose minutes fit a byte (under 256 minutes).
pub proof fn lemma_frames_msf_roundtrip(f: nat)
    requires
        f < 256 * 60 * 75,
    ensures
        msf_frames(msf_of_frames(f)) == f,
{
    let s = f / 75;
    let m = s / 60;
    assert(f == s * 75 + f % 75);
    assert(s == m * 60 + s % 60);
    assert(m < 256);
    assert(m % 256 == m);
    let x = msf_of_frames(f);
    assert(x.minutes() == m && x.seconds() == s % 60 && x.frames() == f % 75);
    assert((m * 60 + s % 60) * 75 + f % 75 == f) by (nonlinear_arith)
        requires
            f == s * 75 + f % 75,
            s == m * 60 + s % 60,
    ;
}

/// Minutes, seconds (under 60) and frames (under 75) survive the conversion to a frame count
/// and back.
pub proof fn lemma_msf_frames_roundtrip(m: Msf)
    requires
        m.seconds() < 60,
        m.frames() < 75,
    ensures
        msf_of_frames(msf_frames(m)) == m,
{
    let mi = m.minutes() as nat;
    let se = m.seconds() as nat;
    let fr = m.frames() as nat;
    let f = msf_frames(m);
    assert(f == (mi * 60 + se) * 75 + fr);
    assert(f / 75 == mi * 60 + se) by (nonlinear_arith)
        requires
            f == (mi * 60 + se) * 75 + fr,
            fr < 75,
    ;
    assert(f % 75 == fr) by (nonlinear_arith)
        requires
            f == (mi * 60 + se) * 75 + fr,
            fr < 75,
    ;
    assert((mi * 60 + se) / 60 == mi) by (nonlinear_arith)
        requires
            se < 60,
    ;
    assert((mi * 60 + se) % 60 == se) by (nonlinear_arith)
        requires
            se < 60,
    ;
    assert(mi % 256 == mi);
    assert(msf_of_frames(f) == Msf::of(mi as u8, se as u8, fr as u8));
}

impl From<Msf> for Frame {
    fn from(msf: Msf) -> (r: Frame) {
        Frame((((msf.min as usize * 60) + msf.sec as usize) * 75) + msf.frame as usize)
    }
}

impl FromSpecImpl<Msf> for Frame {
    open spec fn obeys_from_spec() -> bool {
        true
    }

    open spec fn from_spec(msf: Msf) -> Frame {
        Frame::of(msf_frames(msf) as usize)
    }
}

impl From<Frame> for Msf {
    fn from(frames: Frame) -> (r: Msf) {
        let frames = frames.0;
        let secs = frames / 75;
        let min = secs / 60;
        let secs = secs % 60;
        let frames = frames % 75;
        Msf { min: (min % 256) as u8, sec: secs as u8, frame: frames as u8 }
    }
}

impl FromSpecImpl<Frame> for Msf {
    open spec fn obeys_from_spec() -> bool {
        true
    }

    open spec fn from_spec(frames: Frame) -> Msf {
        msf_of_frames(frames.count())
    }
}

impl Sub<Frame> for Msf {
    type Output = Msf;

    fn sub(self, rhs: Frame) -> (r: Msf) {
        Msf::from(Frame::from(self) - rhs)
    }
}

impl SubSpecImpl<Frame> for Msf {
    open spec fn obeys_sub_spec() -> bool {
        true
    }

    open spec fn sub_req(self, rhs: Frame) -> bool {
        msf_frames(self) >= rhs.count()
    }

    open spec fn sub_spec(self, rhs: Frame) -> Msf {
        msf_of_frames((msf_frames(self) - rhs.count()) as nat)
    }
}

/// The total length of a `Duration` in nanoseconds.
pub uninterp spec fn duration_nanos(d: Duration) -> nat;

/// `Duration::new`: `secs` seconds plus `nanos` nanoseconds (whole seconds in `nanos` carry
/// into the seconds). It panics when the seconds overflow after that carry, which the bound
/// on `secs` plus the carried seconds rules out.
#[verifier::external_body]
fn duration_new(secs: u64, nanos: u32) -> (d: Duration)
    requires
        secs as int + nanos as int / 1_000_000_000 <= u64::MAX,
    ensures
        duration_nanos(d) == secs * 1_000_000_000 + nanos,
{
    Duration::new(secs, nanos)
}

/// `Duration::as_millis`: the number of whole milliseconds.
#[verifier::external_body]
fn duration_as_millis(d: &Duration) -> (r: u128)
    ensures
        r == duration_nanos(*d) / 1_000_000,
{
    d.as_millis()
}

/// The `Msf` for a duration: whole milliseconds, with the fraction of a second truncated to
/// whole frames.
pub open spec fn msf_of_millis(ms: nat) -> Msf {
    Msf::of(
        ((ms / 1000 / 60) % 256) as u8,
        ((ms / 1000) % 60) as u8,
        ((ms % 1000) * 75 / 1000) as u8,
    )
}

impl From<Duration> for Msf {
    /// Converts a [`Duration`] to an [`Msf`], truncating fractional frames.
    fn from(duration: Duration) -> (r: Msf) {
        let ms = duration_as_millis(&duration);
        let secs = ms / 1000;
        let min = secs / 60;
        let secs = secs % 60;
        let frames = (ms % 1000) * 75 / 1000;
        Msf { min: (min % 256) as u8, sec: secs as u8, frame: frames as u8 }
    }
}

impl FromSpecImpl<Duration> for Msf {
    open spec fn obeys_from_spec() -> bool {
        true
    }

    open spec fn from_spec(duration: Duration) -> Msf {
        msf_of_millis(duration_nanos(duration) / 1_000_000)
    }
}

/// The whole seconds of an `Msf`.
pub open spec fn msf_whole_seconds(m: Msf) -> nat {
    (m.minutes() as nat * 60 + m.seconds() as nat) as nat
}

/// Converts an [`Msf`] to a [`Duration`]: its whole seconds, plus its frames at 1/75 second
/// each, in whole nanoseconds.
pub fn msf_to_duration(msf: Msf) -> (d: Duration)
    ensures
        duration_nanos(d) == msf_whole_seconds(msf) * 1_000_000_000 + msf.frames() as nat
            * 1_000_000_000 / 75,
{
    let secs: u64 = msf.min as u64 * 60 + msf.sec as u64;
    let nanos: u64 = msf.frame as u64 * 1_000_000_000 / 75;
    assert(nanos <= 255 * 1_000_000_000 / 75);
    duration_new(secs, nanos as u32)
}

/// Converts a [`Frame`] count to a [`Duration`], through its [`Msf`].
pub fn frame_to_duration(frames: Frame) -> (d: Duration)
    ensures
        duration_nanos(d) == msf_whole_seconds(msf_of_frames(frames.count())) * 1_000_000_000
            + msf_of_frames(frames.count()).frames() as nat * 1_000_000_000 / 75,
{
    msf_to_duration(Msf::from(frames))
}

/// Converts a [`Duration`] to a [`Frame`] count via [`Msf`].
pub fn duration_to_frame(duration: Duration) -> (f: Frame)
    ensures
        f.count() == msf_frames(msf_of_millis(duration_nanos(duration) / 1_000_000)),
{
    Frame::from(Msf::from(duration))
}

/// Entry in a CD TOC (Table of Contents): a track number and its absolute start position on the
/// disc, including the 150-frame lead-in.
#[derive(Debug, Clone, Copy, PartialEq, Eq, Hash, Default, Structural)]
pub struct TocEntry {
    /// The 1-indexed track number.
    pub track: u8,
    /// Absolute start position of this track on the disc, including lead-in (150 frames).
    pub start: Frame,
}

impl SortKey for TocEntry {
    open spec fn sort_key(&self) -> int {
        self.track as int
    }

    fn key(&self) -> (k: u64) {
        self.track as u64
    }
}

/// Why an 11-byte READ TOC (format 0010b) descriptor was rejected.
#[derive(Debug, Clone, Copy, PartialEq, Eq, Structural)]
pub enum TocEntryError {
    /// The descriptor does not have 11 bytes; the length found.
    WrongLength(usize),
    /// The session number is not 1: multi-session discs are not supported.
    MultiSession,
    /// The ADR field is not `0001`; the ADR/CONTROL byte found.
    InvalidAdr(u8),
    /// The TNO byte is not zero.
    InvalidTno,
    /// Bytes 4 to 7 are not all zero.
    ExpectedZeros,
}

/// The entry (or the error) that an 11-byte READ TOC format 0010b descriptor stands for.
pub open spec fn toc_entry_from_descriptor(data: Seq<u8>) -> Result<TocEntry, TocEntryError> {
    if data.len() != 11 {
        Err(TocEntryError::WrongLength(data.len() as usize))
    } else if data[0] != 1 {
        Err(TocEntryError::MultiSession)
    } else if data[1] / 16 != 1 {
        Err(TocEntryError::InvalidAdr(data[1]))
    } else if data[2] != 0 {
        Err(TocEntryError::InvalidTno)
    } else if data[4] != 0 || data[5] != 0 || data[6] != 0 || data[7] != 0 {
        Err(TocEntryError::ExpectedZeros)
    } else {
        Ok(
            TocEntry {
                track: data[3],
                start: Frame::of(msf_frames(Msf::of(data[8], data[9], data[10])) as usize),
            },
        )
    }
}

impl TocEntry {
    /// Generate a TocEntry from a sequence of bytes as provided by MMC-3 command READ TOC
    /// format 0010b (Section 5.23.4)
    ///
    /// | byte  | contents       |
    /// |------:|---------------:|
    /// | 0     | Session Number |
    /// | 1     | ADR CONTROL    |
    /// | 2     | ZERO (TNO)     |
    /// | 3     | Track Number   |
    /// | 4-7   | ZERO           |
    /// | 8     | Start Mins     |
    /// | 9     | Start Secs     |
    /// | 10    | Start Frames   |
    ///
    /// This also parses the special TOC entries as "tracks": 0xA0 (first track number in the
    /// minutes), 0xA1 (last track number in the minutes) and 0xA2 (leadout).
    pub fn from_scsi_readtoc_0010b(data: &[u8]) -> (r: Result<Self, TocEntryError>)
        ensures
            r == toc_entry_from_descriptor(data@),
    {
        if data.len() != 11 {
            return Err(TocEntryError::WrongLength(data.len()));
        }
        if data[0] != 1 {
            return Err(TocEntryError::MultiSession);
        }
        if data[1] / 16 != 1 {
            return Err(TocEntryError::InvalidAdr(data[1]));
        }
        if data[2] != 0 {
            return Err(TocEntryError::InvalidTno);
        }
        if data[4] != 0 || data[5] != 0 || data[6] != 0 || data[7] != 0 {
            return Err(TocEntryError::ExpectedZeros);
        }
        let start = Frame::from(Msf::new(data[8], data[9], data[10]));
        Ok(TocEntry { track: data[3], start })
    }
}

/// Why raw READ TOC (format 0010b) data could not be turned into a CDTOC string.
#[derive(Debug, Clone, Copy, PartialEq, Eq, Structural)]
pub enum TocParseError {
    /// The data is not a whole number of 11-byte descriptors.
    NotMultipleOf11,
    /// A descriptor was rejected.
    Entry(TocEntryError),
    /// The entry with the highest number is not the leadout (0xA2).
    NoLeadout,
    /// No entry 0xA1 giving the last track number.
    NoLastTrack,
    /// No entry 0xA0 giving the first track number.
    NoFirstTrack,
    /// No audio tracks.
    NoTracks,
    /// The first track number does not match the first track.
    FirstTrackMismatch,
    /// The last track number does not match the last track.
    LastTrackMismatch,
}

/// The descriptors of raw READ TOC data, in order, or the first one rejected.
pub open spec fn toc_entries_of(bytes: Seq<u8>) -> Result<Seq<TocEntry>, TocEntryError>
    decreases bytes.len(),
{
    if bytes.len() < 11 {
        Ok(Seq::empty())
    } else {
        match toc_entries_of(bytes.take(bytes.len() - 11)) {
            Err(e) => Err(e),
            Ok(entries) => match toc_entry_from_descriptor(bytes.skip(bytes.len() - 11)) {
                Ok(entry) => Ok(entries.push(entry)),
                Err(e) => Err(e),
            },
        }
    }
}

/// `+` followed by the start frame in hex, for each entry.
pub open spec fn plus_hex_starts(entries: Seq<TocEntry>) -> Seq<char>
    decreases entries.len(),
{
    if entries.len() == 0 {
        Seq::empty()
    } else {
        plus_hex_starts(entries.drop_last()) + seq!['+'] + fmt_hex(
            entries.last().start.count(),
            2,
        )
    }
}

/// The CDTOC string for raw READ TOC data: the audio track count, the start of each audio
/// track and the leadout, in hex, separated by `+`.
pub open spec fn cdtoc_string_of(bytes: Seq<u8>) -> Result<Seq<char>, TocParseError> {
    if bytes.len() % 11 != 0 {
        Err(TocParseError::NotMultipleOf11)
    } else {
        match toc_entries_of(bytes) {
            Err(e) => Err(TocParseError::Entry(e)),
            Ok(entries) => {
                let sorted = sorted_by_key(entries);
                let n = sorted.len();
                if n < 1 || sorted[n - 1].track != 0xA2 {
                    Err(TocParseError::NoLeadout)
                } else if n < 2 || sorted[n - 2].track != 0xA1 {
                    Err(TocParseError::NoLastTrack)
                } else if n < 3 || sorted[n - 3].track != 0xA0 {
                    Err(TocParseError::NoFirstTrack)
                } else {
                    let tracks = sorted.take(n - 3);
                    let last_track = msf_of_frames(sorted[n - 2].start.count()).minutes();
                    let first_track = msf_of_frames(sorted[n - 3].start.count()).minutes();
                    if tracks.len() == 0 {
                        Err(TocParseError::NoTracks)
                    } else if first_track != tracks[0].track {
                        Err(TocParseError::FirstTrackMismatch)
                    } else if last_track != tracks.last().track {
                        Err(TocParseError::LastTrackMismatch)
                    } else {
                        Ok(
                            fmt_hex(tracks.len(), 2) + plus_hex_starts(tracks) + seq!['+']
                                + fmt_hex(sorted[n - 1].start.count(), 2),
                        )
                    }
                }
            },
        }
    }
}

proof fn lemma_toc_entries_error_propagates(bytes: Seq<u8>, k: nat)
    requires
        bytes.len() % 11 == 0,
        k % 11 == 0,
        11 <= k <= bytes.len(),
        toc_entries_of(bytes.take(k as int)) is Err,
    ensures
        toc_entries_of(bytes) == toc_entries_of(bytes.take(k as int)),
    decreases bytes.len() - k,
{
    if k < bytes.len() {
        let longer = bytes.take(k + 11 as int);
        assert(longer.take(longer.len() - 11) =~= bytes.take(k as int));
        lemma_toc_entries_error_propagates_step(bytes, (k + 11) as nat, k);
        lemma_toc_entries_error_propagates(bytes, (k + 11) as nat);
    } else {
        assert(bytes.take(k as int) =~= bytes);
    }
}

proof fn lemma_toc_entries_error_propagates_step(bytes: Seq<u8>, k2: nat, k: nat)
    requires
        k2 == k + 11,
        k2 <= bytes.len(),
        k >= 11,
        toc_entries_of(bytes.take(k as int)) is Err,
    ensures
        toc_entries_of(bytes.take(k2 as int)) == toc_entries_of(bytes.take(k as int)),
{
    let longer = bytes.take(k2 as int);
    assert(longer.take(longer.len() - 11) =~= bytes.take(k as int));
}

/// Converts the raw TOC data returned by SCSI command READ TOC format 0010b to the CDTOC format
/// `[audio track count]+[first audio track address]+...+[leadout address]`.
pub fn parse_toc(bytes: Vec<u8>) -> (r: Result<String, TocParseError>)
    ensures
        match r {
            Ok(s) => cdtoc_string_of(bytes@) == Ok::<Seq<char>, TocParseError>(s@),
            Err(e) => cdtoc_string_of(bytes@) == Err::<Seq<char>, TocParseError>(e),
        },
{
    broadcast use group_frame;

    if bytes.len() % 11 != 0 {
        return Err(TocParseError::NotMultipleOf11);
    }
    let count = bytes.len() / 11;
    let mut entries: Vec<TocEntry> = Vec::new();
    let mut i: usize = 0;
    while i < count
        invariant
            count * 11 == bytes@.len(),
            i <= count,
            toc_entries_of(bytes@.take(11 * i)) == Ok::<Seq<TocEntry>, TocEntryError>(entries@),
        decreases count - i,
    {
        let chunk = vstd::slice::slice_subrange(bytes.as_slice(), 11 * i, 11 * i + 11);
        let parsed = TocEntry::from_scsi_readtoc_0010b(chunk);
        let ghost prefix = bytes@.take(11 * (i + 1));
        assert(prefix.take(prefix.len() - 11) =~= bytes@.take(11 * i));
        assert(prefix.skip(prefix.len() - 11) =~= chunk@);
        match parsed {
            Ok(entry) => {
                entries.push(entry);
            },
            Err(e) => {
                proof {
                    lemma_toc_entries_error_propagates(bytes@, (11 * (i + 1)) as nat);
                }
                return Err(TocParseError::Entry(e));
            },
        }
        i = i + 1;
    }
    assert(bytes@.take(11 * count) =~= bytes@);
    let mut sorted = sort_by_key(entries);
    let ghost all = sorted@;
    let n = sorted.len();
    if n < 1 || sorted[n - 1].track != 0xA2 {
        return Err(TocParseError::NoLeadout);
    }
    if n < 2 || sorted[n - 2].track != 0xA1 {
        return Err(TocParseError::NoLastTrack);
    }
    if n < 3 || sorted[n - 3].track != 0xA0 {
        return Err(TocParseError::NoFirstTrack);
    }
    let leadout = sorted[n - 1].start;
    let last_track = Msf::from(sorted[n - 2].start).min;
    let first_track = Msf::from(sorted[n - 3].start).min;
    let tracks = n - 3;
    if tracks == 0 {
        return Err(TocParseError::NoTracks);
    }
    if first_track != sorted[0].track {
        return Err(TocParseError::FirstTrackMismatch);
    }
    if last_track != sorted[tracks - 1].track {
        return Err(TocParseError::LastTrackMismatch);
    }
    let ghost audio = all.take(n - 3);
    let mut out = String::new();
    push_hex(&mut out, tracks as u64, 2);
    let mut k: usize = 0;
    while k < tracks
        invariant
            tracks == n - 3,
            n == sorted@.len(),
            sorted@ == all,
            audio == all.take(n - 3),
            k <= tracks,
            out@ == fmt_hex(tracks as nat, 2) + plus_hex_starts(audio.take(k as int)),
        decreases tracks - k,
    {
        push_char(&mut out, '+');
        push_hex(&mut out, sorted[k].start.as_usize() as u64, 2);
        assert(audio.take(k + 1).drop_last() =~= audio.take(k as int));
        assert(out@ =~= fmt_hex(tracks as nat, 2) + plus_hex_starts(audio.take(k + 1)));
        k = k + 1;
    }
    assert(audio.take(tracks as int) =~= audio);
    push_char(&mut out, '+');
    push_hex(&mut out, leadout.as_usize() as u64, 2);
    assert(audio.len() == tracks);
    assert(audio[0] == all[0]);
    assert(audio.last() == all[n - 4]);
    assert(all == sorted_by_key(toc_entries_of(bytes@)->Ok_0));
    assert(out@ =~= fmt_hex(audio.len(), 2) + plus_hex_starts(audio) + seq!['+'] + fmt_hex(
        all[n - 1].start.count(),
        2,
    ));
    Ok(out)
}


/// Reading descriptors gives one entry per 11 bytes.
proof fn lemma_toc_entries_count(bytes: Seq<u8>)
    requires
        bytes.len() % 11 == 0,
    ensures
        toc_entries_of(bytes) matches Ok(entries) ==> entries.len() == bytes.len() / 11,
    decreases bytes.len(),
{
    if bytes.len() >= 11 {
        lemma_toc_entries_count(bytes.take(bytes.len() - 11));
    }
}

/// The `+`-separated starts begin with `+` when there is an entry.
proof fn lemma_plus_hex_starts_first(entries: Seq<TocEntry>)
    requires
        entries.len() > 0,
    ensures
        plus_hex_starts(entries).len() > 0,
        plus_hex_starts(entries)[0] == '+',
    decreases entries.len(),
{
    let prev = plus_hex_starts(entries.drop_last());
    let whole = prev + seq!['+'] + fmt_hex(entries.last().start.count(), 2);
    assert(plus_hex_starts(entries) == whole);
    if entries.len() > 1 {
        lemma_plus_hex_starts_first(entries.drop_last());
        assert(whole[0] == prev[0]);
    } else {
        assert(prev.len() == 0);
        assert(whole[0] == '+');
    }
}

/// The CDTOC string of raw READ TOC data starts with the number of audio tracks (every
/// descriptor but the three for the first track, the last track and the leadout) as two
/// lower-case hex digits, then `+`.
pub proof fn lemma_cdtoc_string_track_count(bytes: Seq<u8>)
    requires
        cdtoc_string_of(bytes) is Ok,
        bytes.len() / 11 < 256 + 3,
    ensures
        ({
            let s = cdtoc_string_of(bytes)->Ok_0;
            &&& s.len() >= 3
            &&& is_lower_hex_digit(s[0])
            &&& is_lower_hex_digit(s[1])
            &&& s[2] == '+'
            &&& 16 * hex_digit_value(s[0]) + hex_digit_value(s[1]) == bytes.len() / 11 - 3
        }),
{
    lemma_toc_entries_count(bytes);
    let entries = toc_entries_of(bytes)->Ok_0;
    lemma_sorted_by_key_is_sorted(entries);
    let sorted = sorted_by_key(entries);
    let n = sorted.len();
    let tracks = sorted.take(n - 3);
    lemma_fmt_hex_two_digits(tracks.len());
    lemma_plus_hex_starts_first(tracks);
    let s = cdtoc_string_of(bytes)->Ok_0;
    let head = fmt_hex(tracks.len(), 2);
    assert(s == head + plus_hex_starts(tracks) + seq!['+'] + fmt_hex(sorted[n - 1].start.count(), 2));
    assert(s[0] == head[0]);
    assert(s[1] == head[1]);
    assert(s[2] == plus_hex_starts(tracks)[0]);
}

} // verus!
