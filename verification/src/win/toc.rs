//! The Windows view of an audio CD's table of contents: the raw [`CDROM_TOC`] that
//! `IOCTL_CDROM_READ_TOC_EX` fills, and the `.cda` files that Windows shows for each track.
//!
//! Glues together [`cdtoc::Toc`], [`CDROM_TOC`] and [`CdaFile`].
use cdtoc::{Toc, TocError};
use vstd::prelude::*;

use super::bindings::{CDROM_TOC, TRACK_DATA};
use crate::cd_toc::{toc_audio_leadout, toc_audio_sectors, toc_from_audio_parts, toc_leadout, valid_audio_parts};
use crate::hex::{hex_to_bytes, parsed_hex};
use crate::text::{push_dec, push_str};
use crate::toc::{leadin, msf_frames, Frame, Msf, TocEntry};
use crate::track::Track;
use vstd::std_specs::convert::FromSpecImpl;

verus! {

broadcast use {vstd::array::group_array_axioms, crate::toc::group_frame};

/// Size in bytes of a [`CDROM_TOC`].
pub const TOC_SIZE: usize = 804;

/// Size in bytes of a `.cda` file.
pub const CDA_LEN: usize = 44;

/// Track number that marks the lead-out descriptor of a [`CDROM_TOC`].
pub const LEADOUT_TRACK: u8 = 170;

/// The big-endian value of four bytes.
pub open spec fn be_u32(b: Seq<u8>) -> nat {
    (b[0] as nat) * 16777216 + (b[1] as nat) * 65536 + (b[2] as nat) * 256 + b[3] as nat
}

/// The little-endian value of four bytes of `b`, from `at`.
pub open spec fn le_u32_at(b: Seq<u8>, at: int) -> nat {
    b[at] as nat + (b[at + 1] as nat) * 256 + (b[at + 2] as nat) * 65536 + (b[at + 3] as nat)
        * 16777216
}

/// The little-endian value of two bytes of `b`, from `at`.
pub open spec fn le_u16_at(b: Seq<u8>, at: int) -> nat {
    b[at] as nat + (b[at + 1] as nat) * 256
}

/// The relative start address of a track descriptor, plus the lead-in, fits a `usize`.
pub open spec fn track_data_fits(t: TRACK_DATA) -> bool {
    be_u32(t.Address@) + 150 <= usize::MAX
}

/// Every track descriptor of a TOC has an address that fits a `usize` with the lead-in.
pub open spec fn toc_addresses_fit(toc: CDROM_TOC) -> bool {
    forall|i: int| 0 <= i < 100 ==> track_data_fits(#[trigger] toc.TrackData@[i])
}

/// The TOC entry that a track descriptor stands for: its track number, and its big-endian
/// address plus the lead-in as the absolute start.
pub open spec fn entry_of_track_data(t: TRACK_DATA) -> TocEntry {
    TocEntry { track: t.TrackNumber, start: Frame::of((be_u32(t.Address@) + 150) as usize) }
}

/// A track descriptor is an audio track: its number is in `1..0xA0`.
pub open spec fn is_audio_track(t: TRACK_DATA) -> bool {
    1 <= t.TrackNumber < 0xA0
}

/// The TOC entries of the audio descriptors of `ts`, in order.
pub open spec fn audio_entries(ts: Seq<TRACK_DATA>) -> Seq<TocEntry>
    decreases ts.len(),
{
    if ts.len() == 0 {
        Seq::empty()
    } else if is_audio_track(ts.last()) {
        audio_entries(ts.drop_last()).push(entry_of_track_data(ts.last()))
    } else {
        audio_entries(ts.drop_last())
    }
}

/// The first lead-out descriptor of `ts`, if any.
pub open spec fn leadout_track_data(ts: Seq<TRACK_DATA>) -> Option<TRACK_DATA>
    decreases ts.len(),
{
    if ts.len() == 0 {
        None
    } else if ts[0].TrackNumber == 170 {
        Some(ts[0])
    } else {
        leadout_track_data(ts.drop_first())
    }
}

/// Byte `k` of the raw layout of a [`CDROM_TOC`]: `Length` (2 bytes), `FirstTrack`,
/// `LastTrack`, then 100 track descriptors of 8 bytes (`Reserved`, `_bitfield`,
/// `TrackNumber`, `Reserved1`, `Address`).
pub open spec fn toc_byte(t: CDROM_TOC, k: int) -> u8 {
    if k < 2 {
        t.Length@[k]
    } else if k == 2 {
        t.FirstTrack
    } else if k == 3 {
        t.LastTrack
    } else {
        track_data_byte(t.TrackData@[(k - 4) / 8], (k - 4) % 8)
    }
}

/// Byte `o` of the raw layout of a track descriptor.
pub open spec fn track_data_byte(d: TRACK_DATA, o: int) -> u8 {
    if o == 0 {
        d.Reserved
    } else if o == 1 {
        d._bitfield
    } else if o == 2 {
        d.TrackNumber
    } else if o == 3 {
        d.Reserved1
    } else {
        d.Address@[o - 4]
    }
}

/// The raw bytes of a [`CDROM_TOC`], as Windows lays it out.
pub open spec fn toc_bytes(t: CDROM_TOC) -> Seq<u8> {
    Seq::new(804, |k: int| toc_byte(t, k))
}

/// Why a [`CDROM_TOC`] could not be read as a [`Toc`].
#[derive(Debug)]
pub enum CdromTocError {
    /// No lead-out descriptor.
    NoLeadout,
    /// `cdtoc` refused the audio start sectors and leadout.
    Invalid(TocError),
}

impl TocEntry {
    /// The TOC entry for a Windows track descriptor: its track number, and its big-endian
    /// relative address plus the 150-frame lead-in as the absolute start.
    pub fn from_track_data(track_data: &TRACK_DATA) -> (r: TocEntry)
        requires
            track_data_fits(*track_data),
        ensures
            r == entry_of_track_data(*track_data),
    {
        let a = track_data.Address;
        let relative: u32 = a[0] as u32 * 16777216 + a[1] as u32 * 65536 + a[2] as u32 * 256
            + a[3] as u32;
        assert(relative == be_u32(a@));
        let start = Frame::new(relative as usize) + leadin();
        TocEntry { track: track_data.TrackNumber, start }
    }
}

impl CDROM_TOC {
    /// Whether every track descriptor has an address that fits a `usize` with the lead-in (see
    /// [`toc_addresses_fit`]), as reading the TOC as a disc needs.
    pub fn addresses_fit(&self) -> (r: bool)
        ensures
            r == toc_addresses_fit(*self),
    {
        let mut i: usize = 0;
        while i < 100
            invariant
                i <= 100,
                forall|j: int| 0 <= j < i ==> track_data_fits(#[trigger] self.TrackData@[j]),
            decreases 100 - i,
        {
            let a = self.TrackData[i].Address;
            let relative: u64 = a[0] as u64 * 16777216 + a[1] as u64 * 65536 + a[2] as u64 * 256
                + a[3] as u64;
            assert(relative == be_u32(a@));
            if relative + 150 > usize::MAX as u64 {
                return false;
            }
            i = i + 1;
        }
        true
    }

    /// Read a [`CDROM_TOC`] from its raw bytes (see [`toc_bytes`]), which must number
    /// [`TOC_SIZE`].
    pub fn from_raw_bytes(bytes: Vec<u8>) -> (r: CDROM_TOC)
        requires
            bytes@.len() == 804,
        ensures
            toc_bytes(r) == bytes@,
    {
        let mut td: [TRACK_DATA; 100] = [TRACK_DATA::zeroed(); 100];
        let mut j: usize = 0;
        while j < 100
            invariant
                bytes@.len() == 804,
                j <= 100,
                forall|i: int, o: int|
                    0 <= i < j && 0 <= o < 8 ==> #[trigger] track_data_byte(td@[i], o)
                        == bytes@[4 + 8 * i + o],
            decreases 100 - j,
        {
            let b = 4 + 8 * j;
            let d = TRACK_DATA {
                Reserved: bytes[b],
                _bitfield: bytes[b + 1],
                TrackNumber: bytes[b + 2],
                Reserved1: bytes[b + 3],
                Address: [bytes[b + 4], bytes[b + 5], bytes[b + 6], bytes[b + 7]],
            };
            let ghost before = td;
            td[j] = d;
            proof {
                assert(d.Address@ == seq![
                    bytes@[b + 4],
                    bytes@[b + 5],
                    bytes@[b + 6],
                    bytes@[b + 7],
                ]);
                assert forall|i: int, o: int|
                    0 <= i < j + 1 && 0 <= o < 8 implies #[trigger] track_data_byte(td@[i], o)
                    == bytes@[4 + 8 * i + o] by {
                    if i < j {
                        assert(td@[i] == before@[i]);
                    } else {
                        assert(td@[i] == d);
                    }
                }
            }
            j = j + 1;
        }
        let r = CDROM_TOC {
            Length: [bytes[0], bytes[1]],
            FirstTrack: bytes[2],
            LastTrack: bytes[3],
            TrackData: td,
        };
        proof {
            assert(r.Length@ == seq![bytes@[0], bytes@[1]]);
            assert forall|k: int| 0 <= k < 804 implies #[trigger] toc_byte(r, k) == bytes@[k] by {
                if k >= 4 {
                    let i = (k - 4) / 8;
                    let o = (k - 4) % 8;
                    assert(k == 4 + 8 * i + o);
                    assert(0 <= i < 100);
                    assert(track_data_byte(td@[i], o) == bytes@[4 + 8 * i + o]);
                }
            }
            assert(toc_bytes(r) =~= bytes@);
        }
        r
    }

    /// Read a [`CDROM_TOC`] from a hex dump of its raw bytes (see [`hex_to_bytes`]); `None`
    /// when the dump does not parse or does not hold [`TOC_SIZE`] bytes.
    pub fn from_hex_dump(dump: &str) -> (r: Option<CDROM_TOC>)
        ensures
            match r {
                Some(t) => parsed_hex(dump@) == Some(toc_bytes(t)),
                None => !(parsed_hex(dump@) matches Some(b) && b.len() == 804),
            },
    {
        match hex_to_bytes(dump) {
            Ok(bytes) => if bytes.len() == TOC_SIZE {
                Some(CDROM_TOC::from_raw_bytes(bytes))
            } else {
                None
            },
            Err(_) => None,
        }
    }

    /// The raw bytes of this TOC (see [`toc_bytes`]).
    pub fn to_raw_bytes(&self) -> (r: Vec<u8>)
        ensures
            r@ == toc_bytes(*self),
    {
        let mut out: Vec<u8> = Vec::new();
        out.push(self.Length[0]);
        out.push(self.Length[1]);
        out.push(self.FirstTrack);
        out.push(self.LastTrack);
        let mut j: usize = 0;
        while j < 100
            invariant
                j <= 100,
                out@.len() == 4 + 8 * j,
                forall|k: int| 0 <= k < 4 + 8 * j ==> #[trigger] out@[k] == toc_byte(*self, k),
            decreases 100 - j,
        {
            let d = self.TrackData[j];
            let ghost before = out@;
            out.push(d.Reserved);
            out.push(d._bitfield);
            out.push(d.TrackNumber);
            out.push(d.Reserved1);
            out.push(d.Address[0]);
            out.push(d.Address[1]);
            out.push(d.Address[2]);
            out.push(d.Address[3]);
            proof {
                assert forall|k: int| 0 <= k < 4 + 8 * (j + 1) implies #[trigger] out@[k]
                    == toc_byte(*self, k) by {
                    if k >= 4 + 8 * j {
                        let o = k - (4 + 8 * j);
                        assert((k - 4) / 8 == j) by (nonlinear_arith)
                            requires
                                k - (4 + 8 * j) == o,
                                0 <= o < 8,
                        ;
                        assert((k - 4) % 8 == o) by (nonlinear_arith)
                            requires
                                k - (4 + 8 * j) == o,
                                0 <= o < 8,
                        ;
                    } else {
                        assert(out@[k] == before[k]);
                    }
                }
            }
            j = j + 1;
        }
        assert(out@ =~= toc_bytes(*self));
        out
    }

    /// The TOC entries of the audio tracks: the descriptors numbered `1..0xA0`, in order.
    pub fn iter_audio(&self) -> (r: Vec<TocEntry>)
        requires
            toc_addresses_fit(*self),
        ensures
            r@ == audio_entries(self.TrackData@),
    {
        let mut out: Vec<TocEntry> = Vec::new();
        let mut j: usize = 0;
        while j < 100
            invariant
                j <= 100,
                toc_addresses_fit(*self),
                out@ == audio_entries(self.TrackData@.take(j as int)),
            decreases 100 - j,
        {
            let d = self.TrackData[j];
            assert(self.TrackData@.take(j + 1).drop_last() =~= self.TrackData@.take(j as int));
            if 1 <= d.TrackNumber && d.TrackNumber < 0xA0 {
                out.push(TocEntry::from_track_data(&d));
            }
            j = j + 1;
        }
        assert(self.TrackData@.take(100) =~= self.TrackData@);
        out
    }

    /// The absolute start of the lead-out: the start of the first descriptor numbered 170.
    pub fn leadout(&self) -> (r: Result<Frame, CdromTocError>)
        requires
            toc_addresses_fit(*self),
        ensures
            match r {
                Ok(f) => leadout_track_data(self.TrackData@) matches Some(t) && f
                    == entry_of_track_data(t).start,
                Err(e) => e is NoLeadout && leadout_track_data(self.TrackData@) is None,
            },
    {
        let mut j: usize = 0;
        assert(self.TrackData@.skip(0) =~= self.TrackData@);
        while j < 100
            invariant
                j <= 100,
                toc_addresses_fit(*self),
                leadout_track_data(self.TrackData@) == leadout_track_data(
                    self.TrackData@.skip(j as int),
                ),
            decreases 100 - j,
        {
            let d = self.TrackData[j];
            let ghost rest = self.TrackData@.skip(j as int);
            assert(rest[0] == d);
            assert(rest.drop_first() =~= self.TrackData@.skip(j + 1));
            if d.TrackNumber == LEADOUT_TRACK {
                return Ok(TocEntry::from_track_data(&d).start);
            }
            j = j + 1;
        }
        assert(self.TrackData@.skip(100) =~= Seq::<TRACK_DATA>::empty());
        Err(CdromTocError::NoLeadout)
    }

    /// The table of contents of the audio tracks: their start sectors (the absolute starts of
    /// [`CDROM_TOC::iter_audio`] as `u32`) and the lead-out, as `Toc::from_parts` builds it.
    pub fn as_toc(&self) -> (r: Result<Toc, CdromTocError>)
        requires
            toc_addresses_fit(*self),
        ensures
            match r {
                Ok(toc) => leadout_track_data(self.TrackData@) matches Some(t) && {
                    let audio = entry_sectors(audio_entries(self.TrackData@));
                    let leadout = frame_sector(entry_of_track_data(t).start);
                    &&& valid_audio_parts(audio, leadout)
                    &&& toc_audio_sectors(toc) == audio
                    &&& toc_leadout(toc) == leadout
                    &&& toc_audio_leadout(toc) == leadout
                },
                Err(CdromTocError::NoLeadout) => leadout_track_data(self.TrackData@) is None,
                Err(CdromTocError::Invalid(_)) => leadout_track_data(self.TrackData@) matches Some(
                    t,
                ) && !valid_audio_parts(
                    entry_sectors(audio_entries(self.TrackData@)),
                    frame_sector(entry_of_track_data(t).start),
                ),
            },
    {
        let entries = self.iter_audio();
        let mut audio: Vec<u32> = Vec::new();
        let mut i: usize = 0;
        while i < entries.len()
            invariant
                i <= entries@.len(),
                audio@ == entry_sectors(entries@.take(i as int)),
            decreases entries.len() - i,
        {
            audio.push((entries[i].start.as_usize() as u64 % 0x1_0000_0000) as u32);
            assert(entries@.take(i + 1).drop_last() =~= entries@.take(i as int));
            i = i + 1;
        }
        assert(entries@.take(entries@.len() as int) =~= entries@);
        let leadout = match self.leadout() {
            Ok(f) => (f.as_usize() as u64 % 0x1_0000_0000) as u32,
            Err(e) => return Err(e),
        };
        match toc_from_audio_parts(audio, leadout) {
            Ok(toc) => Ok(toc),
            Err(e) => Err(CdromTocError::Invalid(e)),
        }
    }
}

/// A frame position as a `u32` sector (its count, modulo 2^32, as `as u32` gives it).
pub open spec fn frame_sector(f: Frame) -> u32 {
    (f.count() % 0x1_0000_0000) as u32
}

/// The start sectors of TOC entries.
pub open spec fn entry_sectors(entries: Seq<TocEntry>) -> Seq<u32>
    decreases entries.len(),
{
    if entries.len() == 0 {
        Seq::empty()
    } else {
        entry_sectors(entries.drop_last()).push(frame_sector(entries.last().start))
    }
}

/// The raw layout determines a [`CDROM_TOC`]: two TOCs with the same bytes are equal, so
/// reading back the bytes of a TOC gives that TOC.
pub proof fn lemma_toc_bytes_determine_toc(a: CDROM_TOC, b: CDROM_TOC)
    requires
        toc_bytes(a) == toc_bytes(b),
    ensures
        a == b,
{
    assert forall|k: int| 0 <= k < 804 implies toc_byte(a, k) == toc_byte(b, k) by {
        assert(toc_bytes(a)[k] == toc_byte(a, k));
        assert(toc_bytes(b)[k] == toc_byte(b, k));
        assert(toc_bytes(a)[k] == toc_bytes(b)[k]);
    }
    assert(toc_byte(a, 0) == toc_byte(b, 0));
    assert(toc_byte(a, 1) == toc_byte(b, 1));
    assert(a.Length@ =~= b.Length@);
    assert(toc_byte(a, 2) == toc_byte(b, 2));
    assert(toc_byte(a, 3) == toc_byte(b, 3));
    assert forall|i: int| 0 <= i < 100 implies a.TrackData@[i] == b.TrackData@[i] by {
        let da = a.TrackData@[i];
        let db = b.TrackData@[i];
        assert forall|o: int| 0 <= o < 8 implies track_data_byte(da, o) == track_data_byte(db, o) by {
            let k = 4 + 8 * i + o;
            assert((k - 4) / 8 == i) by (nonlinear_arith)
                requires
                    k == 4 + 8 * i + o,
                    0 <= o < 8,
                    0 <= i,
            ;
            assert((k - 4) % 8 == o) by (nonlinear_arith)
                requires
                    k == 4 + 8 * i + o,
                    0 <= o < 8,
                    0 <= i,
            ;
            assert(toc_byte(a, k) == toc_byte(b, k));
        }
        assert(track_data_byte(da, 0) == track_data_byte(db, 0));
        assert(track_data_byte(da, 1) == track_data_byte(db, 1));
        assert(track_data_byte(da, 2) == track_data_byte(db, 2));
        assert(track_data_byte(da, 3) == track_data_byte(db, 3));
        assert(track_data_byte(da, 4) == track_data_byte(db, 4));
        assert(track_data_byte(da, 5) == track_data_byte(db, 5));
        assert(track_data_byte(da, 6) == track_data_byte(db, 6));
        assert(track_data_byte(da, 7) == track_data_byte(db, 7));
        assert(da.Address@ =~= db.Address@);
        assert(da.Address =~= db.Address);
    }
    assert(a.TrackData =~= b.TrackData);
    assert(a.Length =~= b.Length);
}

/// Why the contents of a `.cda` file were rejected.
#[derive(Debug, Clone, Copy, PartialEq, Eq, Structural)]
pub enum CdaError {
    /// The file does not have 44 bytes; the length found.
    WrongLength(usize),
    /// The file does not start with `RIFF`.
    MissingRiff,
    /// The RIFF chunk size is not 36; the size found.
    RiffChunkSize(u32),
    /// The RIFF form type is not `CDDA`.
    MissingCdda,
    /// The format chunk is not `fmt `.
    MissingFmt,
    /// The format chunk size is not 24; the size found.
    FmtChunkSize(u32),
    /// The file version is not 1; the version found.
    UnknownVersion(u16),
    /// The start as a relative frame and as minutes, seconds and frames disagree.
    MismatchedStart,
    /// A padding byte after the start or the duration is not zero.
    MissingNullByte,
    /// The duration in frames and as minutes, seconds and frames disagree.
    MismatchedDuration,
}

impl CdaError {
    /// The message for this error.
    pub fn message(&self) -> (r: String)
        ensures
            r@.len() > 0,
    {
        let mut m = String::new();
        match self {
            CdaError::WrongLength(n) => {
                push_str(&mut m, "invalid CDA file: expected 44 bytes, got ");
                push_dec(&mut m, *n as u64, 0);
            },
            CdaError::MissingRiff => push_str(&mut m, "Missing or invalid RIFF header"),
            CdaError::RiffChunkSize(n) => {
                push_str(&mut m, "Invalid chunk size: expected 36, got ");
                push_dec(&mut m, *n as u64, 0);
            },
            CdaError::MissingCdda => push_str(&mut m, "Missing or invalid CDDA identifier"),
            CdaError::MissingFmt => push_str(&mut m, "Missing or invalid fmt identifier"),
            CdaError::FmtChunkSize(n) => {
                push_str(&mut m, "Invalid chunk size: expected 24, got ");
                push_dec(&mut m, *n as u64, 0);
            },
            CdaError::UnknownVersion(v) => {
                push_str(&mut m, "unknown cda file version ");
                push_dec(&mut m, *v as u64, 0);
            },
            CdaError::MismatchedStart => push_str(&mut m, "mismatched start"),
            CdaError::MissingNullByte => push_str(&mut m, "missing null byte"),
            CdaError::MismatchedDuration => push_str(&mut m, "mismatched duration"),
        }
        proof {
            reveal_strlit("invalid CDA file: expected 44 bytes, got ");
            reveal_strlit("Missing or invalid RIFF header");
            reveal_strlit("Invalid chunk size: expected 36, got ");
            reveal_strlit("Missing or invalid CDDA identifier");
            reveal_strlit("Missing or invalid fmt identifier");
            reveal_strlit("Invalid chunk size: expected 24, got ");
            reveal_strlit("unknown cda file version ");
            reveal_strlit("mismatched start");
            reveal_strlit("missing null byte");
            reveal_strlit("mismatched duration");
        }
        m
    }
}

/// A Windows `.cda` file: the TOC information that Windows gives for one track of an audio CD.
///
/// See <https://en.wikipedia.org/wiki/.cda_file>.
#[derive(Debug, Clone, Copy, PartialEq, Eq)]
pub struct CdaFile {
    /// The first track has the number 1.
    track_number: u16,
    /// Identifier calculated by Windows for cdplayer.exe.
    windows_identifier: u32,
    /// *Absolute* start position, including the 2 s lead-in (track 1 is usually at 0:2:0).
    /// Windows stores the absolute time but the *relative* frame.
    start: Msf,
    /// Duration of the track.
    duration: Msf,
}

/// Four bytes of `b`, from `at`, are the ASCII tag `tag`.
pub open spec fn has_tag(b: Seq<u8>, at: int, tag: Seq<u8>) -> bool {
    b.subrange(at, at + 4) == tag
}

/// What the 44 bytes of a `.cda` file hold: the track number, the Windows identifier, the
/// start and the duration; or the first check that fails, in the order they are made.
pub open spec fn cda_contents(b: Seq<u8>) -> Result<(u16, u32, Msf, Msf), CdaError> {
    if b.len() != 44 {
        Err(CdaError::WrongLength(b.len() as usize))
    } else if !has_tag(b, 0, seq![82u8, 73, 70, 70]) {
        Err(CdaError::MissingRiff)
    } else if le_u32_at(b, 4) != 36 {
        Err(CdaError::RiffChunkSize(le_u32_at(b, 4) as u32))
    } else if !has_tag(b, 8, seq![67u8, 68, 68, 65]) {
        Err(CdaError::MissingCdda)
    } else if !has_tag(b, 12, seq![102u8, 109, 116, 32]) {
        Err(CdaError::MissingFmt)
    } else if le_u32_at(b, 16) != 24 {
        Err(CdaError::FmtChunkSize(le_u32_at(b, 16) as u32))
    } else if le_u16_at(b, 20) != 1 {
        Err(CdaError::UnknownVersion(le_u16_at(b, 20) as u16))
    } else {
        let start = Msf::of(b[38], b[37], b[36]);
        let duration = Msf::of(b[42], b[41], b[40]);
        if msf_frames(start) != le_u32_at(b, 28) + 150 {
            Err(CdaError::MismatchedStart)
        } else if b[39] != 0 {
            Err(CdaError::MissingNullByte)
        } else if msf_frames(duration) != le_u32_at(b, 32) {
            Err(CdaError::MismatchedDuration)
        } else if b[43] != 0 {
            Err(CdaError::MissingNullByte)
        } else {
            Ok((le_u16_at(b, 22) as u16, le_u32_at(b, 24) as u32, start, duration))
        }
    }
}

/// The little-endian `u32` of four bytes of `b`, from `at`.
fn read_le_u32(b: &Vec<u8>, at: usize) -> (r: u32)
    requires
        b@.len() == 44,
        at <= 40,
    ensures
        r == le_u32_at(b@, at as int),
{
    b[at] as u32 + b[at + 1] as u32 * 256 + b[at + 2] as u32 * 65536 + b[at + 3] as u32 * 16777216
}

/// Whether four bytes of `b`, from `at`, are the tag `t0 t1 t2 t3`.
fn read_tag(b: &Vec<u8>, at: usize, t0: u8, t1: u8, t2: u8, t3: u8) -> (r: bool)
    requires
        b@.len() == 44,
        at <= 40,
    ensures
        r == has_tag(b@, at as int, seq![t0, t1, t2, t3]),
{
    let r = b[at] == t0 && b[at + 1] == t1 && b[at + 2] == t2 && b[at + 3] == t3;
    proof {
        if r {
            assert(b@.subrange(at as int, at + 4) =~= seq![t0, t1, t2, t3]);
        } else {
            let s = b@.subrange(at as int, at + 4);
            if s == seq![t0, t1, t2, t3] {
                assert(s[0] == t0 && s[1] == t1 && s[2] == t2 && s[3] == t3);
            }
        }
    }
    r
}

impl CdaFile {
    /// The track number, as a spec value.
    pub closed spec fn spec_track_number(&self) -> u16 {
        self.track_number
    }

    /// The Windows identifier, as a spec value.
    pub closed spec fn spec_windows_identifier(&self) -> u32 {
        self.windows_identifier
    }

    /// The absolute start, as a spec value.
    pub closed spec fn spec_start(&self) -> Msf {
        self.start
    }

    /// The duration, as a spec value.
    pub closed spec fn spec_duration(&self) -> Msf {
        self.duration
    }

    /// The track number (the first track has the number 1).
    pub fn track_number(&self) -> (r: u16)
        ensures
            r == self.spec_track_number(),
    {
        self.track_number
    }

    /// The identifier calculated by Windows.
    pub fn windows_identifier(&self) -> (r: u32)
        ensures
            r == self.spec_windows_identifier(),
    {
        self.windows_identifier
    }

    /// The absolute start, including the lead-in.
    pub fn start(&self) -> (r: Msf)
        ensures
            r == self.spec_start(),
    {
        self.start
    }

    /// The duration.
    pub fn duration(&self) -> (r: Msf)
        ensures
            r == self.spec_duration(),
    {
        self.duration
    }

    /// Read a `.cda` file from its contents, checking its layout: 44 bytes; `RIFF`, a chunk
    /// size of 36, `CDDA`, `fmt `, a chunk size of 24 and version 1; the track number, the
    /// Windows identifier, the start as a frame relative to the lead-in and the duration in
    /// frames (each little-endian); then the start and the duration again as frames, seconds
    /// and minutes, each followed by a zero byte. The two forms of the start and of the
    /// duration must agree.
    pub fn new(contents: Vec<u8>) -> (r: Result<Self, CdaError>)
        ensures
            match r {
                Ok(c) => cda_contents(contents@) == Ok::<(u16, u32, Msf, Msf), CdaError>(
                    (
                        c.spec_track_number(),
                        c.spec_windows_identifier(),
                        c.spec_start(),
                        c.spec_duration(),
                    ),
                ),
                Err(e) => cda_contents(contents@) == Err::<(u16, u32, Msf, Msf), CdaError>(e),
            },
    {
        let b = contents;
        if b.len() != CDA_LEN {
            return Err(CdaError::WrongLength(b.len()));
        }
        if !read_tag(&b, 0, 82, 73, 70, 70) {
            return Err(CdaError::MissingRiff);
        }
        let riff_size = read_le_u32(&b, 4);
        if riff_size != 36 {
            return Err(CdaError::RiffChunkSize(riff_size));
        }
        if !read_tag(&b, 8, 67, 68, 68, 65) {
            return Err(CdaError::MissingCdda);
        }
        if !read_tag(&b, 12, 102, 109, 116, 32) {
            return Err(CdaError::MissingFmt);
        }
        let fmt_size = read_le_u32(&b, 16);
        if fmt_size != 24 {
            return Err(CdaError::FmtChunkSize(fmt_size));
        }
        let version: u16 = b[20] as u16 + b[21] as u16 * 256;
        if version != 1 {
            return Err(CdaError::UnknownVersion(version));
        }
        let track_number: u16 = b[22] as u16 + b[23] as u16 * 256;
        let windows_identifier = read_le_u32(&b, 24);
        let starting_frame = read_le_u32(&b, 28) as u64 + 150;
        let duration_frames = read_le_u32(&b, 32) as u64;
        let start = Msf::new(b[38], b[37], b[36]);
        if Frame::from(start).as_usize() as u64 != starting_frame {
            return Err(CdaError::MismatchedStart);
        }
        if b[39] != 0 {
            return Err(CdaError::MissingNullByte);
        }
        let duration = Msf::new(b[42], b[41], b[40]);
        if Frame::from(duration).as_usize() as u64 != duration_frames {
            return Err(CdaError::MismatchedDuration);
        }
        if b[43] != 0 {
            return Err(CdaError::MissingNullByte);
        }
        Ok(CdaFile { track_number, windows_identifier, start, duration })
    }
}

/// The track that a `.cda` file describes: its track number (as a byte), start, duration and
/// Windows identifier, without metadata.
pub open spec fn track_of_cda(c: CdaFile) -> Track<'static> {
    Track {
        toc_entry: TocEntry {
            track: (c.spec_track_number() % 256) as u8,
            start: Frame::of(msf_frames(c.spec_start()) as usize),
        },
        duration: Frame::of(msf_frames(c.spec_duration()) as usize),
        windows_identifier: Some(c.spec_windows_identifier()),
        meta: None,
    }
}

impl From<CdaFile> for Track<'static> {
    fn from(cda: CdaFile) -> (r: Track<'static>) {
        Track {
            toc_entry: TocEntry {
                track: (cda.track_number % 256) as u8,
                start: Frame::from(cda.start),
            },
            duration: Frame::from(cda.duration),
            windows_identifier: Some(cda.windows_identifier),
            meta: None,
        }
    }
}

impl FromSpecImpl<CdaFile> for Track<'static> {
    open spec fn obeys_from_spec() -> bool {
        true
    }

    open spec fn from_spec(cda: CdaFile) -> Track<'static> {
        track_of_cda(cda)
    }
}

} // verus!
