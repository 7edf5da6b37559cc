//! Provides [`Track`] and [`RippedTrack`].
use flacenc::component::BitRepr;
use flacenc::error::Verify;
use metaflac::block::VorbisComment;
use vstd::arithmetic::power2::{lemma2_to64, pow2};
use vstd::prelude::*;

use crate::musicbrainz::MbTrack;
use crate::tagging::CoverArt;
use crate::text::{chars_of, dec_char, fmt_dec, is_dec_digit, push_char, push_dec, push_str};
use crate::toc::{Frame, TocEntry};

verus! {

/// A track on a CD: its TOC entry and duration, with MusicBrainz metadata when available.
///
/// The metadata is borrowed from the disc that the track was taken from.
#[derive(Debug, Clone, Copy, PartialEq, Default)]
pub struct Track<'meta> {
    /// TOC entry for this track, containing track number and start position.
    pub toc_entry: TocEntry,
    /// Duration of this track in frames.
    pub duration: Frame,
    /// Windows-specific track identifier (from the `.cda` file).
    pub windows_identifier: Option<u32>,
    /// MusicBrainz track metadata; [`Track::meta`] reads it.
    pub meta: Option<&'meta MbTrack>,
}

impl Track<'static> {
    /// Create a new `Track` with no MusicBrainz metadata.
    pub fn new(track_number: u8, start: Frame, duration: Frame, windows_identifier: Option<u32>) -> (r:
        Self)
        ensures
            r.toc_entry == (TocEntry { track: track_number, start }),
            r.duration == duration,
            r.windows_identifier == windows_identifier,
            r.meta is None,
    {
        let toc_entry = TocEntry { track: track_number, start };
        Track { toc_entry, duration, windows_identifier, meta: None }
    }
}

/// The leading part of a track's file name: the track number as printed on the release (with a
/// `0` in front of a lone digit), or the two-digit TOC track number without metadata.
pub open spec fn track_number_text(t: Track) -> Seq<char> {
    match t.meta {
        Some(m) => if m.number@.len() == 1 && is_dec_digit(m.number@[0]) {
            seq!['0'] + m.number@
        } else {
            m.number@
        },
        None => fmt_dec(t.toc_entry.track as nat, 2),
    }
}

/// The title of a track, or nothing.
pub open spec fn track_title_text(t: Track) -> Seq<char> {
    match t.meta {
        Some(m) => m.title@,
        None => Seq::empty(),
    }
}

impl<'meta> Track<'meta> {
    /// Returns the 1-indexed track number.
    pub fn track_number(&self) -> (r: u8)
        ensures
            r == self.toc_entry.track,
    {
        self.toc_entry.track
    }

    /// Returns the track title from MusicBrainz metadata, if available.
    pub fn title(&self) -> (r: Option<String>)
        ensures
            match r {
                Some(t) => self.meta is Some && t@ == self.meta->Some_0.title@,
                None => self.meta is None,
            },
    {
        match self.meta {
            Some(m) => Some(m.title.clone()),
            None => None,
        }
    }

    /// The track listing as printed on the back of the CD: the track number (always two digits
    /// when numeric) and the title, e.g. "05 Columbia", "A1 Speak to Me".
    pub fn filename(&self) -> (r: String)
        ensures
            r@ == track_number_text(*self) + " "@ + track_title_text(*self),
    {
        let mut out = String::new();
        match self.meta {
            Some(m) => {
                let digits = chars_of(m.number.as_str());
                if digits.len() == 1 && '0' <= digits[0] && digits[0] <= '9' {
                    push_char(&mut out, '0');
                }
                push_str(&mut out, m.number.as_str());
            },
            None => {
                push_dec(&mut out, self.toc_entry.track as u64, 2);
            },
        }
        push_str(&mut out, " ");
        match self.meta {
            Some(m) => push_str(&mut out, m.title.as_str()),
            None => {},
        }
        proof {
            assert(out@ =~= track_number_text(*self) + " "@ + track_title_text(*self));
        }
        out
    }

    /// Returns the MusicBrainz track metadata, if available.
    pub fn meta(&self) -> (r: Option<&'meta MbTrack>)
        ensures
            r == self.meta,
    {
        self.meta
    }
}

/// A ripped audio track: raw CD audio (2352 bytes per frame) with the tags and cover art for
/// its file.
#[derive(Debug)]
pub struct RippedTrack {
    /// The 1-indexed track number on the original CD.
    pub track_number: usize,
    /// The tags for the encoded file.
    pub tags: VorbisComment,
    /// The cover art to embed, if any.
    pub coverart: Option<CoverArt>,
    /// Raw CD audio data (2352 bytes per frame).
    pub raw_data: Vec<u8>,
}

/// The four little-endian bytes of `v`.
pub open spec fn le_u32_bytes(v: nat) -> Seq<u8> {
    seq![(v % 256) as u8, ((v / 256) % 256) as u8, ((v / 65536) % 256) as u8, ((v / 16777216) % 256) as u8]
}

/// The two little-endian bytes of `v`.
pub open spec fn le_u16_bytes(v: nat) -> Seq<u8> {
    seq![(v % 256) as u8, ((v / 256) % 256) as u8]
}

/// The bytes of an ASCII tag of four characters.
pub open spec fn fourcc(a: u8, b: u8, c: u8, d: u8) -> Seq<u8> {
    seq![a, b, c, d]
}

/// The 44-byte header of a 16-bit stereo 44.1 kHz PCM WAV file whose data has `size` bytes.
pub open spec fn wav_header(size: nat) -> Seq<u8> {
    fourcc(82, 73, 70, 70) + le_u32_bytes(size + 36) + fourcc(87, 65, 86, 69) + fourcc(
        102,
        109,
        116,
        32,
    ) + le_u32_bytes(16) + le_u16_bytes(1) + le_u16_bytes(2) + le_u32_bytes(44100) + le_u32_bytes(
        176400,
    ) + le_u16_bytes(4) + le_u16_bytes(16) + fourcc(100, 97, 116, 97) + le_u32_bytes(size)
}

/// A 16-bit sample from its two little-endian bytes.
pub open spec fn le_i16(lo: u8, hi: u8) -> int {
    let v = lo as int + 256 * hi as int;
    if v >= 32768 {
        v - 65536
    } else {
        v
    }
}

/// The 16-bit samples of raw CD audio (left and right interleaved); a trailing odd byte is
/// ignored.
pub open spec fn pcm_samples(raw: Seq<u8>) -> Seq<i32> {
    Seq::new(raw.len() / 2, |k: int| le_i16(raw[2 * k], raw[2 * k + 1]) as i32)
}

/// The FLAC stream that encodes interleaved samples of `channels` channels, `bits_per_sample`
/// bits and `sample_rate` Hz with the default encoder settings, if encoding succeeds.
pub uninterp spec fn flac_stream(
    samples: Seq<i32>,
    channels: usize,
    bits_per_sample: usize,
    sample_rate: usize,
) -> Option<Seq<u8>>;

/// Channels of CD audio.
pub const CD_CHANNELS: usize = 2;

/// Bits per sample of CD audio.
pub const CD_BITS_PER_SAMPLE: usize = 16;

/// Samples per second of CD audio.
pub const CD_SAMPLE_RATE: usize = 44100;

/// The FLAC stream of CD audio samples: 16-bit stereo at 44.1 kHz.
pub open spec fn cd_flac_stream(samples: Seq<i32>) -> Option<Seq<u8>> {
    flac_stream(samples, CD_CHANNELS, CD_BITS_PER_SAMPLE, CD_SAMPLE_RATE)
}

/// The most samples the encoder takes: it numbers its frames of 4096 samples per channel below
/// 2^31, and a frame number out of range panics in its threads.
pub const MAX_FLAC_SAMPLES: u64 = 0x800_0000_0000;

/// The most bytes of raw audio that [`RippedTrack::to_flac`] encodes: two per sample.
pub const MAX_FLAC_RAW_BYTES: u64 = 0x1000_0000_0000;

/// Every sample fits in `bits_per_sample` bits, as a signed value.
pub open spec fn samples_fit(samples: Seq<i32>, bits_per_sample: nat) -> bool {
    forall|i: int|
        0 <= i < samples.len() ==> -(pow2((bits_per_sample - 1) as nat) as int) <= #[trigger] samples[i]
            < pow2((bits_per_sample - 1) as nat)
}

/// The samples of raw CD audio fit in 16 bits.
proof fn lemma_pcm_samples_fit(raw: Seq<u8>)
    ensures
        samples_fit(pcm_samples(raw), 16),
{
    lemma2_to64();
    assert forall|i: int| 0 <= i < pcm_samples(raw).len() implies -(pow2(15) as int)
        <= #[trigger] pcm_samples(raw)[i] < pow2(15) by {
        let v = le_i16(raw[2 * i], raw[2 * i + 1]);
        assert(-32768 <= v < 32768);
    }
}

/// FLAC-encode interleaved samples with `flacenc`'s default settings
/// (`MemSource::from_samples`, `encode_with_fixed_block_size`, then writing the stream to a
/// byte sink). The default encoder works in threads, where a sample or frame number out of
/// range panics rather than failing, so: the number of samples stays below
/// [`MAX_FLAC_SAMPLES`], every sample fits in the bits per sample, and the format stays within
/// the ranges that `flacenc` checks for a stream (1 to 8 channels, 8 to 24 bits per sample, at
/// most 96 kHz), so that no field is truncated.
#[verifier::external_body]
fn encode_flac(samples: &Vec<i32>, channels: usize, bits_per_sample: usize, sample_rate: usize) -> (r:
    Option<Vec<u8>>)
    requires
        1 <= channels <= 8,
        8 <= bits_per_sample <= 24,
        1 <= sample_rate <= 96_000,
        samples_fit(samples@, bits_per_sample as nat),
        samples@.len() < MAX_FLAC_SAMPLES,
    ensures
        match r {
            Some(bytes) => flac_stream(samples@, channels, bits_per_sample, sample_rate) == Some(
                bytes@,
            ),
            None => flac_stream(samples@, channels, bits_per_sample, sample_rate) is None,
        },
{
    let config = flacenc::config::Encoder::default().into_verified().ok()?;
    let source =
        flacenc::source::MemSource::from_samples(samples, channels, bits_per_sample, sample_rate);
    let stream = flacenc::encode_with_fixed_block_size(&config, source, config.block_size).ok()?;
    let mut sink = flacenc::bitsink::ByteSink::new();
    stream.write(&mut sink).ok()?;
    Some(sink.into_inner())
}

fn push_le_u32(out: &mut Vec<u8>, v: u32)
    ensures
        final(out)@ == old(out)@ + le_u32_bytes(v as nat),
{
    out.push((v % 256) as u8);
    out.push(((v / 256) % 256) as u8);
    out.push(((v / 65536) % 256) as u8);
    out.push(((v / 16777216) % 256) as u8);
    assert(out@ =~= old(out)@ + le_u32_bytes(v as nat));
}

fn push_le_u16(out: &mut Vec<u8>, v: u16)
    ensures
        final(out)@ == old(out)@ + le_u16_bytes(v as nat),
{
    out.push((v % 256) as u8);
    out.push(((v / 256) % 256) as u8);
    assert(out@ =~= old(out)@ + le_u16_bytes(v as nat));
}

fn push_fourcc(out: &mut Vec<u8>, a: u8, b: u8, c: u8, d: u8)
    ensures
        final(out)@ == old(out)@ + fourcc(a, b, c, d),
{
    out.push(a);
    out.push(b);
    out.push(c);
    out.push(d);
    assert(out@ =~= old(out)@ + fourcc(a, b, c, d));
}

impl RippedTrack {
    /// The 16-bit samples of the raw audio, as `to_flac` encodes them.
    pub fn samples(&self) -> (r: Vec<i32>)
        ensures
            r@ == pcm_samples(self.raw_data@),
    {
        let len = self.raw_data.len();
        let n = len / 2;
        let mut out: Vec<i32> = Vec::new();
        let mut k: usize = 0;
        while k < n
            invariant
                len == self.raw_data@.len(),
                n == len / 2,
                k <= n,
                out@ == pcm_samples(self.raw_data@).take(k as int),
            decreases n - k,
        {
            let lo = self.raw_data[2 * k];
            let hi = self.raw_data[2 * k + 1];
            let v: i32 = lo as i32 + 256 * hi as i32;
            let s: i32 = if v >= 32768 {
                v - 65536
            } else {
                v
            };
            out.push(s);
            assert(out@ =~= pcm_samples(self.raw_data@).take(k + 1));
            k = k + 1;
        }
        assert(out@ =~= pcm_samples(self.raw_data@));
        out
    }

    /// Encodes the raw audio to FLAC (16-bit stereo at 44.1 kHz), when the encoder accepts it.
    pub fn to_flac(&self) -> (r: Vec<u8>)
        requires
            self.raw_data@.len() < MAX_FLAC_RAW_BYTES,
            cd_flac_stream(pcm_samples(self.raw_data@)) is Some,
        ensures
            Some(r@) == cd_flac_stream(pcm_samples(self.raw_data@)),
    {
        let samples = self.samples();
        proof {
            lemma_pcm_samples_fit(self.raw_data@);
        }
        encode_flac(&samples, CD_CHANNELS, CD_BITS_PER_SAMPLE, CD_SAMPLE_RATE).unwrap()
    }

    /// Whether the encoder accepts the raw audio (see [`RippedTrack::to_flac`]).
    pub fn can_encode_flac(&self) -> (r: bool)
        requires
            self.raw_data@.len() < MAX_FLAC_RAW_BYTES,
        ensures
            r == cd_flac_stream(pcm_samples(self.raw_data@)) is Some,
    {
        let samples = self.samples();
        proof {
            lemma_pcm_samples_fit(self.raw_data@);
        }
        encode_flac(&samples, CD_CHANNELS, CD_BITS_PER_SAMPLE, CD_SAMPLE_RATE).is_some()
    }

    /// Encodes the raw audio to FLAC, or `None` when the encoder refuses it.
    pub fn try_to_flac(&self) -> (r: Option<Vec<u8>>)
        requires
            self.raw_data@.len() < MAX_FLAC_RAW_BYTES,
        ensures
            match r {
                Some(bytes) => cd_flac_stream(pcm_samples(self.raw_data@)) == Some(bytes@),
                None => cd_flac_stream(pcm_samples(self.raw_data@)) is None,
            },
    {
        if self.can_encode_flac() {
            Some(self.to_flac())
        } else {
            None
        }
    }

    /// Encodes the raw audio to WAV: a 44-byte RIFF header for 16-bit stereo 44.1 kHz PCM,
    /// followed by the data unchanged. The sizes in the header are 32-bit.
    pub fn to_wav(&self) -> (r: Vec<u8>)
        requires
            self.raw_data@.len() % 0x1_0000_0000 + 36 <= u32::MAX,
        ensures
            r@ == wav_header(self.raw_data@.len() % 0x1_0000_0000) + self.raw_data@,
    {
        let pcm = &self.raw_data;
        let size: u32 = (pcm.len() as u64 % 0x1_0000_0000) as u32;
        let mut wav: Vec<u8> = Vec::new();
        push_fourcc(&mut wav, 82, 73, 70, 70);
        push_le_u32(&mut wav, size + 36);
        push_fourcc(&mut wav, 87, 65, 86, 69);
        push_fourcc(&mut wav, 102, 109, 116, 32);
        push_le_u32(&mut wav, 16);
        push_le_u16(&mut wav, 1);
        push_le_u16(&mut wav, 2);
        push_le_u32(&mut wav, 44100);
        push_le_u32(&mut wav, 176400);
        push_le_u16(&mut wav, 4);
        push_le_u16(&mut wav, 16);
        push_fourcc(&mut wav, 100, 97, 116, 97);
        push_le_u32(&mut wav, size);
        let ghost header = wav@;
        assert(header =~= wav_header(size as nat));
        let mut i: usize = 0;
        while i < pcm.len()
            invariant
                i <= pcm@.len(),
                wav@ == header + pcm@.take(i as int),
            decreases pcm.len() - i,
        {
            wav.push(pcm[i]);
            i = i + 1;
            assert(wav@ =~= header + pcm@.take(i as int));
        }
        assert(pcm@.take(pcm@.len() as int) =~= pcm@);
        wav
    }
}

} // verus!
