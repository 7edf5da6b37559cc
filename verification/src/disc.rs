//! Disc metadata: the table of contents and tracks of a physical CD, the MusicBrainz data found
//! for it, the release and medium selected from that data, and the tags derived from them.
//!
//! The MusicBrainz lookup and the cover art download are made by the caller, which hands the
//! results to [`Disc::set_musicbrainz`] and [`Disc::receive_cover_art`].
use cdtoc::Toc;
use metaflac::block::VorbisComment;
use vstd::prelude::*;

use crate::cd_toc::{
    cd_duration_dhmsf, cd_track_duration, cd_track_from, cd_track_msf,
    cd_track_to, sectors_to_dhmsf, sectors_to_msf, toc_audio_leadout, toc_audio_leadout_sector,
    toc_audio_sectors, toc_audio_start_sectors, toc_audio_track, toc_leadout,
    toc_leadout_sector, toc_musicbrainz_disc_id, musicbrainz_disc_id, valid_audio_parts,
};
use crate::toc::{msf_of_frames, Frame, Msf};
use crate::musicbrainz::{date_year, Discid, MbTrack, Media, Release, ReleaseDate};
use crate::tagging::{
    credit_names, jpeg_cover_art, jpeg_dimensions, jpeg_header_dimensions, PictureType, one_value, opt_credit_ids, opt_credit_names, release_status_text,
    vorbis_comments, vorbis_new, vorbis_set, vorbis_set_album, vorbis_set_album_artist,
    vorbis_set_artist, vorbis_set_title, vorbis_set_track, ArtistCreditsExt, ExtendVorbisTag,
};
use crate::text::{
    all_dec_digits, dec_digits, dec_string, dec_value, lemma_dec_digits_value, parse_unsigned,
    parse_usize, push_str,
};
use crate::tagging::CoverArt;
use crate::track::Track;

verus! {

/// Errors that can occur when creating a [`Disc`].
#[derive(Debug, Clone, Copy, PartialEq, Eq, Structural)]
pub enum DiscError {
    /// The leadout frame does not match the TOC's leadout value.
    IncorrectLeadout,
    /// A track's MSF or duration does not match the corresponding TOC entry.
    TocMismatch,
}

impl DiscError {
    /// The message for this error.
    pub fn message(&self) -> (r: &'static str)
        ensures
            r@ == match self {
                DiscError::IncorrectLeadout => "incorrect leadout"@,
                DiscError::TocMismatch => "TOC mismatch"@,
            },
    {
        proof {
            reveal_strlit("incorrect leadout");
            reveal_strlit("TOC mismatch");
        }
        match self {
            DiscError::IncorrectLeadout => "incorrect leadout",
            DiscError::TocMismatch => "TOC mismatch",
        }
    }
}

/// The sector that ends audio track `n` (1-based), given the audio start sectors and where the
/// audio ends: the start of the next track, or the audio leadout for the last one.
pub open spec fn track_end(audio: Seq<u32>, audio_leadout: u32, n: int) -> u32 {
    if n < audio.len() {
        audio[n]
    } else {
        audio_leadout
    }
}

/// The sector that ends audio track `n` (1-based) of a table of contents.
pub open spec fn audio_track_end(toc: Toc, n: int) -> u32 {
    track_end(toc_audio_sectors(toc), toc_audio_leadout(toc), n)
}

/// No audio track of the table of contents ends before it starts.
pub open spec fn audio_tracks_ordered(toc: Toc) -> bool {
    forall|n: int|
        1 <= n <= toc_audio_sectors(toc).len() ==> toc_audio_sectors(toc)[n - 1]
            <= #[trigger] audio_track_end(toc, n)
}

/// `track` agrees with its entry among the audio start sectors: the entry exists, and the start
/// and the duration of the track, in minutes (modulo 256), seconds and frames, are those of the
/// entry.
pub open spec fn track_agrees(audio: Seq<u32>, audio_leadout: u32, track: Track) -> bool {
    let n = track.toc_entry.track as int;
    &&& 1 <= n <= audio.len()
    &&& msf_of_frames(audio[n - 1] as nat) == msf_of_frames(track.toc_entry.start.count())
    &&& msf_of_frames((track_end(audio, audio_leadout, n) - audio[n - 1]) as nat)
        == msf_of_frames(track.duration.count())
}

/// `track` agrees with its entry in the table of contents (see [`track_agrees`]).
pub open spec fn track_agrees_with_toc(toc: Toc, track: Track) -> bool {
    track_agrees(toc_audio_sectors(toc), toc_audio_leadout(toc), track)
}

/// A table of contents built from valid parts has no audio track that ends before it starts.
pub proof fn lemma_valid_parts_ordered(toc: Toc)
    requires
        valid_audio_parts(toc_audio_sectors(toc), toc_audio_leadout(toc)),
    ensures
        audio_tracks_ordered(toc),
{
    let audio = toc_audio_sectors(toc);
    assert forall|n: int| 1 <= n <= audio.len() implies audio[n - 1] <= #[trigger] audio_track_end(
        toc,
        n,
    ) by {
        if n < audio.len() {
            assert(audio[n - 1] < audio[(n - 1) + 1]);
        }
    }
}

/// The leadout frame agrees with the leadout of the table of contents, compared as `u32`.
pub open spec fn leadout_agrees_with_toc(toc: Toc, leadout: Frame) -> bool {
    leadout.count() % 0x1_0000_0000 == toc_leadout(toc) as nat
}

/// Minutes from days, hours and minutes add up to the whole minutes of the seconds.
proof fn lemma_dhm_minutes(s: nat)
    ensures
        ((s / 86_400) * 24 + (s % 86_400) / 3600) * 60 + (s % 3600) / 60 == s / 60,
{
    let d = s / 86_400;
    let r = s % 86_400;
    let h = r / 3600;
    let r2 = r % 3600;
    assert(s == d * 86_400 + r);
    assert(r == h * 3600 + r2);
    assert(s % 3600 == r2) by (nonlinear_arith)
        requires
            s == d * 86_400 + r,
            r == h * 3600 + r2,
            0 <= r2 < 3600,
            d >= 0,
            h >= 0,
    ;
    assert(s / 60 == d * 1440 + h * 60 + r2 / 60) by (nonlinear_arith)
        requires
            s == d * 86_400 + h * 3600 + r2,
            0 <= r2 < 3600,
            d >= 0,
            h >= 0,
    ;
    assert((d * 24 + h) * 60 == d * 1440 + h * 60) by (nonlinear_arith);
}

/// The start of an audio track, in minutes, seconds and frames, as `Track::msf` gives it.
fn audio_track_start_msf(track: &cdtoc::Track) -> (r: Msf)
    ensures
        r == msf_of_frames(cd_track_from(*track) as nat),
{
    let (min, sec, frame) = cd_track_msf(track);
    Msf::new((min % 256) as u8, sec, frame)
}

/// The duration of an audio track, in minutes, seconds and frames, as `Duration::dhmsf` gives
/// it with the days and hours folded into the minutes.
fn audio_track_duration_msf(track: &cdtoc::Track) -> (r: Msf)
    requires
        cd_track_from(*track) <= cd_track_to(*track),
    ensures
        r == msf_of_frames((cd_track_to(*track) - cd_track_from(*track)) as nat),
{
    let duration = cd_track_duration(track);
    let (d, h, min, sec, frame) = cd_duration_dhmsf(&duration);
    let ghost sectors = (cd_track_to(*track) - cd_track_from(*track)) as nat;
    proof {
        lemma_dhm_minutes(sectors / 75);
    }
    assert(d <= 1000);
    let minutes: u64 = ((d * 24) + h as u64) * 60 + min as u64;
    assert(minutes == sectors / 75 / 60);
    Msf::new((minutes % 256) as u8, sec, frame)
}

/// A physical CD: its table of contents and tracks, with the metadata found for it.
///
/// Created by [`Disc::new`], which checks the tracks and the leadout against the table of
/// contents. MusicBrainz data is attached with [`Disc::set_musicbrainz`]; a release (and, for
/// multi-disc releases, the medium) is then selected, automatically where it is unambiguous or
/// with [`Disc::set_release`].
#[derive(Debug, Clone)]
pub struct Disc {
    /// The table of contents for the CD.
    toc: Toc,
    /// The tracks of the CD.
    tracks: Vec<Track<'static>>,
    /// The leadout frame position.
    leadout: Frame,
    /// MusicBrainz metadata for this disc, if available.
    musicbrainz: Option<Discid>,
    /// Selected index into the releases of the MusicBrainz data.
    release_index: Option<usize>,
    /// The 0-indexed medium of the selected release that this disc is.
    disc_index: Option<usize>,
    /// Cover art, if it has been retrieved.
    coverart: Option<CoverArt>,
}

impl Disc {
    /// The table of contents.
    pub closed spec fn spec_toc(&self) -> Toc {
        self.toc
    }

    /// The tracks, as built (without metadata).
    pub closed spec fn spec_tracks(&self) -> Seq<Track<'static>> {
        self.tracks@
    }

    /// The leadout frame.
    pub closed spec fn spec_leadout(&self) -> Frame {
        self.leadout
    }

    /// The MusicBrainz data.
    pub closed spec fn spec_musicbrainz(&self) -> Option<Discid> {
        self.musicbrainz
    }

    /// The selected release index.
    pub closed spec fn spec_release_index(&self) -> Option<usize> {
        self.release_index
    }

    /// The selected medium index.
    pub closed spec fn spec_disc_index(&self) -> Option<usize> {
        self.disc_index
    }

    /// The cover art.
    pub closed spec fn spec_cover_art(&self) -> Option<CoverArt> {
        self.coverart
    }

    /// Creates a new [`Disc`] from a table of contents, tracks and leadout frame.
    ///
    /// The leadout must match the leadout of the table of contents (else
    /// [`DiscError::IncorrectLeadout`]), and each track must match its entry in the table of
    /// contents, in start and duration (else [`DiscError::TocMismatch`]). No track of the table
    /// of contents may end before it starts (which `Toc::from_parts` ensures for audio-only
    /// discs); [`Disc::checked_new`] tests this first.
    pub fn new(toc: Toc, tracks: Vec<Track<'static>>, leadout: Frame) -> (r: Result<Self, DiscError>)
        requires
            audio_tracks_ordered(toc),
        ensures
            r == Err::<Self, DiscError>(DiscError::IncorrectLeadout) <==> !leadout_agrees_with_toc(
                toc,
                leadout,
            ),
            r == Err::<Self, DiscError>(DiscError::TocMismatch) <==> leadout_agrees_with_toc(
                toc,
                leadout,
            ) && exists|i: int|
                0 <= i < tracks@.len() && !track_agrees_with_toc(toc, #[trigger] tracks@[i]),
            r is Ok <==> leadout_agrees_with_toc(toc, leadout) && forall|i: int|
                0 <= i < tracks@.len() ==> track_agrees_with_toc(toc, #[trigger] tracks@[i]),
            r matches Ok(disc) ==> {
                &&& disc.spec_toc() == toc
                &&& disc.spec_tracks() == tracks@
                &&& disc.spec_leadout() == leadout
                &&& disc.spec_musicbrainz() is None
                &&& disc.spec_release_index() is None
                &&& disc.spec_disc_index() is None
                &&& disc.spec_cover_art() is None
            },
            r matches Ok(disc) ==> disc.index_follows_release(),
    {
        let toc_leadout = toc_leadout_sector(&toc);
        if (leadout.as_usize() as u64 % 0x1_0000_0000) as u32 != toc_leadout {
            return Err(DiscError::IncorrectLeadout);
        }
        let mut i: usize = 0;
        while i < tracks.len()
            invariant
                i <= tracks@.len(),
                audio_tracks_ordered(toc),
                leadout_agrees_with_toc(toc, leadout),
                forall|j: int| 0 <= j < i ==> track_agrees_with_toc(toc, #[trigger] tracks@[j]),
            decreases tracks.len() - i,
        {
            let track = tracks[i];
            let track_number = track.toc_entry.track as usize;
            let toc_track = match toc_audio_track(&toc, track_number) {
                Some(t) => t,
                None => {
                    assert(!track_agrees_with_toc(toc, tracks@[i as int]));
                    return Err(DiscError::TocMismatch);
                },
            };
            if audio_track_start_msf(&toc_track) != Msf::from(track.toc_entry.start) {
                assert(!track_agrees_with_toc(toc, tracks@[i as int]));
                return Err(DiscError::TocMismatch);
            }
            assert(audio_track_end(toc, track_number as int) == cd_track_to(toc_track));
            if audio_track_duration_msf(&toc_track) != Msf::from(track.duration) {
                assert(!track_agrees_with_toc(toc, tracks@[i as int]));
                return Err(DiscError::TocMismatch);
            }
            assert(track_agrees_with_toc(toc, tracks@[i as int]));
            i = i + 1;
        }
        Ok(Disc {
            toc,
            tracks,
            leadout,
            musicbrainz: None,
            release_index: None,
            disc_index: None,
            coverart: None,
        })
    }

    /// [`Disc::new`], when no audio track of the table of contents ends before it starts;
    /// `None` otherwise.
    pub fn checked_new(toc: Toc, tracks: Vec<Track<'static>>, leadout: Frame) -> (r: Option<
        Result<Self, DiscError>,
    >)
        ensures
            r is Some <==> audio_tracks_ordered(toc),
            r matches Some(res) ==> {
                &&& res is Ok <==> leadout_agrees_with_toc(toc, leadout) && forall|i: int|
                    0 <= i < tracks@.len() ==> track_agrees_with_toc(toc, #[trigger] tracks@[i])
                &&& res == Err::<Self, DiscError>(DiscError::IncorrectLeadout)
                    <==> !leadout_agrees_with_toc(toc, leadout)
                &&& res matches Ok(disc) ==> disc.spec_toc() == toc && disc.spec_tracks()
                    == tracks@ && disc.spec_leadout() == leadout && disc.index_follows_release()
            },
    {
        let audio = toc_audio_start_sectors(&toc);
        let end = toc_audio_leadout_sector(&toc);
        let mut i: usize = 0;
        while i < audio.len()
            invariant
                audio@ == toc_audio_sectors(toc),
                end == toc_audio_leadout(toc),
                i <= audio@.len(),
                forall|m: int|
                    1 <= m <= i ==> toc_audio_sectors(toc)[m - 1] <= #[trigger] audio_track_end(
                        toc,
                        m,
                    ),
            decreases audio.len() - i,
        {
            let next = if i + 1 < audio.len() {
                audio[i + 1]
            } else {
                end
            };
            assert(next == audio_track_end(toc, i + 1));
            if audio[i] > next {
                return None;
            }
            i = i + 1;
        }
        Some(Disc::new(toc, tracks, leadout))
    }
}

/// The value behind an optional reference.
pub open spec fn opt_deref<'a, T>(o: Option<&'a T>) -> Option<T> {
    match o {
        Some(x) => Some(*x),
        None => None,
    }
}

/// The release at `index` among the releases of the MusicBrainz data, if both exist.
pub open spec fn selected_release(mb: Option<Discid>, index: Option<usize>) -> Option<Release> {
    match mb {
        Some(d) => match d.releases {
            Some(rs) => match index {
                Some(i) => if i < rs@.len() {
                    Some(rs@[i as int])
                } else {
                    None
                },
                None => None,
            },
            None => None,
        },
        None => None,
    }
}

/// The medium at `index` of a release, if both exist.
pub open spec fn selected_media(release: Option<Release>, index: Option<usize>) -> Option<Media> {
    match release {
        Some(r) => match r.media {
            Some(ms) => match index {
                Some(i) => if i < ms@.len() {
                    Some(ms@[i as int])
                } else {
                    None
                },
                None => None,
            },
            None => None,
        },
        None => None,
    }
}

/// The first track of `ts` whose number reads (as `str::parse::<usize>` reads it) as `n`.
pub open spec fn track_numbered(ts: Seq<MbTrack>, n: nat) -> Option<MbTrack>
    decreases ts.len(),
{
    if ts.len() == 0 {
        None
    } else if parse_unsigned(ts[0].number@, usize::MAX as nat) == Some(n) {
        Some(ts[0])
    } else {
        track_numbered(ts.drop_first(), n)
    }
}

/// The metadata of track `n` on a medium, if it lists one.
pub open spec fn metadata_for(media: Option<Media>, n: nat) -> Option<MbTrack> {
    match media {
        Some(m) => match m.tracks {
            Some(ts) => track_numbered(ts@, n),
            None => None,
        },
        None => None,
    }
}

/// `r` is `base` with its metadata set to `meta`.
pub open spec fn is_track_with_meta(r: Track, base: Track, meta: Option<MbTrack>) -> bool {
    &&& r.toc_entry == base.toc_entry
    &&& r.duration == base.duration
    &&& r.windows_identifier == base.windows_identifier
    &&& opt_deref(r.meta) == meta
}

/// One of the disc ids of a medium has the given track offsets.
pub open spec fn media_has_offsets(m: Media, offsets: Seq<u32>) -> bool {
    match m.discs {
        Some(ds) => exists|k: int| 0 <= k < ds@.len() && (#[trigger] ds@[k]).offsets@ == offsets,
        None => false,
    }
}

/// Medium `i` is the only medium of `ms` with the given track offsets.
pub open spec fn only_media_with_offsets(ms: Seq<Media>, offsets: Seq<u32>, i: int) -> bool {
    &&& 0 <= i < ms.len()
    &&& media_has_offsets(ms[i], offsets)
    &&& forall|j: int| 0 <= j < ms.len() && j != i ==> !media_has_offsets(#[trigger] ms[j], offsets)
}

/// The index of the only medium with the given track offsets, if exactly one has them.
pub open spec fn unique_media_with_offsets(ms: Seq<Media>, offsets: Seq<u32>) -> Option<usize> {
    if exists|i: int| only_media_with_offsets(ms, offsets, i) {
        Some((choose|i: int| only_media_with_offsets(ms, offsets, i)) as usize)
    } else {
        None
    }
}

/// The medium index selected for a release: `0` for a release of at most one medium, else the
/// only medium whose disc ids list the disc's track offsets; `None` without a release or media.
pub open spec fn disc_index_for(release: Option<Release>, offsets: Seq<u32>) -> Option<usize> {
    match release {
        Some(r) => match r.media {
            Some(ms) => if ms@.len() <= 1 {
                Some(0)
            } else {
                unique_media_with_offsets(ms@, offsets)
            },
            None => None,
        },
        None => None,
    }
}

/// The release index selected automatically for MusicBrainz data: the only release when there
/// is one, `0` when there are none, and no selection among several.
pub open spec fn auto_release_index(d: Discid) -> Option<usize> {
    match d.releases {
        Some(rs) => if rs@.len() <= 1 {
            Some(0)
        } else {
            None
        },
        None => Some(0),
    }
}

/// `index` is a choice that [`Disc::set_release`] takes: no release, or one that exists.
pub open spec fn release_choice(mb: Option<Discid>, index: Option<usize>) -> bool {
    index is None || selected_release(mb, index) is Some
}

/// The release index after [`Disc::set_release`]: `index` when it is a choice it takes (see
/// [`release_choice`]), else the index selected before.
pub open spec fn release_index_after(
    mb: Option<Discid>,
    before: Option<usize>,
    index: Option<usize>,
) -> Option<usize> {
    if release_choice(mb, index) {
        index
    } else {
        before
    }
}

/// Element-wise equality of two vectors of sectors.
fn same_sectors(a: &Vec<u32>, b: &Vec<u32>) -> (r: bool)
    ensures
        r == (a@ == b@),
{
    if a.len() != b.len() {
        return false;
    }
    let mut i: usize = 0;
    while i < a.len()
        invariant
            a@.len() == b@.len(),
            i <= a@.len(),
            forall|j: int| 0 <= j < i ==> a@[j] == b@[j],
        decreases a.len() - i,
    {
        if a[i] != b[i] {
            return false;
        }
        i = i + 1;
    }
    assert(a@ =~= b@);
    true
}

/// Whether one of the disc ids of `m` has the given track offsets.
fn media_lists_offsets(m: &Media, offsets: &Vec<u32>) -> (r: bool)
    ensures
        r == media_has_offsets(*m, offsets@),
{
    match &m.discs {
        Some(ds) => {
            let mut k: usize = 0;
            while k < ds.len()
                invariant
                    m.discs == Some(*ds),
                    k <= ds@.len(),
                    forall|j: int| 0 <= j < k ==> (#[trigger] ds@[j]).offsets@ != offsets@,
                decreases ds.len() - k,
            {
                if same_sectors(&ds[k].offsets, offsets) {
                    let ghost discs = m.discs->Some_0;
                    assert(discs@[k as int].offsets@ == offsets@);
                    return true;
                }
                k = k + 1;
            }
            false
        },
        None => false,
    }
}

/// The index of the only medium of `ms` with the given track offsets, if exactly one has them.
fn find_unique_media(ms: &Vec<Media>, offsets: &Vec<u32>) -> (r: Option<usize>)
    ensures
        r == unique_media_with_offsets(ms@, offsets@),
        r matches Some(f) ==> f < usize::MAX,
{
    let mut found: Option<usize> = None;
    let mut several = false;
    let mut i: usize = 0;
    while i < ms.len()
        invariant
            i <= ms@.len(),
            found is None ==> !several && forall|j: int|
                0 <= j < i ==> !media_has_offsets(#[trigger] ms@[j], offsets@),
            found matches Some(f) ==> {
                &&& f < i
                &&& media_has_offsets(ms@[f as int], offsets@)
                &&& several ==> exists|j: int|
                    0 <= j < i && j != f && media_has_offsets(#[trigger] ms@[j], offsets@)
                &&& !several ==> forall|j: int|
                    0 <= j < i && j != f ==> !media_has_offsets(#[trigger] ms@[j], offsets@)
            },
        decreases ms.len() - i,
    {
        if media_lists_offsets(&ms[i], offsets) {
            match found {
                None => {
                    found = Some(i);
                },
                Some(_) => {
                    several = true;
                },
            }
        }
        i = i + 1;
    }
    match found {
        Some(f) => {
            if several {
                proof {
                    let j = choose|j: int|
                        0 <= j < ms@.len() && j != f && media_has_offsets(
                            #[trigger] ms@[j],
                            offsets@,
                        );
                    assert forall|x: int| !only_media_with_offsets(ms@, offsets@, x) by {
                        if only_media_with_offsets(ms@, offsets@, x) {
                            if x == f {
                                assert(!media_has_offsets(ms@[j], offsets@));
                            } else {
                                assert(!media_has_offsets(ms@[f as int], offsets@));
                            }
                        }
                    }
                }
                None
            } else {
                proof {
                    assert(only_media_with_offsets(ms@, offsets@, f as int));
                    let c = choose|x: int| only_media_with_offsets(ms@, offsets@, x);
                    if c != f {
                        assert(!media_has_offsets(ms@[f as int], offsets@));
                    }
                }
                Some(f)
            }
        },
        None => {
            proof {
                assert forall|x: int| !only_media_with_offsets(ms@, offsets@, x) by {
                    if 0 <= x < ms@.len() {
                        assert(!media_has_offsets(ms@[x], offsets@));
                    }
                }
            }
            None
        },
    }
}

/// The metadata of track `n` among the tracks of a medium.
fn find_track_meta<'a>(media: Option<&'a Media>, n: usize) -> (r: Option<&'a MbTrack>)
    ensures
        opt_deref(r) == metadata_for(opt_deref(media), n as nat),
{
    match media {
        Some(m) => match &m.tracks {
            Some(ts) => {
                let mut j: usize = 0;
                assert(ts@.skip(0) =~= ts@);
                while j < ts.len()
                    invariant
                        media == Some(m),
                        m.tracks == Some(*ts),
                        j <= ts@.len(),
                        track_numbered(ts@, n as nat) == track_numbered(ts@.skip(j as int), n as nat),
                    decreases ts.len() - j,
                {
                    let ghost rest = ts@.skip(j as int);
                    assert(rest[0] == ts@[j as int]);
                    assert(rest.drop_first() =~= ts@.skip(j + 1));
                    match parse_usize(ts[j].number.as_str()) {
                        Some(v) => {
                            if v == n {
                                assert(track_numbered(rest, n as nat) == Some(ts@[j as int]));
                                return Some(&ts[j]);
                            }
                        },
                        None => {},
                    }
                    j = j + 1;
                }
                assert(ts@.skip(j as int) =~= Seq::<MbTrack>::empty());
                None
            },
            None => None,
        },
        None => None,
    }
}

impl Disc {
    /// The selected release, as a spec value.
    pub open spec fn selected(&self) -> Option<Release> {
        selected_release(self.spec_musicbrainz(), self.spec_release_index())
    }

    /// There is a disc index only while a release is selected. [`Disc::new`] and
    /// [`Disc::set_musicbrainz`] establish it, and every method that changes a disc keeps it.
    pub open spec fn index_follows_release(&self) -> bool {
        self.selected() is None ==> self.spec_disc_index() is None
    }

    /// The selected medium of the selected release, as a spec value.
    pub open spec fn selected_medium(&self) -> Option<Media> {
        selected_media(self.selected(), self.spec_disc_index())
    }

    /// Get the selected release.
    ///
    /// A release is selected automatically by [`Disc::set_musicbrainz`] where there is only one;
    /// otherwise select one with [`Disc::set_release`].
    pub fn release(&self) -> (r: Option<&Release>)
        ensures
            opt_deref(r) == self.selected(),
    {
        match &self.musicbrainz {
            Some(d) => match &d.releases {
                Some(rs) => match self.release_index {
                    Some(i) => if i < rs.len() {
                        Some(&rs[i])
                    } else {
                        None
                    },
                    None => None,
                },
                None => None,
            },
            None => None,
        }
    }

    /// The medium of the selected release that this disc is, if known.
    fn medium(&self) -> (r: Option<&Media>)
        ensures
            opt_deref(r) == self.selected_medium(),
    {
        match self.release() {
            Some(rel) => match &rel.media {
                Some(ms) => match self.disc_index {
                    Some(i) => if i < ms.len() {
                        Some(&ms[i])
                    } else {
                        None
                    },
                    None => None,
                },
                None => None,
            },
            None => None,
        }
    }

    /// Get the full MusicBrainz data, as set by [`Disc::set_musicbrainz`].
    pub fn musicbrainz(&self) -> (r: Option<&Discid>)
        ensures
            opt_deref(r) == self.spec_musicbrainz(),
    {
        match &self.musicbrainz {
            Some(d) => Some(d),
            None => None,
        }
    }

    /// Get the title of the CD: the title of the selected release.
    pub fn title(&self) -> (r: Option<String>)
        ensures
            match r {
                Some(t) => self.selected() matches Some(rel) && t@ == rel.title@,
                None => self.selected() is None,
            },
    {
        match self.release() {
            Some(rel) => Some(rel.title.clone()),
            None => None,
        }
    }

    /// Get the main artist of the CD: the first artist credited on the selected release.
    pub fn main_artist(&self) -> (r: Option<String>)
        ensures
            match r {
                Some(name) => self.selected() matches Some(rel) && opt_credit_names(
                    rel.artist_credit,
                ).len() > 0 && name@ == opt_credit_names(rel.artist_credit)[0],
                None => self.selected() matches Some(rel) ==> opt_credit_names(
                    rel.artist_credit,
                ).len() == 0,
            },
    {
        match self.release() {
            Some(rel) => rel.artist_credit.main_artist(),
            None => None,
        }
    }

    /// Get the disc number as a string: the position of the selected medium.
    pub fn disc_number(&self) -> (r: Option<String>)
        ensures
            match r {
                Some(text) => self.selected_medium() matches Some(m) && m.position matches Some(
                    p,
                ) && text@ == dec_digits(p as nat),
                None => self.selected_medium() matches Some(m) ==> m.position is None,
            },
    {
        match self.medium() {
            Some(m) => match m.position {
                Some(p) => Some(dec_string(p as u64)),
                None => None,
            },
            None => None,
        }
    }

    /// The title to show for the disc, as a spec value (see [`Disc::display_title`]).
    pub open spec fn display_title_text(&self) -> Seq<char> {
        let base = match self.selected() {
            Some(rel) => rel.title@,
            None => "Unknown"@,
        };
        let media = match self.selected() {
            Some(rel) => match rel.media {
                Some(ms) => ms@.len(),
                None => 0,
            },
            None => 0,
        };
        let number = match self.selected_medium() {
            Some(m) => match m.position {
                Some(p) => dec_digits(p as nat),
                None => "Unknown"@,
            },
            None => "Unknown"@,
        };
        if media > 1 {
            base + " [Disc "@ + number + "]"@
        } else {
            base
        }
    }

    /// The title to show for the disc: the release title (`Unknown` without a release), and,
    /// for a release of several media, ` [Disc n]` with the disc number (`Unknown` when it is
    /// not known).
    pub fn display_title(&self) -> (r: String)
        ensures
            r@ == self.display_title_text(),
    {
        let mut t = match self.title() {
            Some(t) => t,
            None => {
                let mut s = String::new();
                push_str(&mut s, "Unknown");
                s
            },
        };
        let media: usize = match self.release() {
            Some(rel) => match &rel.media {
                Some(ms) => ms.len(),
                None => 0,
            },
            None => 0,
        };
        proof {
            reveal_strlit("Unknown");
            reveal_strlit(" [Disc ");
            reveal_strlit("]");
        }
        if media > 1 {
            push_str(&mut t, " [Disc ");
            match self.disc_number() {
                Some(n) => push_str(&mut t, n.as_str()),
                None => push_str(&mut t, "Unknown"),
            }
            push_str(&mut t, "]");
        }
        t
    }

    /// Get track `track_number` (1-based), with its metadata from the selected medium when
    /// that lists the track; `None` when there is no such track.
    pub fn track(&self, track_number: usize) -> (r: Option<Track<'_>>)
        ensures
            match r {
                Some(t) => 1 <= track_number <= self.spec_tracks().len() && is_track_with_meta(
                    t,
                    self.spec_tracks()[track_number - 1],
                    metadata_for(self.selected_medium(), track_number as nat),
                ),
                None => !(1 <= track_number <= self.spec_tracks().len()),
            },
    {
        if track_number == 0 || track_number > self.tracks.len() {
            return None;
        }
        let base = self.tracks[track_number - 1];
        let meta = find_track_meta(self.medium(), track_number);
        Some(
            Track {
                toc_entry: base.toc_entry,
                duration: base.duration,
                windows_identifier: base.windows_identifier,
                meta,
            },
        )
    }

    /// All tracks, in order, each with its metadata as [`Disc::track`] gives it.
    pub fn tracks(&self) -> (r: Vec<Track<'_>>)
        ensures
            r@.len() == self.spec_tracks().len(),
            forall|i: int|
                0 <= i < r@.len() ==> is_track_with_meta(
                    #[trigger] r@[i],
                    self.spec_tracks()[i],
                    metadata_for(self.selected_medium(), (i + 1) as nat),
                ),
    {
        let mut out: Vec<Track<'_>> = Vec::new();
        let mut i: usize = 0;
        while i < self.tracks.len()
            invariant
                i <= self.spec_tracks().len(),
                self.tracks@ == self.spec_tracks(),
                out@.len() == i,
                forall|j: int|
                    0 <= j < i ==> is_track_with_meta(
                        #[trigger] out@[j],
                        self.spec_tracks()[j],
                        metadata_for(self.selected_medium(), (j + 1) as nat),
                    ),
            decreases self.tracks.len() - i,
        {
            let t = self.track(i + 1).unwrap();
            out.push(t);
            i = i + 1;
        }
        out
    }

    /// Get the 0-indexed medium of the selected release that this disc is, if known.
    pub fn disc_index(&self) -> (r: Option<usize>)
        ensures
            r == self.spec_disc_index(),
    {
        self.disc_index
    }

    /// Get the cover art, if it has been retrieved.
    pub fn cover_art(&self) -> (r: Option<&CoverArt>)
        ensures
            opt_deref(r) == self.spec_cover_art(),
    {
        match &self.coverart {
            Some(c) => Some(c),
            None => None,
        }
    }

    /// Find the medium of the selected release that this disc is, by comparing the track
    /// offsets of each medium's disc ids with those of the table of contents: the index of the
    /// only medium that matches, or `None` if none or several match.
    fn find_disc_index_from_media(&self) -> (r: Option<usize>)
        ensures
            r matches Some(f) ==> f < usize::MAX,
            r == match self.selected() {
                Some(rel) => match rel.media {
                    Some(ms) => unique_media_with_offsets(ms@, toc_audio_sectors(self.spec_toc())),
                    None => None,
                },
                None => None,
            },
    {
        let offsets = toc_audio_start_sectors(&self.toc);
        match self.release() {
            Some(rel) => match &rel.media {
                Some(ms) => find_unique_media(ms, &offsets),
                None => None,
            },
            None => None,
        }
    }

    /// Reset the disc index from the selected release: `Some(0)` for a release of at most one
    /// medium, else the only medium whose disc ids match this disc's track offsets; `None` when
    /// no release is selected, the release lists no media, or the medium cannot be identified.
    pub fn reset_disc_index(&mut self) -> (r: Option<usize>)
        ensures
            final(self).spec_disc_index() matches Some(i) ==> i < usize::MAX,
            final(self).spec_disc_index() == disc_index_for(
                old(self).selected(),
                toc_audio_sectors(old(self).spec_toc()),
            ),
            r == final(self).spec_disc_index(),
            final(self).index_follows_release(),
            final(self).spec_toc() == old(self).spec_toc(),
            final(self).spec_tracks() == old(self).spec_tracks(),
            final(self).spec_leadout() == old(self).spec_leadout(),
            final(self).spec_musicbrainz() == old(self).spec_musicbrainz(),
            final(self).spec_release_index() == old(self).spec_release_index(),
            final(self).spec_cover_art() == old(self).spec_cover_art(),
    {
        let index = match self.release() {
            Some(rel) => match &rel.media {
                Some(ms) => if ms.len() <= 1 {
                    Some(0)
                } else {
                    self.find_disc_index_from_media()
                },
                None => None,
            },
            None => None,
        };
        self.disc_index = index;
        index
    }

    /// Set the selected release by index, or reset it to `None`; the disc index is then reset
    /// (see [`Disc::reset_disc_index`]). An index that names no release makes no change.
    /// Returns `self` for chaining.
    pub fn set_release(&mut self, index: Option<usize>) -> (r: &mut Self)
        ensures
            r.spec_release_index() == release_index_after(
                old(self).spec_musicbrainz(),
                old(self).spec_release_index(),
                index,
            ),
            release_choice(old(self).spec_musicbrainz(), index) ==> {
                &&& r.spec_disc_index() matches Some(i) ==> i < usize::MAX
                &&& r.spec_disc_index() == disc_index_for(
                    r.selected(),
                    toc_audio_sectors(old(self).spec_toc()),
                )
            },
            !release_choice(old(self).spec_musicbrainz(), index) ==> *r == *old(self),
            release_choice(old(self).spec_musicbrainz(), index) ==> r.index_follows_release(),
            old(self).index_follows_release() ==> r.index_follows_release(),
            r.spec_toc() == old(self).spec_toc(),
            r.spec_tracks() == old(self).spec_tracks(),
            r.spec_leadout() == old(self).spec_leadout(),
            r.spec_musicbrainz() == old(self).spec_musicbrainz(),
            r.spec_cover_art() == old(self).spec_cover_art(),
            *final(self) == *final(r),
    {
        let choice = match index {
            None => true,
            Some(i) => match &self.musicbrainz {
                Some(d) => match &d.releases {
                    Some(rs) => i < rs.len(),
                    None => false,
                },
                None => false,
            },
        };
        if choice {
            self.release_index = index;
            self.reset_disc_index();
        }
        self
    }

    /// Set MusicBrainz data: replaces any earlier data, selects the release automatically when
    /// there is only one (see [`auto_release_index`]), and resets the disc index. Returns `self`
    /// for chaining.
    pub fn set_musicbrainz(&mut self, discid: Discid) -> (r: &mut Self)
        ensures
            r.spec_disc_index() matches Some(i) ==> i < usize::MAX,
            r.spec_musicbrainz() == Some(discid),
            r.spec_release_index() == auto_release_index(discid),
            r.index_follows_release(),
            r.spec_disc_index() == disc_index_for(
                r.selected(),
                toc_audio_sectors(old(self).spec_toc()),
            ),
            r.spec_toc() == old(self).spec_toc(),
            r.spec_tracks() == old(self).spec_tracks(),
            r.spec_leadout() == old(self).spec_leadout(),
            r.spec_cover_art() == old(self).spec_cover_art(),
            *final(self) == *final(r),
    {
        let index = match &discid.releases {
            Some(rs) => if rs.len() <= 1 {
                Some(0)
            } else {
                None
            },
            None => Some(0),
        };
        self.musicbrainz = Some(discid);
        self.release_index = index;
        self.reset_disc_index();
        self
    }

    /// The MusicBrainz disc id of this disc, to look it up with.
    pub fn musicbrainz_disc_id(&self) -> (r: String)
        ensures
            r@ == musicbrainz_disc_id(
                toc_audio_sectors(self.spec_toc()),
                toc_audio_leadout(self.spec_toc()),
            ),
    {
        toc_musicbrainz_disc_id(&self.toc)
    }
}

/// The comments of a set of tags.
pub type Tags = Map<Seq<char>, Seq<Seq<char>>>;

/// The text of an optional string, or nothing.
pub open spec fn text_or_empty(s: Option<String>) -> Seq<char> {
    match s {
        Some(t) => t@,
        None => Seq::empty(),
    }
}

/// The text of an optional date, or nothing.
pub open spec fn date_text(d: Option<ReleaseDate>) -> Seq<char> {
    match d {
        Some(date) => date.text@,
        None => Seq::empty(),
    }
}

/// The year of an optional date in decimal, or nothing.
pub open spec fn release_year_text(d: Option<ReleaseDate>) -> Seq<char> {
    match d {
        Some(date) => match date_year(date.text@) {
            Some(y) => dec_digits(y),
            None => Seq::empty(),
        },
        None => Seq::empty(),
    }
}

/// The date a recording was first released, or nothing.
pub open spec fn original_date_text(m: MbTrack) -> Seq<char> {
    match m.recording {
        Some(rec) => date_text(rec.first_release_date),
        None => Seq::empty(),
    }
}

/// The year of a date in decimal, `0` when it has none.
pub open spec fn year_or_zero_text(date: Seq<char>) -> Seq<char> {
    match date_year(date) {
        Some(y) => dec_digits(y),
        None => dec_digits(0),
    }
}

/// The tags that the selected release adds to `t`, in the order in which they are set.
pub open spec fn release_tags(t: Tags, rel: Release, disc_index: Option<usize>) -> Tags {
    let t = t.remove("ALBUMSORT"@).insert("ALBUM"@, seq![rel.title@]);
    let t = t.insert("MUSICBRAINZ_ALBUMID"@, seq![rel.id@]);
    let t = t.remove("ALBUMARTISTSORT"@).insert(
        "ALBUMARTIST"@,
        opt_credit_names(rel.artist_credit),
    );
    let t = t.insert("MUSICBRAINZ_ALBUMARTISTID"@, opt_credit_ids(rel.artist_credit));
    let t = t.insert("RELEASEDATE"@, seq![date_text(rel.date)]);
    let t = t.insert("RELEASEYEAR"@, seq![release_year_text(rel.date)]);
    let t = t.insert("RELEASECOUNTRY"@, seq![text_or_empty(rel.country)]);
    let t = t.insert("RELEASESTATUS"@, seq![release_status_text(rel.status->Some_0)]);
    let t = t.insert("BARCODE"@, seq![text_or_empty(rel.barcode)]);
    let t = match rel.media {
        Some(ms) => {
            let discs = seq![dec_digits(ms@.len())];
            let t = t.insert("TOTALDISCS"@, discs).insert("DISCTOTAL"@, discs);
            if ms@.len() > 0 {
                let tracks = seq![dec_digits(ms@[0].track_count as nat)];
                t.insert("TOTALTRACKS"@, tracks).insert("TRACKTOTAL"@, tracks)
            } else {
                t
            }
        },
        None => t,
    };
    let t = match disc_index {
        Some(d) => t.insert("DISCNUMBER"@, seq![dec_digits((d + 1) as nat)]),
        None => t,
    };
    let format = match rel.media {
        Some(ms) => if ms@.len() > 0 {
            text_or_empty(ms@[0].format)
        } else {
            Seq::empty()
        },
        None => Seq::empty(),
    };
    let t = t.insert("MEDIA"@, seq![format]);
    t.insert("SCRIPT"@, seq![rel.script->Some_0.code@])
}

/// The tags that the metadata of a track adds to `t`, in the order in which they are set.
pub open spec fn track_tags(t: Tags, m: MbTrack, rel: Release) -> Tags {
    let t = t.remove("TITLESORT"@).insert("TITLE"@, seq![m.title@]);
    let t = t.insert("MUSICBRAINZ_TRACKID"@, seq![m.id@]);
    let artists = match m.artist_credit {
        Some(c) => credit_names(c@),
        None => opt_credit_names(rel.artist_credit),
    };
    let t = t.remove("ARTISTSORT"@).insert("ARTIST"@, artists);
    let t = t.insert("ORIGINALDATE"@, seq![original_date_text(m)]);
    t.insert("ORIGINALYEAR"@, seq![year_or_zero_text(original_date_text(m))])
}

/// The tags of track `n` of a disc: its number and Windows identifier, then those of the
/// selected release and of the track's metadata.
pub open spec fn tags_for(
    base: Track,
    release: Option<Release>,
    disc_index: Option<usize>,
    meta: Option<MbTrack>,
) -> Tags {
    let t = Map::<Seq<char>, Seq<Seq<char>>>::empty().insert(
        "TRACKNUMBER"@,
        seq![dec_digits(base.toc_entry.track as nat)],
    );
    let t = match base.windows_identifier {
        Some(id) => t.insert("WINDOWS_IDENTIFIER"@, seq![dec_digits(id as nat)]),
        None => t,
    };
    match release {
        Some(rel) => {
            let t = release_tags(t, rel, disc_index);
            match meta {
                Some(m) => track_tags(t, m, rel),
                None => t,
            }
        },
        None => t,
    }
}

/// A copy of an optional string, or an empty string.
fn string_or_empty(s: &Option<String>) -> (r: String)
    ensures
        r@ == text_or_empty(*s),
{
    match s {
        Some(t) => t.clone(),
        None => String::new(),
    }
}

/// A copy of the text of an optional date, or an empty string.
fn date_string(d: &Option<ReleaseDate>) -> (r: String)
    ensures
        r@ == date_text(*d),
{
    match d {
        Some(date) => date.text.clone(),
        None => String::new(),
    }
}

impl Disc {
    /// The tags of track `n`, as a spec value (see [`tags_for`]).
    pub open spec fn spec_tags_for(&self, n: usize) -> Option<Tags> {
        if 1 <= n <= self.spec_tracks().len() {
            Some(
                tags_for(
                    self.spec_tracks()[n - 1],
                    self.selected(),
                    self.spec_disc_index(),
                    metadata_for(self.selected_medium(), n as nat),
                ),
            )
        } else {
            None
        }
    }

    /// The selected release, if any, has a status and a script, and the disc index can be
    /// counted from 1.
    pub open spec fn can_tag(&self) -> bool {
        &&& self.selected() matches Some(rel) ==> rel.status is Some && rel.script is Some
        &&& self.spec_disc_index() matches Some(i) ==> i < usize::MAX
    }

    /// The tags of the selected release, added to `vorbis`.
    fn add_release_tags(&self, vorbis: &mut VorbisComment, rel: &Release)
        requires
            rel.status is Some,
            rel.script is Some,
            self.spec_disc_index() matches Some(i) ==> i < usize::MAX,
        ensures
            vorbis_comments(*final(vorbis)) == release_tags(
                vorbis_comments(*old(vorbis)),
                *rel,
                self.spec_disc_index(),
            ),
    {
        vorbis_set_album(vorbis, one_value(rel.title.clone()));
        vorbis_set(vorbis, "MUSICBRAINZ_ALBUMID", one_value(rel.id.clone()));
        vorbis_set_album_artist(vorbis, rel.artist_credit.artist_names());
        vorbis_set(vorbis, "MUSICBRAINZ_ALBUMARTISTID", rel.artist_credit.artist_ids());
        vorbis_set(vorbis, "RELEASEDATE", one_value(date_string(&rel.date)));
        let year = match &rel.date {
            Some(date) => match date.year() {
                Some(y) => dec_string(y as u64),
                None => String::new(),
            },
            None => String::new(),
        };
        vorbis_set(vorbis, "RELEASEYEAR", one_value(year));
        vorbis_set(vorbis, "RELEASECOUNTRY", one_value(string_or_empty(&rel.country)));
        match &rel.status {
            Some(status) => status.extend_vorbis(vorbis),
            None => {},
        }
        vorbis_set(vorbis, "BARCODE", one_value(string_or_empty(&rel.barcode)));
        match &rel.media {
            Some(ms) => {
                let total = ms.len() as u64;
                vorbis_set(vorbis, "TOTALDISCS", one_value(dec_string(total)));
                vorbis_set(vorbis, "DISCTOTAL", one_value(dec_string(total)));
                if ms.len() > 0 {
                    let count = ms[0].track_count as u64;
                    vorbis_set(vorbis, "TOTALTRACKS", one_value(dec_string(count)));
                    vorbis_set(vorbis, "TRACKTOTAL", one_value(dec_string(count)));
                }
            },
            None => {},
        }
        match self.disc_index {
            Some(d) => {
                let number = d as u64 + 1;
                vorbis_set(vorbis, "DISCNUMBER", one_value(dec_string(number)));
            },
            None => {},
        }
        let format = match &rel.media {
            Some(ms) => if ms.len() > 0 {
                string_or_empty(&ms[0].format)
            } else {
                String::new()
            },
            None => String::new(),
        };
        vorbis_set(vorbis, "MEDIA", one_value(format));
        match &rel.script {
            Some(script) => script.extend_vorbis(vorbis),
            None => {},
        }
    }

    /// The tags of the metadata of a track, added to `vorbis`.
    fn add_track_tags(vorbis: &mut VorbisComment, m: &MbTrack, rel: &Release)
        ensures
            vorbis_comments(*final(vorbis)) == track_tags(vorbis_comments(*old(vorbis)), *m, *rel),
    {
        vorbis_set_title(vorbis, one_value(m.title.clone()));
        vorbis_set(vorbis, "MUSICBRAINZ_TRACKID", one_value(m.id.clone()));
        let artists = match &m.artist_credit {
            Some(c) => c.artist_names(),
            None => rel.artist_credit.artist_names(),
        };
        vorbis_set_artist(vorbis, artists);
        let original = match &m.recording {
            Some(rec) => date_string(&rec.first_release_date),
            None => String::new(),
        };
        let date = ReleaseDate { text: original.clone() };
        let year = match date.year() {
            Some(y) => dec_string(y as u64),
            None => dec_string(0),
        };
        vorbis_set(vorbis, "ORIGINALDATE", one_value(original));
        vorbis_set(vorbis, "ORIGINALYEAR", one_value(year));
    }

    /// The Vorbis comments for track `track_number`: its number and Windows identifier, and,
    /// with a release selected, the release's album, artists, dates, status, media, script and
    /// identifiers, and the track's title, artists and dates from its metadata; `None` when
    /// there is no such track.
    pub fn tag_for(&self, track_number: usize) -> (r: Option<VorbisComment>)
        requires
            self.can_tag(),
        ensures
            match r {
                Some(v) => self.spec_tags_for(track_number) == Some(vorbis_comments(v)),
                None => self.spec_tags_for(track_number) is None,
            },
    {
        let mut vorbis = vorbis_new();
        let track = match self.track(track_number) {
            Some(t) => t,
            None => return None,
        };
        vorbis_set_track(&mut vorbis, track.track_number() as u32);
        match track.windows_identifier {
            Some(id) => vorbis_set(&mut vorbis, "WINDOWS_IDENTIFIER", one_value(dec_string(id as u64))),
            None => {},
        }
        let ghost start = vorbis_comments(vorbis);
        match self.release() {
            Some(rel) => {
                self.add_release_tags(&mut vorbis, rel);
                match track.meta {
                    Some(m) => Disc::add_track_tags(&mut vorbis, m, rel),
                    None => {},
                }
            },
            None => {},
        }
        proof {
            let expected = tags_for(
                self.spec_tracks()[track_number - 1],
                self.selected(),
                self.spec_disc_index(),
                metadata_for(self.selected_medium(), track_number as nat),
            );
            assert(vorbis_comments(vorbis) =~= expected);
        }
        Some(vorbis)
    }
}

/// The CoverArtArchive address of the front cover of a release.
pub open spec fn cover_art_address(release_id: Seq<char>) -> Seq<char> {
    "https://coverartarchive.org/release/"@ + release_id + "/front"@
}

impl Disc {
    /// The CoverArtArchive address of the front cover of the selected release; `None` when no
    /// release is selected.
    pub fn cover_art_url(&self) -> (r: Option<String>)
        ensures
            match r {
                Some(url) => self.selected() matches Some(rel) && url@ == cover_art_address(
                    rel.id@,
                ),
                None => self.selected() is None,
            },
    {
        match self.release() {
            Some(rel) => {
                let mut url = String::new();
                push_str(&mut url, "https://coverartarchive.org/release/");
                push_str(&mut url, rel.id.as_str());
                push_str(&mut url, "/front");
                Some(url)
            },
            None => None,
        }
    }

    /// Keep a downloaded front cover, a JPEG image whose headers decode, as the cover art.
    pub fn receive_cover_art(&mut self, image: Vec<u8>)
        requires
            jpeg_header_dimensions(image@) is Some,
        ensures
            final(self).spec_cover_art() matches Some(c) && jpeg_cover_art(
                PictureType::CoverFront,
                "Front Cover"@,
                image@,
                jpeg_header_dimensions(image@)->Some_0,
                c,
            ),
            final(self).spec_toc() == old(self).spec_toc(),
            final(self).spec_tracks() == old(self).spec_tracks(),
            final(self).spec_leadout() == old(self).spec_leadout(),
            final(self).spec_musicbrainz() == old(self).spec_musicbrainz(),
            final(self).spec_release_index() == old(self).spec_release_index(),
            final(self).spec_disc_index() == old(self).spec_disc_index(),
            old(self).index_follows_release() ==> final(self).index_follows_release(),
    {
        self.coverart = Some(CoverArt::from_jpeg_data(PictureType::CoverFront, "Front Cover", image));
    }

    /// [`Disc::receive_cover_art`] when the image's headers decode; otherwise the disc is left
    /// unchanged. Returns whether the image was kept.
    pub fn try_receive_cover_art(&mut self, image: Vec<u8>) -> (r: bool)
        ensures
            r == jpeg_header_dimensions(image@) is Some,
            r ==> (final(self).spec_cover_art() matches Some(c) && jpeg_cover_art(
                PictureType::CoverFront,
                "Front Cover"@,
                image@,
                jpeg_header_dimensions(image@)->Some_0,
                c,
            )),
            !r ==> final(self).spec_cover_art() == old(self).spec_cover_art(),
            final(self).spec_toc() == old(self).spec_toc(),
            final(self).spec_tracks() == old(self).spec_tracks(),
            final(self).spec_leadout() == old(self).spec_leadout(),
            final(self).spec_musicbrainz() == old(self).spec_musicbrainz(),
            final(self).spec_release_index() == old(self).spec_release_index(),
            final(self).spec_disc_index() == old(self).spec_disc_index(),
            old(self).index_follows_release() ==> final(self).index_follows_release(),
    {
        match jpeg_dimensions(image.as_slice()) {
            Some(_) => {
                self.receive_cover_art(image);
                true
            },
            None => false,
        }
    }
}

/// Selecting a release by index selects the release at that index when there is one, and no
/// release for `None`; an index that names no release leaves the selection as it was.
pub proof fn lemma_set_release_selects(mb: Option<Discid>, before: Option<usize>, index: Option<usize>)
    ensures
        selected_release(mb, release_index_after(mb, before, index)) == match index {
            None => None,
            Some(_) => if selected_release(mb, index) is Some {
                selected_release(mb, index)
            } else {
                selected_release(mb, before)
            },
        },
{
}

/// MusicBrainz data with a single release has that release selected automatically.
pub proof fn lemma_single_release_selected(d: Discid)
    requires
        d.releases matches Some(rs) && rs@.len() == 1,
    ensures
        selected_release(Some(d), auto_release_index(d)) == Some(d.releases->Some_0@[0]),
{
}

/// The only medium of a single-disc release is selected automatically.
pub proof fn lemma_single_medium_selected(rel: Release, offsets: Seq<u32>)
    requires
        rel.media matches Some(ms) && ms@.len() == 1,
    ensures
        disc_index_for(Some(rel), offsets) == Some(0usize),
        selected_media(Some(rel), disc_index_for(Some(rel), offsets)) == Some(
            rel.media->Some_0@[0],
        ),
{
}

/// Without a selected release no medium is selected, so no track has metadata.
pub proof fn lemma_no_release_no_metadata(offsets: Seq<u32>, index: Option<usize>, n: nat)
    ensures
        disc_index_for(None, offsets) is None,
        metadata_for(selected_media(None, index), n) is None,
{
}

/// The medium found from the track offsets has those offsets among its disc ids, and is the
/// only one that has them.
pub proof fn lemma_found_medium_has_offsets(ms: Seq<Media>, offsets: Seq<u32>)
    requires
        ms.len() <= usize::MAX,
        unique_media_with_offsets(ms, offsets) is Some,
    ensures
        only_media_with_offsets(
            ms,
            offsets,
            unique_media_with_offsets(ms, offsets)->Some_0 as int,
        ),
{
    let i = choose|i: int| only_media_with_offsets(ms, offsets, i);
    assert(only_media_with_offsets(ms, offsets, i));
    assert(i as usize as int == i);
}

/// The tags of every track record its number, in decimal.
pub proof fn lemma_tags_record_track_number(
    base: Track,
    release: Option<Release>,
    disc_index: Option<usize>,
    meta: Option<MbTrack>,
)
    ensures
        tags_for(base, release, disc_index, meta).dom().contains("TRACKNUMBER"@),
        tags_for(base, release, disc_index, meta)["TRACKNUMBER"@] == seq![
            dec_digits(base.toc_entry.track as nat),
        ],
        all_dec_digits(tags_for(base, release, disc_index, meta)["TRACKNUMBER"@][0]),
        dec_value(tags_for(base, release, disc_index, meta)["TRACKNUMBER"@][0])
            == base.toc_entry.track,
{
    lemma_dec_digits_value(base.toc_entry.track as nat);
    reveal_strlit("TRACKNUMBER");
    reveal_strlit("WINDOWS_IDENTIFIER");
    reveal_strlit("ALBUMSORT");
    reveal_strlit("ALBUM");
    reveal_strlit("MUSICBRAINZ_ALBUMID");
    reveal_strlit("ALBUMARTISTSORT");
    reveal_strlit("ALBUMARTIST");
    reveal_strlit("MUSICBRAINZ_ALBUMARTISTID");
    reveal_strlit("RELEASEDATE");
    reveal_strlit("RELEASEYEAR");
    reveal_strlit("RELEASECOUNTRY");
    reveal_strlit("RELEASESTATUS");
    reveal_strlit("BARCODE");
    reveal_strlit("TOTALDISCS");
    reveal_strlit("DISCTOTAL");
    reveal_strlit("TOTALTRACKS");
    reveal_strlit("TRACKTOTAL");
    reveal_strlit("DISCNUMBER");
    reveal_strlit("MEDIA");
    reveal_strlit("SCRIPT");
    reveal_strlit("TITLESORT");
    reveal_strlit("TITLE");
    reveal_strlit("MUSICBRAINZ_TRACKID");
    reveal_strlit("ARTISTSORT");
    reveal_strlit("ARTIST");
    reveal_strlit("ORIGINALDATE");
    reveal_strlit("ORIGINALYEAR");
    let key = "TRACKNUMBER"@;
    assert(key.len() == 11);
    assert("WINDOWS_IDENTIFIER"@.len() == 18);
    assert(key != "WINDOWS_IDENTIFIER"@);
    assert(key != "ALBUMSORT"@);
    assert(key != "ALBUM"@);
    assert(key != "MUSICBRAINZ_ALBUMID"@);
    assert(key != "ALBUMARTISTSORT"@);
    assert(key[0] != "ALBUMARTIST"@[0]);
    assert(key != "ALBUMARTIST"@);
    assert(key != "MUSICBRAINZ_ALBUMARTISTID"@);
    assert(key[0] != "RELEASEDATE"@[0]);
    assert(key != "RELEASEDATE"@);
    assert(key != "RELEASEYEAR"@);
    assert(key != "RELEASECOUNTRY"@);
    assert(key != "RELEASESTATUS"@);
    assert(key != "BARCODE"@);
    assert(key != "TOTALDISCS"@);
    assert(key != "DISCTOTAL"@);
    assert(key[1] != "TOTALTRACKS"@[1]);
    assert(key != "TOTALTRACKS"@);
    assert(key != "TRACKTOTAL"@);
    assert(key != "DISCNUMBER"@);
    assert(key != "MEDIA"@);
    assert(key != "SCRIPT"@);
    assert(key != "TITLESORT"@);
    assert(key != "TITLE"@);
    assert(key != "MUSICBRAINZ_TRACKID"@);
    assert(key[0] != "ARTISTSORT"@[0]);
    assert(key != "ARTISTSORT"@);
    assert(key != "ARTIST"@);
    assert(key != "ORIGINALDATE"@);
    assert(key != "ORIGINALYEAR"@);
}


/// With a release selected and disc index `d` (the medium's place among the release's media,
/// from 0), the tags of every track give the disc number as the decimal number `d + 1`.
pub proof fn lemma_tags_record_disc_number(
    base: Track,
    rel: Release,
    d: usize,
    meta: Option<MbTrack>,
)
    ensures
        ({
            let t = tags_for(base, Some(rel), Some(d), meta);
            &&& t.dom().contains("DISCNUMBER"@)
            &&& t["DISCNUMBER"@].len() == 1
            &&& all_dec_digits(t["DISCNUMBER"@][0])
            &&& dec_value(t["DISCNUMBER"@][0]) == d + 1
        }),
{
    reveal_strlit("DISCNUMBER");
    reveal_strlit("MEDIA");
    reveal_strlit("SCRIPT");
    reveal_strlit("TITLESORT");
    reveal_strlit("TITLE");
    reveal_strlit("MUSICBRAINZ_TRACKID");
    reveal_strlit("ARTISTSORT");
    reveal_strlit("ARTIST");
    reveal_strlit("ORIGINALDATE");
    reveal_strlit("ORIGINALYEAR");
    lemma_dec_digits_value((d + 1) as nat);
    let key = "DISCNUMBER"@;
    assert(key.len() == 10);
    assert(key != "MEDIA"@);
    assert(key != "SCRIPT"@);
    assert(key != "TITLESORT"@);
    assert(key != "TITLE"@);
    assert(key != "MUSICBRAINZ_TRACKID"@);
    assert(key[0] != "ARTISTSORT"@[0]);
    assert(key != "ARTISTSORT"@);
    assert(key != "ARTIST"@);
    assert(key != "ORIGINALDATE"@);
    assert(key != "ORIGINALYEAR"@);
}

} // verus!
