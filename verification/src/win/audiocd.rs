//! An audio CD on Windows: the [`Disc`] built from the drive's [`CDROM_TOC`] and the tracks that
//! its `.cda` files describe, each checked against the other.
//!
//! Opening the drive and reading the `.cda` files happen outside the library, which receives
//! the TOC and the tracks.
use vstd::prelude::*;

use super::bindings::CDROM_TOC;
use super::toc::{
    audio_entries, entry_of_track_data, entry_sectors, frame_sector, leadout_track_data,
    toc_addresses_fit, CdromTocError,
};
use crate::cd_toc::{toc_audio_leadout, toc_audio_sectors, toc_leadout, toc_leadout_sector, valid_audio_parts};
use crate::disc::{leadout_agrees_with_toc, lemma_valid_parts_ordered, track_agrees, Disc, DiscError};
use crate::sort::{sort_by_key, sorted_by_key, SortKey};
use crate::toc::{Frame, TocEntry};
use crate::track::Track;

verus! {

broadcast use crate::toc::group_frame;

impl<'meta> SortKey for Track<'meta> {
    /// Tracks are ordered by their start.
    open spec fn sort_key(&self) -> int {
        self.toc_entry.start.count() as int
    }

    fn key(&self) -> (k: u64) {
        self.toc_entry.start.as_usize() as u64
    }
}

/// Why the TOC of a drive and the tracks of its `.cda` files do not make a [`Disc`].
#[derive(Debug)]
pub enum AudioCdError {
    /// There are no tracks.
    NoCdaFiles,
    /// The first track number of the TOC is not that of the first track.
    FirstTrackMismatch,
    /// The last track number of the TOC is not that of the last track.
    LastTrackMismatch,
    /// The TOC has no descriptor for this track number.
    TrackMissingInToc(u8),
    /// The TOC descriptor for this track number has another start.
    TrackMismatch(u8),
    /// The TOC does not make a `cdtoc` table of contents.
    InvalidToc(CdromTocError),
    /// The tracks do not agree with the table of contents.
    Disc(DiscError),
}

/// The first failing check of one track against the TOC descriptor of its number, if any.
pub open spec fn track_check(wintoc: CDROM_TOC, t: Track) -> Option<AudioCdError> {
    let n = t.toc_entry.track;
    if n == 0 || n > 100 {
        Some(AudioCdError::TrackMissingInToc(n))
    } else if entry_of_track_data(wintoc.TrackData@[n - 1]) != t.toc_entry {
        Some(AudioCdError::TrackMismatch(n))
    } else {
        None
    }
}

/// The first failing check of the tracks `ts`, in order, against the TOC, if any.
pub open spec fn first_track_check(wintoc: CDROM_TOC, ts: Seq<Track>) -> Option<AudioCdError>
    decreases ts.len(),
{
    if ts.len() == 0 {
        None
    } else if track_check(wintoc, ts[0]) is Some {
        track_check(wintoc, ts[0])
    } else {
        first_track_check(wintoc, ts.drop_first())
    }
}

/// The first failing check of the sorted tracks against the TOC: there must be a track, the
/// first and last track numbers must be those of the TOC, and each track must start where its
/// descriptor says.
pub open spec fn cda_checks(wintoc: CDROM_TOC, sorted: Seq<Track>) -> Option<AudioCdError> {
    if sorted.len() == 0 {
        Some(AudioCdError::NoCdaFiles)
    } else if wintoc.FirstTrack != sorted[0].toc_entry.track {
        Some(AudioCdError::FirstTrackMismatch)
    } else if wintoc.LastTrack != sorted.last().toc_entry.track {
        Some(AudioCdError::LastTrackMismatch)
    } else {
        first_track_check(wintoc, sorted)
    }
}

/// The audio start sectors of a TOC.
pub open spec fn wintoc_audio(wintoc: CDROM_TOC) -> Seq<u32> {
    entry_sectors(audio_entries(wintoc.TrackData@))
}

/// The lead-out sector of a TOC, if it has a lead-out descriptor.
pub open spec fn wintoc_leadout(wintoc: CDROM_TOC) -> Option<u32> {
    match leadout_track_data(wintoc.TrackData@) {
        Some(t) => Some(frame_sector(entry_of_track_data(t).start)),
        None => None,
    }
}

/// Build the [`Disc`] of an audio CD from the drive's TOC and the tracks of its `.cda` files.
///
/// The tracks are sorted by start. Then, in order: there must be tracks; the first and last
/// track numbers of the TOC must be those of the first and last track; each track must start
/// where the TOC descriptor of its number says; the TOC must make a `cdtoc` table of contents
/// (see [`CDROM_TOC::as_toc`]); and the tracks must agree with it (see [`Disc::new`]).
#[verifier::rlimit(60)]
pub fn disc_from_cda_tracks(wintoc: &CDROM_TOC, tracks: Vec<Track<'static>>) -> (r: Result<
    Disc,
    AudioCdError,
>)
    requires
        toc_addresses_fit(*wintoc),
    ensures
        ({
            let sorted = sorted_by_key(tracks@);
            match cda_checks(*wintoc, sorted) {
                Some(e) => r matches Err(x) && x == e,
                None => match wintoc_leadout(*wintoc) {
                    None => r matches Err(AudioCdError::InvalidToc(CdromTocError::NoLeadout)),
                    Some(leadout) => if !valid_audio_parts(wintoc_audio(*wintoc), leadout) {
                        r matches Err(AudioCdError::InvalidToc(CdromTocError::Invalid(_)))
                    } else if forall|i: int|
                        0 <= i < sorted.len() ==> track_agrees(
                            wintoc_audio(*wintoc),
                            leadout,
                            #[trigger] sorted[i],
                        ) {
                        r matches Ok(disc) && {
                            &&& toc_audio_sectors(disc.spec_toc()) == wintoc_audio(*wintoc)
                            &&& toc_audio_leadout(disc.spec_toc()) == leadout
                            &&& toc_leadout(disc.spec_toc()) == leadout
                            &&& disc.spec_tracks() == sorted
                            &&& disc.spec_leadout() == Frame::of(leadout as usize)
                            &&& disc.spec_musicbrainz() is None
                            &&& disc.spec_release_index() is None
                            &&& disc.spec_disc_index() is None
                            &&& disc.spec_cover_art() is None
                        }
                    } else {
                        r matches Err(AudioCdError::Disc(DiscError::TocMismatch))
                    },
                },
            }
        }),
{
    let ghost orig = tracks@;
    let sorted_tracks = sort_by_key(tracks);
    let len = sorted_tracks.len();
    if len == 0 {
        return Err(AudioCdError::NoCdaFiles);
    }
    if wintoc.FirstTrack != sorted_tracks[0].toc_entry.track {
        return Err(AudioCdError::FirstTrackMismatch);
    }
    if wintoc.LastTrack != sorted_tracks[len - 1].toc_entry.track {
        return Err(AudioCdError::LastTrackMismatch);
    }
    match check_tracks(wintoc, &sorted_tracks) {
        Some(e) => return Err(e),
        None => {},
    }
    disc_from_checked_tracks(wintoc, sorted_tracks)
}

/// Build the [`Disc`] from the drive's TOC and tracks that passed the checks against it (see
/// [`disc_from_cda_tracks`]).
#[verifier::rlimit(60)]
fn disc_from_checked_tracks(wintoc: &CDROM_TOC, sorted_tracks: Vec<Track<'static>>) -> (r: Result<
    Disc,
    AudioCdError,
>)
    requires
        toc_addresses_fit(*wintoc),
    ensures
        match wintoc_leadout(*wintoc) {
            None => r matches Err(AudioCdError::InvalidToc(CdromTocError::NoLeadout)),
            Some(leadout) => if !valid_audio_parts(wintoc_audio(*wintoc), leadout) {
                r matches Err(AudioCdError::InvalidToc(CdromTocError::Invalid(_)))
            } else if forall|i: int|
                0 <= i < sorted_tracks@.len() ==> track_agrees(
                    wintoc_audio(*wintoc),
                    leadout,
                    #[trigger] sorted_tracks@[i],
                ) {
                r matches Ok(disc) && {
                    &&& toc_audio_sectors(disc.spec_toc()) == wintoc_audio(*wintoc)
                    &&& toc_audio_leadout(disc.spec_toc()) == leadout
                    &&& toc_leadout(disc.spec_toc()) == leadout
                    &&& disc.spec_tracks() == sorted_tracks@
                    &&& disc.spec_leadout() == Frame::of(leadout as usize)
                    &&& disc.spec_musicbrainz() is None
                    &&& disc.spec_release_index() is None
                    &&& disc.spec_disc_index() is None
                    &&& disc.spec_cover_art() is None
                }
            } else {
                r matches Err(AudioCdError::Disc(DiscError::TocMismatch))
            },
        },
{
    let toc = match wintoc.as_toc() {
        Ok(toc) => toc,
        Err(e) => return Err(AudioCdError::InvalidToc(e)),
    };
    let leadout = toc_leadout_sector(&toc);
    proof {
        lemma_valid_parts_ordered(toc);
        assert(wintoc_leadout(*wintoc) == Some(leadout));
        assert(wintoc_audio(*wintoc) == toc_audio_sectors(toc));
        assert(toc_audio_leadout(toc) == leadout);
    }
    let frame = Frame::new(leadout as usize);
    assert(leadout_agrees_with_toc(toc, frame));
    let built = Disc::new(toc, sorted_tracks, frame);
    match built {
        Ok(disc) => Ok(disc),
        Err(e) => Err(AudioCdError::Disc(e)),
    }
}

/// The first track of `tracks`, in order, that fails its check against the TOC, if any (see
/// [`track_check`]).
fn check_tracks(wintoc: &CDROM_TOC, tracks: &Vec<Track<'static>>) -> (r: Option<AudioCdError>)
    requires
        toc_addresses_fit(*wintoc),
    ensures
        match first_track_check(*wintoc, tracks@) {
            Some(e) => r matches Some(x) && x == e,
            None => r is None,
        },
{
    let ghost ts = tracks@;
    let mut i: usize = 0;
    assert(ts.skip(0) =~= ts);
    while i < tracks.len()
        invariant
            tracks@ == ts,
            i <= ts.len(),
            toc_addresses_fit(*wintoc),
            first_track_check(*wintoc, ts) == first_track_check(*wintoc, ts.skip(i as int)),
        decreases tracks.len() - i,
    {
        let t = tracks[i];
        let ghost rest = ts.skip(i as int);
        assert(rest[0] == t);
        assert(rest.drop_first() =~= ts.skip(i + 1));
        let n = t.toc_entry.track;
        if n == 0 || n > 100 {
            return Some(AudioCdError::TrackMissingInToc(n));
        }
        let entry = TocEntry::from_track_data(&wintoc.TrackData[(n - 1) as usize]);
        if entry != t.toc_entry {
            return Some(AudioCdError::TrackMismatch(n));
        }
        i = i + 1;
    }
    assert(ts.skip(i as int) =~= Seq::<Track>::empty());
    None
}

} // verus!
