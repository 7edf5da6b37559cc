//! The `cdtoc` table of contents, as the rest of the library sees it.
//!
//! A [`Toc`] is opaque here. Its contents are named by spec functions (the audio start sectors
//! and the audio leadout), and each `cdtoc` function that the library calls has a wrapper whose
//! contract is stated over those names, as the `cdtoc` source computes it.
use cdtoc::{Duration as CdDuration, Toc, TocError, Track as CdTrack};
use vstd::prelude::*;

verus! {

#[verifier::external_type_specification]
#[verifier::external_body]
pub struct ExToc(Toc);

#[verifier::external_type_specification]
#[verifier::external_body]
pub struct ExTocError(TocError);

#[verifier::external_type_specification]
#[verifier::external_body]
pub struct ExCdTrack(CdTrack);

#[verifier::external_type_specification]
#[verifier::external_body]
pub struct ExCdDuration(CdDuration);

/// `Toc::clone` (derived): a table of contents equal to the original.
pub assume_specification[ <Toc as Clone>::clone ](toc: &Toc) -> (r: Toc)
    ensures
        r == *toc,
;

/// The start sector of each audio track of a table of contents, in order.
pub uninterp spec fn toc_audio_sectors(toc: Toc) -> Seq<u32>;

/// Where the audio of a table of contents ends (the leadout for an audio-only disc).
pub uninterp spec fn toc_audio_leadout(toc: Toc) -> u32;

/// The leadout sector of a table of contents.
pub uninterp spec fn toc_leadout(toc: Toc) -> u32;

/// The first sector of an audio track.
pub uninterp spec fn cd_track_from(track: CdTrack) -> u32;

/// The sector after the last sector of an audio track.
pub uninterp spec fn cd_track_to(track: CdTrack) -> u32;

/// The number of sectors of a duration.
pub uninterp spec fn cd_duration_sectors(d: CdDuration) -> nat;

/// The MusicBrainz disc id for the given audio start sectors and audio leadout.
pub uninterp spec fn musicbrainz_disc_id(audio: Seq<u32>, audio_leadout: u32) -> Seq<char>;

/// Audio start sectors and a leadout that `Toc::from_parts` accepts for an audio-only disc:
/// 1 to 99 tracks, a lead-in of at least 150, and strictly increasing sectors.
pub open spec fn valid_audio_parts(audio: Seq<u32>, leadout: u32) -> bool {
    &&& 1 <= audio.len() <= 99
    &&& audio[0] >= 150
    &&& forall|i: int| 0 <= i < audio.len() - 1 ==> #[trigger] audio[i] < audio[i + 1]
    &&& leadout > audio.last()
}

/// `Toc::from_parts(audio, None, leadout)`: an audio-only table of contents, built when the
/// parts are valid (see [`valid_audio_parts`]); which `TocError` comes otherwise is not stated.
#[verifier::external_body]
pub(crate) fn toc_from_audio_parts(audio: Vec<u32>, leadout: u32) -> (r: Result<Toc, TocError>)
    ensures
        r is Ok <==> valid_audio_parts(audio@, leadout),
        r matches Ok(toc) ==> {
            &&& toc_audio_sectors(toc) == audio@
            &&& toc_leadout(toc) == leadout
            &&& toc_audio_leadout(toc) == leadout
        },
{
    Toc::from_parts(audio, None, leadout)
}

/// `Toc::leadout`: the leadout sector.
#[verifier::external_body]
pub(crate) fn toc_leadout_sector(toc: &Toc) -> (r: u32)
    ensures
        r == toc_leadout(*toc),
{
    toc.leadout()
}

/// `Toc::audio_sectors`: the start sector of each audio track.
#[verifier::external_body]
pub(crate) fn toc_audio_start_sectors(toc: &Toc) -> (r: Vec<u32>)
    ensures
        r@ == toc_audio_sectors(*toc),
{
    toc.audio_sectors().to_vec()
}

/// `Toc::audio_leadout`: where the audio ends.
#[verifier::external_body]
pub(crate) fn toc_audio_leadout_sector(toc: &Toc) -> (r: u32)
    ensures
        r == toc_audio_leadout(*toc),
{
    toc.audio_leadout()
}

/// `Toc::audio_track`: audio track `num` (1-based), which spans from its start sector to the
/// start of the next track, or to the audio leadout for the last one.
#[verifier::external_body]
pub(crate) fn toc_audio_track(toc: &Toc, num: usize) -> (r: Option<CdTrack>)
    ensures
        r is Some <==> 1 <= num <= toc_audio_sectors(*toc).len(),
        r matches Some(t) ==> {
            &&& cd_track_from(t) == toc_audio_sectors(*toc)[num - 1]
            &&& cd_track_to(t) == if num < toc_audio_sectors(*toc).len() {
                toc_audio_sectors(*toc)[num as int]
            } else {
                toc_audio_leadout(*toc)
            }
        },
{
    toc.audio_track(num)
}

/// Minutes, seconds and frames of a sector count, 75 sectors to the second.
pub open spec fn sectors_to_msf(sectors: nat) -> (nat, nat, nat) {
    (sectors / 75 / 60, (sectors / 75) % 60, sectors % 75)
}

/// `Track::msf`: the start of the track in minutes, seconds and frames.
#[verifier::external_body]
pub(crate) fn cd_track_msf(track: &CdTrack) -> (r: (u32, u8, u8))
    ensures
        r.0 == sectors_to_msf(cd_track_from(*track) as nat).0,
        r.1 == sectors_to_msf(cd_track_from(*track) as nat).1,
        r.2 == sectors_to_msf(cd_track_from(*track) as nat).2,
{
    track.msf()
}

/// `Track::duration`: the number of sectors from the start of the track to its end. The
/// subtraction in `cdtoc` requires that the track does not end before it starts.
#[verifier::external_body]
pub(crate) fn cd_track_duration(track: &CdTrack) -> (r: CdDuration)
    requires
        cd_track_from(*track) <= cd_track_to(*track),
    ensures
        cd_duration_sectors(r) == cd_track_to(*track) - cd_track_from(*track),
{
    track.duration()
}

/// Days, hours, minutes, seconds and frames of a sector count.
pub open spec fn sectors_to_dhmsf(sectors: nat) -> (nat, nat, nat, nat, nat) {
    let s = sectors / 75;
    (s / 86_400, (s % 86_400) / 3600, (s % 3600) / 60, s % 60, sectors % 75)
}

/// `Duration::dhmsf`: the duration split into days, hours, minutes, seconds and frames.
#[verifier::external_body]
pub(crate) fn cd_duration_dhmsf(d: &CdDuration) -> (r: (u64, u8, u8, u8, u8))
    ensures
        r.0 == sectors_to_dhmsf(cd_duration_sectors(*d)).0,
        r.1 == sectors_to_dhmsf(cd_duration_sectors(*d)).1,
        r.2 == sectors_to_dhmsf(cd_duration_sectors(*d)).2,
        r.3 == sectors_to_dhmsf(cd_duration_sectors(*d)).3,
        r.4 == sectors_to_dhmsf(cd_duration_sectors(*d)).4,
{
    d.dhmsf()
}

/// `Toc::musicbrainz_id`: the MusicBrainz disc id, as text. It is computed from the audio start
/// sectors and the audio leadout alone.
#[verifier::external_body]
pub(crate) fn toc_musicbrainz_disc_id(toc: &Toc) -> (r: String)
    ensures
        r@ == musicbrainz_disc_id(toc_audio_sectors(*toc), toc_audio_leadout(*toc)),
{
    toc.musicbrainz_id().to_string()
}

} // verus!
