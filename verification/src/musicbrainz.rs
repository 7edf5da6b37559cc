//! The parts of a MusicBrainz disc lookup that the library works with.
//!
//! These hold, as plain values, what the library reads of the MusicBrainz entities (disc id,
//! releases, media, tracks, artist credits). The lookup itself, and the conversion from the
//! MusicBrainz client's types, happen outside the library.
use musicbrainz_rs::chrono::Datelike;
use musicbrainz_rs::entity::date_string::DateString;
use vstd::prelude::*;

use crate::text::{chars_of, parse_unsigned, parse_usize, same_text, string_from_chars};

verus! {

/// One credited artist.
#[derive(Debug, Clone, PartialEq)]
pub struct ArtistCredit {
    /// The name the artist is credited under.
    pub name: String,
    /// The MusicBrainz id of the artist.
    pub artist_id: String,
}

/// A MusicBrainz date string: `YYYY`, `YYYY-MM` or `YYYY-MM-DD`.
#[derive(Debug, Clone, PartialEq)]
pub struct ReleaseDate {
    /// The date as MusicBrainz writes it.
    pub text: String,
}

/// The part of a date before its first `-`: the year.
pub open spec fn year_part(s: Seq<char>) -> Seq<char>
    decreases s.len(),
{
    if s.len() == 0 || s[0] == '-' {
        Seq::empty()
    } else {
        seq![s[0]] + year_part(s.drop_first())
    }
}

/// The year of a date, when its year part is a number that fits a `u32`.
pub open spec fn date_year(s: Seq<char>) -> Option<nat> {
    parse_unsigned(year_part(s), u32::MAX as nat)
}

proof fn lemma_year_part_prefix(s: Seq<char>, k: int)
    requires
        0 <= k <= s.len(),
        forall|j: int| 0 <= j < k ==> #[trigger] s[j] != '-',
        k == s.len() || s[k] == '-',
    ensures
        year_part(s) == s.take(k),
    decreases k,
{
    if k == 0 {
        assert(s.take(0) =~= Seq::<char>::empty());
    } else {
        assert forall|j: int| 0 <= j < k - 1 implies #[trigger] s.drop_first()[j] != '-' by {
            assert(s.drop_first()[j] == s[j + 1]);
        }
        if k - 1 < s.drop_first().len() {
            assert(s.drop_first()[k - 1] == s[k]);
        }
        lemma_year_part_prefix(s.drop_first(), k - 1);
        assert(seq![s[0]] + s.drop_first().take(k - 1) =~= s.take(k));
    }
}

impl ReleaseDate {
    /// The year of the date: its part before the first `-`, as a number.
    pub fn year(&self) -> (r: Option<u32>)
        ensures
            match r {
                Some(y) => date_year(self.text@) == Some(y as nat),
                None => date_year(self.text@) is None,
            },
    {
        let cs = chars_of(self.text.as_str());
        let mut k: usize = 0;
        while k < cs.len() && cs[k] != '-'
            invariant
                k <= cs.len(),
                cs@ == self.text@,
                forall|j: int| 0 <= j < k ==> #[trigger] cs@[j] != '-',
            decreases cs.len() - k,
        {
            k = k + 1;
        }
        let mut prefix: Vec<char> = Vec::new();
        let mut i: usize = 0;
        while i < k
            invariant
                i <= k <= cs.len(),
                prefix@ == cs@.take(i as int),
            decreases k - i,
        {
            prefix.push(cs[i]);
            i = i + 1;
            assert(prefix@ =~= cs@.take(i as int));
        }
        proof {
            lemma_year_part_prefix(cs@, k as int);
        }
        let text = string_from_chars(&prefix);
        match parse_usize(text.as_str()) {
            Some(v) => {
                if v <= 0xffff_ffff {
                    Some(v as u32)
                } else {
                    None
                }
            },
            None => None,
        }
    }
}

/// The recording behind a track.
#[derive(Debug, Clone, PartialEq)]
pub struct Recording {
    /// When the recording was first released.
    pub first_release_date: Option<ReleaseDate>,
}

/// A track on a medium of a release.
#[derive(Debug, Clone, PartialEq)]
pub struct MbTrack {
    /// The MusicBrainz id of the track.
    pub id: String,
    /// The title of the track.
    pub title: String,
    /// The track number as printed on the release (e.g. `5` or `A1`).
    pub number: String,
    /// The artists credited for the track, where they differ from the release's.
    pub artist_credit: Option<Vec<ArtistCredit>>,
    /// The recording of the track.
    pub recording: Option<Recording>,
}

/// A disc id attached to a medium, with its track offsets.
#[derive(Debug, Clone, PartialEq)]
pub struct MbDisc {
    /// The MusicBrainz disc id.
    pub id: String,
    /// The start sector of each track.
    pub offsets: Vec<u32>,
}

/// One medium (disc) of a release.
#[derive(Debug, Clone, PartialEq)]
pub struct Media {
    /// The position of the medium within the release (1-based).
    pub position: Option<u32>,
    /// The number of tracks on the medium.
    pub track_count: u32,
    /// The format of the medium (e.g. `CD`).
    pub format: Option<String>,
    /// The disc ids attached to the medium.
    pub discs: Option<Vec<MbDisc>>,
    /// The tracks of the medium.
    pub tracks: Option<Vec<MbTrack>>,
}

/// The status of a release.
#[derive(Debug, Clone, Copy, PartialEq, Eq, Structural)]
pub enum ReleaseStatus {
    /// Sanctioned by the artist and/or their record company.
    Official,
    /// A give-away or promotional release.
    Promotion,
    /// An unofficial release.
    Bootleg,
    /// An alternate version with changed titles.
    PseudoRelease,
    /// Any other status.
    UnrecognizedReleaseStatus,
}

/// The script of a release's text, by its ISO 15924 code (e.g. `Latn`).
#[derive(Debug, Clone, PartialEq)]
pub struct ReleaseScript {
    /// The four-letter script code.
    pub code: String,
}

/// A MusicBrainz release.
#[derive(Debug, Clone, PartialEq)]
pub struct Release {
    /// The MusicBrainz id of the release.
    pub id: String,
    /// The title of the release.
    pub title: String,
    /// The status of the release.
    pub status: Option<ReleaseStatus>,
    /// The release date.
    pub date: Option<ReleaseDate>,
    /// The release country.
    pub country: Option<String>,
    /// The barcode.
    pub barcode: Option<String>,
    /// A comment telling this release apart from similar ones.
    pub disambiguation: Option<String>,
    /// The credited artists.
    pub artist_credit: Option<Vec<ArtistCredit>>,
    /// The media of the release.
    pub media: Option<Vec<Media>>,
    /// The script of the release's text representation.
    pub script: Option<ReleaseScript>,
}

/// The result of a MusicBrainz disc id lookup.
#[derive(Debug, Clone, PartialEq)]
pub struct Discid {
    /// The disc id.
    pub id: String,
    /// The track offsets of the disc.
    pub offsets: Vec<u32>,
    /// The releases that contain this disc.
    pub releases: Option<Vec<Release>>,
}


/// The day, counted from 1 January of year 1, of the date that
/// `DateString::into_naive_date(1, 1, 1)` reads from a date's text (a missing or `??` month or
/// day counting as 1), if it reads one.
pub uninterp spec fn naive_date_days(text: Seq<char>) -> Option<i32>;

/// `DateString::into_naive_date(1, 1, 1)`, then `Datelike::num_days_from_ce`: the day number
/// of the date, when the text reads as one.
#[verifier::external_body]
fn release_date_days(text: &str) -> (r: Option<i32>)
    ensures
        r == naive_date_days(text@),
{
    let date = DateString(text.to_string()).into_naive_date(1, 1, 1).ok()?;
    Some(date.num_days_from_ce())
}

/// The key by which releases are ordered by date: no date before a date that does not read,
/// and that before any date that reads, ordered by day.
pub open spec fn date_key(r: Release) -> Option<Option<i32>> {
    match r.date {
        Some(d) => Some(naive_date_days(d.text@)),
        None => None,
    }
}

/// Key `a` comes no later than key `b` (see [`date_key`]).
pub open spec fn key_le(a: Option<Option<i32>>, b: Option<Option<i32>>) -> bool {
    match (a, b) {
        (None, _) => true,
        (Some(_), None) => false,
        (Some(None), Some(_)) => true,
        (Some(Some(_)), Some(None)) => false,
        (Some(Some(x)), Some(Some(y))) => x <= y,
    }
}

/// Release `m` is the latest of `rs`: no release has a later date, and every release after it
/// has an earlier one.
pub open spec fn is_latest(rs: Seq<Release>, m: int) -> bool {
    &&& 0 <= m < rs.len()
    &&& forall|j: int| 0 <= j < rs.len() ==> key_le(date_key(#[trigger] rs[j]), date_key(rs[m]))
    &&& forall|j: int| m < j < rs.len() ==> !key_le(date_key(rs[m]), date_key(#[trigger] rs[j]))
}

/// `k` is the first index of a release with the id of the latest release of `rs`.
pub open spec fn is_latest_release_index(rs: Seq<Release>, k: int) -> bool {
    exists|m: int|
        #![trigger is_latest(rs, m)]
        is_latest(rs, m) && 0 <= k <= m && rs[k].id@ == rs[m].id@ && forall|j: int|
            0 <= j < k ==> (#[trigger] rs[j]).id@ != rs[m].id@
}

impl Discid {
    /// The index of the latest release by date: among the releases with the latest date the
    /// last, given as the first index of a release with its id. `None` without releases.
    pub fn latest_release_index(&self) -> (r: Option<usize>)
        ensures
            match self.releases {
                Some(rs) => match r {
                    Some(k) => is_latest_release_index(rs@, k as int),
                    None => rs@.len() == 0,
                },
                None => r is None,
            },
    {
        let rs = match &self.releases {
            Some(rs) => rs,
            None => return None,
        };
        if rs.len() == 0 {
            return None;
        }
        let ghost all = rs@;
        let mut best: usize = 0;
        let mut best_key: Option<Option<i32>> = release_date_key(&rs[0]);
        let mut i: usize = 1;
        while i < rs.len()
            invariant
                rs@ == all,
                1 <= i <= all.len(),
                best < i,
                best_key == date_key(all[best as int]),
                forall|j: int| 0 <= j < i ==> key_le(date_key(#[trigger] all[j]), best_key),
                forall|j: int| best < j < i ==> !key_le(best_key, date_key(#[trigger] all[j])),
            decreases all.len() - i,
        {
            let key = release_date_key(&rs[i]);
            if date_key_le(&best_key, &key) {
                best = i;
                best_key = key;
            }
            i = i + 1;
        }
        assert(is_latest(all, best as int));
        let mut k: usize = 0;
        while k < best
            invariant
                rs@ == all,
                best < all.len(),
                k <= best,
                forall|j: int| 0 <= j < k ==> (#[trigger] all[j]).id@ != all[best as int].id@,
            ensures
                k <= best,
                forall|j: int| 0 <= j < k ==> (#[trigger] all[j]).id@ != all[best as int].id@,
                k < best ==> all[k as int].id@ == all[best as int].id@,
            decreases best - k,
        {
            if same_text(rs[k].id.as_str(), rs[best].id.as_str()) {
                break;
            }
            k = k + 1;
        }
        Some(k)
    }
}

/// The date key of a release (see [`date_key`]).
fn release_date_key(r: &Release) -> (k: Option<Option<i32>>)
    ensures
        k == date_key(*r),
{
    match &r.date {
        Some(d) => Some(release_date_days(d.text.as_str())),
        None => None,
    }
}

/// Whether key `a` comes no later than key `b` (see [`key_le`]).
fn date_key_le(a: &Option<Option<i32>>, b: &Option<Option<i32>>) -> (r: bool)
    ensures
        r == key_le(*a, *b),
{
    match (a, b) {
        (None, _) => true,
        (Some(_), None) => false,
        (Some(None), Some(_)) => true,
        (Some(Some(_)), Some(None)) => false,
        (Some(Some(x)), Some(Some(y))) => *x <= *y,
    }
}

} // verus!
