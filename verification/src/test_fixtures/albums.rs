//! Album data for tests: three real discs, their tracks, and what is expected of them.
//!
//! Not part of the public API proper; subject to change.
use vstd::prelude::*;

use crate::musicbrainz::{Discid, Media, Release};
use crate::text::{push_str, same_text};
use crate::toc::{msf_frames, Frame, Msf, TocEntry, LEADIN_FRAMES};
use crate::track::Track;

verus! {

broadcast use crate::toc::group_frame;

/// Test album identifier.
#[derive(Debug, Clone, Copy, PartialEq, Eq, Structural)]
pub enum TestAlbum {
    DefinitelyMaybe,
    TheWallDisc1,
    TheWallDisc2,
}

/// The tracks of an album, in order: start (minutes, seconds, frames, including the lead-in)
/// and duration in frames.
pub open spec fn album_rows(album: TestAlbum) -> Seq<(u8, u8, u8, usize)> {
    match album {
        TestAlbum::DefinitelyMaybe => seq![
            (0x00, 0x02, 0x21, 24242),
            (0x05, 0x19, 0x32, 23138),
            (0x0A, 0x22, 0x0D, 20762),
            (0x0F, 0x0B, 0x00, 20168),
            (0x13, 0x27, 0x44, 28272),
            (0x19, 0x38, 0x41, 21280),
            (0x1E, 0x28, 0x2D, 19338),
            (0x22, 0x3A, 0x21, 21700),
            (0x27, 0x2F, 0x3A, 11425),
            (0x2A, 0x14, 0x08, 29455),
            (0x30, 0x34, 0x3F, 14440),
        ],
        TestAlbum::TheWallDisc1 => seq![
            (0x00, 0x02, 0x00, 14967),
            (0x03, 0x15, 0x2A, 11240),
            (0x05, 0x33, 0x20, 14248),
            (0x09, 0x01, 0x1E, 8287),
            (0x0A, 0x33, 0x43, 17960),
            (0x0E, 0x33, 0x1B, 25040),
            (0x14, 0x19, 0x11, 12568),
            (0x17, 0x0C, 0x3C, 9625),
            (0x19, 0x15, 0x0A, 15832),
            (0x1C, 0x34, 0x11, 16240),
            (0x20, 0x1C, 0x39, 19230),
            (0x24, 0x2D, 0x0C, 5603),
            (0x25, 0x3B, 0x41, 5570),
        ],
        TestAlbum::TheWallDisc2 => seq![
            (0x00, 0x02, 0x00, 21115),
            (0x04, 0x2B, 0x28, 12020),
            (0x07, 0x17, 0x3C, 15340),
            (0x0A, 0x30, 0x19, 6980),
            (0x0C, 0x15, 0x1E, 6537),
            (0x0D, 0x30, 0x2A, 28628),
            (0x14, 0x0A, 0x14, 7210),
            (0x15, 0x2E, 0x1E, 19255),
            (0x1A, 0x03, 0x0A, 19780),
            (0x1E, 0x1A, 0x41, 17877),
            (0x22, 0x19, 0x11, 2268),
            (0x22, 0x37, 0x23, 23980),
            (0x28, 0x0F, 0x0F, 7735),
        ],
    }
}

/// The track built from `row`, the row of index `i`: number `i + 1`, its start and duration,
/// without metadata.
pub open spec fn row_track(row: (u8, u8, u8, usize), i: int) -> Track<'static> {
    Track {
        toc_entry: TocEntry {
            track: (i + 1) as u8,
            start: Frame::of(msf_frames(Msf::of(row.0, row.1, row.2)) as usize),
        },
        duration: Frame::of(row.3),
        windows_identifier: None,
        meta: None,
    }
}

/// The track built from row `i` of an album.
pub open spec fn album_track(album: TestAlbum, i: int) -> Track<'static> {
    row_track(album_rows(album)[i], i)
}

/// The start, in frames, of a row of [`album_rows`].
pub open spec fn row_start(row: (u8, u8, u8, usize)) -> nat {
    ((row.0 as nat * 60 + row.1 as nat) * 75 + row.2 as nat) as nat
}

/// The end, in frames, of a row of [`album_rows`]: its start plus its duration.
pub open spec fn row_end(row: (u8, u8, u8, usize)) -> nat {
    row_start(row) + row.3 as nat
}

/// The leadout of an album, in frames.
pub open spec fn album_leadout_frames(album: TestAlbum) -> nat {
    match album {
        TestAlbum::DefinitelyMaybe => ((0x34 * 60 + 0x05) * 75 + 0x1c) as nat,
        TestAlbum::TheWallDisc1 => ((0x27 * 60 + 0x0E) * 75 + 0x0A) as nat,
        TestAlbum::TheWallDisc2 => ((0x29 * 60 + 0x3a) * 75 + 0x19) as nat,
    }
}

/// Every row has frames and ends where the next one starts; the last ends at `leadout`.
pub open spec fn rows_chained(rows: Seq<(u8, u8, u8, usize)>, leadout: nat) -> bool
    decreases rows.len(),
{
    if rows.len() == 0 {
        true
    } else if rows.len() == 1 {
        rows[0].3 > 0 && row_start(rows[0]) + rows[0].3 == leadout
    } else {
        &&& rows[0].3 > 0
        &&& row_start(rows[0]) + rows[0].3 == row_start(rows[1])
        &&& rows_chained(rows.drop_first(), leadout)
    }
}

proof fn lemma_rows_chained(rows: Seq<(u8, u8, u8, usize)>, leadout: nat)
    requires
        rows_chained(rows, leadout),
        rows.len() > 0,
    ensures
        forall|i: int| 0 <= i < rows.len() ==> #[trigger] rows[i].3 > 0,
        forall|i: int| 0 <= i < rows.len() - 1 ==> #[trigger] row_end(rows[i]) == row_start(rows[i + 1]),
        row_start(rows.last()) + rows.last().3 == leadout,
    decreases rows.len(),
{
    if rows.len() > 1 {
        let rest = rows.drop_first();
        lemma_rows_chained(rest, leadout);
        assert forall|i: int| 0 <= i < rows.len() implies #[trigger] rows[i].3 > 0 by {
            if i > 0 {
                assert(rest[i - 1] == rows[i]);
            }
        }
        assert forall|i: int| 0 <= i < rows.len() - 1 implies #[trigger] row_end(rows[i])
            == row_start(rows[i + 1]) by {
            if i > 0 {
                assert(rest[i - 1] == rows[i]);
                assert(rest[i] == rows[i + 1]);
            }
        }
        assert(rest.last() == rows.last());
    }
}

proof fn lemma_starts_increase(rows: Seq<(u8, u8, u8, usize)>, leadout: nat, i: int, j: int)
    requires
        rows_chained(rows, leadout),
        0 <= i < j < rows.len(),
    ensures
        row_start(rows[i]) < row_start(rows[j]),
    decreases j - i,
{
    lemma_rows_chained(rows, leadout);
    assert(row_end(rows[j - 1]) == row_start(rows[j]));
    assert(rows[j - 1].3 > 0);
    if j - 1 > i {
        lemma_starts_increase(rows, leadout, i, j - 1);
    }
}

proof fn lemma_album_rows_chained(album: TestAlbum)
    ensures
        0 < album_rows(album).len() <= 13,
        rows_chained(album_rows(album), album_leadout_frames(album)),
        row_start(album_rows(album)[0]) >= 150,
{
    reveal_with_fuel(rows_chained, 14);
    match album {
        TestAlbum::DefinitelyMaybe => {
            assert(rows_chained(
                album_rows(TestAlbum::DefinitelyMaybe),
                album_leadout_frames(TestAlbum::DefinitelyMaybe),
            ));
        },
        TestAlbum::TheWallDisc1 => {
            assert(rows_chained(
                album_rows(TestAlbum::TheWallDisc1),
                album_leadout_frames(TestAlbum::TheWallDisc1),
            ));
        },
        TestAlbum::TheWallDisc2 => {
            assert(rows_chained(
                album_rows(TestAlbum::TheWallDisc2),
                album_leadout_frames(TestAlbum::TheWallDisc2),
            ));
        },
    }
}

/// The frame at which a track ends: its start plus its duration.
pub open spec fn track_end_frame(t: Track) -> nat {
    t.toc_entry.start.count() + t.duration.count()
}

/// The start of the track of a row is the start of the row.
proof fn lemma_row_track_start(row: (u8, u8, u8, usize), i: int)
    ensures
        row_track(row, i).toc_entry.start.count() == row_start(row),
        row_track(row, i).duration.count() == row.3,
{
    broadcast use crate::toc::group_msf;

    assert(row_start(row) <= (255 * 60 + 255) * 75 + 255) by (nonlinear_arith)
        requires
            row.0 <= 255,
            row.1 <= 255,
            row.2 <= 255,
    ;
}

/// The tracks of chained rows are numbered from 1, end each where the next starts, and the
/// last ends at the leadout.
proof fn lemma_row_tracks(rows: Seq<(u8, u8, u8, usize)>, leadout: nat, t: Seq<Track<'static>>)
    requires
        rows_chained(rows, leadout),
        0 < rows.len() < 256,
        t.len() == rows.len(),
        forall|i: int| 0 <= i < t.len() ==> #[trigger] t[i] == row_track(rows[i], i),
    ensures
        forall|i: int| 0 <= i < t.len() ==> (#[trigger] t[i]).toc_entry.track == i + 1 && t[i].meta
            is None,
        t[0].toc_entry.start.count() == row_start(rows[0]),
        forall|i: int|
            0 <= i < t.len() - 1 ==> #[trigger] track_end_frame(t[i]) == t[i + 1].toc_entry.start.count(),
        track_end_frame(t.last()) == leadout,
{
    lemma_rows_chained(rows, leadout);
    let n = rows.len() as int;
    assert forall|k: int| 0 <= k < t.len() - 1 implies #[trigger] track_end_frame(t[k])
        == t[k + 1].toc_entry.start.count() by {
        lemma_row_track_start(rows[k], k);
        lemma_row_track_start(rows[k + 1], k + 1);
        assert(row_end(rows[k]) == row_start(rows[k + 1]));
    }
    lemma_row_track_start(rows[0], 0);
    lemma_row_track_start(rows[n - 1], n - 1);
    assert(t.last() == t[n - 1]);
}

/// The tracks of an album's rows are numbered from 1, start after the lead-in, end each where
/// the next starts, and the last ends at the leadout.
proof fn lemma_album_tracks(album: TestAlbum, t: Seq<Track<'static>>)
    requires
        t.len() == album_rows(album).len(),
        forall|i: int| 0 <= i < t.len() ==> #[trigger] t[i] == album_track(album, i),
    ensures
        t.len() > 0,
        forall|i: int| 0 <= i < t.len() ==> (#[trigger] t[i]).toc_entry.track == i + 1 && t[i].meta
            is None,
        t[0].toc_entry.start.count() >= LEADIN_FRAMES,
        forall|i: int|
            0 <= i < t.len() - 1 ==> #[trigger] track_end_frame(t[i]) == t[i + 1].toc_entry.start.count(),
        track_end_frame(t.last()) == album_leadout_frames(album),
{
    lemma_album_rows_chained(album);
    lemma_row_tracks(album_rows(album), album_leadout_frames(album), t);
}

/// The starts of an album's tracks strictly increase.
proof fn lemma_album_starts_increase(album: TestAlbum, i: int, j: int)
    requires
        0 <= i < j < album_rows(album).len(),
    ensures
        album_track(album, i).toc_entry.start.count() < album_track(album, j).toc_entry.start.count(),
{
    lemma_album_rows_chained(album);
    let rows = album_rows(album);
    lemma_row_track_start(rows[i], i);
    lemma_row_track_start(rows[j], j);
    lemma_starts_increase(rows, album_leadout_frames(album), i, j);
}

/// The id of the release of The Wall that the discs belong to.
pub open spec fn the_wall_release_id() -> Seq<char> {
    "b13b64f6-85fc-3c1c-8aae-e5adb94d7181"@
}

/// The index of the first release with the given id.
pub open spec fn first_release_with_id(rs: Seq<Release>, id: Seq<char>) -> Option<nat>
    decreases rs.len(),
{
    if rs.len() == 0 {
        None
    } else if rs[0].id@ == id {
        Some(0)
    } else {
        match first_release_with_id(rs.drop_first(), id) {
            Some(i) => Some(i + 1),
            None => None,
        }
    }
}

proof fn lemma_first_release_in_range(rs: Seq<Release>, id: Seq<char>)
    ensures
        first_release_with_id(rs, id) matches Some(i) ==> i < rs.len() && rs[i as int].id@ == id,
    decreases rs.len(),
{
    if rs.len() > 0 {
        lemma_first_release_in_range(rs.drop_first(), id);
    }
}

/// The index of the first medium at the given position.
pub open spec fn first_media_at_position(ms: Seq<Media>, position: u32) -> Option<nat>
    decreases ms.len(),
{
    if ms.len() == 0 {
        None
    } else if ms[0].position == Some(position) {
        Some(0)
    } else {
        match first_media_at_position(ms.drop_first(), position) {
            Some(i) => Some(i + 1),
            None => None,
        }
    }
}

/// The release of The Wall among the releases of MusicBrainz data, if listed.
pub open spec fn the_wall_release(discid: Discid) -> Option<Release> {
    match discid.releases {
        Some(rs) => match first_release_with_id(rs@, the_wall_release_id()) {
            Some(i) => Some(rs@[i as int]),
            None => None,
        },
        None => None,
    }
}

/// The position of an album's disc within its release.
pub open spec fn disc_position(album: TestAlbum) -> u32 {
    match album {
        TestAlbum::DefinitelyMaybe => 1,
        TestAlbum::TheWallDisc1 => 1,
        TestAlbum::TheWallDisc2 => 2,
    }
}

/// Row `i` of an album's tracks.
fn album_row(album: TestAlbum, i: usize) -> (r: (u8, u8, u8, usize))
    requires
        i < album_rows(album).len(),
    ensures
        r == album_rows(album)[i as int],
{
    match (album, i) {
        (TestAlbum::DefinitelyMaybe, 0) => (0x00, 0x02, 0x21, 24242),
        (TestAlbum::DefinitelyMaybe, 1) => (0x05, 0x19, 0x32, 23138),
        (TestAlbum::DefinitelyMaybe, 2) => (0x0A, 0x22, 0x0D, 20762),
        (TestAlbum::DefinitelyMaybe, 3) => (0x0F, 0x0B, 0x00, 20168),
        (TestAlbum::DefinitelyMaybe, 4) => (0x13, 0x27, 0x44, 28272),
        (TestAlbum::DefinitelyMaybe, 5) => (0x19, 0x38, 0x41, 21280),
        (TestAlbum::DefinitelyMaybe, 6) => (0x1E, 0x28, 0x2D, 19338),
        (TestAlbum::DefinitelyMaybe, 7) => (0x22, 0x3A, 0x21, 21700),
        (TestAlbum::DefinitelyMaybe, 8) => (0x27, 0x2F, 0x3A, 11425),
        (TestAlbum::DefinitelyMaybe, 9) => (0x2A, 0x14, 0x08, 29455),
        (TestAlbum::DefinitelyMaybe, 10) => (0x30, 0x34, 0x3F, 14440),
        (TestAlbum::TheWallDisc1, 0) => (0x00, 0x02, 0x00, 14967),
        (TestAlbum::TheWallDisc1, 1) => (0x03, 0x15, 0x2A, 11240),
        (TestAlbum::TheWallDisc1, 2) => (0x05, 0x33, 0x20, 14248),
        (TestAlbum::TheWallDisc1, 3) => (0x09, 0x01, 0x1E, 8287),
        (TestAlbum::TheWallDisc1, 4) => (0x0A, 0x33, 0x43, 17960),
        (TestAlbum::TheWallDisc1, 5) => (0x0E, 0x33, 0x1B, 25040),
        (TestAlbum::TheWallDisc1, 6) => (0x14, 0x19, 0x11, 12568),
        (TestAlbum::TheWallDisc1, 7) => (0x17, 0x0C, 0x3C, 9625),
        (TestAlbum::TheWallDisc1, 8) => (0x19, 0x15, 0x0A, 15832),
        (TestAlbum::TheWallDisc1, 9) => (0x1C, 0x34, 0x11, 16240),
        (TestAlbum::TheWallDisc1, 10) => (0x20, 0x1C, 0x39, 19230),
        (TestAlbum::TheWallDisc1, 11) => (0x24, 0x2D, 0x0C, 5603),
        (TestAlbum::TheWallDisc1, 12) => (0x25, 0x3B, 0x41, 5570),
        (TestAlbum::TheWallDisc2, 0) => (0x00, 0x02, 0x00, 21115),
        (TestAlbum::TheWallDisc2, 1) => (0x04, 0x2B, 0x28, 12020),
        (TestAlbum::TheWallDisc2, 2) => (0x07, 0x17, 0x3C, 15340),
        (TestAlbum::TheWallDisc2, 3) => (0x0A, 0x30, 0x19, 6980),
        (TestAlbum::TheWallDisc2, 4) => (0x0C, 0x15, 0x1E, 6537),
        (TestAlbum::TheWallDisc2, 5) => (0x0D, 0x30, 0x2A, 28628),
        (TestAlbum::TheWallDisc2, 6) => (0x14, 0x0A, 0x14, 7210),
        (TestAlbum::TheWallDisc2, 7) => (0x15, 0x2E, 0x1E, 19255),
        (TestAlbum::TheWallDisc2, 8) => (0x1A, 0x03, 0x0A, 19780),
        (TestAlbum::TheWallDisc2, 9) => (0x1E, 0x1A, 0x41, 17877),
        (TestAlbum::TheWallDisc2, 10) => (0x22, 0x19, 0x11, 2268),
        (TestAlbum::TheWallDisc2, 11) => (0x22, 0x37, 0x23, 23980),
        (TestAlbum::TheWallDisc2, 12) => (0x28, 0x0F, 0x0F, 7735),
        _ => (0, 0, 0, 0),
    }
}

/// The number of tracks of an album.
fn album_len(album: TestAlbum) -> (r: usize)
    ensures
        r == album_rows(album).len(),
{
    match album {
        TestAlbum::DefinitelyMaybe => 11,
        TestAlbum::TheWallDisc1 => 13,
        TestAlbum::TheWallDisc2 => 13,
    }
}

impl TestAlbum {
    /// The name of the album.
    pub fn to_string(&self) -> (r: String)
        ensures
            r@ == match self {
                TestAlbum::DefinitelyMaybe => "DefinitelyMaybe"@,
                TestAlbum::TheWallDisc1 => "TheWallDisc1"@,
                TestAlbum::TheWallDisc2 => "TheWallDisc2"@,
            },
    {
        let mut s = String::new();
        match self {
            TestAlbum::DefinitelyMaybe => push_str(&mut s, "DefinitelyMaybe"),
            TestAlbum::TheWallDisc1 => push_str(&mut s, "TheWallDisc1"),
            TestAlbum::TheWallDisc2 => push_str(&mut s, "TheWallDisc2"),
        }
        s
    }

    /// Path to the assets directory for this album, relative to the crate root.
    pub fn assets_path(&self) -> (r: String)
        ensures
            r@ == match self {
                TestAlbum::DefinitelyMaybe => "tests/assets/definitely_maybe"@,
                TestAlbum::TheWallDisc1 => "tests/assets/the_wall/disc1"@,
                TestAlbum::TheWallDisc2 => "tests/assets/the_wall/disc2"@,
            },
    {
        let mut s = String::new();
        match self {
            TestAlbum::DefinitelyMaybe => push_str(&mut s, "tests/assets/definitely_maybe"),
            TestAlbum::TheWallDisc1 => push_str(&mut s, "tests/assets/the_wall/disc1"),
            TestAlbum::TheWallDisc2 => push_str(&mut s, "tests/assets/the_wall/disc2"),
        }
        s
    }

    /// Path to the `CDROM_TOC.hex` file for this album.
    pub fn cdrom_toc_path(&self) -> (r: String)
        ensures
            r@ == self.spec_assets_path() + "/CDROM_TOC.hex"@,
    {
        let mut s = self.assets_path();
        push_str(&mut s, "/CDROM_TOC.hex");
        s
    }

    /// Path to the `TOC.hex` file for this album.
    pub fn toc_path(&self) -> (r: String)
        ensures
            r@ == self.spec_assets_path() + "/TOC.hex"@,
    {
        let mut s = self.assets_path();
        push_str(&mut s, "/TOC.hex");
        s
    }

    /// Path to the thumbnail.
    pub fn thumbnail_path(&self) -> (r: String)
        ensures
            r@ == self.spec_assets_path() + "/thumbnail.jpeg"@,
    {
        let mut s = self.assets_path();
        push_str(&mut s, "/thumbnail.jpeg");
        s
    }

    /// The assets directory, as a spec value.
    pub open spec fn spec_assets_path(&self) -> Seq<char> {
        match self {
            TestAlbum::DefinitelyMaybe => "tests/assets/definitely_maybe"@,
            TestAlbum::TheWallDisc1 => "tests/assets/the_wall/disc1"@,
            TestAlbum::TheWallDisc2 => "tests/assets/the_wall/disc2"@,
        }
    }

    /// Expected first track number for this album.
    pub fn expected_first_track(&self) -> (r: u8)
        ensures
            r == 1,
    {
        match self {
            TestAlbum::DefinitelyMaybe => 1,
            TestAlbum::TheWallDisc1 => 1,
            TestAlbum::TheWallDisc2 => 1,
        }
    }

    /// Expected last track number for this album.
    pub fn expected_last_track(&self) -> (r: u8)
        ensures
            r == album_rows(*self).len(),
    {
        match self {
            TestAlbum::DefinitelyMaybe => 11,
            TestAlbum::TheWallDisc1 => 13,
            TestAlbum::TheWallDisc2 => 13,
        }
    }

    /// Expected leadout frame for this album.
    pub fn expected_leadout(&self) -> (r: Frame)
        ensures
            r == Frame::of(
                match self {
                    TestAlbum::DefinitelyMaybe => msf_frames(Msf::of(0x34, 0x05, 0x1c)),
                    TestAlbum::TheWallDisc1 => msf_frames(Msf::of(0x27, 0x0E, 0x0A)),
                    TestAlbum::TheWallDisc2 => msf_frames(Msf::of(0x29, 0x3a, 0x19)),
                } as usize,
            ),
            r.count() == album_leadout_frames(*self),
    {
        broadcast use crate::toc::group_msf;

        match self {
            TestAlbum::DefinitelyMaybe => Frame::from(Msf::new(0x34, 0x05, 0x1c)),
            TestAlbum::TheWallDisc1 => Frame::from(Msf::new(0x27, 0x0E, 0x0A)),
            TestAlbum::TheWallDisc2 => Frame::from(Msf::new(0x29, 0x3a, 0x19)),
        }
    }

    /// Expected tracks, without metadata: numbered from 1, the first after the lead-in, each
    /// ending where the next starts, and the last ending at the leadout.
    pub fn expected_tracks_minimal(&self) -> (r: Vec<Track<'static>>)
        ensures
            r@.len() == album_rows(*self).len(),
            forall|i: int| 0 <= i < r@.len() ==> #[trigger] r@[i] == album_track(*self, i),
            r@.len() > 0,
            forall|i: int|
                0 <= i < r@.len() ==> (#[trigger] r@[i]).toc_entry.track == i + 1 && r@[i].meta
                    is None,
            r@[0].toc_entry.start.count() >= LEADIN_FRAMES,
            forall|i: int|
                0 <= i < r@.len() - 1 ==> #[trigger] track_end_frame(r@[i])
                    == r@[i + 1].toc_entry.start.count(),
            track_end_frame(r@.last()) == album_leadout_frames(*self),
    {
        let n = album_len(*self);
        let mut out: Vec<Track<'static>> = Vec::new();
        let mut i: usize = 0;
        while i < n
            invariant
                n == album_rows(*self).len(),
                n <= 13,
                i <= n,
                out@.len() == i,
                forall|j: int| 0 <= j < i ==> #[trigger] out@[j] == album_track(*self, j),
            decreases n - i,
        {
            let (min, sec, frame, duration) = album_row(*self, i);
            let start = Frame::from(Msf::new(min, sec, frame));
            out.push(Track::new((i + 1) as u8, start, Frame::new(duration), None));
            i = i + 1;
        }
        proof {
            lemma_album_tracks(*self, out@);
        }
        out
    }

    /// The TOC entries of the expected tracks: numbered from 1, with starts that strictly
    /// increase.
    pub fn expected_toc_entries(&self) -> (r: Vec<TocEntry>)
        ensures
            r@.len() == album_rows(*self).len(),
            forall|i: int|
                0 <= i < r@.len() ==> #[trigger] r@[i] == album_track(*self, i).toc_entry,
            forall|i: int| 0 <= i < r@.len() ==> (#[trigger] r@[i]).track == i + 1,
            forall|i: int, j: int|
                0 <= i < j < r@.len() ==> (#[trigger] r@[i]).start.count() < (
                #[trigger] r@[j]).start.count(),
    {
        proof {
            assert forall|i: int, j: int|
                0 <= i < j < album_rows(*self).len() implies album_track(*self, i).toc_entry.start.count()
                < album_track(*self, j).toc_entry.start.count() by {
                lemma_album_starts_increase(*self, i, j);
            }
        }
        let tracks = self.expected_tracks_minimal();
        let mut out: Vec<TocEntry> = Vec::new();
        let mut i: usize = 0;
        while i < tracks.len()
            invariant
                i <= tracks@.len(),
                tracks@.len() == album_rows(*self).len(),
                forall|j: int| 0 <= j < tracks@.len() ==> #[trigger] tracks@[j] == album_track(*self, j),
                out@.len() == i,
                forall|j: int| 0 <= j < i ==> #[trigger] out@[j] == album_track(*self, j).toc_entry,
            decreases tracks.len() - i,
        {
            out.push(tracks[i].toc_entry);
            i = i + 1;
        }
        out
    }

    /// Indices of the releases, sorted by title then newest to oldest.
    pub fn expected_release_order(&self) -> (r: Vec<usize>)
        ensures
            r@ == match self {
                TestAlbum::DefinitelyMaybe => seq![4usize, 5, 1, 2, 0, 3],
                TestAlbum::TheWallDisc1 => seq![1usize, 3, 0, 7, 6, 5, 2, 4],
                TestAlbum::TheWallDisc2 => seq![1usize, 3, 0, 7, 6, 5, 2, 4],
            },
    {
        let r = match self {
            TestAlbum::DefinitelyMaybe => vec![4, 5, 1, 2, 0, 3],
            TestAlbum::TheWallDisc1 => vec![1, 3, 0, 7, 6, 5, 2, 4],
            TestAlbum::TheWallDisc2 => vec![1, 3, 0, 7, 6, 5, 2, 4],
        };
        proof {
            match self {
                TestAlbum::DefinitelyMaybe => assert(r@ =~= seq![4usize, 5, 1, 2, 0, 3]),
                _ => assert(r@ =~= seq![1usize, 3, 0, 7, 6, 5, 2, 4]),
            }
        }
        r
    }

    /// The correct release for the album among the releases of its MusicBrainz data: the third
    /// for Definitely Maybe, and for The Wall the first with its release id.
    pub fn release(&self, discid: &Discid) -> (r: Option<usize>)
        ensures
            match self {
                TestAlbum::DefinitelyMaybe => r == Some(2usize),
                _ => match discid.releases {
                    Some(rs) => match first_release_with_id(rs@, the_wall_release_id()) {
                        Some(i) => r == Some(i as usize),
                        None => r is None,
                    },
                    None => r is None,
                },
            },
    {
        match self {
            TestAlbum::DefinitelyMaybe => Some(2),
            _ => match &discid.releases {
                Some(rs) => {
                    let mut i: usize = 0;
                    let ghost all = rs@;
                    assert(all.skip(0) =~= all);
                    while i < rs.len()
                        invariant
                            !(*self is DefinitelyMaybe),
                            discid.releases == Some(*rs),
                            i <= all.len(),
                            rs@ == all,
                            match first_release_with_id(all, the_wall_release_id()) {
                                Some(k) => match first_release_with_id(
                                    all.skip(i as int),
                                    the_wall_release_id(),
                                ) {
                                    Some(m) => k == m + i,
                                    None => false,
                                },
                                None => first_release_with_id(
                                    all.skip(i as int),
                                    the_wall_release_id(),
                                ) is None,
                            },
                        decreases rs.len() - i,
                    {
                        let ghost rest = all.skip(i as int);
                        assert(rest[0] == all[i as int]);
                        assert(rest.drop_first() =~= all.skip(i + 1));
                        if same_text(rs[i].id.as_str(), "b13b64f6-85fc-3c1c-8aae-e5adb94d7181") {
                            return Some(i);
                        }
                        i = i + 1;
                    }
                    assert(all.skip(i as int) =~= Seq::<Release>::empty());
                    None
                },
                None => None,
            },
        }
    }

    /// The medium index that should be identified automatically: `0` for Definitely Maybe,
    /// and for The Wall the index of the first medium at the disc's position in the release
    /// (which must be listed, with its media).
    pub fn expected_disc_index(&self, discid: &Discid) -> (r: Option<usize>)
        requires
            !(*self is DefinitelyMaybe) ==> (the_wall_release(*discid) matches Some(rel)
                && rel.media is Some),
        ensures
            match self {
                TestAlbum::DefinitelyMaybe => r == Some(0usize),
                _ => match first_media_at_position(
                    the_wall_release(*discid)->Some_0.media->Some_0@,
                    disc_position(*self),
                ) {
                    Some(i) => r == Some(i as usize),
                    None => r is None,
                },
            },
    {
        let position: u32 = match self {
            TestAlbum::DefinitelyMaybe => return Some(0),
            TestAlbum::TheWallDisc1 => 1,
            TestAlbum::TheWallDisc2 => 2,
        };
        assert(!(*self is DefinitelyMaybe));
        assert(position == disc_position(*self));
        let index = self.release(discid);
        let rs = match &discid.releases {
            Some(rs) => rs,
            None => return None,
        };
        proof {
            lemma_first_release_in_range(rs@, the_wall_release_id());
        }
        let len = rs.len();
        let i = match index {
            Some(i) => i,
            None => return None,
        };
        proof {
            let k = first_release_with_id(rs@, the_wall_release_id())->Some_0;
            assert(k < len);
            assert(k as usize as nat == k);
            assert(i == k);
            assert(the_wall_release(*discid) == Some(rs@[i as int]));
        }
        let ms = match &rs[i].media {
            Some(ms) => ms,
            None => return None,
        };
        let ghost all = ms@;
        let mut k: usize = 0;
        assert(all.skip(0) =~= all);
        while k < ms.len()
            invariant
                !(*self is DefinitelyMaybe),
                position == disc_position(*self),
                all == the_wall_release(*discid)->Some_0.media->Some_0@,
                k <= all.len(),
                ms@ == all,
                match first_media_at_position(all, position) {
                    Some(x) => match first_media_at_position(all.skip(k as int), position) {
                        Some(m) => x == m + k,
                        None => false,
                    },
                    None => first_media_at_position(all.skip(k as int), position) is None,
                },
            decreases ms.len() - k,
        {
            let ghost rest = all.skip(k as int);
            assert(rest[0] == all[k as int]);
            assert(rest.drop_first() =~= all.skip(k + 1));
            if ms[k].position == Some(position) {
                return Some(k);
            }
            k = k + 1;
        }
        assert(all.skip(k as int) =~= Seq::<Media>::empty());
        None
    }
}

} // verus!
