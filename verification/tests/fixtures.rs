use cdtoc::Toc;
use redbook::disc::Disc;
use redbook::musicbrainz::{Discid, Media, Release};
use redbook::test_fixtures::albums::TestAlbum::{self, DefinitelyMaybe, TheWallDisc1, TheWallDisc2};
use redbook::{Frame, Msf, TocEntry};

const ALBUMS: [TestAlbum; 3] = [DefinitelyMaybe, TheWallDisc1, TheWallDisc2];

fn toc_of(album: TestAlbum) -> Toc {
    let starts: Vec<u32> = album
        .expected_tracks_minimal()
        .iter()
        .map(|t| t.toc_entry.start.as_usize() as u32)
        .collect();
    Toc::from_parts(starts, None, album.expected_leadout().as_usize() as u32).unwrap()
}

#[test]
fn album_basics() {
    for album in ALBUMS {
        assert_eq!(album.expected_first_track(), 1);
        let tracks = album.expected_tracks_minimal();
        assert_eq!(tracks.len(), album.expected_last_track() as usize);
        assert_eq!(
            album.expected_toc_entries(),
            tracks.iter().map(|t| t.toc_entry).collect::<Vec<_>>()
        );
    }
    assert_eq!(DefinitelyMaybe.expected_last_track(), 11);
    assert_eq!(TheWallDisc1.expected_last_track(), 13);
    assert_eq!(DefinitelyMaybe.to_string(), "DefinitelyMaybe");
    assert_eq!(TheWallDisc2.assets_path(), "tests/assets/the_wall/disc2");
    assert_eq!(TheWallDisc1.toc_path(), "tests/assets/the_wall/disc1/TOC.hex");
    assert_eq!(
        DefinitelyMaybe.cdrom_toc_path(),
        "tests/assets/definitely_maybe/CDROM_TOC.hex"
    );
    assert_eq!(
        DefinitelyMaybe.thumbnail_path(),
        "tests/assets/definitely_maybe/thumbnail.jpeg"
    );
}

#[test]
fn album_data() {
    let dm = DefinitelyMaybe.expected_tracks_minimal();
    assert_eq!(
        dm[0].toc_entry,
        TocEntry { track: 1, start: Frame::from(Msf::new(0x00, 0x02, 0x21)) }
    );
    assert_eq!(dm[0].duration, Frame::new(24242));
    assert_eq!(dm[10].toc_entry.start, Frame::from(Msf::new(0x30, 0x34, 0x3F)));
    assert_eq!(DefinitelyMaybe.expected_leadout(), Frame::from(Msf::new(0x34, 0x05, 0x1c)));
    let w2 = TheWallDisc2.expected_tracks_minimal();
    assert_eq!(w2[12].duration, Frame::new(7735));
    assert_eq!(DefinitelyMaybe.expected_release_order(), vec![4, 5, 1, 2, 0, 3]);
    assert_eq!(TheWallDisc1.expected_release_order(), vec![1, 3, 0, 7, 6, 5, 2, 4]);
}

#[test]
fn album_tracks_make_discs() {
    for album in ALBUMS {
        let disc = Disc::new(toc_of(album), album.expected_tracks_minimal(), album.expected_leadout())
            .unwrap();
        let tracks: Vec<_> = disc.tracks();
        assert_eq!(tracks.len(), album.expected_tracks_minimal().len());
        for (t, e) in tracks.iter().zip(album.expected_tracks_minimal()) {
            assert_eq!(t.toc_entry, e.toc_entry);
            assert_eq!(t.duration, e.duration);
        }
    }
}

fn wall_release(id: &str, positions: &[u32]) -> Release {
    Release {
        id: id.to_string(),
        title: "The Wall".to_string(),
        status: None,
        date: None,
        country: None,
        barcode: None,
        disambiguation: None,
        artist_credit: None,
        media: Some(
            positions
                .iter()
                .map(|p| Media {
                    position: Some(*p),
                    track_count: 13,
                    format: None,
                    discs: None,
                    tracks: None,
                })
                .collect(),
        ),
        script: None,
    }
}

#[test]
fn release_and_disc_index_from_musicbrainz() {
    let discid = Discid {
        id: "x".to_string(),
        offsets: vec![],
        releases: Some(vec![
            wall_release("other", &[1, 2]),
            wall_release("b13b64f6-85fc-3c1c-8aae-e5adb94d7181", &[2, 1]),
        ]),
    };
    assert_eq!(DefinitelyMaybe.release(&discid), Some(2));
    assert_eq!(TheWallDisc1.release(&discid), Some(1));
    assert_eq!(DefinitelyMaybe.expected_disc_index(&discid), Some(0));
    assert_eq!(TheWallDisc1.expected_disc_index(&discid), Some(1));
    assert_eq!(TheWallDisc2.expected_disc_index(&discid), Some(0));
}

#[test]
fn expected_tracks_are_contiguous() {
    for album in ALBUMS {
        let tracks = album.expected_tracks_minimal();
        assert_eq!(tracks.len(), album.expected_last_track() as usize);
        assert!(tracks[0].toc_entry.start >= redbook::leadin());
        for (i, t) in tracks.iter().enumerate() {
            assert_eq!(t.toc_entry.track as usize, i + 1);
            assert!(t.meta().is_none());
        }
        for pair in tracks.windows(2) {
            assert_eq!(pair[0].toc_entry.start + pair[0].duration, pair[1].toc_entry.start);
        }
        let last = tracks.last().unwrap();
        assert_eq!(last.toc_entry.start + last.duration, album.expected_leadout());
        let entries = album.expected_toc_entries();
        for pair in entries.windows(2) {
            assert!(pair[0].start < pair[1].start);
        }
    }
}
