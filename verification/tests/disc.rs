use cdtoc::Toc;
use metaflac::block::VorbisComment;
use redbook::disc::{Disc, DiscError};
use redbook::musicbrainz::{
    ArtistCredit, Discid, MbDisc, MbTrack, Media, Recording, Release, ReleaseDate,
    ReleaseScript, ReleaseStatus,
};
use redbook::{Frame, Track};

fn one_track_disc() -> Disc {
    let toc = Toc::from_cdtoc("1+96+2D2B").unwrap();
    let tracks = vec![Track::new(1, Frame::new(0x96), Frame::new(0x2d2b - 0x96), None)];
    Disc::new(toc, tracks, Frame::new(0x2d2b)).unwrap()
}

fn four_track_disc() -> Disc {
    let toc = Toc::from_cdtoc("4+96+2D2B+6256+B327+D84A").unwrap();
    let tracks = vec![
        Track::new(1, Frame::new(0x96), Frame::new(0x2d2b - 0x96), Some(11)),
        Track::new(2, Frame::new(0x2d2b), Frame::new(0x6256 - 0x2d2b), None),
        Track::new(3, Frame::new(0x6256), Frame::new(0xb327 - 0x6256), None),
        Track::new(4, Frame::new(0xb327), Frame::new(0xd84a - 0xb327), None),
    ];
    Disc::new(toc, tracks, Frame::new(0xd84a)).unwrap()
}

fn credit(name: &str, id: &str) -> ArtistCredit {
    ArtistCredit { name: name.to_string(), artist_id: id.to_string() }
}

fn mb_track(number: &str, title: &str) -> MbTrack {
    MbTrack {
        id: format!("track-{number}"),
        title: title.to_string(),
        number: number.to_string(),
        artist_credit: None,
        recording: Some(Recording {
            first_release_date: Some(ReleaseDate { text: "1994-08-29".to_string() }),
        }),
    }
}

fn medium(position: u32, offsets: Vec<u32>, tracks: Vec<MbTrack>) -> Media {
    Media {
        position: Some(position),
        track_count: tracks.len() as u32,
        format: Some("CD".to_string()),
        discs: Some(vec![MbDisc { id: format!("disc-{position}"), offsets }]),
        tracks: Some(tracks),
    }
}

fn release(id: &str, media: Vec<Media>) -> Release {
    Release {
        id: id.to_string(),
        title: "Iron-Oxide".to_string(),
        status: Some(ReleaseStatus::Official),
        date: Some(ReleaseDate { text: "2004-05".to_string() }),
        country: Some("GB".to_string()),
        barcode: None,
        disambiguation: None,
        artist_credit: Some(vec![credit("Ferris", "a-1"), credit("Crab", "a-2")]),
        media: Some(media),
        script: Some(ReleaseScript { code: "Latn".to_string() }),
    }
}

fn discid(releases: Option<Vec<Release>>) -> Discid {
    Discid { id: "disc".to_string(), offsets: vec![150], releases }
}

fn values(tags: &VorbisComment, key: &str) -> Option<Vec<String>> {
    tags.get(key).cloned()
}

#[test]
fn new_accepts_matching_tracks() {
    let disc = one_track_disc();
    assert_eq!(disc.tracks().len(), 1);
    assert_eq!(four_track_disc().tracks().len(), 4);
    assert!(disc.release().is_none());
    assert!(disc.disc_index().is_none());
    assert!(disc.cover_art().is_none());
}

#[test]
fn new_rejects_wrong_leadout() {
    let toc = Toc::from_cdtoc("1+96+2D2B").unwrap();
    let tracks = vec![Track::new(1, Frame::new(0x96), Frame::new(0x2d2b - 0x96), None)];
    let r = Disc::new(toc, tracks, Frame::new(0x2d2c));
    assert!(matches!(r, Err(DiscError::IncorrectLeadout)));
}

#[test]
fn new_rejects_mismatched_tracks() {
    let toc = Toc::from_cdtoc("1+96+2D2B").unwrap();
    let tracks = vec![Track::new(1, Frame::new(0x96), Frame::new(0x2d2b - 0x97), None)];
    assert!(matches!(Disc::new(toc, tracks, Frame::new(0x2d2b)), Err(DiscError::TocMismatch)));

    let toc = Toc::from_cdtoc("1+96+2D2B").unwrap();
    let tracks = vec![Track::new(2, Frame::new(0x96), Frame::new(0x2d2b - 0x96), None)];
    assert!(matches!(Disc::new(toc, tracks, Frame::new(0x2d2b)), Err(DiscError::TocMismatch)));
    assert_eq!(DiscError::TocMismatch.message(), "TOC mismatch");
    assert_eq!(DiscError::IncorrectLeadout.message(), "incorrect leadout");
}

#[test]
fn checked_new_on_ordered_toc() {
    let toc = Toc::from_cdtoc("1+96+2D2B").unwrap();
    let tracks = vec![Track::new(1, Frame::new(0x96), Frame::new(0x2d2b - 0x96), None)];
    let r = Disc::checked_new(toc, tracks, Frame::new(0x2d2b));
    assert!(matches!(r, Some(Ok(_))));
}

#[test]
fn track_numbers_are_one_based() {
    let disc = four_track_disc();
    assert!(disc.track(0).is_none());
    assert!(disc.track(5).is_none());
    let t = disc.track(2).unwrap();
    assert_eq!(t.track_number(), 2);
    assert_eq!(t.toc_entry.start, Frame::new(0x2d2b));
    assert!(t.meta().is_none());
}

#[test]
fn set_release_no_musicbrainz() {
    let mut disc = one_track_disc();
    disc.set_release(Some(0));
    assert!(disc.release().is_none());
    assert!(disc.disc_index().is_none());
}

#[test]
fn set_release_invalid() {
    let mut disc = one_track_disc();
    let rel = release("r-1", vec![medium(1, vec![150], vec![mb_track("1", "One")])]);
    disc.set_musicbrainz(discid(Some(vec![rel.clone(), rel])));
    disc.set_release(Some(999));
    assert!(disc.release().is_none());
    assert!(disc.disc_index().is_none());
}

#[test]
fn single_release_is_selected() {
    let mut disc = one_track_disc();
    let rel = release("r-1", vec![medium(1, vec![150], vec![mb_track("1", "One")])]);
    disc.set_musicbrainz(discid(Some(vec![rel])));
    assert_eq!(disc.release().unwrap().id, "r-1");
    assert_eq!(disc.disc_index(), Some(0));
    assert_eq!(disc.title().unwrap(), "Iron-Oxide");
    assert_eq!(disc.main_artist().unwrap(), "Ferris");
    assert_eq!(disc.disc_number().unwrap(), "1");
    assert_eq!(disc.track(1).unwrap().title().unwrap(), "One");
}

#[test]
fn several_releases_need_a_choice() {
    let mut disc = one_track_disc();
    let a = release("r-a", vec![medium(1, vec![150], vec![mb_track("1", "One")])]);
    let b = release("r-b", vec![medium(1, vec![150], vec![mb_track("1", "Uno")])]);
    disc.set_musicbrainz(discid(Some(vec![a, b])));
    assert!(disc.release().is_none());
    disc.set_release(Some(1));
    assert_eq!(disc.release().unwrap().id, "r-b");
    assert_eq!(disc.track(1).unwrap().title().unwrap(), "Uno");
    disc.set_release(None);
    assert!(disc.release().is_none());
    assert!(disc.disc_index().is_none());
}

#[test]
fn medium_found_by_offsets() {
    let mut disc = one_track_disc();
    let rel = release(
        "r-1",
        vec![
            medium(1, vec![150, 20000], vec![mb_track("1", "Elsewhere")]),
            medium(2, vec![150], vec![mb_track("1", "Here")]),
        ],
    );
    disc.set_musicbrainz(discid(Some(vec![rel])));
    assert_eq!(disc.disc_index(), Some(1));
    assert_eq!(disc.disc_number().unwrap(), "2");
    assert_eq!(disc.track(1).unwrap().title().unwrap(), "Here");
}

#[test]
fn ambiguous_medium_is_left_unset() {
    let mut disc = one_track_disc();
    let rel = release(
        "r-1",
        vec![
            medium(1, vec![150], vec![mb_track("1", "A")]),
            medium(2, vec![150], vec![mb_track("1", "B")]),
        ],
    );
    disc.set_musicbrainz(discid(Some(vec![rel])));
    assert_eq!(disc.disc_index(), None);
    assert!(disc.track(1).unwrap().meta().is_none());
}

#[test]
fn track_metadata_by_parsed_number() {
    let mut disc = four_track_disc();
    let rel = release(
        "r-1",
        vec![medium(
            1,
            vec![150],
            vec![mb_track("A1", "Side A"), mb_track("+2", "Two"), mb_track("3", "Three")],
        )],
    );
    disc.set_musicbrainz(discid(Some(vec![rel])));
    assert_eq!(disc.disc_index(), Some(0));
    assert!(disc.track(1).unwrap().meta().is_none());
    assert_eq!(disc.track(2).unwrap().title().unwrap(), "Two");
    assert_eq!(disc.track(3).unwrap().filename(), "03 Three");
    assert_eq!(disc.track(4).unwrap().filename(), "04 ");
    let tracks = disc.tracks();
    assert_eq!(tracks.len(), 4);
    assert_eq!(tracks[2].title().unwrap(), "Three");
}

#[test]
fn tags_without_release() {
    let disc = four_track_disc();
    let tags = disc.tag_for(1).unwrap();
    assert_eq!(values(&tags, "TRACKNUMBER"), Some(vec!["1".to_string()]));
    assert_eq!(values(&tags, "WINDOWS_IDENTIFIER"), Some(vec!["11".to_string()]));
    assert_eq!(values(&tags, "ALBUM"), None);
    assert!(disc.tag_for(0).is_none());
    assert!(disc.tag_for(5).is_none());
}

#[test]
fn tags_with_release_and_track() {
    let mut disc = four_track_disc();
    let mut rel = release("r-1", vec![medium(1, vec![150], vec![mb_track("3", "Three")])]);
    rel.barcode = Some("0123".to_string());
    disc.set_musicbrainz(discid(Some(vec![rel])));
    let tags = disc.tag_for(3).unwrap();
    let one = |s: &str| Some(vec![s.to_string()]);
    assert_eq!(values(&tags, "TRACKNUMBER"), one("3"));
    assert_eq!(values(&tags, "WINDOWS_IDENTIFIER"), None);
    assert_eq!(values(&tags, "ALBUM"), one("Iron-Oxide"));
    assert_eq!(values(&tags, "MUSICBRAINZ_ALBUMID"), one("r-1"));
    assert_eq!(
        values(&tags, "ALBUMARTIST"),
        Some(vec!["Ferris".to_string(), "Crab".to_string()])
    );
    assert_eq!(
        values(&tags, "MUSICBRAINZ_ALBUMARTISTID"),
        Some(vec!["a-1".to_string(), "a-2".to_string()])
    );
    assert_eq!(values(&tags, "RELEASEDATE"), one("2004-05"));
    assert_eq!(values(&tags, "RELEASEYEAR"), one("2004"));
    assert_eq!(values(&tags, "RELEASECOUNTRY"), one("GB"));
    assert_eq!(values(&tags, "RELEASESTATUS"), one("Official"));
    assert_eq!(values(&tags, "BARCODE"), one("0123"));
    assert_eq!(values(&tags, "TOTALDISCS"), one("1"));
    assert_eq!(values(&tags, "DISCTOTAL"), one("1"));
    assert_eq!(values(&tags, "TOTALTRACKS"), one("1"));
    assert_eq!(values(&tags, "TRACKTOTAL"), one("1"));
    assert_eq!(values(&tags, "DISCNUMBER"), one("1"));
    assert_eq!(values(&tags, "MEDIA"), one("CD"));
    assert_eq!(values(&tags, "SCRIPT"), one("Latn"));
    assert_eq!(values(&tags, "TITLE"), one("Three"));
    assert_eq!(values(&tags, "MUSICBRAINZ_TRACKID"), one("track-3"));
    assert_eq!(
        values(&tags, "ARTIST"),
        Some(vec!["Ferris".to_string(), "Crab".to_string()])
    );
    assert_eq!(values(&tags, "ORIGINALDATE"), one("1994-08-29"));
    assert_eq!(values(&tags, "ORIGINALYEAR"), one("1994"));

    let tags = disc.tag_for(1).unwrap();
    assert_eq!(values(&tags, "TITLE"), None);
    assert_eq!(values(&tags, "ALBUM"), one("Iron-Oxide"));
}

#[test]
fn original_year_defaults_to_zero() {
    let mut disc = one_track_disc();
    let mut t = mb_track("1", "One");
    t.recording = None;
    t.artist_credit = Some(vec![credit("Solo", "s-1")]);
    let rel = release("r-1", vec![medium(1, vec![150], vec![t])]);
    disc.set_musicbrainz(discid(Some(vec![rel])));
    let tags = disc.tag_for(1).unwrap();
    assert_eq!(values(&tags, "ORIGINALDATE"), Some(vec!["".to_string()]));
    assert_eq!(values(&tags, "ORIGINALYEAR"), Some(vec!["0".to_string()]));
    assert_eq!(values(&tags, "ARTIST"), Some(vec!["Solo".to_string()]));
}

#[test]
fn cover_art_address() {
    let mut disc = one_track_disc();
    assert!(disc.cover_art_url().is_none());
    let rel = release("b13b64f6", vec![medium(1, vec![150], vec![])]);
    disc.set_musicbrainz(discid(Some(vec![rel])));
    assert_eq!(
        disc.cover_art_url().unwrap(),
        "https://coverartarchive.org/release/b13b64f6/front"
    );
}

#[test]
fn cover_art_rejects_non_jpeg() {
    let mut disc = one_track_disc();
    assert!(!disc.try_receive_cover_art(vec![1, 2, 3]));
    assert!(disc.cover_art().is_none());
}

#[test]
fn musicbrainz_id_of_disc() {
    let disc = four_track_disc();
    let expected = Toc::from_cdtoc("4+96+2D2B+6256+B327+D84A")
        .unwrap()
        .musicbrainz_id()
        .to_string();
    assert_eq!(disc.musicbrainz_disc_id(), expected);
}

#[test]
fn release_date_years() {
    assert_eq!(ReleaseDate { text: "1994-08-29".to_string() }.year(), Some(1994));
    assert_eq!(ReleaseDate { text: "2023".to_string() }.year(), Some(2023));
    assert_eq!(ReleaseDate { text: "????-07".to_string() }.year(), None);
    assert_eq!(ReleaseDate { text: "".to_string() }.year(), None);
}

#[test]
fn set_release_invalid_index_keeps_selection() {
    let mut disc = one_track_disc();
    let a = release("r-a", vec![medium(1, vec![150], vec![mb_track("1", "One")])]);
    let b = release("r-b", vec![medium(1, vec![150], vec![mb_track("1", "Uno")])]);
    disc.set_musicbrainz(discid(Some(vec![a, b])));
    disc.set_release(Some(1));
    assert_eq!(disc.disc_index(), Some(0));
    disc.set_release(Some(2));
    assert_eq!(disc.release().unwrap().id, "r-b");
    assert_eq!(disc.disc_index(), Some(0));
}

#[test]
fn display_title_names_the_disc_of_several() {
    let mut disc = one_track_disc();
    assert_eq!(disc.display_title(), "Unknown");
    let single = release("r-1", vec![medium(1, vec![150], vec![mb_track("1", "One")])]);
    disc.set_musicbrainz(discid(Some(vec![single])));
    assert_eq!(disc.display_title(), "Iron-Oxide");

    let mut disc = one_track_disc();
    let two = release(
        "r-2",
        vec![
            medium(1, vec![150, 20000], vec![mb_track("1", "Elsewhere")]),
            medium(2, vec![150], vec![mb_track("1", "Here")]),
        ],
    );
    disc.set_musicbrainz(discid(Some(vec![two])));
    assert_eq!(disc.display_title(), "Iron-Oxide [Disc 2]");

    let mut disc = one_track_disc();
    let ambiguous = release(
        "r-3",
        vec![
            medium(1, vec![150], vec![mb_track("1", "A")]),
            medium(2, vec![150], vec![mb_track("1", "B")]),
        ],
    );
    disc.set_musicbrainz(discid(Some(vec![ambiguous])));
    assert_eq!(disc.display_title(), "Iron-Oxide [Disc Unknown]");
}

fn dated(id: &str, date: Option<&str>) -> Release {
    let mut r = release(id, vec![medium(1, vec![150], vec![mb_track("1", "One")])]);
    r.date = date.map(|d| ReleaseDate { text: d.to_string() });
    r
}

#[test]
fn latest_release_by_date() {
    let d = discid(Some(vec![
        dated("a", Some("1994")),
        dated("b", Some("2004-05")),
        dated("c", None),
        dated("d", Some("2004-05-01")),
    ]));
    assert_eq!(d.latest_release_index(), Some(3));
    let d = discid(Some(vec![
        dated("a", Some("1994")),
        dated("b", Some("2010-01-02")),
        dated("b", Some("2010-01-02")),
        dated("c", Some("2001")),
    ]));
    assert_eq!(d.latest_release_index(), Some(1));
    let d = discid(Some(vec![dated("x", Some("not a date")), dated("y", None)]));
    assert_eq!(d.latest_release_index(), Some(0));
    assert_eq!(discid(Some(vec![])).latest_release_index(), None);
    assert_eq!(discid(None).latest_release_index(), None);
}
