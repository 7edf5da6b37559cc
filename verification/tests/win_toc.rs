use redbook::win::drive::{CdDrives, DriveAction, DriveEvent, ERROR_NOT_READY};
use redbook::win::audiocd::{disc_from_cda_tracks, AudioCdError};
use redbook::win::bindings::{CDROM_TOC, TRACK_DATA};
use redbook::win::toc::{CdaError, CdaFile, CdromTocError};
use redbook::{Frame, Msf, TocEntry, Track};

fn track_data(number: u8, relative: u32) -> TRACK_DATA {
    TRACK_DATA {
        Reserved: 0,
        _bitfield: 0x10,
        TrackNumber: number,
        Reserved1: 0,
        Address: relative.to_be_bytes(),
    }
}

/// A TOC of two audio tracks, at relative frames 0 and 14967, and a lead-out at 26207.
fn two_track_toc() -> CDROM_TOC {
    let mut toc = CDROM_TOC::zeroed();
    toc.Length = [0x00, 0x1a];
    toc.FirstTrack = 1;
    toc.LastTrack = 2;
    toc.TrackData[0] = track_data(1, 0);
    toc.TrackData[1] = track_data(2, 14967);
    toc.TrackData[2] = track_data(170, 26207);
    toc
}

fn cda_bytes(track: u16, winid: u32, rel_start: u32, duration: u32) -> Vec<u8> {
    let start = Msf::from(Frame::new(rel_start as usize + 150));
    let dur = Msf::from(Frame::new(duration as usize));
    let mut b = Vec::new();
    b.extend_from_slice(b"RIFF");
    b.extend_from_slice(&36u32.to_le_bytes());
    b.extend_from_slice(b"CDDA");
    b.extend_from_slice(b"fmt ");
    b.extend_from_slice(&24u32.to_le_bytes());
    b.extend_from_slice(&1u16.to_le_bytes());
    b.extend_from_slice(&track.to_le_bytes());
    b.extend_from_slice(&winid.to_le_bytes());
    b.extend_from_slice(&rel_start.to_le_bytes());
    b.extend_from_slice(&duration.to_le_bytes());
    b.extend_from_slice(&[start.frame(), start.second(), start.minute(), 0]);
    b.extend_from_slice(&[dur.frame(), dur.second(), dur.minute(), 0]);
    b
}

#[test]
fn audio_entries_and_leadout() {
    let toc = two_track_toc();
    assert_eq!(
        toc.iter_audio(),
        vec![
            TocEntry { track: 1, start: Frame::new(150) },
            TocEntry { track: 2, start: Frame::new(15117) },
        ]
    );
    assert_eq!(toc.leadout().unwrap(), Frame::new(26357));
    let cd = toc.as_toc().unwrap();
    assert_eq!(cd.audio_sectors(), &[150, 15117]);
    assert_eq!(cd.leadout(), 26357);
}

#[test]
fn missing_leadout() {
    let mut toc = two_track_toc();
    toc.TrackData[2] = track_data(0, 0);
    assert!(matches!(toc.leadout(), Err(CdromTocError::NoLeadout)));
    assert!(matches!(toc.as_toc(), Err(CdromTocError::NoLeadout)));
}

#[test]
fn unordered_toc_is_invalid() {
    let mut toc = two_track_toc();
    toc.TrackData[1] = track_data(2, 30000);
    assert!(matches!(toc.as_toc(), Err(CdromTocError::Invalid(_))));
}

#[test]
fn raw_bytes_roundtrip() {
    let toc = two_track_toc();
    let bytes = toc.to_raw_bytes();
    assert_eq!(bytes.len(), 804);
    assert_eq!(&bytes[..12], &[0x00, 0x1a, 1, 2, 0, 0x10, 1, 0, 0, 0, 0, 0]);
    let back = CDROM_TOC::from_raw_bytes(bytes.clone());
    assert_eq!(back.to_raw_bytes(), bytes);
    assert_eq!(back.iter_audio(), toc.iter_audio());
}

#[test]
fn parse_cda() {
    let cda = CdaFile::new(cda_bytes(1, 0x1234, 0, 14967)).unwrap();
    assert_eq!(cda.track_number(), 1);
    assert_eq!(cda.windows_identifier(), 0x1234);
    assert_eq!(cda.start(), Msf::new(0, 2, 0));
    assert_eq!(cda.duration(), Msf::new(3, 19, 42));
    let track = Track::from(cda);
    assert_eq!(track.toc_entry, TocEntry { track: 1, start: Frame::new(150) });
    assert_eq!(track.duration, Frame::new(14967));
    assert_eq!(track.windows_identifier, Some(0x1234));
}

#[test]
fn cda_errors() {
    let good = cda_bytes(2, 7, 14967, 11240);
    assert!(CdaFile::new(good.clone()).is_ok());

    assert_eq!(CdaFile::new(good[..40].to_vec()).unwrap_err(), CdaError::WrongLength(40));
    let mut b = good.clone();
    b[0] = b'X';
    assert_eq!(CdaFile::new(b).unwrap_err(), CdaError::MissingRiff);
    let mut b = good.clone();
    b[4] = 37;
    assert_eq!(CdaFile::new(b).unwrap_err(), CdaError::RiffChunkSize(37));
    let mut b = good.clone();
    b[8] = b'X';
    assert_eq!(CdaFile::new(b).unwrap_err(), CdaError::MissingCdda);
    let mut b = good.clone();
    b[15] = b'X';
    assert_eq!(CdaFile::new(b).unwrap_err(), CdaError::MissingFmt);
    let mut b = good.clone();
    b[16] = 25;
    assert_eq!(CdaFile::new(b).unwrap_err(), CdaError::FmtChunkSize(25));
    let mut b = good.clone();
    b[20] = 2;
    assert_eq!(CdaFile::new(b).unwrap_err(), CdaError::UnknownVersion(2));
    let mut b = good.clone();
    b[36] = b[36].wrapping_add(1) % 75;
    assert_eq!(CdaFile::new(b).unwrap_err(), CdaError::MismatchedStart);
    let mut b = good.clone();
    b[39] = 1;
    assert_eq!(CdaFile::new(b).unwrap_err(), CdaError::MissingNullByte);
    let mut b = good.clone();
    b[32] = b[32].wrapping_add(1);
    assert_eq!(CdaFile::new(b).unwrap_err(), CdaError::MismatchedDuration);
    let mut b = good;
    b[43] = 9;
    assert_eq!(CdaFile::new(b).unwrap_err(), CdaError::MissingNullByte);
    assert_eq!(
        CdaError::WrongLength(40).message(),
        "invalid CDA file: expected 44 bytes, got 40"
    );
}

#[test]
fn disc_from_toc_and_cda_files() {
    let toc = two_track_toc();
    let t1 = Track::from(CdaFile::new(cda_bytes(1, 1, 0, 14967)).unwrap());
    let t2 = Track::from(CdaFile::new(cda_bytes(2, 2, 14967, 11240)).unwrap());
    let disc = disc_from_cda_tracks(&toc, vec![t2, t1]).unwrap();
    let tracks = disc.tracks();
    assert_eq!(tracks.len(), 2);
    assert_eq!(tracks[0].track_number(), 1);
    assert_eq!(tracks[1].track_number(), 2);
    assert_eq!(tracks[1].windows_identifier, Some(2));
}

#[test]
fn disc_from_cda_errors() {
    let toc = two_track_toc();
    let t1 = Track::from(CdaFile::new(cda_bytes(1, 1, 0, 14967)).unwrap());
    let t2 = Track::from(CdaFile::new(cda_bytes(2, 2, 14967, 11240)).unwrap());
    assert!(matches!(disc_from_cda_tracks(&toc, vec![]), Err(AudioCdError::NoCdaFiles)));
    assert!(matches!(
        disc_from_cda_tracks(&toc, vec![t1]),
        Err(AudioCdError::LastTrackMismatch)
    ));
    assert!(matches!(
        disc_from_cda_tracks(&toc, vec![t2]),
        Err(AudioCdError::FirstTrackMismatch)
    ));
    let shifted = Track::new(2, Frame::new(15118), Frame::new(11239), None);
    assert!(matches!(
        disc_from_cda_tracks(&toc, vec![t1, shifted]),
        Err(AudioCdError::TrackMismatch(2))
    ));
    let short = Track::new(2, Frame::new(15117), Frame::new(11000), None);
    assert!(matches!(
        disc_from_cda_tracks(&toc, vec![t1, short]),
        Err(AudioCdError::Disc(_))
    ));
}

#[test]
fn cdrom_toc_from_hex_dump() {
    let toc = two_track_toc();
    let dump = redbook::hex::hex_dump(&toc.to_raw_bytes());
    let back = CDROM_TOC::from_hex_dump(&dump).unwrap();
    assert_eq!(back.to_raw_bytes(), toc.to_raw_bytes());
    assert!(CDROM_TOC::from_hex_dump("00 01").is_none());
    assert!(CDROM_TOC::from_hex_dump("0g").is_none());
}

#[test]
fn drive_enumeration_steps() {
    let mut drives = CdDrives::new(7);
    assert_eq!(drives.step(DriveEvent::Next), DriveAction::Enumerate(0));
    assert_eq!(drives.step(DriveEvent::Enumerated { found: true }), DriveAction::QuerySize);
    assert_eq!(
        drives.step(DriveEvent::SizeQueried { insufficient_buffer: true, required: 200 }),
        DriveAction::ReadDetails
    );
    assert_eq!(drives.step(DriveEvent::DetailsRead { ok: true }), DriveAction::Open);
    assert_eq!(
        drives.step(DriveEvent::Opened { ok: false, os_error: Some(ERROR_NOT_READY) }),
        DriveAction::Enumerate(1)
    );
    assert_eq!(drives.step(DriveEvent::Enumerated { found: true }), DriveAction::QuerySize);
    assert_eq!(
        drives.step(DriveEvent::SizeQueried { insufficient_buffer: true, required: 537 }),
        DriveAction::Finish
    );
    assert_eq!(drives.step(DriveEvent::Next), DriveAction::Enumerate(2));
    assert_eq!(drives.step(DriveEvent::Opened { ok: true, os_error: None }), DriveAction::Yield);
    assert_eq!(drives.step(DriveEvent::Opened { ok: false, os_error: Some(5) }), DriveAction::Finish);
    assert_eq!(drives.step(DriveEvent::Enumerated { found: false }), DriveAction::Finish);
    assert_eq!(drives.device_info_set(), 7);
}

#[test]
fn toc_addresses_fit_a_usize() {
    let toc = two_track_toc();
    assert!(toc.addresses_fit());
    let mut far = two_track_toc();
    far.TrackData[5] = track_data(6, u32::MAX);
    assert_eq!(far.addresses_fit(), usize::BITS > 32);
}
