use std::time::Duration;

use redbook::toc::{
    duration_to_frame, frame_to_duration, msf_to_duration, parse_toc, TocEntryError,
    TocParseError,
};
use redbook::{leadin, Frame, Msf, TocEntry};

#[test]
fn leadin_conversion() {
    let dur = Duration::from_secs(2);
    let msf = Msf::new(0, 2, 0);
    let frames = leadin();

    assert_eq!(Msf::from(dur), msf);
    assert_eq!(Msf::from(frames), msf);
    assert_eq!(Frame::from(msf), frames);
    assert_eq!(duration_to_frame(dur), frames);
    assert_eq!(msf_to_duration(msf), dur);
    assert_eq!(frame_to_duration(frames), dur);
}

#[test]
fn leadin_compensation() {
    let starting_frames = Frame::new(183);
    let starting_time = Msf::new(0, 2, 33);
    assert_eq!(starting_frames.relative_to_leadin(), Frame::new(33));
    assert_eq!(starting_time.relative_to_leadin(), Msf::new(0, 0, 33));
}

#[test]
fn msf_from_duration_truncates() {
    assert_eq!(Msf::from(Duration::from_millis(180_123)), Msf::new(3, 0, 9));
    assert_eq!(Msf::from(Duration::from_millis(180_128)), Msf::new(3, 0, 9));
    assert_eq!(msf_to_duration(Msf::new(1, 30, 30)), Duration::new(90, 400_000_000));
}

fn descriptor(track: u8, min: u8, sec: u8, frame: u8) -> Vec<u8> {
    vec![1, 0x10, 0, track, 0, 0, 0, 0, min, sec, frame]
}

#[test]
fn scsi_descriptor() {
    let d = descriptor(1, 0, 2, 0);
    assert_eq!(
        TocEntry::from_scsi_readtoc_0010b(&d).unwrap(),
        TocEntry { track: 1, start: Frame::new(150) }
    );
    assert_eq!(
        TocEntry::from_scsi_readtoc_0010b(&d[..10]),
        Err(TocEntryError::WrongLength(10))
    );
    let mut d2 = d.clone();
    d2[0] = 2;
    assert_eq!(TocEntry::from_scsi_readtoc_0010b(&d2), Err(TocEntryError::MultiSession));
    let mut d3 = d.clone();
    d3[1] = 0x20;
    assert_eq!(TocEntry::from_scsi_readtoc_0010b(&d3), Err(TocEntryError::InvalidAdr(0x20)));
    let mut d4 = d;
    d4[5] = 1;
    assert_eq!(TocEntry::from_scsi_readtoc_0010b(&d4), Err(TocEntryError::ExpectedZeros));
}

#[test]
fn cdtoc_string_from_raw_toc() {
    let mut raw = Vec::new();
    raw.extend(descriptor(0xA2, 3, 0, 0));
    raw.extend(descriptor(2, 1, 0, 0));
    raw.extend(descriptor(0xA0, 1, 0, 0));
    raw.extend(descriptor(1, 0, 2, 0));
    raw.extend(descriptor(0xA1, 2, 0, 0));
    assert_eq!(parse_toc(raw).unwrap(), "02+96+1194+34bc");
}

#[test]
fn cdtoc_string_errors() {
    assert_eq!(parse_toc(vec![0; 12]), Err(TocParseError::NotMultipleOf11));
    let mut raw = Vec::new();
    raw.extend(descriptor(1, 0, 2, 0));
    assert_eq!(parse_toc(raw.clone()), Err(TocParseError::NoLeadout));
    raw.extend(descriptor(0xA2, 3, 0, 0));
    assert_eq!(parse_toc(raw.clone()), Err(TocParseError::NoLastTrack));
    raw.extend(descriptor(0xA1, 2, 0, 0));
    assert_eq!(parse_toc(raw.clone()), Err(TocParseError::NoFirstTrack));
    raw.extend(descriptor(0xA0, 1, 0, 0));
    assert_eq!(parse_toc(raw), Err(TocParseError::LastTrackMismatch));
}

#[test]
fn duration_of_longest_msf() {
    assert_eq!(msf_to_duration(Msf::new(59, 59, 74)), Duration::new(3599, 986_666_666));
    assert_eq!(frame_to_duration(Frame::new(60 * 60 * 75 - 1)), Duration::new(3599, 986_666_666));
    assert_eq!(msf_to_duration(Msf::new(4, 16, 0)), Duration::new(256, 0));
}
