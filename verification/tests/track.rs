use metaflac::block::VorbisComment;
use redbook::track::RippedTrack;
use redbook::{Frame, Msf, TocEntry, Track};

fn ripped(raw_data: Vec<u8>) -> RippedTrack {
    RippedTrack { track_number: 1, tags: VorbisComment::new(), coverart: None, raw_data }
}

#[test]
fn new_track_has_no_metadata() {
    let t = Track::new(3, Frame::new(200), Frame::new(75), Some(9));
    assert_eq!(t.track_number(), 3);
    assert_eq!(t.toc_entry, TocEntry { track: 3, start: Frame::new(200) });
    assert!(t.title().is_none());
    assert!(t.meta().is_none());
    assert_eq!(t.filename(), "03 ");
}

#[test]
fn wav_header_and_data() {
    let data: Vec<u8> = vec![1, 0, 2, 0, 3, 0, 4, 0];
    let wav = ripped(data.clone()).to_wav();
    assert_eq!(wav.len(), 44 + 8);
    assert_eq!(&wav[0..4], b"RIFF");
    assert_eq!(&wav[4..8], &44u32.to_le_bytes());
    assert_eq!(&wav[8..16], b"WAVEfmt ");
    assert_eq!(&wav[16..20], &16u32.to_le_bytes());
    assert_eq!(&wav[20..22], &1u16.to_le_bytes());
    assert_eq!(&wav[22..24], &2u16.to_le_bytes());
    assert_eq!(&wav[24..28], &44100u32.to_le_bytes());
    assert_eq!(&wav[28..32], &176400u32.to_le_bytes());
    assert_eq!(&wav[32..34], &4u16.to_le_bytes());
    assert_eq!(&wav[34..36], &16u16.to_le_bytes());
    assert_eq!(&wav[36..40], b"data");
    assert_eq!(&wav[40..44], &8u32.to_le_bytes());
    assert_eq!(&wav[44..], &data[..]);
}

#[test]
fn samples_are_signed_little_endian() {
    let t = ripped(vec![0x01, 0x00, 0xff, 0xff, 0x00, 0x80, 0x7f]);
    assert_eq!(t.samples(), vec![1, -1, -32768]);
}

#[test]
fn flac_encoding_of_silence() {
    let t = ripped(vec![0; 2352 * 10]);
    let flac = t.try_to_flac().unwrap();
    assert_eq!(&flac[0..4], b"fLaC");
    assert_eq!(t.to_flac(), flac);
}

#[test]
fn msf_and_frames() {
    assert_eq!(Frame::from(Msf::new(1, 30, 30)), Frame::new(6780));
    assert_eq!(Msf::from(Frame::new(6780)), Msf::new(1, 30, 30));
    assert_eq!(Frame::new(6780).relative_to_leadin(), Frame::new(6630));
    assert_eq!(Msf::new(0, 2, 0).relative_to_leadin(), Msf::new(0, 0, 0));
}
