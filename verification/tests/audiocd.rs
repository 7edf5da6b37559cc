use cdtoc::Toc;
use redbook::audiocd::{plan_track_read, ChunkRead, ReadTrackError, FRAME_SIZE, MAX_CHUNK_FRAMES};
use redbook::disc::Disc;
use redbook::{Frame, Track};

fn disc_with_durations(first: usize, second: usize) -> Disc {
    let a = 150u32;
    let b = a + first as u32;
    let leadout = b + second as u32;
    let toc = Toc::from_parts(vec![a, b], None, leadout).unwrap();
    let tracks = vec![
        Track::new(1, Frame::new(a as usize), Frame::new(first), None),
        Track::new(2, Frame::new(b as usize), Frame::new(second), None),
    ];
    Disc::new(toc, tracks, Frame::new(leadout as usize)).unwrap()
}

#[test]
fn chunk_sizes() {
    assert_eq!(MAX_CHUNK_FRAMES, 27);
    assert_eq!(FRAME_SIZE, 2352);
}

#[test]
fn plan_covers_track() {
    let disc = disc_with_durations(60, 27);
    let plan = plan_track_read(&disc, 1).unwrap();
    assert_eq!(plan.track_size, 60 * 2352);
    assert_eq!(
        plan.chunks,
        vec![
            ChunkRead { frame_offset: 0, frames: 27, bytes: 27 * 2352 },
            ChunkRead { frame_offset: 27, frames: 27, bytes: 27 * 2352 },
            ChunkRead { frame_offset: 54, frames: 6, bytes: 6 * 2352 },
        ]
    );
    let plan = plan_track_read(&disc, 2).unwrap();
    assert_eq!(plan.chunks, vec![ChunkRead { frame_offset: 0, frames: 27, bytes: 27 * 2352 }]);
    assert_eq!(plan.track.track_number(), 2);
}

#[test]
fn plan_errors() {
    let disc = disc_with_durations(60, 27);
    assert_eq!(plan_track_read(&disc, 0).unwrap_err(), ReadTrackError::InvalidTrackNumber);
    assert_eq!(plan_track_read(&disc, 3).unwrap_err(), ReadTrackError::InvalidTrackNumber);
    assert_eq!(ReadTrackError::ZeroLengthTrack.message(), "zero length track");
}

#[test]
fn chunk_offsets_are_contiguous() {
    let disc = disc_with_durations(1000, 1);
    let plan = plan_track_read(&disc, 1).unwrap();
    let mut next = 0usize;
    let mut bytes = 0usize;
    for c in &plan.chunks {
        assert_eq!(c.frame_offset, next);
        assert!(c.frames as usize <= MAX_CHUNK_FRAMES && c.frames > 0);
        next += c.frames as usize;
        bytes += c.bytes;
    }
    assert_eq!(next, 1000);
    assert_eq!(bytes, plan.track_size);
}
