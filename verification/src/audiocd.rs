//! Reading a whole track from an audio CD, which takes several reads: a track is larger than
//! one IO call can read.
//!
//! [`plan_track_read`] decides the reads: the chunks of the track, in order, that together
//! cover it exactly. The reads themselves are made by the drive, outside the library.
use vstd::prelude::*;

use crate::disc::{is_track_with_meta, metadata_for, Disc};
use crate::toc::Frame;
use crate::track::Track;

verus! {

broadcast use crate::toc::group_frame;

/// Size in bytes of one frame (sector) of CD audio.
pub const FRAME_SIZE: usize = 2352;

/// The most frames read in one IO call: as many as fit in 64 KiB.
pub const MAX_CHUNK_FRAMES: usize = 64 * 1024 / FRAME_SIZE;

/// The most bytes read in one IO call.
pub const MAX_CHUNK_BYTES: usize = MAX_CHUNK_FRAMES * FRAME_SIZE;

/// One read of a track: `frames` frames from `frame_offset` frames after the start of the
/// track, into `bytes` bytes.
#[derive(Debug, Clone, Copy, PartialEq, Eq, Structural)]
pub struct ChunkRead {
    /// Offset in frames from the start of the track.
    pub frame_offset: usize,
    /// Number of frames to read.
    pub frames: u32,
    /// Number of bytes the frames take.
    pub bytes: usize,
}

/// Why a track cannot be read.
#[derive(Debug, Clone, Copy, PartialEq, Eq, Structural)]
pub enum ReadTrackError {
    /// The disc has no track with this number.
    InvalidTrackNumber,
    /// The track has more bytes than a `usize` can count.
    TrackTooLong,
    /// The track has no frames.
    ZeroLengthTrack,
}

impl ReadTrackError {
    /// The message for this error.
    pub fn message(&self) -> (r: &'static str)
        ensures
            r@ == match self {
                ReadTrackError::InvalidTrackNumber => "invalid track number"@,
                ReadTrackError::TrackTooLong => "track too long"@,
                ReadTrackError::ZeroLengthTrack => "zero length track"@,
            },
    {
        match self {
            ReadTrackError::InvalidTrackNumber => "invalid track number",
            ReadTrackError::TrackTooLong => "track too long",
            ReadTrackError::ZeroLengthTrack => "zero length track",
        }
    }
}

/// The reads of a track of `frames` frames: whole chunks of [`MAX_CHUNK_FRAMES`] frames, then
/// the remaining frames, if any.
pub open spec fn chunk_plan(frames: nat) -> Seq<ChunkRead> {
    let full = frames / 27;
    let rest = frames % 27;
    let whole = Seq::new(
        full,
        |i: int| ChunkRead { frame_offset: (i * 27) as usize, frames: 27, bytes: 63504 },
    );
    if rest > 0 {
        whole.push(
            ChunkRead {
                frame_offset: (full * 27) as usize,
                frames: rest as u32,
                bytes: (rest * 2352) as usize,
            },
        )
    } else {
        whole
    }
}

/// The reads of a track, with the track and its size in bytes.
#[derive(Debug)]
pub struct TrackReadPlan<'a> {
    /// The track to read, with its metadata.
    pub track: Track<'a>,
    /// The size of the track in bytes.
    pub track_size: usize,
    /// The reads, in order.
    pub chunks: Vec<ChunkRead>,
}

/// Plan the reads of track `track_number` of `disc`: the track must exist
/// ([`ReadTrackError::InvalidTrackNumber`]), its size in bytes must fit a `usize`
/// ([`ReadTrackError::TrackTooLong`]) and not be zero ([`ReadTrackError::ZeroLengthTrack`]).
/// The reads are then those of [`chunk_plan`].
pub fn plan_track_read<'a>(disc: &'a Disc, track_number: usize) -> (r: Result<
    TrackReadPlan<'a>,
    ReadTrackError,
>)
    ensures
        !(1 <= track_number <= disc.spec_tracks().len()) ==> r == Err::<
            TrackReadPlan<'a>,
            ReadTrackError,
        >(ReadTrackError::InvalidTrackNumber),
        1 <= track_number <= disc.spec_tracks().len() ==> {
            let d = disc.spec_tracks()[track_number - 1].duration.count();
            &&& d * 2352 > usize::MAX ==> r == Err::<TrackReadPlan<'a>, ReadTrackError>(
                ReadTrackError::TrackTooLong,
            )
            &&& d == 0 ==> r == Err::<TrackReadPlan<'a>, ReadTrackError>(
                ReadTrackError::ZeroLengthTrack,
            )
            &&& 0 < d && d * 2352 <= usize::MAX ==> (r matches Ok(plan) && {
                &&& is_track_with_meta(
                    plan.track,
                    disc.spec_tracks()[track_number - 1],
                    metadata_for(disc.selected_medium(), track_number as nat),
                )
                &&& plan.track_size == d * 2352
                &&& plan.chunks@ == chunk_plan(d)
            })
        },
{
    let track = match disc.track(track_number) {
        Some(t) => t,
        None => return Err(ReadTrackError::InvalidTrackNumber),
    };
    let frames = track.duration.as_usize();
    let track_size = match frames.checked_mul(FRAME_SIZE) {
        Some(n) => n,
        None => return Err(ReadTrackError::TrackTooLong),
    };
    if track_size == 0 {
        return Err(ReadTrackError::ZeroLengthTrack);
    }
    let full = track_size / MAX_CHUNK_BYTES;
    assert(full == frames / 27) by (nonlinear_arith)
        requires
            track_size == frames * 2352,
            full == track_size / 63504,
    ;
    let mut chunks: Vec<ChunkRead> = Vec::new();
    let mut i: usize = 0;
    while i < full
        invariant
            full == frames / 27,
            frames * 2352 <= usize::MAX,
            i <= full,
            chunks@ == chunk_plan(frames as nat).take(i as int),
        decreases full - i,
    {
        assert(i * 27 <= frames) by (nonlinear_arith)
            requires
                i < full,
                full == frames / 27,
        ;
        chunks.push(ChunkRead { frame_offset: i * MAX_CHUNK_FRAMES, frames: 27, bytes: MAX_CHUNK_BYTES });
        i = i + 1;
        assert(chunks@ =~= chunk_plan(frames as nat).take(i as int));
    }
    let rest = frames % MAX_CHUNK_FRAMES;
    if rest > 0 {
        assert(full * 27 <= frames) by (nonlinear_arith)
            requires
                full == frames / 27,
        ;
        chunks.push(
            ChunkRead { frame_offset: full * MAX_CHUNK_FRAMES, frames: rest as u32, bytes: rest * FRAME_SIZE },
        );
        assert(chunks@ =~= chunk_plan(frames as nat));
    } else {
        assert(chunks@ =~= chunk_plan(frames as nat));
    }
    Ok(TrackReadPlan { track, track_size, chunks })
}

/// The reads of [`chunk_plan`] cover the track exactly, in order: the first starts at frame 0,
/// each starts where the one before ends, the last ends at the end of the track; each reads
/// between 1 and [`MAX_CHUNK_FRAMES`] frames, into as many bytes as they take.
pub proof fn lemma_chunk_plan_covers_track(frames: nat)
    requires
        0 < frames,
        frames * 2352 <= usize::MAX,
    ensures
        chunk_plan(frames).len() > 0,
        chunk_plan(frames)[0].frame_offset == 0,
        forall|i: int|
            0 <= i < chunk_plan(frames).len() - 1 ==> (#[trigger] chunk_plan(frames)[i + 1]).frame_offset
                == chunk_plan(frames)[i].frame_offset + chunk_plan(frames)[i].frames,
        chunk_plan(frames).last().frame_offset + chunk_plan(frames).last().frames == frames,
        forall|i: int|
            0 <= i < chunk_plan(frames).len() ==> 1 <= (#[trigger] chunk_plan(frames)[i]).frames
                <= MAX_CHUNK_FRAMES && chunk_plan(frames)[i].bytes == chunk_plan(frames)[i].frames
                * FRAME_SIZE,
{
    let full = frames / 27;
    let rest = frames % 27;
    assert(frames == full * 27 + rest);
    assert(full * 27 <= usize::MAX);
    let p = chunk_plan(frames);
    assert forall|i: int| 0 <= i < p.len() - 1 implies (#[trigger] p[i + 1]).frame_offset
        == p[i].frame_offset + p[i].frames by {
        assert((i + 1) * 27 == i * 27 + 27) by (nonlinear_arith);
        assert(i * 27 <= full * 27) by (nonlinear_arith)
            requires
                i <= full,
        ;
    }
    if full > 0 {
        assert(0 * 27 == 0);
    }
    if rest == 0 {
        assert((full - 1) * 27 + 27 == full * 27) by (nonlinear_arith);
        assert((full - 1) * 27 <= full * 27) by (nonlinear_arith)
            requires
                full >= 1,
        ;
    }
}

} // verus!
