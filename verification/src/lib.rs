//! Audio CD (RedBook, IEC 60908:1999) structures, and the glue between a CD drive, MusicBrainz
//! and tagged audio files.
pub mod audiocd;
pub mod cd_toc;
pub mod disc;
pub mod hex;
pub mod musicbrainz;
pub mod sort;
pub mod tagging;
pub mod test_fixtures;
pub mod text;
pub mod toc;
pub mod track;
pub mod win;

pub use audiocd::{FRAME_SIZE, MAX_CHUNK_BYTES, MAX_CHUNK_FRAMES};
pub use disc::{Disc, DiscError};
pub use toc::{leadin, Frame, Msf, TocEntry, LEADIN_FRAMES};
pub use track::{RippedTrack, Track};
