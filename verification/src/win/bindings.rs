//! Plain-data mirrors of the Windows CD-ROM structures.
#![allow(non_snake_case, non_camel_case_types)]
use vstd::prelude::*;

verus! {

/// `TRACK_MODE_TYPE` of `RAW_READ_INFO`.
pub type TRACK_MODE_TYPE = i32;

/// Track mode for audio data.
pub const CDDA: TRACK_MODE_TYPE = 2;

/// `IOCTL_CDROM_RAW_READ` control code.
pub const IOCTL_CDROM_RAW_READ: i32 = 147518;

/// `IOCTL_CDROM_READ_TOC_EX` control code.
pub const IOCTL_CDROM_READ_TOC_EX: i32 = 147540;

/// A Windows `GUID`.
#[derive(Debug, Clone, Copy, PartialEq, Eq)]
pub struct GUID {
    pub data1: u32,
    pub data2: u16,
    pub data3: u16,
    pub data4: [u8; 8],
}

/// Input of `IOCTL_CDROM_READ_TOC_EX`.
#[derive(Debug, Clone, Copy, PartialEq, Eq)]
pub struct CDROM_READ_TOC_EX {
    pub _bitfield: u8,
    pub SessionTrack: u8,
    pub Reserved2: u8,
    pub Reserved3: u8,
}

/// One track descriptor of a `CDROM_TOC`.
#[derive(Debug, Clone, Copy, PartialEq, Eq)]
pub struct TRACK_DATA {
    pub Reserved: u8,
    pub _bitfield: u8,
    pub TrackNumber: u8,
    pub Reserved1: u8,
    /// Start address (relative frame, big-endian).
    pub Address: [u8; 4],
}

/// The table of contents as `IOCTL_CDROM_READ_TOC_EX` reports it.
#[derive(Debug, Clone, Copy)]
pub struct CDROM_TOC {
    pub Length: [u8; 2],
    pub FirstTrack: u8,
    pub LastTrack: u8,
    pub TrackData: [TRACK_DATA; 100],
}

/// Input of `IOCTL_CDROM_RAW_READ`.
#[derive(Debug, Clone, Copy, PartialEq, Eq, Structural)]
pub struct RAW_READ_INFO {
    pub DiskOffset: i64,
    pub SectorCount: u32,
    pub TrackMode: TRACK_MODE_TYPE,
}

impl CDROM_READ_TOC_EX {
    /// A `CDROM_READ_TOC_EX` asking for the TOC of session 1 (format 0: `CDROM_TOC`).
    pub fn session_one() -> (r: Self)
        ensures
            r.SessionTrack == 1,
            r._bitfield == 0,
            r.Reserved2 == 0,
            r.Reserved3 == 0,
    {
        CDROM_READ_TOC_EX { _bitfield: 0, SessionTrack: 1, Reserved2: 0, Reserved3: 0 }
    }
}

impl TRACK_DATA {
    /// An all-zero descriptor.
    pub fn zeroed() -> (r: Self)
        ensures
            r.Reserved == 0,
            r._bitfield == 0,
            r.TrackNumber == 0,
            r.Reserved1 == 0,
            r.Address@ == seq![0u8, 0, 0, 0],
    {
        TRACK_DATA { Reserved: 0, _bitfield: 0, TrackNumber: 0, Reserved1: 0, Address: [0u8; 4] }
    }
}

impl CDROM_TOC {
    /// An all-zero table of contents.
    pub fn zeroed() -> (r: Self)
        ensures
            r.Length@ == seq![0u8, 0],
            r.FirstTrack == 0,
            r.LastTrack == 0,
            forall|i: int|
                0 <= i < 100 ==> {
                    &&& #[trigger] r.TrackData@[i].TrackNumber == 0
                    &&& r.TrackData@[i].Address@ == seq![0u8, 0, 0, 0]
                },
    {
        let td = TRACK_DATA::zeroed();
        let r = CDROM_TOC { Length: [0u8; 2], FirstTrack: 0, LastTrack: 0, TrackData: [td; 100] };
        assert(r.Length@ =~= seq![0u8, 0]);
        r
    }
}

} // verus!
