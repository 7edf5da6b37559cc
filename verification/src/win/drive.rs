//! A CD drive, as the library sees it: its path, the handle that opening it gave, and the
//! [`CDROM_TOC`] read from it; with the decisions around raw reads and the enumeration of
//! drives.
//!
//! The Windows calls themselves (`CreateFile2`, `DeviceIoControl`, the `SetupDi` functions)
//! are made outside the library, which hands their results to the functions here.
use std::path::PathBuf;
use vstd::prelude::*;

use super::bindings::{CDDA, CDROM_TOC, RAW_READ_INFO};
use super::convert::{before_nul, utf16_decode, utf16_of, Sector, WinPath, WinString};
use super::toc::toc_bytes;
use super::MAX_PATH_CHARS;
use crate::audiocd::FRAME_SIZE;
use crate::hex::{hex_dump, hex_dump_text};
use crate::text::{chars_of, push_str};
use crate::toc::Frame;
use crate::track::Track;

verus! {

broadcast use crate::toc::group_frame;

/// An open handle to a drive: the value of the Windows `HANDLE`, which the opener closes.
#[derive(Debug, PartialEq, Eq, Structural)]
pub struct DriveHandle(usize);

impl DriveHandle {
    /// The handle value, as a spec value.
    pub closed spec fn value(&self) -> usize {
        self.0
    }

    /// A handle from the value that `CreateFile2` returned for a drive.
    pub fn from_raw(raw: usize) -> (r: Self)
        ensures
            r.value() == raw,
    {
        DriveHandle(raw)
    }

    /// The handle value, for the Windows calls that take it.
    pub fn as_raw(&self) -> (r: usize)
        ensures
            r == self.value(),
    {
        self.0
    }
}

/// Why a raw read of a drive, or finding a drive, failed.
#[derive(Debug, Clone, Copy, PartialEq, Eq, Structural)]
pub enum DriveError {
    /// The buffer does not have the bytes the read needs: the bytes needed and the buffer's
    /// length.
    BufferSize { required: u32, len: usize },
    /// The read gave fewer bytes than asked for: the bytes asked for and the bytes read.
    ShortRead { expected: u32, read: u32 },
    /// A device path is longer than the buffer for it.
    PathTooLong,
}

/// The device path of a drive letter path, as `CreateFile2` takes it: `\\.\` then the path.
pub open spec fn device_path_text(path: Seq<char>) -> Seq<char> {
    "\\\\.\\"@ + path
}

/// A CD drive: its path, an open handle, and its TOC.
#[derive(Debug)]
pub struct CdDrive {
    path: WinPath,
    handle: DriveHandle,
    toc: CDROM_TOC,
}

/// The raw read that [`CdDrive::read_request`] plans: the command for
/// `DeviceIoControl(.., IOCTL_CDROM_RAW_READ, ..)` and the bytes it must give.
#[derive(Debug, Clone, Copy, PartialEq, Eq)]
pub struct RawRead {
    /// The command.
    pub info: RAW_READ_INFO,
    /// The bytes the read must give.
    pub bytes_to_read: u32,
}

impl CdDrive {
    /// The path, as a spec value.
    pub closed spec fn spec_path(&self) -> WinPath {
        self.path
    }

    /// The handle, as a spec value.
    pub closed spec fn spec_handle(&self) -> usize {
        self.handle.value()
    }

    /// The TOC, as a spec value.
    pub closed spec fn spec_toc(&self) -> CDROM_TOC {
        self.toc
    }

    /// The device path to open the drive at `path` (e.g. `D:`) with: `\\.\D:`.
    pub fn device_path(path: &str) -> (r: WinString)
        ensures
            r.spec_words() == utf16_of(device_path_text(path@)).push(0),
    {
        let mut p = String::new();
        push_str(&mut p, "\\\\.\\");
        push_str(&mut p, path);
        WinString::from_str(p.as_str())
    }

    /// The drive at `path`, opened: the handle that opening its device path (see
    /// [`CdDrive::device_path`]) gave, and the TOC read through it.
    pub fn open(path: PathBuf, handle: DriveHandle, toc: CDROM_TOC) -> (r: Self)
        ensures
            r.spec_path() == WinPath::FilePath(path),
            r.spec_handle() == handle.value(),
            r.spec_toc() == toc,
    {
        CdDrive { path: WinPath::FilePath(path), handle, toc }
    }

    /// The drive found by enumerating CD-ROM device interfaces: its device path, the handle
    /// that opening it gave, and the TOC read through it.
    pub fn from_device(path: WinString, handle: DriveHandle, toc: CDROM_TOC) -> (r: Self)
        ensures
            r.spec_path() == WinPath::DevicePath(path),
            r.spec_handle() == handle.value(),
            r.spec_toc() == toc,
    {
        CdDrive { path: WinPath::DevicePath(path), handle, toc }
    }

    /// The path of the drive.
    pub fn path(&self) -> (r: &WinPath)
        ensures
            *r == self.spec_path(),
    {
        &self.path
    }

    /// The handle of the drive.
    pub fn handle(&self) -> (r: &DriveHandle)
        ensures
            r.value() == self.spec_handle(),
    {
        &self.handle
    }

    /// The TOC of the drive.
    pub fn toc(&self) -> (r: &CDROM_TOC)
        ensures
            *r == self.spec_toc(),
    {
        &self.toc
    }

    /// The raw bytes of the TOC.
    pub fn toc_as_raw_bytes(&self) -> (r: Vec<u8>)
        ensures
            r@ == toc_bytes(self.spec_toc()),
    {
        self.toc.to_raw_bytes()
    }

    /// A hex dump of the raw bytes of the TOC.
    pub fn toc_as_hex(&self) -> (r: String)
        ensures
            r@ == hex_dump_text(toc_bytes(self.spec_toc())),
    {
        let bytes = self.toc_as_raw_bytes();
        hex_dump(bytes.as_slice())
    }

    /// The raw read of `frames_to_read` frames of `track`, from `frame_offset` frames after its
    /// start, into a buffer of `buf_len` bytes: the disk offset of the pseudo-sector of that
    /// frame (see [`Sector`]), the frame count and the CDDA track mode. The buffer must have
    /// exactly the bytes of the frames (else [`DriveError::BufferSize`]; the length is compared
    /// as a `u32`).
    pub fn read_request(track: &Track, frame_offset: usize, frames_to_read: u32, buf_len: usize) -> (r:
        Result<RawRead, DriveError>)
        requires
            track.toc_entry.start.count() + frame_offset <= usize::MAX,
            track.toc_entry.start.count() + frame_offset >= 150,
            (track.toc_entry.start.count() + frame_offset - 150) * 2048 <= i64::MAX,
            frames_to_read * 2352 <= u32::MAX,
        ensures
            match r {
                Ok(read) => {
                    &&& (buf_len as nat) % 0x1_0000_0000 == frames_to_read * 2352
                    &&& read.bytes_to_read == frames_to_read * 2352
                    &&& read.info.DiskOffset == (track.toc_entry.start.count() + frame_offset
                        - 150) * 2048
                    &&& read.info.SectorCount == frames_to_read
                    &&& read.info.TrackMode == CDDA
                },
                Err(e) => (buf_len as nat) % 0x1_0000_0000 != frames_to_read * 2352 && e
                    == DriveError::BufferSize { required: (frames_to_read * 2352) as u32, len: buf_len },
            },
    {
        let sector = Sector::from_frame(track.toc_entry.start + frame_offset);
        let offset = sector.offset();
        let bytes_to_read = frames_to_read * FRAME_SIZE as u32;
        if bytes_to_read as u64 != buf_len as u64 % 0x1_0000_0000 {
            return Err(DriveError::BufferSize { required: bytes_to_read, len: buf_len });
        }
        let info = RAW_READ_INFO { DiskOffset: offset, SectorCount: frames_to_read, TrackMode: CDDA };
        Ok(RawRead { info, bytes_to_read })
    }

    /// The outcome of a raw read that gave `bytes_read` bytes: the byte count when it is the
    /// count asked for, else [`DriveError::ShortRead`].
    pub fn check_read(read: &RawRead, bytes_read: u32) -> (r: Result<u32, DriveError>)
        ensures
            bytes_read == read.bytes_to_read ==> r == Ok::<u32, DriveError>(bytes_read),
            bytes_read != read.bytes_to_read ==> r == Err::<u32, DriveError>(
                DriveError::ShortRead { expected: read.bytes_to_read, read: bytes_read },
            ),
    {
        if bytes_read != read.bytes_to_read {
            Err(DriveError::ShortRead { expected: read.bytes_to_read, read: bytes_read })
        } else {
            Ok(bytes_read)
        }
    }
}

/// Size in bytes of [`DeviceDetails`] as Windows sees it on 64-bit targets: the `u32` size
/// field and the path buffer, padded to a multiple of 4.
pub const DEVICE_DETAILS_SIZE: u32 = 536;

/// `SP_DEVICE_INTERFACE_DETAIL_DATA_W` with a buffer for any valid drive path
/// ([`MAX_PATH_CHARS`] UTF-16 code units).
#[derive(Debug, Clone, Copy, PartialEq, Eq)]
pub struct DeviceDetails {
    /// The size of the fixed part of `SP_DEVICE_INTERFACE_DETAIL_DATA_W`.
    pub cbSize: u32,
    /// The device path, null-terminated.
    pub DevicePath: [u16; 265],
}

impl DeviceDetails {
    /// Details whose size field is `cb_size` (the size of the fixed part of
    /// `SP_DEVICE_INTERFACE_DETAIL_DATA_W`) and whose path is empty.
    pub fn new(cb_size: u32) -> (r: Self)
        ensures
            r.cbSize == cb_size,
            forall|i: int| 0 <= i < 265 ==> r.DevicePath@[i] == 0,
    {
        DeviceDetails { cbSize: cb_size, DevicePath: [0u16; 265] }
    }

    /// Whether the buffer is large enough for a path that needs `requiredsize` bytes (as
    /// `SetupDiGetDeviceInterfaceDetailW` reports it): else [`DriveError::PathTooLong`].
    pub fn check_size(requiredsize: u32) -> (r: Result<(), DriveError>)
        ensures
            r is Ok <==> requiredsize <= DEVICE_DETAILS_SIZE,
            r is Err ==> r == Err::<(), DriveError>(DriveError::PathTooLong),
    {
        if requiredsize <= DEVICE_DETAILS_SIZE {
            Ok(())
        } else {
            Err(DriveError::PathTooLong)
        }
    }

    /// The device path, valid across reboots and valid to pass to `CreateFile2`.
    pub fn path(&self) -> (r: WinString)
        ensures
            r.spec_words() == before_nul(self.DevicePath@).push(0),
    {
        WinString::from_words(self.DevicePath.as_slice())
    }

    /// The device path as text: its code units before the first zero, decoded.
    pub fn to_string(&self) -> (r: String)
        ensures
            r@ == utf16_decode(before_nul(self.DevicePath@)),
    {
        let w = self.path();
        let r = w.to_string();
        proof {
            assert(before_nul(self.DevicePath@).push(0).drop_last() =~= before_nul(
                self.DevicePath@,
            ));
        }
        r
    }
}

/// What the enumeration of drives was told last: a request for the next drive, or the
/// outcome of the Windows call that it asked for.
#[derive(Debug, Clone, Copy, PartialEq, Eq, Structural)]
pub enum DriveEvent {
    /// The next drive is wanted.
    Next,
    /// `SetupDiEnumDeviceInterfaces` returned: whether it found an interface.
    Enumerated { found: bool },
    /// `SetupDiGetDeviceInterfaceDetailW` without a buffer returned: whether it failed with
    /// `ERROR_INSUFFICIENT_BUFFER`, as it does when it reports the size, and that size.
    SizeQueried { insufficient_buffer: bool, required: u32 },
    /// `SetupDiGetDeviceInterfaceDetailW` with the buffer returned: whether it succeeded.
    DetailsRead { ok: bool },
    /// Opening the drive at the device path, and reading its TOC, returned: whether it
    /// succeeded, and the OS error otherwise.
    Opened { ok: bool, os_error: Option<i32> },
}

/// What the enumeration of drives asks for next.
#[derive(Debug, Clone, Copy, PartialEq, Eq, Structural)]
pub enum DriveAction {
    /// Call `SetupDiEnumDeviceInterfaces` for the interface of this index.
    Enumerate(u32),
    /// Ask `SetupDiGetDeviceInterfaceDetailW` for the size of the details.
    QuerySize,
    /// Read the details into a [`DeviceDetails`] buffer.
    ReadDetails,
    /// Open the drive at the device path of the details and read its TOC.
    Open,
    /// The drive is open: hand it out.
    Yield,
    /// There is no further drive.
    Finish,
}

/// The next index and action of the enumeration of drives, from the index of the next element
/// and an event: a request enumerates the element at the index (none is left past
/// `u32::MAX`); a found interface has its size asked, a size that fits has the details read,
/// the details have the drive opened, an open drive is handed out, and a drive without a disc
/// is passed over for the next element. Any other outcome ends the enumeration.
pub open spec fn drive_step(index: u32, event: DriveEvent) -> (u32, DriveAction) {
    match event {
        DriveEvent::Next => enumerate_at(index),
        DriveEvent::Enumerated { found } => (index, if found {
            DriveAction::QuerySize
        } else {
            DriveAction::Finish
        }),
        DriveEvent::SizeQueried { insufficient_buffer, required } => (index, if insufficient_buffer
            && required <= DEVICE_DETAILS_SIZE {
            DriveAction::ReadDetails
        } else {
            DriveAction::Finish
        }),
        DriveEvent::DetailsRead { ok } => (index, if ok {
            DriveAction::Open
        } else {
            DriveAction::Finish
        }),
        DriveEvent::Opened { ok, os_error } => if ok {
            (index, DriveAction::Yield)
        } else if os_error == Some(ERROR_NOT_READY) {
            enumerate_at(index)
        } else {
            (index, DriveAction::Finish)
        },
    }
}

/// Enumerating the element at `index`, which moves the index on; none is left past `u32::MAX`.
pub open spec fn enumerate_at(index: u32) -> (u32, DriveAction) {
    if index < u32::MAX {
        ((index + 1) as u32, DriveAction::Enumerate(index))
    } else {
        (index, DriveAction::Finish)
    }
}

/// Windows error "device not ready": a drive with no disc.
pub const ERROR_NOT_READY: i32 = 21;

/// The enumeration of the CD-ROM drives of a device information set.
#[derive(Debug)]
pub struct CdDrives {
    /// The device information set (`HDEVINFO`), as its value.
    deviceinfoset: usize,
    /// Index of the next element to retrieve from the set.
    current_index: u32,
}

impl CdDrives {
    /// The device information set, as a spec value.
    pub closed spec fn spec_set(&self) -> usize {
        self.deviceinfoset
    }

    /// The index of the next element, as a spec value.
    pub closed spec fn spec_index(&self) -> u32 {
        self.current_index
    }

    /// The enumeration of the drives of the device information set that
    /// `SetupDiGetClassDevsW` returned, from its first element.
    pub fn new(deviceinfoset: usize) -> (r: Self)
        ensures
            r.spec_set() == deviceinfoset,
            r.spec_index() == 0,
    {
        CdDrives { deviceinfoset, current_index: 0 }
    }

    /// The device information set, for the Windows calls that take it.
    pub fn device_info_set(&self) -> (r: usize)
        ensures
            r == self.spec_set(),
    {
        self.deviceinfoset
    }

    /// The index of the element to retrieve next; the enumeration moves on by one.
    pub fn next_index(&mut self) -> (r: u32)
        requires
            old(self).spec_index() < u32::MAX,
        ensures
            r == old(self).spec_index(),
            final(self).spec_index() == old(self).spec_index() + 1,
            final(self).spec_set() == old(self).spec_set(),
    {
        let i = self.current_index;
        self.current_index = i + 1;
        i
    }

    /// One step of the enumeration: the action that `event` calls for (see [`drive_step`]);
    /// the index moves on with each element enumerated.
    pub fn step(&mut self, event: DriveEvent) -> (r: DriveAction)
        ensures
            (final(self).spec_index(), r) == drive_step(old(self).spec_index(), event),
            final(self).spec_set() == old(self).spec_set(),
    {
        match event {
            DriveEvent::Next => self.enumerate(),
            DriveEvent::Enumerated { found } => if found {
                DriveAction::QuerySize
            } else {
                DriveAction::Finish
            },
            DriveEvent::SizeQueried { insufficient_buffer, required } => {
                if insufficient_buffer && DeviceDetails::check_size(required).is_ok() {
                    DriveAction::ReadDetails
                } else {
                    DriveAction::Finish
                }
            },
            DriveEvent::DetailsRead { ok } => if ok {
                DriveAction::Open
            } else {
                DriveAction::Finish
            },
            DriveEvent::Opened { ok, os_error } => if ok {
                DriveAction::Yield
            } else if CdDrives::skip_after_open_error(os_error) {
                self.enumerate()
            } else {
                DriveAction::Finish
            },
        }
    }

    /// Enumerate the element at the index, if any is left (see [`enumerate_at`]).
    fn enumerate(&mut self) -> (r: DriveAction)
        ensures
            (final(self).spec_index(), r) == enumerate_at(old(self).spec_index()),
            final(self).spec_set() == old(self).spec_set(),
    {
        if self.current_index < u32::MAX {
            DriveAction::Enumerate(self.next_index())
        } else {
            DriveAction::Finish
        }
    }

    /// Whether the enumeration goes on to the next drive after opening a drive failed with
    /// this OS error: only when the drive has no disc.
    pub fn skip_after_open_error(os_error: Option<i32>) -> (r: bool)
        ensures
            r == (os_error == Some(ERROR_NOT_READY)),
    {
        match os_error {
            Some(code) => code == ERROR_NOT_READY,
            None => false,
        }
    }
}

} // verus!
