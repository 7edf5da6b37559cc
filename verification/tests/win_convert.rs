use redbook::win::bindings::GUID;
use redbook::win::convert::{Guid, Sector, WinString};
use redbook::Frame;

#[test]
fn format_guid() {
    let guid = Guid(GUID {
        data1: 1,
        data2: 2,
        data3: 3,
        data4: [0, 1, 2, 3, 4, 5, 6, 7],
    });

    let expected = "00000001-0002-0003-0001-020304050607";

    assert_eq!(guid.to_string(), expected);
}

#[test]
fn display_winstring() {
    let s = "a/load/of/text";
    let w = WinString::from(s);
    assert_eq!(s, w.to_string());
}

#[test]
fn format_cdrom_guid() {
    let guid = Guid(GUID {
        data1: 0x53f56308,
        data2: 0xb6bf,
        data3: 0x11d0,
        data4: [0x94, 0xf2, 0x00, 0xa0, 0xc9, 0x1e, 0xfb, 0x8b],
    });
    assert_eq!(guid.to_string(), "53f56308-b6bf-11d0-94f2-00a0c91efb8b");
}

#[test]
fn winstring_words_are_utf16_with_terminator() {
    let w = WinString::from("a\u{1F600}é");
    assert_eq!(w.as_pcwstr(), &[0x61, 0xD83D, 0xDE00, 0xE9, 0][..]);
    assert_eq!(w.to_string(), "a\u{1F600}é");
}

#[test]
fn winstring_from_words_stops_at_nul() {
    let words: [u16; 6] = [0x44, 0x3a, 0, 0x58, 0x59, 0];
    let w = WinString::from(&words[..]);
    assert_eq!(w.as_pcwstr(), &[0x44, 0x3a, 0][..]);
    assert_eq!(w.to_string(), "D:");
}

#[test]
fn winstring_lossy_decoding() {
    let words: [u16; 4] = [0x61, 0xD800, 0x62, 0];
    let w = WinString::from(&words[..]);
    assert_eq!(w.to_string(), "a\u{FFFD}b");
}

#[test]
fn sector_offsets() {
    let s = Sector::from_frame(Frame::new(150));
    assert_eq!(s.offset(), 0);
    let s = Sector::from_frame(Frame::new(160));
    assert_eq!(s.offset(), 20480);
}
