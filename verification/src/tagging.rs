//! Tagging: Vorbis comments for FLAC files, embeddable cover art, and file names.
//!
//! Vorbis comments are held in `metaflac`'s [`VorbisComment`], whose key/values map is named by
//! [`vorbis_comments`]; each `metaflac` method the library calls has a wrapper stating what it
//! does to that map.
use metaflac::block::VorbisComment;
use vstd::prelude::*;
use zune_jpeg::zune_core::bytestream::ZCursor;
use zune_jpeg::JpegDecoder;

use crate::musicbrainz::{ArtistCredit, MbTrack, Release, ReleaseScript, ReleaseStatus};
use crate::text::{
    chars_of, dec_digits, dec_value, fmt_dec, is_dec_digit, lemma_dec_digits_two,
    lemma_fmt_dec_value, parse_unsigned, push_char, push_dec, push_str, string_from_chars,
};

verus! {

#[verifier::external_type_specification]
#[verifier::external_body]
pub struct ExVorbisComment(VorbisComment);

/// The comments of a [`VorbisComment`]: each key with its list of values.
pub uninterp spec fn vorbis_comments(v: VorbisComment) -> Map<Seq<char>, Seq<Seq<char>>>;

/// The text of each string.
pub open spec fn strings_view(s: Seq<String>) -> Seq<Seq<char>> {
    s.map_values(|x: String| x@)
}

/// `VorbisComment::new`: no comments.
#[verifier::external_body]
pub(crate) fn vorbis_new() -> (r: VorbisComment)
    ensures
        forall|k: Seq<char>| !(#[trigger] vorbis_comments(r).dom().contains(k)),
{
    VorbisComment::new()
}

/// `VorbisComment::set`: the values of `key` become `values`.
#[verifier::external_body]
pub(crate) fn vorbis_set(v: &mut VorbisComment, key: &str, values: Vec<String>)
    ensures
        vorbis_comments(*final(v)) == vorbis_comments(*old(v)).insert(key@, strings_view(values@)),
{
    v.set(key, values)
}

/// `VorbisComment::set_track`: `TRACKNUMBER` becomes the decimal track number.
#[verifier::external_body]
pub(crate) fn vorbis_set_track(v: &mut VorbisComment, track: u32)
    ensures
        vorbis_comments(*final(v)) == vorbis_comments(*old(v)).insert(
            "TRACKNUMBER"@,
            seq![dec_digits(track as nat)],
        ),
{
    v.set_track(track)
}

/// `VorbisComment::set_title`: removes `TITLESORT`, and `TITLE` becomes `values`.
#[verifier::external_body]
pub(crate) fn vorbis_set_title(v: &mut VorbisComment, values: Vec<String>)
    ensures
        vorbis_comments(*final(v)) == vorbis_comments(*old(v)).remove("TITLESORT"@).insert(
            "TITLE"@,
            strings_view(values@),
        ),
{
    v.set_title(values)
}

/// `VorbisComment::set_album`: removes `ALBUMSORT`, and `ALBUM` becomes `values`.
#[verifier::external_body]
pub(crate) fn vorbis_set_album(v: &mut VorbisComment, values: Vec<String>)
    ensures
        vorbis_comments(*final(v)) == vorbis_comments(*old(v)).remove("ALBUMSORT"@).insert(
            "ALBUM"@,
            strings_view(values@),
        ),
{
    v.set_album(values)
}

/// `VorbisComment::set_album_artist`: removes `ALBUMARTISTSORT`, and `ALBUMARTIST` becomes
/// `values`.
#[verifier::external_body]
pub(crate) fn vorbis_set_album_artist(v: &mut VorbisComment, values: Vec<String>)
    ensures
        vorbis_comments(*final(v)) == vorbis_comments(*old(v)).remove("ALBUMARTISTSORT"@).insert(
            "ALBUMARTIST"@,
            strings_view(values@),
        ),
{
    v.set_album_artist(values)
}

/// `VorbisComment::set_artist`: removes `ARTISTSORT`, and `ARTIST` becomes `values`.
#[verifier::external_body]
pub(crate) fn vorbis_set_artist(v: &mut VorbisComment, values: Vec<String>)
    ensures
        vorbis_comments(*final(v)) == vorbis_comments(*old(v)).remove("ARTISTSORT"@).insert(
            "ARTIST"@,
            strings_view(values@),
        ),
{
    v.set_artist(values)
}

/// The values stored under `key`, if any.
pub open spec fn comment_values(v: VorbisComment, key: Seq<char>) -> Option<Seq<Seq<char>>> {
    if vorbis_comments(v).dom().contains(key) {
        Some(vorbis_comments(v)[key])
    } else {
        None
    }
}

/// `VorbisComment::track`: the first `TRACKNUMBER` value, parsed as a `u32`.
#[verifier::external_body]
pub(crate) fn vorbis_track(v: &VorbisComment) -> (r: Option<u32>)
    ensures
        r == (match comment_values(*v, "TRACKNUMBER"@) {
            Some(values) => if values.len() > 0 {
                match parse_unsigned(values[0], u32::MAX as nat) {
                    Some(n) => Some(n as u32),
                    None => None,
                }
            } else {
                None
            },
            None => None,
        }),
{
    v.track()
}

/// `VorbisComment::title`: the `TITLE` values.
#[verifier::external_body]
pub(crate) fn vorbis_title(v: &VorbisComment) -> (r: Option<Vec<String>>)
    ensures
        match r {
            Some(values) => comment_values(*v, "TITLE"@) == Some(strings_view(values@)),
            None => comment_values(*v, "TITLE"@) is None,
        },
{
    v.title().cloned()
}

/// `VorbisComment::album`: the `ALBUM` values.
#[verifier::external_body]
pub(crate) fn vorbis_album(v: &VorbisComment) -> (r: Option<Vec<String>>)
    ensures
        match r {
            Some(values) => comment_values(*v, "ALBUM"@) == Some(strings_view(values@)),
            None => comment_values(*v, "ALBUM"@) is None,
        },
{
    v.album().cloned()
}

/// `VorbisComment::album_artist`: the `ALBUMARTIST` values.
#[verifier::external_body]
pub(crate) fn vorbis_album_artist(v: &VorbisComment) -> (r: Option<Vec<String>>)
    ensures
        match r {
            Some(values) => comment_values(*v, "ALBUMARTIST"@) == Some(strings_view(values@)),
            None => comment_values(*v, "ALBUMARTIST"@) is None,
        },
{
    v.album_artist().cloned()
}

/// A vector holding one string.
pub fn one_value(s: String) -> (r: Vec<String>)
    ensures
        strings_view(r@) == seq![s@],
{
    let mut v: Vec<String> = Vec::new();
    v.push(s);
    assert(strings_view(v@) =~= seq![s@]);
    v
}

/// A vector holding a copy of one string slice.
pub fn one_str(s: &str) -> (r: Vec<String>)
    ensures
        strings_view(r@) == seq![s@],
{
    let mut t = String::new();
    push_str(&mut t, s);
    assert(t@ =~= s@);
    one_value(t)
}

/// The texts of `parts`, joined by `sep`.
pub open spec fn join_with(parts: Seq<Seq<char>>, sep: Seq<char>) -> Seq<char>
    decreases parts.len(),
{
    if parts.len() == 0 {
        Seq::empty()
    } else if parts.len() == 1 {
        parts[0]
    } else {
        join_with(parts.drop_last(), sep) + sep + parts.last()
    }
}

/// Join strings with a separator (`[String]::join`).
pub fn join_strings(parts: &Vec<String>, sep: &str) -> (r: String)
    ensures
        r@ == join_with(strings_view(parts@), sep@),
{
    let mut out = String::new();
    let mut i: usize = 0;
    while i < parts.len()
        invariant
            i <= parts.len(),
            out@ == join_with(strings_view(parts@.take(i as int)), sep@),
        decreases parts.len() - i,
    {
        if i > 0 {
            push_str(&mut out, sep);
        }
        push_str(&mut out, parts[i].as_str());
        assert(strings_view(parts@.take(i + 1)).drop_last() =~= strings_view(
            parts@.take(i as int),
        ));
        assert(out@ =~= join_with(strings_view(parts@.take(i + 1)), sep@));
        i = i + 1;
    }
    assert(parts@.take(parts@.len() as int) =~= parts@);
    out
}

// ----------------------------------------------------------------------------------------------
// Artist credits
// ----------------------------------------------------------------------------------------------

/// The names of a list of artist credits.
pub open spec fn credit_names(credits: Seq<ArtistCredit>) -> Seq<Seq<char>> {
    credits.map_values(|c: ArtistCredit| c.name@)
}

/// The artist ids of a list of artist credits.
pub open spec fn credit_ids(credits: Seq<ArtistCredit>) -> Seq<Seq<char>> {
    credits.map_values(|c: ArtistCredit| c.artist_id@)
}

/// The names of the credited artists, or none.
pub open spec fn opt_credit_names(credits: Option<Vec<ArtistCredit>>) -> Seq<Seq<char>> {
    match credits {
        Some(c) => credit_names(c@),
        None => Seq::empty(),
    }
}

/// The ids of the credited artists, or none.
pub open spec fn opt_credit_ids(credits: Option<Vec<ArtistCredit>>) -> Seq<Seq<char>> {
    match credits {
        Some(c) => credit_ids(c@),
        None => Seq::empty(),
    }
}

/// Access to the credited artists of a release, a track, or a list of credits.
pub trait ArtistCreditsExt {
    /// The names of the credited artists, in order.
    spec fn credited_names(&self) -> Seq<Seq<char>>;

    /// The ids of the credited artists, in order.
    spec fn credited_ids(&self) -> Seq<Seq<char>>;

    /// The names of the credited artists, in order.
    fn artist_names(&self) -> (r: Vec<String>)
        ensures
            strings_view(r@) == self.credited_names(),
    ;

    /// The ids of the credited artists, in order.
    fn artist_ids(&self) -> (r: Vec<String>)
        ensures
            strings_view(r@) == self.credited_ids(),
    ;

    /// The first credited artist, if any.
    fn main_artist(&self) -> (r: Option<String>)
        ensures
            match r {
                Some(name) => self.credited_names().len() > 0 && name@
                    == self.credited_names()[0],
                None => self.credited_names().len() == 0,
            },
    {
        let names = self.artist_names();
        if names.len() > 0 {
            assert(strings_view(names@)[0] == names@[0]@);
            Some(names[0].clone())
        } else {
            None
        }
    }
}

impl ArtistCreditsExt for Vec<ArtistCredit> {
    open spec fn credited_names(&self) -> Seq<Seq<char>> {
        credit_names(self@)
    }

    open spec fn credited_ids(&self) -> Seq<Seq<char>> {
        credit_ids(self@)
    }

    fn artist_names(&self) -> (r: Vec<String>) {
        let mut out: Vec<String> = Vec::new();
        let mut i: usize = 0;
        while i < self.len()
            invariant
                i <= self.len(),
                strings_view(out@) == credit_names(self@.take(i as int)),
            decreases self.len() - i,
        {
            let ghost prev = out@;
            let item = self[i].name.clone();
            out.push(item);
            assert(self@.take(i + 1) =~= self@.take(i as int).push(self@[i as int]));
            assert(strings_view(out@) =~= strings_view(prev).push(item@));
            assert(strings_view(out@) =~= credit_names(self@.take(i + 1)));
            i = i + 1;
        }
        assert(self@.take(self@.len() as int) =~= self@);
        out
    }

    fn artist_ids(&self) -> (r: Vec<String>) {
        let mut out: Vec<String> = Vec::new();
        let mut i: usize = 0;
        while i < self.len()
            invariant
                i <= self.len(),
                strings_view(out@) == credit_ids(self@.take(i as int)),
            decreases self.len() - i,
        {
            let ghost prev = out@;
            let item = self[i].artist_id.clone();
            out.push(item);
            assert(self@.take(i + 1) =~= self@.take(i as int).push(self@[i as int]));
            assert(strings_view(out@) =~= strings_view(prev).push(item@));
            assert(strings_view(out@) =~= credit_ids(self@.take(i + 1)));
            i = i + 1;
        }
        assert(self@.take(self@.len() as int) =~= self@);
        out
    }
}

impl<T: ArtistCreditsExt> ArtistCreditsExt for Option<T> {
    open spec fn credited_names(&self) -> Seq<Seq<char>> {
        match self {
            Some(t) => t.credited_names(),
            None => Seq::empty(),
        }
    }

    open spec fn credited_ids(&self) -> Seq<Seq<char>> {
        match self {
            Some(t) => t.credited_ids(),
            None => Seq::empty(),
        }
    }

    fn artist_names(&self) -> (r: Vec<String>) {
        match self {
            Some(t) => t.artist_names(),
            None => {
                let v: Vec<String> = Vec::new();
                assert(strings_view(v@) =~= Seq::<Seq<char>>::empty());
                v
            },
        }
    }

    fn artist_ids(&self) -> (r: Vec<String>) {
        match self {
            Some(t) => t.artist_ids(),
            None => {
                let v: Vec<String> = Vec::new();
                assert(strings_view(v@) =~= Seq::<Seq<char>>::empty());
                v
            },
        }
    }
}

impl ArtistCreditsExt for Release {
    open spec fn credited_names(&self) -> Seq<Seq<char>> {
        opt_credit_names(self.artist_credit)
    }

    open spec fn credited_ids(&self) -> Seq<Seq<char>> {
        opt_credit_ids(self.artist_credit)
    }

    fn artist_names(&self) -> (r: Vec<String>) {
        self.artist_credit.artist_names()
    }

    fn artist_ids(&self) -> (r: Vec<String>) {
        self.artist_credit.artist_ids()
    }
}

impl ArtistCreditsExt for MbTrack {
    open spec fn credited_names(&self) -> Seq<Seq<char>> {
        opt_credit_names(self.artist_credit)
    }

    open spec fn credited_ids(&self) -> Seq<Seq<char>> {
        opt_credit_ids(self.artist_credit)
    }

    fn artist_names(&self) -> (r: Vec<String>) {
        self.artist_credit.artist_names()
    }

    fn artist_ids(&self) -> (r: Vec<String>) {
        self.artist_credit.artist_ids()
    }
}

// ----------------------------------------------------------------------------------------------
// Release status and script tags
// ----------------------------------------------------------------------------------------------

/// The text of a release status tag.
pub open spec fn release_status_text(s: ReleaseStatus) -> Seq<char> {
    match s {
        ReleaseStatus::Official => "Official"@,
        ReleaseStatus::Promotion => "Promotion"@,
        ReleaseStatus::Bootleg => "Bootleg"@,
        ReleaseStatus::PseudoRelease => "Pseudo-Release"@,
        ReleaseStatus::UnrecognizedReleaseStatus => "Other"@,
    }
}

/// A value that sets one Vorbis comment.
pub trait ExtendVorbisTag {
    /// The key of the comment, as a spec value.
    spec fn tag_key(&self) -> Seq<char>;

    /// The value of the comment, as a spec value.
    spec fn tag_value(&self) -> Seq<char>;

    /// The key of the comment.
    fn key(&self) -> (r: &'static str)
        ensures
            r@ == self.tag_key(),
    ;

    /// Set the comment on `vorbis`.
    fn extend_vorbis(&self, vorbis: &mut VorbisComment)
        ensures
            vorbis_comments(*final(vorbis)) == vorbis_comments(*old(vorbis)).insert(
                self.tag_key(),
                seq![self.tag_value()],
            ),
    ;
}

impl ExtendVorbisTag for ReleaseStatus {
    open spec fn tag_key(&self) -> Seq<char> {
        "RELEASESTATUS"@
    }

    open spec fn tag_value(&self) -> Seq<char> {
        release_status_text(*self)
    }

    fn key(&self) -> (r: &'static str) {
        "RELEASESTATUS"
    }

    fn extend_vorbis(&self, vorbis: &mut VorbisComment) {
        let value = match self {
            ReleaseStatus::Official => "Official",
            ReleaseStatus::Promotion => "Promotion",
            ReleaseStatus::Bootleg => "Bootleg",
            ReleaseStatus::PseudoRelease => "Pseudo-Release",
            ReleaseStatus::UnrecognizedReleaseStatus => "Other",
        };
        vorbis_set(vorbis, self.key(), one_str(value));
    }
}

impl ExtendVorbisTag for ReleaseScript {
    open spec fn tag_key(&self) -> Seq<char> {
        "SCRIPT"@
    }

    open spec fn tag_value(&self) -> Seq<char> {
        self.code@
    }

    fn key(&self) -> (r: &'static str) {
        "SCRIPT"
    }

    fn extend_vorbis(&self, vorbis: &mut VorbisComment) {
        vorbis_set(vorbis, self.key(), one_value(self.code.clone()));
    }
}

// ----------------------------------------------------------------------------------------------
// Cover art
// ----------------------------------------------------------------------------------------------

/// The type of an embedded picture, as FLAC numbers them.
#[derive(Debug, Clone, Copy, PartialEq, Eq, Structural)]
pub enum PictureType {
    Other,
    Icon,
    OtherIcon,
    CoverFront,
    CoverBack,
    Leaflet,
    Media,
    LeadArtist,
    Artist,
    Conductor,
    Band,
    Composer,
    Lyricist,
    RecordingLocation,
    DuringRecording,
    DuringPerformance,
    ScreenCapture,
    BrightFish,
    Illustration,
    BandLogo,
    PublisherLogo,
}

/// A picture to embed in a FLAC file (the fields of a FLAC `PICTURE` block).
#[derive(Debug, Clone, PartialEq)]
pub struct CoverArt {
    /// The picture type.
    pub picture_type: PictureType,
    /// The MIME type.
    pub mime_type: String,
    /// The description of the picture.
    pub description: String,
    /// The width of the picture in pixels.
    pub width: u32,
    /// The height of the picture in pixels.
    pub height: u32,
    /// The colour depth in bits per pixel.
    pub depth: u32,
    /// The number of colours of an indexed picture, 0 otherwise.
    pub num_colors: u32,
    /// The picture data.
    pub data: Vec<u8>,
}

/// The width and height that the headers of a JPEG image give, if they decode.
pub uninterp spec fn jpeg_header_dimensions(data: Seq<u8>) -> Option<(u16, u16)>;

/// `JpegDecoder::decode_headers` then `JpegDecoder::info`: the width and height of a JPEG
/// image, when its headers decode.
#[verifier::external_body]
pub(crate) fn jpeg_dimensions(data: &[u8]) -> (r: Option<(u16, u16)>)
    ensures
        r == jpeg_header_dimensions(data@),
{
    let mut decoder = JpegDecoder::new(ZCursor::new(data));
    decoder.decode_headers().ok()?;
    decoder.info().map(|info| (info.width, info.height))
}

/// Construction of embeddable pictures from JPEG data.
pub trait PictureExt: Sized {
    /// A picture from JPEG data whose headers decode.
    fn from_jpeg(picture_type: PictureType, description: &str, data: Vec<u8>) -> (r: Self)
        requires
            jpeg_header_dimensions(data@) is Some,
    ;

    /// A picture from JPEG data, or `None` when its headers do not decode.
    fn try_from_jpeg(picture_type: PictureType, description: &str, data: Vec<u8>) -> (r: Option<
        Self,
    >);
}

/// The picture that `from_jpeg` builds.
pub open spec fn jpeg_cover_art(
    picture_type: PictureType,
    description: Seq<char>,
    data: Seq<u8>,
    dims: (u16, u16),
    r: CoverArt,
) -> bool {
    &&& r.picture_type == picture_type
    &&& r.mime_type@ == "image/jpeg"@
    &&& r.description@ == description
    &&& r.width == dims.0
    &&& r.height == dims.1
    &&& r.depth == 24
    &&& r.num_colors == 0
    &&& r.data@ == data
}

/// A JPEG picture takes its width and its height from the JPEG headers: the decoder gives
/// `(width, height)`, and the picture's width is the first, its height the second.
pub proof fn lemma_cover_art_dimensions(
    picture_type: PictureType,
    description: Seq<char>,
    data: Seq<u8>,
    r: CoverArt,
)
    requires
        jpeg_header_dimensions(data) is Some,
        jpeg_cover_art(
            picture_type,
            description,
            data,
            jpeg_header_dimensions(data)->Some_0,
            r,
        ),
    ensures
        jpeg_header_dimensions(data) == Some((r.width as u16, r.height as u16)),
        r.width <= u16::MAX && r.height <= u16::MAX,
{
}

impl CoverArt {
    /// A JPEG picture with the given dimensions.
    fn jpeg_with(picture_type: PictureType, description: &str, data: Vec<u8>, dims: (u16, u16)) -> (r:
        CoverArt)
        ensures
            jpeg_cover_art(picture_type, description@, data@, dims, r),
    {
        let mut mime_type = String::new();
        push_str(&mut mime_type, "image/jpeg");
        let mut desc = String::new();
        push_str(&mut desc, description);
        assert(mime_type@ =~= "image/jpeg"@);
        assert(desc@ =~= description@);
        CoverArt {
            picture_type,
            mime_type,
            description: desc,
            width: dims.0 as u32,
            height: dims.1 as u32,
            depth: 24,
            num_colors: 0,
            data,
        }
    }

    /// A picture from JPEG data whose headers decode (see [`PictureExt::from_jpeg`]).
    pub fn from_jpeg_data(picture_type: PictureType, description: &str, data: Vec<u8>) -> (r:
        CoverArt)
        requires
            jpeg_header_dimensions(data@) is Some,
        ensures
            jpeg_cover_art(
                picture_type,
                description@,
                data@,
                jpeg_header_dimensions(data@)->Some_0,
                r,
            ),
    {
        let dims = jpeg_dimensions(data.as_slice()).unwrap();
        CoverArt::jpeg_with(picture_type, description, data, dims)
    }

    /// A picture from JPEG data, or `None` when its headers do not decode.
    pub fn try_from_jpeg_data(picture_type: PictureType, description: &str, data: Vec<u8>) -> (r:
        Option<CoverArt>)
        ensures
            match r {
                Some(c) => jpeg_header_dimensions(data@) is Some && jpeg_cover_art(
                    picture_type,
                    description@,
                    data@,
                    jpeg_header_dimensions(data@)->Some_0,
                    c,
                ),
                None => jpeg_header_dimensions(data@) is None,
            },
    {
        match jpeg_dimensions(data.as_slice()) {
            Some(_) => Some(CoverArt::from_jpeg_data(picture_type, description, data)),
            None => None,
        }
    }
}

impl PictureExt for CoverArt {
    fn from_jpeg(picture_type: PictureType, description: &str, data: Vec<u8>) -> (r: Self)
        ensures
            jpeg_cover_art(
                picture_type,
                description@,
                data@,
                jpeg_header_dimensions(data@)->Some_0,
                r,
            ),
    {
        CoverArt::from_jpeg_data(picture_type, description, data)
    }

    fn try_from_jpeg(picture_type: PictureType, description: &str, data: Vec<u8>) -> (r: Option<
        Self,
    >)
        ensures
            match r {
                Some(c) => jpeg_header_dimensions(data@) is Some && jpeg_cover_art(
                    picture_type,
                    description@,
                    data@,
                    jpeg_header_dimensions(data@)->Some_0,
                    c,
                ),
                None => jpeg_header_dimensions(data@) is None,
            },
    {
        CoverArt::try_from_jpeg_data(picture_type, description, data)
    }
}

// ----------------------------------------------------------------------------------------------
// File names
// ----------------------------------------------------------------------------------------------

/// `c` is a Unicode white-space character (`char::is_whitespace`).
pub open spec fn is_unicode_whitespace(c: char) -> bool {
    let n = c as u32;
    ||| 0x09 <= n <= 0x0d
    ||| n == 0x20
    ||| n == 0x85
    ||| n == 0xa0
    ||| n == 0x1680
    ||| 0x2000 <= n <= 0x200a
    ||| n == 0x2028
    ||| n == 0x2029
    ||| n == 0x202f
    ||| n == 0x205f
    ||| n == 0x3000
}

/// `char::is_whitespace`.
pub fn is_whitespace(c: char) -> (r: bool)
    ensures
        r == is_unicode_whitespace(c),
{
    let n = c as u32;
    (0x09 <= n && n <= 0x0d) || n == 0x20 || n == 0x85 || n == 0xa0 || n == 0x1680 || (0x2000 <= n
        && n <= 0x200a) || n == 0x2028 || n == 0x2029 || n == 0x202f || n == 0x205f || n == 0x3000
}

/// `c` may stand in a (sane) POSIX file name: no ASCII control code, no `\0` or `/`, nothing
/// that bash expands inside double quotes (`` $ ` \ ! ``), no quotes, and none of `< > | ? *`.
pub open spec fn is_posix_filename_char(c: char) -> bool {
    let n = c as u32;
    &&& !(n < 0x20 || n == 0x7f)
    &&& c != '/'
    &&& c != '$' && c != '`' && c != '\\' && c != '!'
    &&& c != '\'' && c != '"'
    &&& c != '<' && c != '>' && c != '|' && c != '?' && c != '*'
}

/// `c` may not start a sanitised name: white space or `-`.
pub open spec fn invalid_at_start(c: char) -> bool {
    is_unicode_whitespace(c) || c == '-'
}

/// The characters of `s` that may stand in a file name, in order.
pub open spec fn keep_posix_chars(s: Seq<char>) -> Seq<char>
    decreases s.len(),
{
    if s.len() == 0 {
        s
    } else if is_posix_filename_char(s.last()) {
        keep_posix_chars(s.drop_last()).push(s.last())
    } else {
        keep_posix_chars(s.drop_last())
    }
}

/// `s` without its leading white space and `-` characters.
pub open spec fn trim_invalid_start(s: Seq<char>) -> Seq<char>
    decreases s.len(),
{
    if s.len() == 0 {
        s
    } else if invalid_at_start(s[0]) {
        trim_invalid_start(s.drop_first())
    } else {
        s
    }
}

/// `s` without its trailing white space.
pub open spec fn trim_trailing_whitespace(s: Seq<char>) -> Seq<char>
    decreases s.len(),
{
    if s.len() > 0 && is_unicode_whitespace(s.last()) {
        trim_trailing_whitespace(s.drop_last())
    } else {
        s
    }
}

/// Which characters a file name may hold: those of a (sane) POSIX name, or those of a Windows
/// name.
#[derive(Debug, Clone, Copy, PartialEq, Eq, Structural)]
pub enum FilenameRules {
    /// See [`is_posix_filename_char`].
    Posix,
    /// See [`is_windows_filename_char`].
    Windows,
}

/// `c` may stand in a file name under `rules`.
pub open spec fn filename_char_for(rules: FilenameRules, c: char) -> bool {
    match rules {
        FilenameRules::Posix => is_posix_filename_char(c),
        FilenameRules::Windows => is_windows_filename_char(c),
    }
}

/// The characters of `s` that may stand in a file name under `rules`, in order.
pub open spec fn keep_chars_for(rules: FilenameRules, s: Seq<char>) -> Seq<char> {
    match rules {
        FilenameRules::Posix => keep_posix_chars(s),
        FilenameRules::Windows => keep_windows_chars(s),
    }
}

/// The sanitised form of a path segment under `rules`: the characters that may stand in a file
/// name, without leading white space and `-`, and without trailing white space.
pub open spec fn sanitised_for(rules: FilenameRules, s: Seq<char>) -> Seq<char> {
    trim_trailing_whitespace(trim_invalid_start(keep_chars_for(rules, s)))
}

/// The sanitised form of a path segment, under the POSIX rules.
pub open spec fn sanitised(s: Seq<char>) -> Seq<char> {
    sanitised_for(FilenameRules::Posix, s)
}

proof fn lemma_trim_trailing_whitespace(s: Seq<char>, start: int, end: int)
    requires
        0 <= start <= end <= s.len(),
        forall|j: int| end <= j < s.len() ==> is_unicode_whitespace(#[trigger] s[j]),
        end == start || !is_unicode_whitespace(s[end - 1]),
    ensures
        trim_trailing_whitespace(s.subrange(start, s.len() as int)) == s.subrange(start, end),
    decreases s.len() - end,
{
    let t = s.subrange(start, s.len() as int);
    if end < s.len() {
        assert(t.last() == s[s.len() - 1]);
        assert(t.drop_last() =~= s.drop_last().subrange(start, s.drop_last().len() as int));
        assert forall|j: int| end <= j < s.drop_last().len() implies is_unicode_whitespace(
            #[trigger] s.drop_last()[j],
        ) by {
            assert(s.drop_last()[j] == s[j]);
        }
        if end > start {
            assert(s.drop_last()[end - 1] == s[end - 1]);
        }
        lemma_trim_trailing_whitespace(s.drop_last(), start, end);
        assert(s.drop_last().subrange(start, end) =~= s.subrange(start, end));
    } else {
        assert(t =~= s.subrange(start, end));
        if t.len() > 0 {
            assert(t.last() == s[end - 1]);
        }
    }
}

proof fn lemma_trim_invalid_start_skip(s: Seq<char>, k: int)
    requires
        0 <= k <= s.len(),
        forall|j: int| 0 <= j < k ==> invalid_at_start(#[trigger] s[j]),
    ensures
        trim_invalid_start(s) == trim_invalid_start(s.skip(k)),
    decreases k,
{
    if k > 0 {
        assert(s.drop_first().skip(k - 1) =~= s.skip(k));
        assert forall|j: int| 0 <= j < k - 1 implies invalid_at_start(
            #[trigger] s.drop_first()[j],
        ) by {
            assert(s.drop_first()[j] == s[j + 1]);
        }
        lemma_trim_invalid_start_skip(s.drop_first(), k - 1);
    } else {
        assert(s.skip(0) =~= s);
    }
}

/// The characters of `cs` that may stand in a POSIX file name.
fn keep_posix(cs: &Vec<char>) -> (r: Vec<char>)
    ensures
        r@ == keep_posix_chars(cs@),
{
    let mut kept: Vec<char> = Vec::new();
    let mut i: usize = 0;
    while i < cs.len()
        invariant
            i <= cs.len(),
            kept@ == keep_posix_chars(cs@.take(i as int)),
        decreases cs.len() - i,
    {
        let c = cs[i];
        let n = c as u32;
        assert(cs@.take(i + 1).drop_last() =~= cs@.take(i as int));
        if !(n < 0x20 || n == 0x7f) && c != '/' && c != '$' && c != '`' && c != '\\' && c != '!'
            && c != '\'' && c != '"' && c != '<' && c != '>' && c != '|' && c != '?' && c != '*' {
            kept.push(c);
        }
        i = i + 1;
    }
    assert(cs@.take(cs@.len() as int) =~= cs@);
    kept
}

/// The characters of `cs` that may stand in a Windows file name.
fn keep_windows(cs: &Vec<char>) -> (r: Vec<char>)
    ensures
        r@ == keep_windows_chars(cs@),
{
    let mut kept: Vec<char> = Vec::new();
    let mut i: usize = 0;
    while i < cs.len()
        invariant
            i <= cs.len(),
            kept@ == keep_windows_chars(cs@.take(i as int)),
        decreases cs.len() - i,
    {
        let c = cs[i];
        assert(cs@.take(i + 1).drop_last() =~= cs@.take(i as int));
        if valid_windows_filename_char(c) {
            kept.push(c);
        }
        i = i + 1;
    }
    assert(cs@.take(cs@.len() as int) =~= cs@);
    kept
}

/// `kept` without its leading white space and `-`, and without its trailing white space.
fn trim_name(kept: Vec<char>) -> (r: String)
    ensures
        r@ == trim_trailing_whitespace(trim_invalid_start(kept@)),
{
    let mut start: usize = 0;
    while start < kept.len() && (is_whitespace(kept[start]) || kept[start] == '-')
        invariant
            start <= kept.len(),
            forall|j: int| 0 <= j < start ==> invalid_at_start(#[trigger] kept@[j]),
        decreases kept.len() - start,
    {
        start = start + 1;
    }
    proof {
        lemma_trim_invalid_start_skip(kept@, start as int);
        let rest = kept@.skip(start as int);
        if rest.len() > 0 {
            assert(rest[0] == kept@[start as int]);
        }
        assert(rest =~= kept@.subrange(start as int, kept@.len() as int));
    }
    let mut end: usize = kept.len();
    while end > start && is_whitespace(kept[end - 1])
        invariant
            start <= end <= kept.len(),
            forall|j: int| end <= j < kept@.len() ==> is_unicode_whitespace(#[trigger] kept@[j]),
        decreases end - start,
    {
        end = end - 1;
    }
    proof {
        lemma_trim_trailing_whitespace(kept@, start as int, end as int);
    }
    let mut out = String::new();
    let mut k: usize = start;
    while k < end
        invariant
            start <= k <= end <= kept.len(),
            out@ == kept@.subrange(start as int, k as int),
        decreases end - k,
    {
        push_char(&mut out, kept[k]);
        k = k + 1;
        assert(out@ =~= kept@.subrange(start as int, k as int));
    }
    out
}

/// Sanitises a path segment under `rules`: the characters that may not stand in a file name
/// are removed, and then any leading white space and leading `-`, and any trailing white
/// space.
pub fn sanitise_for(rules: FilenameRules, pathsegment: &str) -> (r: String)
    ensures
        r@ == sanitised_for(rules, pathsegment@),
{
    let cs = chars_of(pathsegment);
    let kept = match rules {
        FilenameRules::Posix => keep_posix(&cs),
        FilenameRules::Windows => keep_windows(&cs),
    };
    trim_name(kept)
}

/// Returns a sanitised version of the string suitable for use as a file name: the characters
/// that are invalid or dangerous in a POSIX file name are removed, and then any leading white
/// space and leading `-`, and any trailing white space.
pub fn sanitise(pathsegment: &str) -> (r: String)
    ensures
        r@ == sanitised(pathsegment@),
{
    sanitise_for(FilenameRules::Posix, pathsegment)
}

/// Every character kept for a Windows file name is valid in one, so sanitising twice changes
/// nothing more.
pub proof fn lemma_windows_sanitize_idempotent(s: Seq<char>)
    ensures
        forall|i: int|
            0 <= i < keep_windows_chars(s).len() ==> is_windows_filename_char(
                #[trigger] keep_windows_chars(s)[i],
            ),
        keep_windows_chars(keep_windows_chars(s)) == keep_windows_chars(s),
    decreases s.len(),
{
    if s.len() > 0 {
        lemma_windows_sanitize_idempotent(s.drop_last());
        let k = keep_windows_chars(s.drop_last());
        if is_windows_filename_char(s.last()) {
            let r = k.push(s.last());
            assert(r.drop_last() =~= k);
            assert(r.last() == s.last());
        }
    }
}

/// Every character kept for a POSIX file name is valid in one.
proof fn lemma_posix_chars_valid(s: Seq<char>)
    ensures
        forall|i: int|
            0 <= i < keep_posix_chars(s).len() ==> is_posix_filename_char(
                #[trigger] keep_posix_chars(s)[i],
            ),
    decreases s.len(),
{
    if s.len() > 0 {
        lemma_posix_chars_valid(s.drop_last());
        let k = keep_posix_chars(s.drop_last());
        if is_posix_filename_char(s.last()) {
            let r = k.push(s.last());
            assert(r.drop_last() =~= k);
            assert(r.last() == s.last());
        }
    }
}

/// Trimming the start keeps a suffix.
proof fn lemma_trim_start_suffix(s: Seq<char>)
    ensures
        exists|k: int| 0 <= k <= s.len() && #[trigger] trim_invalid_start(s) == s.skip(k),
        trim_invalid_start(s).len() > 0 ==> !invalid_at_start(trim_invalid_start(s)[0]),
    decreases s.len(),
{
    if s.len() == 0 {
        assert(s.skip(0) =~= s);
    } else if invalid_at_start(s[0]) {
        lemma_trim_start_suffix(s.drop_first());
        let k = choose|k: int|
            0 <= k <= s.drop_first().len() && #[trigger] trim_invalid_start(s.drop_first())
                == s.drop_first().skip(k);
        assert(s.drop_first().skip(k) =~= s.skip(k + 1));
    } else {
        assert(s.skip(0) =~= s);
    }
}

/// Trimming the end keeps a prefix.
proof fn lemma_trim_end_prefix(s: Seq<char>)
    ensures
        exists|k: int| 0 <= k <= s.len() && #[trigger] trim_trailing_whitespace(s) == s.take(k),
        trim_trailing_whitespace(s).len() > 0 ==> !is_unicode_whitespace(
            trim_trailing_whitespace(s).last(),
        ),
    decreases s.len(),
{
    if s.len() > 0 && is_unicode_whitespace(s.last()) {
        lemma_trim_end_prefix(s.drop_last());
        let k = choose|k: int|
            0 <= k <= s.drop_last().len() && #[trigger] trim_trailing_whitespace(s.drop_last())
                == s.drop_last().take(k);
        assert(s.drop_last().take(k) =~= s.take(k));
    } else {
        assert(s.take(s.len() as int) =~= s);
    }
}

/// A name sanitised under `rules` has only characters valid in a file name under `rules`, does
/// not start with white space or `-`, and does not end with white space.
pub proof fn lemma_sanitised_is_clean(rules: FilenameRules, s: Seq<char>)
    ensures
        forall|i: int|
            0 <= i < sanitised_for(rules, s).len() ==> filename_char_for(rules, #[trigger] sanitised_for(rules, s)[i]),
        sanitised_for(rules, s).len() > 0 ==> !invalid_at_start(sanitised_for(rules, s)[0]),
        sanitised_for(rules, s).len() > 0 ==> !is_unicode_whitespace(sanitised_for(rules, s).last()),
{
    let kept = keep_chars_for(rules, s);
    let front = trim_invalid_start(kept);
    lemma_posix_chars_valid(s);
    lemma_windows_sanitize_idempotent(s);
    lemma_trim_start_suffix(kept);
    lemma_trim_end_prefix(front);
    let k1 = choose|k: int| 0 <= k <= kept.len() && #[trigger] trim_invalid_start(kept) == kept.skip(k);
    let k2 = choose|k: int|
        0 <= k <= front.len() && #[trigger] trim_trailing_whitespace(front) == front.take(k);
    assert forall|i: int| 0 <= i < sanitised_for(rules, s).len() implies filename_char_for(
        rules,
        #[trigger] sanitised_for(rules, s)[i],
    ) by {
        assert(sanitised_for(rules, s)[i] == kept[i + k1]);
    }
    if sanitised_for(rules, s).len() > 0 {
        assert(sanitised_for(rules, s)[0] == front[0]);
    }
}

/// Keeping the valid characters of a name that has only valid ones keeps it whole.
proof fn lemma_keep_valid_chars(rules: FilenameRules, s: Seq<char>)
    requires
        forall|i: int| 0 <= i < s.len() ==> filename_char_for(rules, #[trigger] s[i]),
    ensures
        keep_chars_for(rules, s) == s,
    decreases s.len(),
{
    if s.len() > 0 {
        let d = s.drop_last();
        assert forall|i: int| 0 <= i < d.len() implies filename_char_for(rules, #[trigger] d[i]) by {
            assert(d[i] == s[i]);
        }
        lemma_keep_valid_chars(rules, d);
        assert(filename_char_for(rules, s[s.len() - 1]));
        assert(d.push(s.last()) =~= s);
    } else {
        assert(keep_chars_for(rules, s) =~= s);
    }
}

/// Sanitising a sanitised name changes nothing.
pub proof fn lemma_sanitise_idempotent(rules: FilenameRules, s: Seq<char>)
    ensures
        sanitised_for(rules, sanitised_for(rules, s)) == sanitised_for(rules, s),
{
    let t = sanitised_for(rules, s);
    lemma_sanitised_is_clean(rules, s);
    lemma_keep_valid_chars(rules, t);
    assert(trim_invalid_start(t) == t);
    assert(trim_trailing_whitespace(t) == t);
}

/// Keeping the valid characters of two names one after the other keeps those of each.
proof fn lemma_keep_chars_add(rules: FilenameRules, a: Seq<char>, b: Seq<char>)
    ensures
        keep_chars_for(rules, a + b) == keep_chars_for(rules, a) + keep_chars_for(rules, b),
    decreases b.len(),
{
    if b.len() == 0 {
        assert(a + b =~= a);
        assert(keep_chars_for(rules, a) + keep_chars_for(rules, b) =~= keep_chars_for(rules, a));
    } else {
        assert((a + b).drop_last() =~= a + b.drop_last());
        assert((a + b).last() == b.last());
        lemma_keep_chars_add(rules, a, b.drop_last());
        let ka = keep_chars_for(rules, a);
        let kb = keep_chars_for(rules, b.drop_last());
        if filename_char_for(rules, b.last()) {
            assert((ka + kb).push(b.last()) =~= ka + kb.push(b.last()));
        }
    }
}

/// Trimming trailing white space keeps a prefix that reaches past every character that is not
/// white space.
proof fn lemma_trim_end_keeps(s: Seq<char>, j: int)
    requires
        0 <= j < s.len(),
        !is_unicode_whitespace(s[j]),
    ensures
        j < trim_trailing_whitespace(s).len() <= s.len(),
        trim_trailing_whitespace(s) == s.take(trim_trailing_whitespace(s).len() as int),
    decreases s.len(),
{
    if s.len() > 0 && is_unicode_whitespace(s.last()) {
        assert(j < s.len() - 1);
        assert(s.drop_last()[j] == s[j]);
        lemma_trim_end_keeps(s.drop_last(), j);
        let t = trim_trailing_whitespace(s.drop_last());
        assert(s.drop_last().take(t.len() as int) =~= s.take(t.len() as int));
    } else {
        assert(s.take(s.len() as int) =~= s);
    }
}

/// The file name of a track starts with its track number (0 without one) as two decimal
/// digits, for numbers below 100; a space follows where anything follows.
pub proof fn lemma_filename_starts_with_track_number(rules: FilenameRules, v: VorbisComment)
    requires
        match comment_track(v) {
            Some(n) => n < 100,
            None => true,
        },
    ensures
        ({
            let name = sanitised_for(rules, track_file_stem(v, comment_track(v)));
            let n: nat = match comment_track(v) {
                Some(n) => n as nat,
                None => 0,
            };
            &&& name.len() >= 2
            &&& is_dec_digit(name[0]) && is_dec_digit(name[1])
            &&& dec_value(name.take(2)) == n
            &&& name.len() > 2 ==> name[2] == ' '
        }),
{
    reveal_strlit(" ");
    let n: nat = match comment_track(v) {
        Some(n) => n as nat,
        None => 0,
    };
    lemma_dec_digits_two(n);
    lemma_fmt_dec_value(n, 2);
    let d = fmt_dec(n, 2);
    let a = d + seq![' '];
    let title = full_title_of(v);
    let stem = track_file_stem(v, comment_track(v));
    assert(stem =~= a + title);
    assert(is_dec_digit(d[0]) && is_dec_digit(d[1]));
    assert forall|i: int| 0 <= i < a.len() implies filename_char_for(rules, #[trigger] a[i]) by {
        if i < 2 {
            assert(a[i] == d[i]);
        }
    }
    lemma_keep_valid_chars(rules, a);
    lemma_keep_chars_add(rules, a, title);
    let kept = keep_chars_for(rules, stem);
    assert(kept == a + keep_chars_for(rules, title));
    assert(kept[0] == d[0]);
    assert(kept[1] == d[1]);
    assert(kept[2] == ' ');
    assert(!invalid_at_start(kept[0]));
    assert(trim_invalid_start(kept) == kept);
    assert(!is_unicode_whitespace(kept[1]));
    lemma_trim_end_keeps(kept, 1);
    let name = trim_trailing_whitespace(kept);
    assert(name == sanitised_for(rules, stem));
    assert(name == kept.take(name.len() as int));
    assert(name[0] == kept[0]);
    assert(name[1] == kept[1]);
    assert(name.take(2) =~= d);
    if name.len() > 2 {
        assert(name[2] == kept[2]);
    }
}

/// Paths and titles derived from the tags of a track.
pub trait VorbisTagExt {
    /// The file name for the track: `0n Full - title`, sanitised.
    fn filename(&self) -> String;

    /// The directory for the album: `Album artists` then `Album title`, each sanitised.
    fn directory(&self) -> Vec<String>;

    /// The titles joined by ` - `.
    fn full_title(&self) -> String;
}

/// The titles of `v` joined by ` - `, or nothing.
pub open spec fn full_title_of(v: VorbisComment) -> Seq<char> {
    match comment_values(v, "TITLE"@) {
        Some(titles) => join_with(titles, " - "@),
        None => Seq::empty(),
    }
}

/// The track number of `v` (0 when absent) as two digits, a space, and the full title.
pub open spec fn track_file_stem(v: VorbisComment, track: Option<u32>) -> Seq<char> {
    fmt_dec(
        match track {
            Some(n) => n as nat,
            None => 0,
        },
        2,
    ) + " "@ + full_title_of(v)
}

/// The titles joined by ` - ` (see [`VorbisTagExt::full_title`]).
pub fn vorbis_full_title(v: &VorbisComment) -> (r: String)
    ensures
        r@ == full_title_of(*v),
{
    match vorbis_title(v) {
        Some(titles) => join_strings(&titles, " - "),
        None => String::new(),
    }
}

/// The sanitised file name (see [`VorbisTagExt::filename`]).
pub fn vorbis_filename(v: &VorbisComment) -> (r: String)
    ensures
        r@ == sanitised(track_file_stem(*v, comment_track(*v))),
{
    vorbis_filename_for(v, FilenameRules::Posix)
}

/// The file name for the track, sanitised under `rules`.
pub fn vorbis_filename_for(v: &VorbisComment, rules: FilenameRules) -> (r: String)
    ensures
        r@ == sanitised_for(rules, track_file_stem(*v, comment_track(*v))),
{
    let track = vorbis_track(v);
    let number: u32 = match track {
        Some(n) => n,
        None => 0,
    };
    let mut stem = String::new();
    push_dec(&mut stem, number as u64, 2);
    push_str(&mut stem, " ");
    let title = vorbis_full_title(v);
    push_str(&mut stem, title.as_str());
    sanitise_for(rules, stem.as_str())
}

/// The sanitised album directory segments (see [`VorbisTagExt::directory`]).
pub fn vorbis_directory(v: &VorbisComment) -> (r: Vec<String>)
    ensures
        r@.len() == 2,
        r@[0]@ == sanitised(album_artist_text(*v)),
        r@[1]@ == sanitised(album_title_text(*v)),
{
    vorbis_directory_for(v, FilenameRules::Posix)
}

/// The album directory segments, each sanitised under `rules`.
pub fn vorbis_directory_for(v: &VorbisComment, rules: FilenameRules) -> (r: Vec<String>)
    ensures
        r@.len() == 2,
        r@[0]@ == sanitised_for(rules, album_artist_text(*v)),
        r@[1]@ == sanitised_for(rules, album_title_text(*v)),
{
    let artist = match vorbis_album_artist(v) {
        Some(artists) => join_strings(&artists, " "),
        None => {
            let mut s = String::new();
            push_str(&mut s, "Unknown artist");
            s
        },
    };
    let title = match vorbis_album(v) {
        Some(titles) => join_strings(&titles, " "),
        None => {
            let mut s = String::new();
            push_str(&mut s, "Unknown album");
            s
        },
    };
    let mut out: Vec<String> = Vec::new();
    proof {
        reveal_strlit("Unknown artist");
        reveal_strlit("Unknown album");
    }
    out.push(sanitise_for(rules, artist.as_str()));
    out.push(sanitise_for(rules, title.as_str()));
    out
}

/// The album artists joined by spaces, or `Unknown artist`.
pub open spec fn album_artist_text(v: VorbisComment) -> Seq<char> {
    match comment_values(v, "ALBUMARTIST"@) {
        Some(a) => join_with(a, " "@),
        None => "Unknown artist"@,
    }
}

/// The album titles joined by spaces, or `Unknown album`.
pub open spec fn album_title_text(v: VorbisComment) -> Seq<char> {
    match comment_values(v, "ALBUM"@) {
        Some(a) => join_with(a, " "@),
        None => "Unknown album"@,
    }
}

/// The track number of `v`, as `VorbisComment::track` reads it.
pub open spec fn comment_track(v: VorbisComment) -> Option<u32> {
    match comment_values(v, "TRACKNUMBER"@) {
        Some(values) => if values.len() > 0 {
            match parse_unsigned(values[0], u32::MAX as nat) {
                Some(n) => Some(n as u32),
                None => None,
            }
        } else {
            None
        },
        None => None,
    }
}

impl VorbisTagExt for VorbisComment {
    fn filename(&self) -> (r: String)
        ensures
            r@ == sanitised(track_file_stem(*self, comment_track(*self))),
    {
        vorbis_filename(self)
    }

    fn directory(&self) -> (r: Vec<String>)
        ensures
            r@.len() == 2,
            r@[0]@ == sanitised(album_artist_text(*self)),
            r@[1]@ == sanitised(album_title_text(*self)),
    {
        vorbis_directory(self)
    }

    fn full_title(&self) -> (r: String)
        ensures
            r@ == full_title_of(*self),
    {
        vorbis_full_title(self)
    }
}

// ----------------------------------------------------------------------------------------------
// Windows file names
// ----------------------------------------------------------------------------------------------

/// `c` may stand in a Windows file name: a printable ASCII character (space to `~`) other than
/// `< > : " / \ | ? *`.
pub open spec fn is_windows_filename_char(c: char) -> bool {
    &&& ' ' <= c <= '~'
    &&& c != '<' && c != '>' && c != ':' && c != '"' && c != '/'
    &&& c != '\\' && c != '|' && c != '?' && c != '*'
}

/// The characters of `s` that may stand in a Windows file name, in order.
pub open spec fn keep_windows_chars(s: Seq<char>) -> Seq<char>
    decreases s.len(),
{
    if s.len() == 0 {
        s
    } else if is_windows_filename_char(s.last()) {
        keep_windows_chars(s.drop_last()).push(s.last())
    } else {
        keep_windows_chars(s.drop_last())
    }
}

/// Checking a character for use in a Windows file name.
pub trait FilenameChar {
    /// Returns `true` if the character is valid for a file name on Windows.
    fn is_valid_filename_char(&self) -> bool;
}

/// Whether `c` may stand in a Windows file name.
pub fn valid_windows_filename_char(c: char) -> (r: bool)
    ensures
        r == is_windows_filename_char(c),
{
    ' ' <= c && c <= '~' && c != '<' && c != '>' && c != ':' && c != '"' && c != '/' && c != '\\'
        && c != '|' && c != '?' && c != '*'
}

impl FilenameChar for char {
    fn is_valid_filename_char(&self) -> (r: bool)
        ensures
            r == is_windows_filename_char(*self),
    {
        valid_windows_filename_char(*self)
    }
}

/// Sanitising a string for use as a Windows file name.
pub trait FilenameSanitize {
    /// The string without the characters that may not stand in a Windows file name.
    fn sanitize_filename(&self) -> String;
}

/// `s` without the characters that may not stand in a Windows file name.
pub fn sanitize_windows_filename(s: &str) -> (r: String)
    ensures
        r@ == keep_windows_chars(s@),
{
    let cs = chars_of(s);
    let kept = keep_windows(&cs);
    string_from_chars(&kept)
}

impl FilenameSanitize for str {
    fn sanitize_filename(&self) -> (r: String)
        ensures
            r@ == keep_windows_chars(self@),
    {
        sanitize_windows_filename(self)
    }
}

} // verus!
