//! Attached picture metadata (cover art, artist photos, etc.).
//!
//! The picture type values follow the ID3v2 `APIC` spec (which FLAC and
//! Ogg reuse verbatim), so a `PictureType` round-trips cleanly between
//! containers.

use vstd::prelude::*;
use vstd::string::*;

verus! {

/// A single attached picture as it appears in a file's metadata.
///
/// `data` is the raw encoded image bytes exactly as stored in the file.
#[derive(Clone, Debug)]
pub struct AttachedPicture {
    /// MIME type of the image payload (`"image/jpeg"`, `"image/png"`,
    /// ...). The special value `"-->"` means `data` is a URL string
    /// pointing to an external image rather than inline bytes (ID3v2).
    pub mime_type: String,
    /// Semantic role of the picture (cover art, artist photo, ...).
    pub picture_type: PictureType,
    /// Human-readable description supplied by the tagger. Often empty.
    pub description: String,
    /// Raw image bytes (or URL bytes when `mime_type == "-->"`).
    pub data: Vec<u8>,
}

/// ID3v2 `APIC` picture-type taxonomy (also reused by FLAC and Vorbis).
///
/// Codes `0x00..=0x14` are assigned; every other byte collapses to
/// `Unknown`, whose code is `0xFF`.
#[derive(Clone, Copy, Debug, PartialEq, Eq, Structural)]
#[non_exhaustive]
pub enum PictureType {
    Other,
    FileIcon32x32,
    FileIcon,
    FrontCover,
    BackCover,
    LeafletPage,
    Media,
    LeadArtist,
    Artist,
    Conductor,
    BandOrchestra,
    Composer,
    Lyricist,
    RecordingLocation,
    DuringRecording,
    DuringPerformance,
    MovieScreenCapture,
    ABrightColouredFish,
    Illustration,
    BandLogo,
    PublisherLogo,
    /// Catch-all for unrecognised or out-of-range codes.
    Unknown,
}

/// The ID3v2 code of a picture type (`0xFF` for `Unknown`).
pub open spec fn picture_code(t: PictureType) -> u8 {
    match t {
        PictureType::Other => 0x00,
        PictureType::FileIcon32x32 => 0x01,
        PictureType::FileIcon => 0x02,
        PictureType::FrontCover => 0x03,
        PictureType::BackCover => 0x04,
        PictureType::LeafletPage => 0x05,
        PictureType::Media => 0x06,
        PictureType::LeadArtist => 0x07,
        PictureType::Artist => 0x08,
        PictureType::Conductor => 0x09,
        PictureType::BandOrchestra => 0x0A,
        PictureType::Composer => 0x0B,
        PictureType::Lyricist => 0x0C,
        PictureType::RecordingLocation => 0x0D,
        PictureType::DuringRecording => 0x0E,
        PictureType::DuringPerformance => 0x0F,
        PictureType::MovieScreenCapture => 0x10,
        PictureType::ABrightColouredFish => 0x11,
        PictureType::Illustration => 0x12,
        PictureType::BandLogo => 0x13,
        PictureType::PublisherLogo => 0x14,
        PictureType::Unknown => 0xFF,
    }
}

impl PictureType {
    /// Convert a raw ID3v2/FLAC picture-type byte into a `PictureType`.
    /// Unknown or reserved codes (> 0x14) collapse to `Unknown`.
    pub fn from_u8(b: u8) -> (t: Self)
        ensures
            t == picture_type_of(b),
    {
        match b {
            0x00 => PictureType::Other,
            0x01 => PictureType::FileIcon32x32,
            0x02 => PictureType::FileIcon,
            0x03 => PictureType::FrontCover,
            0x04 => PictureType::BackCover,
            0x05 => PictureType::LeafletPage,
            0x06 => PictureType::Media,
            0x07 => PictureType::LeadArtist,
            0x08 => PictureType::Artist,
            0x09 => PictureType::Conductor,
            0x0A => PictureType::BandOrchestra,
            0x0B => PictureType::Composer,
            0x0C => PictureType::Lyricist,
            0x0D => PictureType::RecordingLocation,
            0x0E => PictureType::DuringRecording,
            0x0F => PictureType::DuringPerformance,
            0x10 => PictureType::MovieScreenCapture,
            0x11 => PictureType::ABrightColouredFish,
            0x12 => PictureType::Illustration,
            0x13 => PictureType::BandLogo,
            0x14 => PictureType::PublisherLogo,
            _ => PictureType::Unknown,
        }
    }

    /// The ID3v2 code of this picture type (`0xFF` for `Unknown`).
    pub fn to_u8(&self) -> (b: u8)
        ensures
            b == picture_code(*self),
    {
        match self {
            PictureType::Other => 0x00,
            PictureType::FileIcon32x32 => 0x01,
            PictureType::FileIcon => 0x02,
            PictureType::FrontCover => 0x03,
            PictureType::BackCover => 0x04,
            PictureType::LeafletPage => 0x05,
            PictureType::Media => 0x06,
            PictureType::LeadArtist => 0x07,
            PictureType::Artist => 0x08,
            PictureType::Conductor => 0x09,
            PictureType::BandOrchestra => 0x0A,
            PictureType::Composer => 0x0B,
            PictureType::Lyricist => 0x0C,
            PictureType::RecordingLocation => 0x0D,
            PictureType::DuringRecording => 0x0E,
            PictureType::DuringPerformance => 0x0F,
            PictureType::MovieScreenCapture => 0x10,
            PictureType::ABrightColouredFish => 0x11,
            PictureType::Illustration => 0x12,
            PictureType::BandLogo => 0x13,
            PictureType::PublisherLogo => 0x14,
            PictureType::Unknown => 0xFF,
        }
    }

    /// `false` only for `Unknown`, so strict writers can refuse to emit
    /// the `0xFF` sentinel.
    pub fn is_known(&self) -> (b: bool)
        ensures
            b == (*self != PictureType::Unknown),
    {
        match self {
            PictureType::Unknown => false,
            _ => true,
        }
    }
}

/// The picture type `from_u8` produces for a byte.
pub open spec fn picture_type_of(b: u8) -> PictureType {
    if b == 0x00 {
        PictureType::Other
    } else if b == 0x01 {
        PictureType::FileIcon32x32
    } else if b == 0x02 {
        PictureType::FileIcon
    } else if b == 0x03 {
        PictureType::FrontCover
    } else if b == 0x04 {
        PictureType::BackCover
    } else if b == 0x05 {
        PictureType::LeafletPage
    } else if b == 0x06 {
        PictureType::Media
    } else if b == 0x07 {
        PictureType::LeadArtist
    } else if b == 0x08 {
        PictureType::Artist
    } else if b == 0x09 {
        PictureType::Conductor
    } else if b == 0x0A {
        PictureType::BandOrchestra
    } else if b == 0x0B {
        PictureType::Composer
    } else if b == 0x0C {
        PictureType::Lyricist
    } else if b == 0x0D {
        PictureType::RecordingLocation
    } else if b == 0x0E {
        PictureType::DuringRecording
    } else if b == 0x0F {
        PictureType::DuringPerformance
    } else if b == 0x10 {
        PictureType::MovieScreenCapture
    } else if b == 0x11 {
        PictureType::ABrightColouredFish
    } else if b == 0x12 {
        PictureType::Illustration
    } else if b == 0x13 {
        PictureType::BandLogo
    } else if b == 0x14 {
        PictureType::PublisherLogo
    } else {
        PictureType::Unknown
    }
}

/// Every assigned code (`0x00..=0x14`) survives `from_u8` then
/// Every assigned picture type carries the ID3v2 code equal to its
/// place in the taxonomy (`Other` is `0x00`, `FileIcon32x32` `0x01`,
/// ..., `PublisherLogo` `0x14`); only `Unknown` is outside that range.
pub proof fn law_picture_code_is_taxonomy_place(t: PictureType)
    ensures
        t != PictureType::Unknown ==> picture_code(t) == t as u8,
        t == PictureType::Unknown <==> picture_code(t) > 0x14,
{
}

/// `to_u8` byte for byte; unassigned codes become `Unknown`.
pub proof fn law_picture_code_round_trip(b: u8)
    ensures
        b <= 0x14 ==> picture_code(picture_type_of(b)) == b,
        b > 0x14 ==> picture_type_of(b) == PictureType::Unknown,
{
}

/// Every picture type survives `to_u8` then `from_u8`.
pub proof fn law_picture_type_round_trip(t: PictureType)
    ensures
        picture_type_of(picture_code(t)) == t,
{
}

impl AttachedPicture {
    /// A picture with the given MIME type and role, an empty
    /// description and no bytes yet.
    pub fn new(mime_type: &str, picture_type: PictureType) -> (p: Self)
        ensures
            p.mime_type@ == mime_type@,
            p.picture_type == picture_type,
            p.description@ == Seq::<char>::empty(),
            p.data@ == Seq::<u8>::empty(),
    {
        AttachedPicture {
            mime_type: mime_type.to_owned(),
            picture_type,
            description: String::new(),
            data: Vec::new(),
        }
    }

    /// Builder: replace the description.
    pub fn with_description(self, description: &str) -> (p: Self)
        ensures
            p.description@ == description@,
            p.mime_type == self.mime_type,
            p.picture_type == self.picture_type,
            p.data == self.data,
    {
        AttachedPicture { description: description.to_owned(), ..self }
    }

    /// Builder: replace the image bytes.
    pub fn with_data(self, data: Vec<u8>) -> (p: Self)
        ensures
            p.data == data,
            p.mime_type == self.mime_type,
            p.picture_type == self.picture_type,
            p.description == self.description,
    {
        AttachedPicture { data, ..self }
    }

    /// Builder: replace the picture type.
    pub fn with_picture_type(self, picture_type: PictureType) -> (p: Self)
        ensures
            p.picture_type == picture_type,
            p.mime_type == self.mime_type,
            p.description == self.description,
            p.data == self.data,
    {
        AttachedPicture { picture_type, ..self }
    }

    /// `true` when `data` holds a URL to an external image (ID3v2's
    /// `"-->"` MIME sentinel) rather than inline image bytes.
    pub fn is_external_link(&self) -> (b: bool)
        ensures
            b == (self.mime_type@ == "-->"@),
    {
        self.mime_type == String::from_str("-->")
    }
}

} // verus!
