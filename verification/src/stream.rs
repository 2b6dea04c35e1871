//! Stream metadata shared between containers and codecs.

use crate::format::{layout_count, layout_for_count, ChannelLayout, MediaType, PixelFormat, SampleFormat};
use crate::rational::Rational;
use crate::text::{append_hex, hex_chars, push_char};
use crate::time::TimeBase;
use vstd::prelude::*;
use vstd::string::*;

verus! {

/// A stable identifier for a codec. Codec crates register a `CodecId`
/// so the codec registry can look them up by name.
#[derive(Clone, Debug, Hash)]
pub struct CodecId(pub String);

impl PartialEq for CodecId {
    fn eq(&self, other: &Self) -> (r: bool) {
        self.0 == other.0
    }
}

impl Eq for CodecId {

}

impl vstd::std_specs::cmp::PartialEqSpecImpl for CodecId {
    open spec fn obeys_eq_spec() -> bool {
        true
    }

    open spec fn eq_spec(&self, other: &CodecId) -> bool {
        self.0@ == other.0@
    }
}

impl CodecId {
    pub fn new(s: &str) -> (id: Self)
        ensures
            id.0@ == s@,
    {
        CodecId(s.to_owned())
    }

    pub fn as_str(&self) -> (s: &str)
        ensures
            s@ == self.0@,
    {
        self.0.as_str()
    }

    /// The identifier as an owned string.
    pub fn to_string(&self) -> (s: String)
        ensures
            s@ == self.0@,
    {
        self.0.clone()
    }
}

/// A codec identifier scoped to a container format — the thing a
/// demuxer reads out of the file to name a codec.
#[derive(Clone, Debug, Hash)]
pub enum CodecTag {
    /// Four-character code (AVI `biCompression`, MP4 sample-entry type,
    /// …). Always stored with alphabetic bytes upper-cased so lookups
    /// are case-insensitive; other bytes are preserved as-is.
    Fourcc([u8; 4]),
    /// AVI / WAV `WAVEFORMATEX::wFormatTag` (e.g. 0x0055 = MP3).
    WaveFormat(u16),
    /// MP4 ObjectTypeIndication (e.g. 0x40 = MPEG-4 AAC).
    Mp4ObjectType(u8),
    /// Matroska `CodecID` element (e.g. `"V_MPEG4/ISO/AVC"`).
    Matroska(String),
}

/// Tag equality: same variant and same payload (strings by content).
pub open spec fn tags_equal(a: CodecTag, b: CodecTag) -> bool {
    match (a, b) {
        (CodecTag::Fourcc(x), CodecTag::Fourcc(y)) => x@ == y@,
        (CodecTag::WaveFormat(x), CodecTag::WaveFormat(y)) => x == y,
        (CodecTag::Mp4ObjectType(x), CodecTag::Mp4ObjectType(y)) => x == y,
        (CodecTag::Matroska(x), CodecTag::Matroska(y)) => x@ == y@,
        _ => false,
    }
}

/// Two FourCC tags are the same tag exactly when all four stored bytes
/// agree.
pub proof fn law_fourcc_equality_is_bytewise(x: [u8; 4], y: [u8; 4])
    ensures
        tags_equal(CodecTag::Fourcc(x), CodecTag::Fourcc(y)) <==> (x[0] == y[0] && x[1] == y[1]
            && x[2] == y[2] && x[3] == y[3]),
{
    if x[0] == y[0] && x[1] == y[1] && x[2] == y[2] && x[3] == y[3] {
        assert(x@ =~= y@);
    }
}

/// Two wFormatTag, MP4 object-type or Matroska tags are the same tag
/// exactly when their payloads are equal (Matroska ids by content).
pub proof fn law_payload_tag_equality(w1: u16, w2: u16, o1: u8, o2: u8, m1: String, m2: String)
    ensures
        tags_equal(CodecTag::WaveFormat(w1), CodecTag::WaveFormat(w2)) <==> w1 == w2,
        tags_equal(CodecTag::Mp4ObjectType(o1), CodecTag::Mp4ObjectType(o2)) <==> o1 == o2,
        tags_equal(CodecTag::Matroska(m1), CodecTag::Matroska(m2)) <==> m1@ == m2@,
{
}

/// Tags of different kinds are never the same tag.
pub proof fn law_tag_kinds_never_equal(a: CodecTag, b: CodecTag)
    ensures
        (a is Fourcc) != (b is Fourcc) ==> !tags_equal(a, b),
        (a is WaveFormat) != (b is WaveFormat) ==> !tags_equal(a, b),
        (a is Mp4ObjectType) != (b is Mp4ObjectType) ==> !tags_equal(a, b),
        (a is Matroska) != (b is Matroska) ==> !tags_equal(a, b),
{
}

impl PartialEq for CodecTag {
    fn eq(&self, other: &Self) -> (r: bool) {
        match (self, other) {
            (CodecTag::Fourcc(x), CodecTag::Fourcc(y)) => {
                let r = x[0] == y[0] && x[1] == y[1] && x[2] == y[2] && x[3] == y[3];
                assert(r ==> x@ =~= y@);
                r
            },
            (CodecTag::WaveFormat(x), CodecTag::WaveFormat(y)) => *x == *y,
            (CodecTag::Mp4ObjectType(x), CodecTag::Mp4ObjectType(y)) => *x == *y,
            (CodecTag::Matroska(x), CodecTag::Matroska(y)) => *x == *y,
            _ => false,
        }
    }
}

impl Eq for CodecTag {

}

impl vstd::std_specs::cmp::PartialEqSpecImpl for CodecTag {
    open spec fn obeys_eq_spec() -> bool {
        true
    }

    open spec fn eq_spec(&self, other: &CodecTag) -> bool {
        tags_equal(*self, *other)
    }
}

/// ASCII lower-case letters map to upper case; other bytes are kept.
pub open spec fn ascii_upper_byte(b: u8) -> u8 {
    if 0x61 <= b && b <= 0x7a {
        (b - 0x20) as u8
    } else {
        b
    }
}

/// A byte prints as itself: ASCII graphic characters and space.
pub open spec fn is_printable_byte(b: u8) -> bool {
    0x20 <= b && b <= 0x7e
}

/// The text `to_string` gives a tag: `fourcc(XVID)` (or
/// `fourcc(0xHHHHHHHH)` when a byte is not printable),
/// `wFormatTag(0xHHHH)`, `mp4_oti(0xHH)`, `matroska(<id>)`.
pub open spec fn tag_text(t: CodecTag) -> Seq<char> {
    match t {
        CodecTag::Fourcc(f) => if is_printable_byte(f[0]) && is_printable_byte(f[1])
            && is_printable_byte(f[2]) && is_printable_byte(f[3]) {
            "fourcc("@ + seq![f[0] as char, f[1] as char, f[2] as char, f[3] as char] + ")"@
        } else {
            "fourcc(0x"@ + hex_chars(f[0] as nat, 2) + hex_chars(f[1] as nat, 2) + hex_chars(
                f[2] as nat,
                2,
            ) + hex_chars(f[3] as nat, 2) + ")"@
        },
        CodecTag::WaveFormat(w) => "wFormatTag(0x"@ + hex_chars(w as nat, 4) + ")"@,
        CodecTag::Mp4ObjectType(o) => "mp4_oti(0x"@ + hex_chars(o as nat, 2) + ")"@,
        CodecTag::Matroska(s) => "matroska("@ + s@ + ")"@,
    }
}

fn upper_byte(b: u8) -> (r: u8)
    ensures
        r == ascii_upper_byte(b),
{
    if 0x61 <= b && b <= 0x7a {
        b - 0x20
    } else {
        b
    }
}

fn printable(b: u8) -> (r: bool)
    ensures
        r == is_printable_byte(b),
{
    0x20 <= b && b <= 0x7e
}

impl CodecTag {
    /// Build a FourCC tag, upper-casing alphabetic bytes.
    pub fn fourcc(raw: &[u8; 4]) -> (t: Self)
        ensures
            t matches CodecTag::Fourcc(f) && f@ == seq![
                ascii_upper_byte(raw[0]),
                ascii_upper_byte(raw[1]),
                ascii_upper_byte(raw[2]),
                ascii_upper_byte(raw[3]),
            ],
    {
        let out = [upper_byte(raw[0]), upper_byte(raw[1]), upper_byte(raw[2]), upper_byte(raw[3])];
        assert(out@ =~= seq![
            ascii_upper_byte(raw[0]),
            ascii_upper_byte(raw[1]),
            ascii_upper_byte(raw[2]),
            ascii_upper_byte(raw[3]),
        ]);
        CodecTag::Fourcc(out)
    }

    pub fn wave_format(tag: u16) -> (t: Self)
        ensures
            t == CodecTag::WaveFormat(tag),
    {
        CodecTag::WaveFormat(tag)
    }

    pub fn mp4_object_type(oti: u8) -> (t: Self)
        ensures
            t == CodecTag::Mp4ObjectType(oti),
    {
        CodecTag::Mp4ObjectType(oti)
    }

    pub fn matroska(id: &str) -> (t: Self)
        ensures
            t matches CodecTag::Matroska(s) && s@ == id@,
    {
        CodecTag::Matroska(id.to_owned())
    }

    /// Human-readable form of the tag: `fourcc(XVID)`,
    /// `fourcc(0x00000001)`, `wFormatTag(0x0055)`, `mp4_oti(0x40)`,
    /// `matroska(V_MPEG4/ISO/AVC)`.
    pub fn to_string(&self) -> (s: String)
        ensures
            s@ == tag_text(*self),
    {
        match self {
            CodecTag::Fourcc(f) => {
                if printable(f[0]) && printable(f[1]) && printable(f[2]) && printable(f[3]) {
                    let mut s = String::from_str("fourcc(");
                    push_char(&mut s, f[0] as char);
                    push_char(&mut s, f[1] as char);
                    push_char(&mut s, f[2] as char);
                    push_char(&mut s, f[3] as char);
                    s.append(")");
                    assert(s@ =~= tag_text(*self));
                    s
                } else {
                    let mut s = String::from_str("fourcc(0x");
                    append_hex(&mut s, f[0] as u64, 2);
                    append_hex(&mut s, f[1] as u64, 2);
                    append_hex(&mut s, f[2] as u64, 2);
                    append_hex(&mut s, f[3] as u64, 2);
                    s.append(")");
                    assert(s@ =~= tag_text(*self));
                    s
                }
            },
            CodecTag::WaveFormat(w) => {
                let mut s = String::from_str("wFormatTag(0x");
                append_hex(&mut s, *w as u64, 4);
                s.append(")");
                s
            },
            CodecTag::Mp4ObjectType(o) => {
                let mut s = String::from_str("mp4_oti(0x");
                append_hex(&mut s, *o as u64, 2);
                s.append(")");
                s
            },
            CodecTag::Matroska(id) => {
                let mut s = String::from_str("matroska(");
                s.append(id.as_str());
                s.append(")");
                s
            },
        }
    }
}

/// Upper-casing is idempotent, so a FourCC built from either case of
/// the same letters is the same tag.
pub proof fn law_fourcc_case_insensitive(b: u8)
    ensures
        ascii_upper_byte(ascii_upper_byte(b)) == ascii_upper_byte(b),
        0x61 <= b <= 0x7a ==> ascii_upper_byte(b) == ascii_upper_byte((b - 0x20) as u8),
{
}

/// Context passed to a codec's probe function during tag resolution.
///
/// Built by the demuxer from whatever it has already parsed (stream
/// format block, a peek at the first packet, numeric hints).
#[non_exhaustive]
#[derive(Clone, Debug)]
pub struct ProbeContext<'a> {
    /// The tag being resolved — always set.
    pub tag: &'a CodecTag,
    /// Raw container-level stream-format blob if available.
    pub header: Option<&'a [u8]>,
    /// First packet bytes if the demuxer has already read one.
    pub packet: Option<&'a [u8]>,
    /// Audio: bits per sample.
    pub bits_per_sample: Option<u16>,
    pub channels: Option<u16>,
    pub sample_rate: Option<u32>,
    pub width: Option<u32>,
    pub height: Option<u32>,
}

impl<'a> ProbeContext<'a> {
    /// Start building a context for `tag` with every hint field empty.
    pub fn new(tag: &'a CodecTag) -> (c: Self)
        ensures
            c.tag == tag,
            c.header is None,
            c.packet is None,
            c.bits_per_sample is None,
            c.channels is None,
            c.sample_rate is None,
            c.width is None,
            c.height is None,
    {
        ProbeContext {
            tag,
            header: None,
            packet: None,
            bits_per_sample: None,
            channels: None,
            sample_rate: None,
            width: None,
            height: None,
        }
    }

    pub fn header(self, h: &'a [u8]) -> (c: Self)
        ensures
            c == (ProbeContext { header: Some(h), ..self }),
    {
        ProbeContext { header: Some(h), ..self }
    }

    pub fn packet(self, p: &'a [u8]) -> (c: Self)
        ensures
            c == (ProbeContext { packet: Some(p), ..self }),
    {
        ProbeContext { packet: Some(p), ..self }
    }

    pub fn bits(self, n: u16) -> (c: Self)
        ensures
            c == (ProbeContext { bits_per_sample: Some(n), ..self }),
    {
        ProbeContext { bits_per_sample: Some(n), ..self }
    }

    pub fn channels(self, n: u16) -> (c: Self)
        ensures
            c == (ProbeContext { channels: Some(n), ..self }),
    {
        ProbeContext { channels: Some(n), ..self }
    }

    pub fn sample_rate(self, n: u32) -> (c: Self)
        ensures
            c == (ProbeContext { sample_rate: Some(n), ..self }),
    {
        ProbeContext { sample_rate: Some(n), ..self }
    }

    pub fn width(self, n: u32) -> (c: Self)
        ensures
            c == (ProbeContext { width: Some(n), ..self }),
    {
        ProbeContext { width: Some(n), ..self }
    }

    pub fn height(self, n: u32) -> (c: Self)
        ensures
            c == (ProbeContext { height: Some(n), ..self }),
    {
        ProbeContext { height: Some(n), ..self }
    }
}

/// Resolve a [`CodecTag`] to a [`CodecId`]. Codec registries implement
/// this; containers consume it without depending on a registry.
pub trait CodecResolver: Sync {
    /// Resolve the tag in `ctx.tag` to a codec id.
    fn resolve_tag(&self, ctx: &ProbeContext) -> Option<CodecId>;
}

/// Null resolver that resolves nothing — a default when a caller
/// doesn't have a real registry handy.
#[derive(Default, Clone, Copy)]
pub struct NullCodecResolver;

impl CodecResolver for NullCodecResolver {
    fn resolve_tag(&self, ctx: &ProbeContext) -> (r: Option<CodecId>)
        ensures
            r is None,
    {
        None
    }
}

/// DoS-protection caps threaded into every decoder constructed from a
/// set of [`CodecParameters`].
#[derive(Clone, Copy, Debug)]
pub struct DecoderLimits {
    /// Largest picture (width × height) a decoder accepts.
    pub max_pixels_per_frame: u64,
    /// Byte capacity of each frame arena.
    pub max_arena_bytes: usize,
    /// Largest number of arenas a decoder keeps checked out at once.
    pub max_arenas_in_flight: usize,
}

impl DecoderLimits {
    /// Builder: replace the per-frame pixel cap.
    pub fn with_max_pixels_per_frame(self, n: u64) -> (l: Self)
        ensures
            l == (DecoderLimits { max_pixels_per_frame: n, ..self }),
    {
        DecoderLimits { max_pixels_per_frame: n, ..self }
    }

    /// Builder: replace the per-arena byte cap.
    pub fn with_max_arena_bytes(self, n: usize) -> (l: Self)
        ensures
            l == (DecoderLimits { max_arena_bytes: n, ..self }),
    {
        DecoderLimits { max_arena_bytes: n, ..self }
    }

    /// Builder: replace the cap on arenas in flight.
    pub fn with_max_arenas_in_flight(self, n: usize) -> (l: Self)
        ensures
            l == (DecoderLimits { max_arenas_in_flight: n, ..self }),
    {
        DecoderLimits { max_arenas_in_flight: n, ..self }
    }
}

impl Default for DecoderLimits {
    /// Conservative-but-finite caps: 32 k × 32 k pixels, 1 GiB per
    /// arena, 8 arenas in flight.
    fn default() -> (l: Self)
        ensures
            l.max_pixels_per_frame == 32768 * 32768,
            l.max_arena_bytes == 0x4000_0000,
            l.max_arenas_in_flight == 8,
    {
        DecoderLimits {
            max_pixels_per_frame: 32768 * 32768,
            max_arena_bytes: 0x4000_0000,
            max_arenas_in_flight: 8,
        }
    }
}

/// Codec-level parameters shared between demuxer/muxer and en/decoder.
///
/// Construct with [`Self::audio`] / [`Self::video`] / [`Self::subtitle`]
/// / [`Self::data`] and the builder methods.
#[derive(Clone, Debug)]
#[non_exhaustive]
pub struct CodecParameters {
    pub codec_id: CodecId,
    pub media_type: MediaType,
    // Audio-specific
    pub sample_rate: Option<u32>,
    pub channels: Option<u16>,
    pub sample_format: Option<SampleFormat>,
    /// Speaker layout for the audio stream — the canonical answer to
    /// "what layout does this stream have?". When both this and
    /// `channels` are set they must agree on the count.
    pub channel_layout: Option<ChannelLayout>,
    // Video-specific
    pub width: Option<u32>,
    pub height: Option<u32>,
    pub pixel_format: Option<PixelFormat>,
    pub frame_rate: Option<Rational>,
    /// Per-codec setup bytes (e.g., SPS/PPS, OpusHead).
    pub extradata: Vec<u8>,
    pub bit_rate: Option<u64>,
    /// DoS-protection caps for decoders built from these parameters.
    pub limits: DecoderLimits,
    /// Optional 0-based device selector for hardware-accelerated
    /// codecs; `None` means the backend's default device.
    pub device_index: Option<u32>,
}

/// Parameters of the given media type with every format field empty,
/// default limits and no device.
pub open spec fn blank_params(p: CodecParameters, id: CodecId, media: MediaType) -> bool {
    &&& p.codec_id == id
    &&& p.media_type == media
    &&& p.sample_rate is None
    &&& p.channels is None
    &&& p.sample_format is None
    &&& p.channel_layout is None
    &&& p.width is None
    &&& p.height is None
    &&& p.pixel_format is None
    &&& p.frame_rate is None
    &&& p.extradata@.len() == 0
    &&& p.bit_rate is None
    &&& p.limits.max_pixels_per_frame == 32768 * 32768
    &&& p.limits.max_arena_bytes == 0x4000_0000
    &&& p.limits.max_arenas_in_flight == 8
    &&& p.device_index is None
}

/// The layout `resolved_layout` reports.
pub open spec fn resolved_layout_of(p: CodecParameters) -> Option<ChannelLayout> {
    match p.channel_layout {
        Some(l) => Some(l),
        None => match p.channels {
            Some(n) => Some(layout_for_count(n)),
            None => None,
        },
    }
}

/// The channel count `resolved_channels` reports.
pub open spec fn resolved_channels_of(p: CodecParameters) -> Option<u16> {
    match p.channels {
        Some(n) => Some(n),
        None => match p.channel_layout {
            Some(l) => Some(layout_count(l)),
            None => None,
        },
    }
}

/// Same codec and same core format fields; the channel layout counts
/// only through the channel count it resolves to.
pub open spec fn core_matches(a: CodecParameters, b: CodecParameters) -> bool {
    &&& a.codec_id.0@ == b.codec_id.0@
    &&& a.sample_rate == b.sample_rate
    &&& resolved_channels_of(a) == resolved_channels_of(b)
    &&& a.sample_format == b.sample_format
    &&& a.width == b.width
    &&& a.height == b.height
    &&& a.pixel_format == b.pixel_format
}

fn same_opt_u32(a: Option<u32>, b: Option<u32>) -> (r: bool)
    ensures
        r == (a == b),
{
    match (a, b) {
        (Some(x), Some(y)) => x == y,
        (None, None) => true,
        _ => false,
    }
}

fn same_opt_u16(a: Option<u16>, b: Option<u16>) -> (r: bool)
    ensures
        r == (a == b),
{
    match (a, b) {
        (Some(x), Some(y)) => x == y,
        (None, None) => true,
        _ => false,
    }
}

fn same_opt_sample_format(a: Option<SampleFormat>, b: Option<SampleFormat>) -> (r: bool)
    ensures
        r == (a == b),
{
    match (a, b) {
        (Some(x), Some(y)) => x == y,
        (None, None) => true,
        _ => false,
    }
}

fn same_opt_pixel_format(a: Option<PixelFormat>, b: Option<PixelFormat>) -> (r: bool)
    ensures
        r == (a == b),
{
    match (a, b) {
        (Some(x), Some(y)) => x == y,
        (None, None) => true,
        _ => false,
    }
}

impl CodecParameters {
    fn blank(codec_id: CodecId, media_type: MediaType) -> (p: Self)
        ensures
            blank_params(p, codec_id, media_type),
    {
        CodecParameters {
            codec_id,
            media_type,
            sample_rate: None,
            channels: None,
            sample_format: None,
            channel_layout: None,
            width: None,
            height: None,
            pixel_format: None,
            frame_rate: None,
            extradata: Vec::new(),
            bit_rate: None,
            limits: DecoderLimits::default(),
            device_index: None,
        }
    }

    pub fn audio(codec_id: CodecId) -> (p: Self)
        ensures
            blank_params(p, codec_id, MediaType::Audio),
    {
        Self::blank(codec_id, MediaType::Audio)
    }

    pub fn video(codec_id: CodecId) -> (p: Self)
        ensures
            blank_params(p, codec_id, MediaType::Video),
    {
        Self::blank(codec_id, MediaType::Video)
    }

    /// Subtitle codec parameters: no format-specific fields populated.
    pub fn subtitle(codec_id: CodecId) -> (p: Self)
        ensures
            blank_params(p, codec_id, MediaType::Subtitle),
    {
        Self::blank(codec_id, MediaType::Subtitle)
    }

    /// Generic data-stream codec parameters (timed metadata, chapters).
    pub fn data(codec_id: CodecId) -> (p: Self)
        ensures
            blank_params(p, codec_id, MediaType::Data),
    {
        Self::blank(codec_id, MediaType::Data)
    }

    /// True when `self` and `other` have the same codec id and core
    /// format parameters (sample rate / channels / sample format for
    /// audio, width / height / pixel format for video). Extradata and
    /// bitrate differences are tolerated, and the channel layout is
    /// compared only through the channel count it resolves to, so a
    /// stream with an explicit layout matches a count-only stream of
    /// the same width.
    pub fn matches_core(&self, other: &CodecParameters) -> (b: bool)
        ensures
            b == core_matches(*self, *other),
    {
        self.codec_id == other.codec_id && same_opt_u32(self.sample_rate, other.sample_rate)
            && same_opt_u16(self.resolved_channels(), other.resolved_channels())
            && same_opt_sample_format(
            self.sample_format,
            other.sample_format,
        ) && same_opt_u32(self.width, other.width) && same_opt_u32(self.height, other.height)
            && same_opt_pixel_format(self.pixel_format, other.pixel_format)
    }

    /// Builder: set the channel count (the layout is left as it was).
    pub fn channels(self, n: u16) -> (p: Self)
        ensures
            p == (CodecParameters { channels: Some(n), ..self }),
    {
        CodecParameters { channels: Some(n), ..self }
    }

    /// Builder: set the channel layout (the count is left as it was).
    pub fn channel_layout(self, layout: ChannelLayout) -> (p: Self)
        ensures
            p == (CodecParameters { channel_layout: Some(layout), ..self }),
    {
        CodecParameters { channel_layout: Some(layout), ..self }
    }

    /// Best-effort layout: an explicit `channel_layout` when set,
    /// otherwise one inferred from `channels` via
    /// [`ChannelLayout::from_count`]; `None` when neither is set.
    pub fn resolved_layout(&self) -> (l: Option<ChannelLayout>)
        ensures
            l == resolved_layout_of(*self),
    {
        match self.channel_layout {
            Some(l) => Some(l),
            None => match self.channels {
                Some(n) => Some(ChannelLayout::from_count(n)),
                None => None,
            },
        }
    }

    /// Best-effort channel count: an explicit `channels` when set,
    /// otherwise the count of `channel_layout`; `None` when neither is
    /// set.
    pub fn resolved_channels(&self) -> (n: Option<u16>)
        ensures
            n == resolved_channels_of(*self),
    {
        match self.channels {
            Some(n) => Some(n),
            None => match self.channel_layout {
                Some(l) => Some(l.channel_count()),
                None => None,
            },
        }
    }

    /// Read-only access to the DoS-protection caps.
    pub fn limits(&self) -> (l: &DecoderLimits)
        ensures
            *l == self.limits,
    {
        &self.limits
    }

    /// Builder: replace the [`DecoderLimits`].
    pub fn with_limits(self, limits: DecoderLimits) -> (p: Self)
        ensures
            p == (CodecParameters { limits, ..self }),
    {
        CodecParameters { limits, ..self }
    }

    /// Bind subsequent decoder/encoder construction to device `index`.
    pub fn with_device_index(self, index: u32) -> (p: Self)
        ensures
            p == (CodecParameters { device_index: Some(index), ..self }),
    {
        CodecParameters { device_index: Some(index), ..self }
    }
}

/// With only a count set, the resolved layout is the one inferred from
/// the count and the resolved count is the count; with both set, the
/// explicit layout wins. The two resolutions agree on the channel count
/// whenever the fields themselves agree.
pub proof fn law_resolved_layout_and_count_agree(p: CodecParameters)
    requires
        p.channels matches Some(n) && p.channel_layout matches Some(l) ==> layout_count(l) == n,
    ensures
        resolved_layout_of(p) matches Some(l) ==> resolved_channels_of(p) == Some(layout_count(l)),
        resolved_layout_of(p) is None <==> resolved_channels_of(p) is None,
{
}

/// Description of a single stream inside a container.
#[derive(Clone, Debug)]
pub struct StreamInfo {
    pub index: u32,
    pub time_base: TimeBase,
    pub duration: Option<i64>,
    pub start_time: Option<i64>,
    pub params: CodecParameters,
}

} // verus!
