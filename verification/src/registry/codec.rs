//! The codec registry and the codec-side bridge from heap-backed video
//! frames to arena-backed frames.
//!
//! Every codec crate declares itself with one [`CodecInfo`] value —
//! capabilities, factories, the container tags it claims, and
//! (optionally) a probe. The registry keeps one implementation list per
//! codec id (in registration order) and every registration with its tag
//! claims, in registration order. Factories and probes are type
//! parameters the registry stores and hands back; the caller runs them.

use crate::arena::sync::{ArenaPool, Frame, FrameInner};
use crate::arena::{
    count_cap_message, first_bad_plane, plane_check, too_many_planes_message, FrameHeader, MAX_PLANES,
};
use crate::error::Error;
use crate::format::PixelFormat;
use crate::frame::{VideoFrame, VideoPlane};
use crate::registry::table::{
    find_named, has_name, lemma_slot_is_unique, lookup, names_unique, slot_of, table_of, Named,
};
use crate::stream::{tags_equal, CodecId, CodecParameters, CodecTag};
use vstd::prelude::*;
use vstd::string::*;

verus! {

/// Bytes held by the first `i` planes.
pub open spec fn bytes_before(planes: Seq<VideoPlane>, i: int) -> nat
    decreases i,
{
    if i <= 0 || i > planes.len() {
        0
    } else {
        bytes_before(planes, i - 1) + planes[i - 1].data@.len()
    }
}

/// The data of the first `i` planes, one after another.
pub open spec fn data_before(planes: Seq<VideoPlane>, i: int) -> Seq<u8>
    decreases i,
{
    if i <= 0 || i > planes.len() {
        Seq::empty()
    } else {
        data_before(planes, i - 1) + planes[i - 1].data@
    }
}

/// Where each plane lands in the arena: `(offset, length)`, planes laid
/// out one after another.
pub open spec fn packed_plane_table(planes: Seq<VideoPlane>) -> Seq<(usize, usize)> {
    Seq::new(
        planes.len(),
        |i: int| (bytes_before(planes, i) as usize, planes[i].data@.len() as usize),
    )
}

/// The best-effort header of a converted frame: width is the first
/// plane's stride (at least 1), height is the first plane's length over
/// that width, and the pixel format is `Gray8` for one plane, `Yuv420P`
/// for three and `Yuv444P` otherwise.
pub open spec fn converted_header(v: VideoFrame) -> FrameHeader {
    let stride0: int = if v.planes@[0].stride == 0 {
        1
    } else {
        v.planes@[0].stride as int
    };
    FrameHeader {
        width: stride0 as u32,
        height: (v.planes@[0].data@.len() as int / stride0) as u32,
        pixel_format: if v.planes@.len() == 1 {
            PixelFormat::Gray8
        } else if v.planes@.len() == 3 {
            PixelFormat::Yuv420P
        } else {
            PixelFormat::Yuv444P
        },
        presentation_timestamp: v.pts,
    }
}

/// The allocation-count cap of the one-shot arena: one allocation per
/// plane plus a margin of four.
pub open spec fn conversion_count_cap(plane_count: nat) -> u32 {
    let n = plane_count as u32;
    if n + 4 > u32::MAX {
        u32::MAX
    } else {
        (n + 4) as u32
    }
}

proof fn lemma_bytes_before_step(planes: Seq<VideoPlane>, i: int)
    requires
        0 <= i < planes.len(),
    ensures
        bytes_before(planes, i + 1) == bytes_before(planes, i) + planes[i].data@.len(),
        data_before(planes, i + 1) == data_before(planes, i) + planes[i].data@,
{
}

proof fn lemma_bytes_before_monotone(planes: Seq<VideoPlane>, i: int, j: int)
    requires
        0 <= i <= j <= planes.len(),
    ensures
        bytes_before(planes, i) <= bytes_before(planes, j),
    decreases j - i,
{
    if i < j {
        lemma_bytes_before_monotone(planes, i, j - 1);
        lemma_bytes_before_step(planes, j - 1);
    }
}

proof fn lemma_data_before_len(planes: Seq<VideoPlane>, i: int)
    requires
        0 <= i <= planes.len(),
    ensures
        data_before(planes, i).len() == bytes_before(planes, i),
    decreases i,
{
    if i > 0 {
        lemma_data_before_len(planes, i - 1);
    }
}

proof fn lemma_fitting_planes_pass(table: Seq<(usize, usize)>, used: nat, i: nat)
    requires
        forall|k: int| i <= k < table.len() ==> #[trigger] table[k].0 + table[k].1 <= used,
        used <= usize::MAX,
    ensures
        first_bad_plane(table, used, i) is None,
    decreases table.len() - i,
{
    if i < table.len() {
        lemma_fitting_planes_pass(table, used, i + 1);
    }
}

/// Copy a heap-backed video frame into an arena-backed frame: a
/// one-shot pool with a single arena sized to the planes' total bytes,
/// the planes copied in one after another, and a best-effort header.
///
/// Fails with `Error::InvalidData` when the frame has no planes, when
/// every plane is empty, or when it has more planes than an arena
/// frame holds; with `Error::ResourceExhausted` when the plane count
/// exceeds the arena's allocation-count cap.
pub fn video_frame_to_arena_sync_frame(v: &VideoFrame) -> (r: Result<Frame, Error>)
    requires
        bytes_before(v.planes@, v.planes@.len() as int) <= usize::MAX,
    ensures
        ({
            let planes = v.planes@;
            let total = bytes_before(planes, planes.len() as int);
            let cap = conversion_count_cap(planes.len());
            if planes.len() == 0 {
                r matches Err(Error::InvalidData(m)) && m@
                    == "receive_arena_frame: video frame has no planes"@
            } else if total == 0 {
                r matches Err(Error::InvalidData(m)) && m@
                    == "receive_arena_frame: video frame planes are empty"@
            } else if planes.len() > cap {
                r matches Err(Error::ResourceExhausted(m)) && m@ == if cap == u32::MAX {
                    "Arena alloc_count overflow"@
                } else {
                    count_cap_message(cap as nat)
                }
            } else if planes.len() > MAX_PLANES {
                r matches Err(Error::InvalidData(m)) && m@ == too_many_planes_message(
                    planes.len(),
                )
            } else {
                r matches Ok(f) && f.body().wf() && f.body().planes() == packed_plane_table(planes)
                    && f.body().header_of() == converted_header(*v) && f.body().arena()@.bytes
                    == data_before(planes, planes.len() as int)
            }
        }),
{
    let n = v.planes.len();
    if n == 0 {
        return Err(Error::invalid("receive_arena_frame: video frame has no planes"));
    }
    let ghost planes = v.planes@;
    let mut total: usize = 0;
    let mut i: usize = 0;
    while i < n
        invariant
            n == planes.len(),
            planes == v.planes@,
            bytes_before(planes, n as int) <= usize::MAX,
            i <= n,
            total == bytes_before(planes, i as int),
        decreases n - i,
    {
        proof {
            lemma_bytes_before_step(planes, i as int);
            lemma_bytes_before_monotone(planes, i as int + 1, n as int);
        }
        total = total + v.planes[i].data.len();
        i += 1;
    }
    if total == 0 {
        return Err(Error::invalid("receive_arena_frame: video frame planes are empty"));
    }
    let count_cap = (n as u32).saturating_add(4);
    let mut pool = ArenaPool::with_alloc_count_cap(1, total, count_cap);
    let mut arena = match pool.lease() {
        Ok(a) => a,
        Err(e) => {
            return Err(e);
        },
    };
    let mut offsets: Vec<(usize, usize)> = Vec::new();
    let mut k: usize = 0;
    while k < n
        invariant
            n == planes.len(),
            planes == v.planes@,
            total == bytes_before(planes, n as int),
            total > 0,
            count_cap == conversion_count_cap(n as nat),
            k <= n,
            arena.wf(),
            arena@.capacity == total,
            arena@.alloc_count_cap == count_cap,
            arena@.alloc_count == k,
            arena@.used == bytes_before(planes, k as int),
            arena@.bytes.subrange(0, arena@.used as int) == data_before(planes, k as int),
            offsets@ == packed_plane_table(planes).take(k as int),
        decreases n - k,
    {
        proof {
            lemma_bytes_before_step(planes, k as int);
            lemma_bytes_before_monotone(planes, k as int + 1, n as int);
            lemma_data_before_len(planes, k as int);
            broadcast use vstd::layout::layout_of_primitives, vstd::layout::align_of_u8;

        }
        let ghost before = arena@;
        let len = v.planes[k].data.len();
        let (offset, length) = match arena.allocate::<u8>(len) {
            Ok(range) => range,
            Err(e) => {
                proof {
                    assert(k + 1 > count_cap);
                    assert(n > count_cap);
                }
                return Err(e);
            },
        };
        assert(offset == before.used && length == len);
        arena.write_bytes(offset, v.planes[k].data.as_slice());
        assert(arena@.bytes.subrange(0, arena@.used as int) =~= data_before(planes, k as int + 1));
        offsets.push((offset, length));
        assert(offsets@ =~= packed_plane_table(planes).take(k as int + 1));
        k += 1;
    }
    proof {
        lemma_data_before_len(planes, n as int);
        assert(arena@.bytes =~= data_before(planes, n as int));
        assert(offsets@ =~= packed_plane_table(planes));
        assert forall|j: int| 0 <= j < offsets@.len() implies #[trigger] offsets@[j].0
            + offsets@[j].1 <= total by {
            lemma_bytes_before_step(planes, j);
            lemma_bytes_before_monotone(planes, j + 1, n as int);
        }
        lemma_fitting_planes_pass(offsets@, total as nat, 0);
        assert(n <= MAX_PLANES ==> plane_check(offsets@, arena@.used) is None);
    }
    let stride0 = if v.planes[0].stride == 0 {
        1
    } else {
        v.planes[0].stride
    };
    let width = stride0 as u32;
    let height = (v.planes[0].data.len() / stride0) as u32;
    let pixel_format = if n == 1 {
        PixelFormat::Gray8
    } else if n == 3 {
        PixelFormat::Yuv420P
    } else {
        PixelFormat::Yuv444P
    };
    let header = FrameHeader::new(width, height, pixel_format, v.pts);
    match FrameInner::new(arena, offsets.as_slice(), header) {
        Ok(f) => Ok(f),
        Err((e, _arena)) => Err(e),
    }
}

// ───────────────────────── capabilities ─────────────────────────

/// What a codec implementation can do, and the largest stream
/// parameters it accepts (`None`: no limit).
#[derive(Clone, Copy, Debug)]
pub struct CodecCapabilities {
    pub decode: bool,
    pub encode: bool,
    pub max_width: Option<u32>,
    pub max_height: Option<u32>,
    pub max_bitrate: Option<u64>,
    pub max_sample_rate: Option<u32>,
    pub max_channels: Option<u16>,
}

impl CodecCapabilities {
    /// No flags and no limits.
    pub fn new() -> (c: Self)
        ensures
            c == (CodecCapabilities {
                decode: false,
                encode: false,
                max_width: None,
                max_height: None,
                max_bitrate: None,
                max_sample_rate: None,
                max_channels: None,
            }),
    {
        CodecCapabilities {
            decode: false,
            encode: false,
            max_width: None,
            max_height: None,
            max_bitrate: None,
            max_sample_rate: None,
            max_channels: None,
        }
    }

    /// These capabilities with the decode flag set.
    pub fn with_decode(self) -> (c: Self)
        ensures
            c == (CodecCapabilities { decode: true, ..self }),
    {
        CodecCapabilities { decode: true, ..self }
    }

    /// These capabilities with the encode flag set.
    pub fn with_encode(self) -> (c: Self)
        ensures
            c == (CodecCapabilities { encode: true, ..self }),
    {
        CodecCapabilities { encode: true, ..self }
    }
}

/// `v` is within the limit `max`: at most `max` when both are present,
/// and always when either is absent.
pub open spec fn within(max: Option<u64>, v: Option<u64>) -> bool {
    match (max, v) {
        (Some(m), Some(x)) => x <= m,
        _ => true,
    }
}

/// An optional `u32` widened to `u64`.
pub open spec fn wide32(o: Option<u32>) -> Option<u64> {
    match o {
        Some(x) => Some(x as u64),
        None => None,
    }
}

/// An optional `u16` widened to `u64`.
pub open spec fn wide16(o: Option<u16>) -> Option<u64> {
    match o {
        Some(x) => Some(x as u64),
        None => None,
    }
}

/// Whether an implementation's limits admit the stream parameters `p`.
pub open spec fn caps_admit(caps: CodecCapabilities, p: CodecParameters) -> bool {
    &&& within(wide32(caps.max_width), wide32(p.width))
    &&& within(wide32(caps.max_height), wide32(p.height))
    &&& within(caps.max_bitrate, p.bit_rate)
    &&& within(wide32(caps.max_sample_rate), wide32(p.sample_rate))
    &&& within(wide16(caps.max_channels), wide16(p.channels))
}

/// An implementation admits stream parameters exactly when every limit
/// it declares is respected: a declared maximum width, height, bit rate,
/// sample rate or channel count is never exceeded by the corresponding
/// parameter when that parameter is known. Undeclared limits and unknown
/// parameters never exclude.
pub proof fn law_caps_admit_every_declared_limit(caps: CodecCapabilities, p: CodecParameters)
    ensures
        caps_admit(caps, p) <==> {
            &&& forall|m: u32, w: u32|
                caps.max_width == Some(m) && p.width == Some(w) ==> w <= m
            &&& forall|m: u32, h: u32|
                caps.max_height == Some(m) && p.height == Some(h) ==> h <= m
            &&& forall|m: u64, b: u64|
                caps.max_bitrate == Some(m) && p.bit_rate == Some(b) ==> b <= m
            &&& forall|m: u32, r: u32|
                caps.max_sample_rate == Some(m) && p.sample_rate == Some(r) ==> r <= m
            &&& forall|m: u16, c: u16|
                caps.max_channels == Some(m) && p.channels == Some(c) ==> c <= m
        },
{
}

fn within_u64(max: Option<u64>, v: Option<u64>) -> (b: bool)
    ensures
        b == within(max, v),
{
    match (max, v) {
        (Some(m), Some(x)) => x <= m,
        _ => true,
    }
}

fn wide32_of(o: Option<u32>) -> (r: Option<u64>)
    ensures
        r == wide32(o),
{
    match o {
        Some(x) => Some(x as u64),
        None => None,
    }
}

fn wide16_of(o: Option<u16>) -> (r: Option<u64>)
    ensures
        r == wide16(o),
{
    match o {
        Some(x) => Some(x as u64),
        None => None,
    }
}

/// Whether an implementation's restrictions are compatible with the
/// requested codec parameters: width, height, bit rate, sample rate and
/// channel count each within its limit.
pub fn caps_fit_params(caps: &CodecCapabilities, p: &CodecParameters) -> (b: bool)
    ensures
        b == caps_admit(*caps, *p),
{
    within_u64(wide32_of(caps.max_width), wide32_of(p.width)) && within_u64(
        wide32_of(caps.max_height),
        wide32_of(p.height),
    ) && within_u64(caps.max_bitrate, p.bit_rate) && within_u64(
        wide32_of(caps.max_sample_rate),
        wide32_of(p.sample_rate),
    ) && within_u64(wide16_of(caps.max_channels), wide16_of(p.channels))
}

// ───────────────────────── registrations ─────────────────────────

/// A single registration: capabilities, decoder/encoder factories
/// (`D`, `E`), an optional probe (`P`), and the container tags the
/// codec claims.
pub struct CodecInfo<D, E, P> {
    pub id: CodecId,
    pub capabilities: CodecCapabilities,
    pub decoder_factory: Option<D>,
    pub encoder_factory: Option<E>,
    pub probe: Option<P>,
    pub tags: Vec<CodecTag>,
}

impl<D, E, P> CodecInfo<D, E, P> {
    /// A registration for `id` with empty capabilities, no factories, no
    /// probe and no tags.
    pub fn new(id: CodecId) -> (i: Self)
        ensures
            i.id == id,
            i.capabilities == (CodecCapabilities {
                decode: false,
                encode: false,
                max_width: None,
                max_height: None,
                max_bitrate: None,
                max_sample_rate: None,
                max_channels: None,
            }),
            i.decoder_factory is None,
            i.encoder_factory is None,
            i.probe is None,
            i.tags@.len() == 0,
    {
        CodecInfo {
            id,
            capabilities: CodecCapabilities::new(),
            decoder_factory: None,
            encoder_factory: None,
            probe: None,
            tags: Vec::new(),
        }
    }

    /// Replace the capability description.
    pub fn capabilities(self, caps: CodecCapabilities) -> (i: Self)
        ensures
            i == (CodecInfo { capabilities: caps, ..self }),
    {
        CodecInfo { capabilities: caps, ..self }
    }

    /// Attach a decoder factory.
    pub fn decoder(self, factory: D) -> (i: Self)
        ensures
            i == (CodecInfo { decoder_factory: Some(factory), ..self }),
    {
        CodecInfo { decoder_factory: Some(factory), ..self }
    }

    /// Attach an encoder factory.
    pub fn encoder(self, factory: E) -> (i: Self)
        ensures
            i == (CodecInfo { encoder_factory: Some(factory), ..self }),
    {
        CodecInfo { encoder_factory: Some(factory), ..self }
    }

    /// Attach a probe.
    pub fn probe(self, probe: P) -> (i: Self)
        ensures
            i == (CodecInfo { probe: Some(probe), ..self }),
    {
        CodecInfo { probe: Some(probe), ..self }
    }

    /// Claim one more container tag.
    pub fn tag(self, tag: CodecTag) -> (i: Self)
        ensures
            i.id == self.id,
            i.capabilities == self.capabilities,
            i.decoder_factory == self.decoder_factory,
            i.encoder_factory == self.encoder_factory,
            i.probe == self.probe,
            i.tags@ == self.tags@.push(tag),
    {
        let mut info = self;
        info.tags.push(tag);
        info
    }

    /// Claim a set of container tags, after those already claimed.
    pub fn tags(self, tags: Vec<CodecTag>) -> (i: Self)
        ensures
            i.id == self.id,
            i.capabilities == self.capabilities,
            i.decoder_factory == self.decoder_factory,
            i.encoder_factory == self.encoder_factory,
            i.probe == self.probe,
            i.tags@ == self.tags@ + tags@,
    {
        let mut info = self;
        let mut more = tags;
        info.tags.append(&mut more);
        info
    }
}

/// One implementation of a codec id, as the registry keeps it.
pub struct CodecImplementation<D, E> {
    pub caps: CodecCapabilities,
    pub make_decoder: Option<D>,
    pub make_encoder: Option<E>,
}

/// A registration as the tag side keeps it.
struct RegistrationRecord<P> {
    id: CodecId,
    probe: Option<P>,
    tags: Vec<CodecTag>,
}

/// The implementation a registration adds: its capabilities with the
/// decode flag set when it brings a decoder factory and the encode flag
/// set when it brings an encoder factory.
pub open spec fn implementation_of<D, E, P>(info: CodecInfo<D, E, P>) -> CodecImplementation<D, E> {
    CodecImplementation {
        caps: CodecCapabilities {
            decode: info.capabilities.decode || info.decoder_factory is Some,
            encode: info.capabilities.encode || info.encoder_factory is Some,
            ..info.capabilities
        },
        make_decoder: info.decoder_factory,
        make_encoder: info.encoder_factory,
    }
}

/// `t` with `x` appended to the list under `name` (a new name gets a
/// list of its own at the end).
pub open spec fn appended<T>(t: Seq<(Seq<char>, Seq<T>)>, name: Seq<char>, x: T) -> Seq<
    (Seq<char>, Seq<T>),
> {
    match slot_of(t, name) {
        Some(i) => t.update(i, (name, t[i].1.push(x))),
        None => t.push((name, seq![x])),
    }
}

/// How many times `tags` names `t`.
pub open spec fn tag_count(tags: Seq<CodecTag>, t: CodecTag) -> nat {
    tags.filter(names_tag(t)).len()
}

/// The test "is tag `t`", by variant and payload (strings by content).
pub open spec fn names_tag(t: CodecTag) -> spec_fn(CodecTag) -> bool {
    |u: CodecTag| tags_equal(u, t)
}

/// The registrations that claimed tag `t`, in registration order, each
/// as often as it claimed `t`.
pub open spec fn tag_claims(regs: Seq<(Seq<char>, Seq<CodecTag>)>, t: CodecTag) -> Seq<nat>
    decreases regs.len(),
{
    if regs.len() == 0 {
        Seq::empty()
    } else {
        let last = (regs.len() - 1) as nat;
        tag_claims(regs.drop_last(), t) + Seq::new(
            tag_count(regs.last().1, t),
            |k: int| last,
        )
    }
}

/// Registering a codec appends its registration index to the claims of
/// each tag it names, once per occurrence, after the earlier claims.
pub proof fn law_register_extends_tag_claims(
    regs: Seq<(Seq<char>, Seq<CodecTag>)>,
    id: Seq<char>,
    tags: Seq<CodecTag>,
    t: CodecTag,
)
    ensures
        tag_claims(regs.push((id, tags)), t) == tag_claims(regs, t) + Seq::new(
            tag_count(tags, t),
            |k: int| regs.len(),
        ),
{
    let r2 = regs.push((id, tags));
    assert(r2.drop_last() =~= regs);
    assert(r2.last() == (id, tags));
    let n = tag_count(tags, t);
    assert(Seq::new(n, |k: int| ((r2.len() - 1) as nat)) =~= Seq::new(n, |k: int| regs.len()));
}

/// Registry of codec implementations and tag claims.
pub struct CodecRegistry<D, E, P> {
    impls: Vec<Named<Vec<CodecImplementation<D, E>>>>,
    registrations: Vec<RegistrationRecord<P>>,
}

spec fn lists_of<T>(v: Seq<Named<Vec<T>>>) -> Seq<(Seq<char>, Seq<T>)> {
    v.map_values(|e: Named<Vec<T>>| (e.name@, e.item@))
}

/// Whether implementation `i` has a decoder factory, or with `encode`
/// an encoder factory.
pub open spec fn factory_present<D, E>(i: CodecImplementation<D, E>, encode: bool) -> bool {
    if encode {
        i.make_encoder is Some
    } else {
        i.make_decoder is Some
    }
}

/// Whether some implementation in `l` has the factory `encode` names.
pub open spec fn offers<D, E>(l: Seq<CodecImplementation<D, E>>, encode: bool) -> bool {
    exists|k: int| 0 <= k < l.len() && #[trigger] factory_present(l[k], encode)
}

/// The codec ids of `t`, in table order, whose implementation list
/// offers a decoder (or, with `encode`, an encoder).
pub open spec fn offering_ids<D, E>(
    t: Seq<(Seq<char>, Seq<CodecImplementation<D, E>>)>,
    encode: bool,
) -> Seq<Seq<char>>
    decreases t.len(),
{
    if t.len() == 0 {
        Seq::empty()
    } else {
        let rest = offering_ids(t.drop_last(), encode);
        if offers(t.last().1, encode) {
            rest.push(t.last().0)
        } else {
            rest
        }
    }
}

/// The id listings agree with the per-id queries: an id is listed by
/// `decoder_ids` (`encode` false) or `encoder_ids` exactly when
/// `has_decoder` or `has_encoder` holds of it.
pub proof fn law_listed_ids_offer<D, E>(
    t: Seq<(Seq<char>, Seq<CodecImplementation<D, E>>)>,
    id: Seq<char>,
    encode: bool,
)
    requires
        names_unique(t),
    ensures
        offering_ids(t, encode).contains(id) == (lookup(t, id) matches Some(l) && offers(
            l,
            encode,
        )),
    decreases t.len(),
{
    if t.len() > 0 {
        let u = t.drop_last();
        let last = t.len() - 1;
        assert(names_unique(u)) by {
            assert forall|a: int, b: int|
                0 <= a < u.len() && 0 <= b < u.len() && #[trigger] u[a].0 == #[trigger] u[b].0
                implies a == b by {
                assert(t[a].0 == t[b].0);
            }
        }
        law_listed_ids_offer(u, id, encode);
        let rest = offering_ids(u, encode);
        if t[last].0 == id {
            lemma_slot_is_unique(t, id, last);
            assert(!has_name(u, id)) by {
                if has_name(u, id) {
                    let j = choose|j: int| 0 <= j < u.len() && #[trigger] u[j].0 == id;
                    assert(t[j].0 == t[last].0);
                }
            }
            if offers(t.last().1, encode) {
                assert(offering_ids(t, encode) == rest.push(id));
                assert(offering_ids(t, encode)[rest.len() as int] == id);
            }
        } else {
            if has_name(u, id) {
                let j = choose|j: int| 0 <= j < u.len() && #[trigger] u[j].0 == id;
                lemma_slot_is_unique(u, id, j);
                assert(t[j].0 == id);
                lemma_slot_is_unique(t, id, j);
            } else {
                assert(!has_name(t, id)) by {
                    if has_name(t, id) {
                        let j = choose|j: int| 0 <= j < t.len() && #[trigger] t[j].0 == id;
                        assert(j != last);
                        assert(u[j].0 == id);
                    }
                }
            }
            if offers(t.last().1, encode) {
                let full = rest.push(t[last].0);
                assert(offering_ids(t, encode) == full);
                if full.contains(id) {
                    let k = choose|k: int| 0 <= k < full.len() && full[k] == id;
                    assert(k < rest.len());
                    assert(rest[k] == id);
                }
                if rest.contains(id) {
                    let k = choose|k: int| 0 <= k < rest.len() && rest[k] == id;
                    assert(full[k] == id);
                }
            }
        }
    }
}

/// The test "has the factory `encode` names and its capabilities admit
/// `p`".
pub open spec fn fits_for<D, E>(p: CodecParameters, encode: bool) -> spec_fn(
    CodecImplementation<D, E>,
) -> bool {
    |i: CodecImplementation<D, E>| factory_present(i, encode) && caps_admit(i.caps, p)
}

/// Every implementation of `t` paired with its codec id: the lists in
/// table order, each in registration order.
pub open spec fn flat_impls<D, E>(t: Seq<(Seq<char>, Seq<CodecImplementation<D, E>>)>) -> Seq<
    (Seq<char>, CodecImplementation<D, E>),
>
    decreases t.len(),
{
    if t.len() == 0 {
        Seq::empty()
    } else {
        let (id, l) = t.last();
        flat_impls(t.drop_last()) + l.map_values(|i: CodecImplementation<D, E>| (id, i))
    }
}

/// Every tag claim of `regs` paired with the claiming codec id: the
/// registrations in order, each with its tags in order.
pub open spec fn flat_tags(regs: Seq<(Seq<char>, Seq<CodecTag>)>) -> Seq<(CodecTag, Seq<char>)>
    decreases regs.len(),
{
    if regs.len() == 0 {
        Seq::empty()
    } else {
        let (id, tags) = regs.last();
        flat_tags(regs.drop_last()) + tags.map_values(|t: CodecTag| (t, id))
    }
}

/// Whether some implementation in `list` has the factory `encode` names.
fn list_offers<D, E>(list: &[CodecImplementation<D, E>], encode: bool) -> (b: bool)
    ensures
        b == offers(list@, encode),
{
    let mut k: usize = 0;
    while k < list.len()
        invariant
            k <= list@.len(),
            forall|j: int| 0 <= j < k ==> !factory_present(#[trigger] list@[j], encode),
        decreases list@.len() - k,
    {
        let present = if encode {
            list[k].make_encoder.is_some()
        } else {
            list[k].make_decoder.is_some()
        };
        if present {
            assert(factory_present(list@[k as int], encode));
            return true;
        }
        k += 1;
    }
    false
}

impl<D, E, P> CodecRegistry<D, E, P> {
    /// Implementations by codec id, each list in registration order.
    pub closed spec fn impl_table(self) -> Seq<(Seq<char>, Seq<CodecImplementation<D, E>>)> {
        lists_of(self.impls@)
    }

    /// Every registration as (codec id, probe, claimed tags), in
    /// registration order; a registration's position is its index.
    pub closed spec fn registrations(self) -> Seq<(Seq<char>, Option<P>, Seq<CodecTag>)> {
        self.registrations@.map_values(
            |r: RegistrationRecord<P>| (r.id.0@, r.probe, r.tags@),
        )
    }

    /// Every registration as (codec id, claimed tags).
    pub closed spec fn claims(self) -> Seq<(Seq<char>, Seq<CodecTag>)> {
        self.registrations@.map_values(|r: RegistrationRecord<P>| (r.id.0@, r.tags@))
    }

    /// No codec id has two implementation lists.
    pub open spec fn wf(self) -> bool {
        names_unique(self.impl_table())
    }

    /// An empty registry.
    pub fn new() -> (r: Self)
        ensures
            r.wf(),
            r.impl_table().len() == 0,
            r.registrations().len() == 0,
    {
        let r = CodecRegistry { impls: Vec::new(), registrations: Vec::new() };
        assert(r.impl_table() =~= Seq::<(Seq<char>, Seq<CodecImplementation<D, E>>)>::empty());
        r
    }

    /// Register one codec: an implementation record under its id when
    /// it brings at least one factory (a tag-only registration adds
    /// none), and a registration record with its tag claims. Registering
    /// the same id again adds another implementation of it.
    pub fn register(&mut self, info: CodecInfo<D, E, P>)
        requires
            old(self).wf(),
        ensures
            final(self).wf(),
            final(self).registrations() == old(self).registrations().push(
                (info.id.0@, info.probe, info.tags@),
            ),
            final(self).claims() == old(self).claims().push((info.id.0@, info.tags@)),
            if info.decoder_factory is Some || info.encoder_factory is Some {
                final(self).impl_table() == appended(
                    old(self).impl_table(),
                    info.id.0@,
                    implementation_of(info),
                )
            } else {
                final(self).impl_table() == old(self).impl_table()
            },
    {
        let ghost spec_info = info;
        let ghost old_regs = self.registrations@;
        let CodecInfo { id, capabilities, decoder_factory, encoder_factory, probe, tags } = info;
        let mut caps = capabilities;
        if decoder_factory.is_some() {
            caps = caps.with_decode();
        }
        if encoder_factory.is_some() {
            caps = caps.with_encode();
        }
        if decoder_factory.is_some() || encoder_factory.is_some() {
            let rec = CodecImplementation {
                caps,
                make_decoder: decoder_factory,
                make_encoder: encoder_factory,
            };
            assert(rec == implementation_of(spec_info));
            self.add_implementation(id.0.clone(), rec);
        }
        self.registrations.push(RegistrationRecord { id, probe, tags });
        assert(self.registrations() =~= old_regs.map_values(
            |r: RegistrationRecord<P>| (r.id.0@, r.probe, r.tags@),
        ).push((spec_info.id.0@, spec_info.probe, spec_info.tags@)));
        assert(self.claims() =~= old_regs.map_values(
            |r: RegistrationRecord<P>| (r.id.0@, r.tags@),
        ).push((spec_info.id.0@, spec_info.tags@)));
    }

    /// The stored lists carry the table's names, so they too are unique.
    proof fn lemma_stored_names_unique(&self)
        requires
            self.wf(),
        ensures
            names_unique(table_of(self.impls@)),
    {
        let t = self.impl_table();
        assert forall|a: int, b: int|
            0 <= a < table_of(self.impls@).len() && 0 <= b < table_of(self.impls@).len()
                && #[trigger] table_of(self.impls@)[a].0 == #[trigger] table_of(
                self.impls@,
            )[b].0 implies a == b by {
            assert(t[a].0 == table_of(self.impls@)[a].0);
            assert(t[b].0 == table_of(self.impls@)[b].0);
        }
    }

    fn add_implementation(&mut self, name: String, rec: CodecImplementation<D, E>)
        requires
            old(self).wf(),
        ensures
            final(self).wf(),
            final(self).impl_table() == appended(old(self).impl_table(), name@, rec),
            final(self).registrations@ == old(self).registrations@,
    {
        let ghost t = self.impl_table();
        let ghost key = name@;
        proof {
            self.lemma_stored_names_unique();
        }
        match find_named(&self.impls, &name) {
            Some(i) => {
                assert(t[i as int].0 == key);
                proof {
                    lemma_slot_is_unique(t, key, i as int);
                }
                let mut entry = self.impls.remove(i);
                entry.item.push(rec);
                self.impls.insert(i, entry);
                assert(self.impl_table() =~= t.update(i as int, (key, t[i as int].1.push(rec))));
            },
            None => {
                assert(!has_name(t, key)) by {
                    if has_name(t, key) {
                        let j = choose|j: int| 0 <= j < t.len() && #[trigger] t[j].0 == key;
                        assert(table_of(self.impls@)[j].0 == key);
                    }
                }
                let mut list: Vec<CodecImplementation<D, E>> = Vec::new();
                list.push(rec);
                self.impls.push(Named { name, item: list });
                assert(self.impl_table() =~= t.push((key, seq![rec])));
                assert forall|a: int, b: int|
                    0 <= a < self.impl_table().len() && 0 <= b < self.impl_table().len()
                        && #[trigger] self.impl_table()[a].0 == #[trigger] self.impl_table()[b].0 implies a
                    == b by {
                    if a < t.len() && b < t.len() {
                        assert(t[a].0 == t[b].0);
                    } else if a < t.len() {
                        assert(t[a].0 == key);
                    } else if b < t.len() {
                        assert(t[b].0 == key);
                    }
                }
            },
        }
    }

    /// All registered implementations of codec `id`, in registration
    /// order; empty when the id is unknown.
    pub fn implementations(&self, id: &CodecId) -> (r: &[CodecImplementation<D, E>])
        requires
            self.wf(),
        ensures
            r@ == match lookup(self.impl_table(), id.0@) {
                Some(l) => l,
                None => Seq::<CodecImplementation<D, E>>::empty(),
            },
    {
        let ghost t = self.impl_table();
        proof {
            self.lemma_stored_names_unique();
        }
        match find_named(&self.impls, &id.0) {
            Some(i) => {
                assert(t[i as int].0 == id.0@);
                proof {
                    lemma_slot_is_unique(t, id.0@, i as int);
                }
                self.impls[i].item.as_slice()
            },
            None => {
                assert(!has_name(t, id.0@)) by {
                    if has_name(t, id.0@) {
                        let j = choose|j: int| 0 <= j < t.len() && #[trigger] t[j].0 == id.0@;
                        assert(table_of(self.impls@)[j].0 == id.0@);
                    }
                }
                let empty: &[CodecImplementation<D, E>] = &[];
                empty
            },
        }
    }

    /// Whether some implementation of `id` has a decoder factory.
    pub fn has_decoder(&self, id: &CodecId) -> (b: bool)
        requires
            self.wf(),
        ensures
            b == (lookup(self.impl_table(), id.0@) matches Some(l) && offers(l, false)),
    {
        list_offers(self.implementations(id), false)
    }

    /// Whether some implementation of `id` has an encoder factory.
    pub fn has_encoder(&self, id: &CodecId) -> (b: bool)
        requires
            self.wf(),
        ensures
            b == (lookup(self.impl_table(), id.0@) matches Some(l) && offers(l, true)),
    {
        list_offers(self.implementations(id), true)
    }

    /// The codec ids, in registration order of their first
    /// implementation, that `encode` selects: with an encoder factory,
    /// or (`encode` false) with a decoder factory.
    fn ids_offering(&self, encode: bool) -> (r: Vec<CodecId>)
        ensures
            r@.map_values(|c: CodecId| c.0@) == offering_ids(self.impl_table(), encode),
    {
        let ghost t = self.impl_table();
        let mut out: Vec<CodecId> = Vec::new();
        let mut i: usize = 0;
        while i < self.impls.len()
            invariant
                t == self.impl_table(),
                t.len() == self.impls@.len(),
                i <= self.impls@.len(),
                out@.map_values(|c: CodecId| c.0@) == offering_ids(t.take(i as int), encode),
            decreases self.impls@.len() - i,
        {
            let ghost before = out@;
            proof {
                assert(t.take(i as int + 1).drop_last() =~= t.take(i as int));
                assert(t.take(i as int + 1).last() == t[i as int]);
                assert(t[i as int] == (self.impls@[i as int].name@, self.impls@[i as int].item@));
            }
            if list_offers(self.impls[i].item.as_slice(), encode) {
                out.push(CodecId(self.impls[i].name.clone()));
                assert(out@.map_values(|c: CodecId| c.0@) =~= before.map_values(
                    |c: CodecId| c.0@,
                ).push(t[i as int].0));
            }
            i += 1;
        }
        assert(t.take(t.len() as int) =~= t);
        out
    }

    /// The codec ids that have at least one decoder implementation, in
    /// registration order of their first implementation.
    pub fn decoder_ids(&self) -> (r: Vec<CodecId>)
        ensures
            r@.map_values(|c: CodecId| c.0@) == offering_ids(self.impl_table(), false),
    {
        self.ids_offering(false)
    }

    /// The codec ids that have at least one encoder implementation, in
    /// registration order of their first implementation.
    pub fn encoder_ids(&self) -> (r: Vec<CodecId>)
        ensures
            r@.map_values(|c: CodecId| c.0@) == offering_ids(self.impl_table(), true),
    {
        self.ids_offering(true)
    }

    /// The registrations that claimed `tag`, as registration indices in
    /// registration order, each as often as it claimed the tag.
    pub fn tag_claimants(&self, tag: &CodecTag) -> (r: Vec<usize>)
        ensures
            r@.map_values(|x: usize| x as nat) == tag_claims(self.claims(), *tag),
    {
        let ghost regs = self.claims();
        let mut out: Vec<usize> = Vec::new();
        let mut i: usize = 0;
        while i < self.registrations.len()
            invariant
                regs == self.claims(),
                regs.len() == self.registrations@.len(),
                i <= regs.len(),
                out@.map_values(|x: usize| x as nat) == tag_claims(regs.take(i as int), *tag),
            decreases regs.len() - i,
        {
            let tags = &self.registrations[i].tags;
            let ghost base = out@.map_values(|x: usize| x as nat);
            let ghost p = names_tag(*tag);
            assert(regs[i as int].1 == tags@);
            assert(tags@.take(0).filter(p) =~= Seq::<CodecTag>::empty());
            assert(Seq::new(0, |k: int| i as nat) =~= Seq::<nat>::empty());
            assert(out@.map_values(|x: usize| x as nat) =~= base);
            let mut j: usize = 0;
            while j < tags.len()
                invariant
                    j <= tags@.len(),
                    i < regs.len(),
                    p == names_tag(*tag),
                    out@.map_values(|x: usize| x as nat) == base + Seq::new(
                        tag_count(tags@.take(j as int), *tag),
                        |k: int| i as nat,
                    ),
                decreases tags@.len() - j,
            {
                let ghost n = tag_count(tags@.take(j as int), *tag);
                proof {
                    assert(tags@.take(j as int + 1) =~= tags@.take(j as int).push(tags@[j as int]));
                    tags@.take(j as int).lemma_filter_push(tags@[j as int], p);
                }
                if tags[j] == *tag {
                    let ghost before = out@;
                    out.push(i);
                    assert(out@.map_values(|x: usize| x as nat) =~= before.map_values(
                        |x: usize| x as nat,
                    ).push(i as nat));
                    assert(Seq::new(n + 1, |k: int| i as nat) =~= Seq::new(n, |k: int| i as nat).push(
                        i as nat,
                    ));
                    assert(out@.map_values(|x: usize| x as nat) =~= base + Seq::new(
                        n + 1,
                        |k: int| i as nat,
                    ));
                }
                j += 1;
            }
            proof {
                assert(tags@.take(tags@.len() as int) =~= tags@);
                assert(regs.take(i as int + 1).drop_last() =~= regs.take(i as int));
                assert(regs.take(i as int + 1).last() == regs[i as int]);
            }
            i += 1;
        }
        assert(regs.take(regs.len() as int) =~= regs);
        out
    }

    /// The implementations of `params.codec_id` that can serve `params`,
    /// in registration order: those with the factory `encode` names
    /// whose capabilities admit the parameters.
    fn candidates(&self, params: &CodecParameters, encode: bool) -> (r: Vec<
        &CodecImplementation<D, E>,
    >)
        requires
            self.wf(),
        ensures
            r@.map_values(|x: &CodecImplementation<D, E>| *x) == (match lookup(
                self.impl_table(),
                params.codec_id.0@,
            ) {
                Some(l) => l,
                None => Seq::<CodecImplementation<D, E>>::empty(),
            }).filter(fits_for(*params, encode)),
    {
        let list = self.implementations(&params.codec_id);
        let ghost pred = fits_for::<D, E>(*params, encode);
        let mut out: Vec<&CodecImplementation<D, E>> = Vec::new();
        let mut k: usize = 0;
        assert(list@.take(0).filter(pred) =~= Seq::<CodecImplementation<D, E>>::empty());
        assert(out@.map_values(|x: &CodecImplementation<D, E>| *x) =~= Seq::<
            CodecImplementation<D, E>,
        >::empty());
        while k < list.len()
            invariant
                k <= list@.len(),
                pred == fits_for::<D, E>(*params, encode),
                out@.map_values(|x: &CodecImplementation<D, E>| *x) == list@.take(k as int).filter(
                    pred,
                ),
            decreases list@.len() - k,
        {
            proof {
                assert(list@.take(k as int + 1) =~= list@.take(k as int).push(list@[k as int]));
                list@.take(k as int).lemma_filter_push(list@[k as int], pred);
            }
            let imp = &list[k];
            let has = if encode {
                imp.make_encoder.is_some()
            } else {
                imp.make_decoder.is_some()
            };
            if has && caps_fit_params(&imp.caps, params) {
                let ghost before = out@;
                out.push(imp);
                assert(out@.map_values(|x: &CodecImplementation<D, E>| *x) =~= before.map_values(
                    |x: &CodecImplementation<D, E>| *x,
                ).push(*imp));
            }
            k += 1;
        }
        assert(list@.take(list@.len() as int) =~= list@);
        out
    }

    /// The decoder implementations of `params.codec_id` whose
    /// capabilities admit `params`, in registration order: the
    /// candidates a decoder is built from, before any ranking.
    pub fn decoder_candidates(&self, params: &CodecParameters) -> (r: Vec<&CodecImplementation<D, E>>)
        requires
            self.wf(),
        ensures
            r@.map_values(|x: &CodecImplementation<D, E>| *x) == (match lookup(
                self.impl_table(),
                params.codec_id.0@,
            ) {
                Some(l) => l,
                None => Seq::<CodecImplementation<D, E>>::empty(),
            }).filter(fits_for(*params, false)),
    {
        self.candidates(params, false)
    }

    /// The encoder implementations of `params.codec_id` whose
    /// capabilities admit `params`, in registration order.
    pub fn encoder_candidates(&self, params: &CodecParameters) -> (r: Vec<&CodecImplementation<D, E>>)
        requires
            self.wf(),
        ensures
            r@.map_values(|x: &CodecImplementation<D, E>| *x) == (match lookup(
                self.impl_table(),
                params.codec_id.0@,
            ) {
                Some(l) => l,
                None => Seq::<CodecImplementation<D, E>>::empty(),
            }).filter(fits_for(*params, true)),
    {
        self.candidates(params, true)
    }

    /// Every (codec id, implementation) pair: the ids in registration
    /// order of their first implementation, each id's implementations
    /// in registration order.
    pub fn all_implementations(&self) -> (r: Vec<(&str, &CodecImplementation<D, E>)>)
        ensures
            r@.map_values(|p: (&str, &CodecImplementation<D, E>)| (p.0@, *p.1)) == flat_impls(
                self.impl_table(),
            ),
    {
        let ghost t = self.impl_table();
        let mut out: Vec<(&str, &CodecImplementation<D, E>)> = Vec::new();
        let mut i: usize = 0;
        assert(out@.map_values(|p: (&str, &CodecImplementation<D, E>)| (p.0@, *p.1)) =~= flat_impls(
            t.take(0),
        ));
        while i < self.impls.len()
            invariant
                t == self.impl_table(),
                t.len() == self.impls@.len(),
                i <= t.len(),
                out@.map_values(|p: (&str, &CodecImplementation<D, E>)| (p.0@, *p.1)) == flat_impls(
                    t.take(i as int),
                ),
            decreases t.len() - i,
        {
            let entry = &self.impls[i];
            let ghost base = out@.map_values(|p: (&str, &CodecImplementation<D, E>)| (p.0@, *p.1));
            let ghost id = entry.name@;
            assert(t[i as int] == (id, entry.item@));
            let mut k: usize = 0;
            assert(out@.map_values(|p: (&str, &CodecImplementation<D, E>)| (p.0@, *p.1)) =~= base
                + entry.item@.take(0).map_values(|x: CodecImplementation<D, E>| (id, x)));
            while k < entry.item.len()
                invariant
                    k <= entry.item@.len(),
                    id == entry.name@,
                    out@.map_values(|p: (&str, &CodecImplementation<D, E>)| (p.0@, *p.1)) == base
                        + entry.item@.take(k as int).map_values(
                        |x: CodecImplementation<D, E>| (id, x),
                    ),
                decreases entry.item@.len() - k,
            {
                let ghost before = out@;
                let name: &str = entry.name.as_str();
                let pair = (name, &entry.item[k]);
                out.push(pair);
                assert(out@.map_values(|p: (&str, &CodecImplementation<D, E>)| (p.0@, *p.1))
                    =~= base + entry.item@.take(k as int + 1).map_values(
                    |x: CodecImplementation<D, E>| (id, x),
                )) by {
                    let f = |p: (&str, &CodecImplementation<D, E>)| (p.0@, *p.1);
                    let g = |x: CodecImplementation<D, E>| (id, x);
                    assert(out@ == before.push(pair));
                    assert(out@.map_values(f) =~= before.map_values(f).push((id, entry.item@[k as int])));
                    assert(entry.item@.take(k as int + 1).map_values(g) =~= entry.item@.take(
                        k as int,
                    ).map_values(g).push((id, entry.item@[k as int])));
                }
                k += 1;
            }
            proof {
                assert(entry.item@.take(entry.item@.len() as int) =~= entry.item@);
                assert(t.take(i as int + 1).drop_last() =~= t.take(i as int));
                assert(t.take(i as int + 1).last() == t[i as int]);
            }
            i += 1;
        }
        assert(t.take(t.len() as int) =~= t);
        out
    }

    /// Every (tag, codec id) claim: the registrations in order, each
    /// with its tags in the order it named them.
    pub fn all_tag_registrations(&self) -> (r: Vec<(&CodecTag, &CodecId)>)
        ensures
            r@.map_values(|p: (&CodecTag, &CodecId)| (*p.0, p.1.0@)) == flat_tags(self.claims()),
    {
        let ghost regs = self.claims();
        let mut out: Vec<(&CodecTag, &CodecId)> = Vec::new();
        let mut i: usize = 0;
        assert(out@.map_values(|p: (&CodecTag, &CodecId)| (*p.0, p.1.0@)) =~= flat_tags(
            regs.take(0),
        ));
        while i < self.registrations.len()
            invariant
                regs == self.claims(),
                regs.len() == self.registrations@.len(),
                i <= regs.len(),
                out@.map_values(|p: (&CodecTag, &CodecId)| (*p.0, p.1.0@)) == flat_tags(
                    regs.take(i as int),
                ),
            decreases regs.len() - i,
        {
            let rec = &self.registrations[i];
            let ghost base = out@.map_values(|p: (&CodecTag, &CodecId)| (*p.0, p.1.0@));
            let ghost id = rec.id.0@;
            assert(regs[i as int] == (id, rec.tags@));
            let mut k: usize = 0;
            assert(out@.map_values(|p: (&CodecTag, &CodecId)| (*p.0, p.1.0@)) =~= base
                + rec.tags@.take(0).map_values(|x: CodecTag| (x, id)));
            while k < rec.tags.len()
                invariant
                    k <= rec.tags@.len(),
                    id == rec.id.0@,
                    out@.map_values(|p: (&CodecTag, &CodecId)| (*p.0, p.1.0@)) == base
                        + rec.tags@.take(k as int).map_values(|x: CodecTag| (x, id)),
                decreases rec.tags@.len() - k,
            {
                let ghost before = out@;
                let pair = (&rec.tags[k], &rec.id);
                out.push(pair);
                assert(out@.map_values(|p: (&CodecTag, &CodecId)| (*p.0, p.1.0@)) =~= base
                    + rec.tags@.take(k as int + 1).map_values(|x: CodecTag| (x, id))) by {
                    let f = |p: (&CodecTag, &CodecId)| (*p.0, p.1.0@);
                    let g = |x: CodecTag| (x, id);
                    assert(out@ == before.push(pair));
                    assert(out@.map_values(f) =~= before.map_values(f).push((rec.tags@[k as int], id)));
                    assert(rec.tags@.take(k as int + 1).map_values(g) =~= rec.tags@.take(
                        k as int,
                    ).map_values(g).push((rec.tags@[k as int], id)));
                }
                k += 1;
            }
            proof {
                assert(rec.tags@.take(rec.tags@.len() as int) =~= rec.tags@);
                assert(regs.take(i as int + 1).drop_last() =~= regs.take(i as int));
                assert(regs.take(i as int + 1).last() == regs[i as int]);
            }
            i += 1;
        }
        assert(regs.take(regs.len() as int) =~= regs);
        out
    }

    /// The codec id of registration `i`.
    pub fn registration_id(&self, i: usize) -> (r: &CodecId)
        requires
            i < self.registrations().len(),
        ensures
            r.0@ == self.registrations()[i as int].0,
    {
        &self.registrations[i].id
    }

    /// The probe of registration `i`, if it brought one.
    pub fn registration_probe(&self, i: usize) -> (r: Option<&P>)
        requires
            i < self.registrations().len(),
        ensures
            r is Some == self.registrations()[i as int].1 is Some,
            r matches Some(p) ==> self.registrations()[i as int].1 == Some(*p),
    {
        match &self.registrations[i].probe {
            Some(p) => Some(p),
            None => None,
        }
    }
}

} // verus!
