//! Uncompressed audio and video frames.

use vstd::prelude::*;

verus! {

/// Uncompressed audio frame.
///
/// Stream-level properties (sample format, channel count, sample rate,
/// time base) are NOT carried per-frame — read them from the stream's
/// [`CodecParameters`](crate::CodecParameters).
///
/// Interleaved formats use one plane in `data`; planar formats use one
/// plane per channel (see
/// [`SampleFormat::plane_count`](crate::SampleFormat::plane_count)).
#[derive(Clone, Debug)]
pub struct AudioFrame {
    /// Number of samples *per channel* in this frame.
    pub samples: u32,
    /// Presentation timestamp in the stream's time base; `None` if unknown.
    pub pts: Option<i64>,
    /// Raw sample bytes, one entry per plane.
    pub data: Vec<Vec<u8>>,
}

/// Uncompressed video frame.
///
/// # Palette side-channel
///
/// Frames in a palette-indexed format can carry their colour table
/// in-band as a trailing [`VideoPlane`] whose `stride` is `0` and whose
/// `data` is non-empty. That shape is impossible for an image plane (an
/// image plane's `data` is `stride × rows` long, so a zero stride forces
/// empty data), which makes the sentinel unambiguous.
#[derive(Clone, Debug)]
pub struct VideoFrame {
    /// Presentation timestamp in the stream's time base; `None` if unknown.
    pub pts: Option<i64>,
    /// One entry per plane, possibly followed by the palette
    /// side-channel entry. Iterate [`Self::image_planes`] for pixel data.
    pub planes: Vec<VideoPlane>,
}

/// One plane of a [`VideoFrame`]: row-major sample bytes plus the
/// stride between rows.
#[derive(Clone, Debug)]
pub struct VideoPlane {
    /// Bytes per row in `data`.
    pub stride: usize,
    /// Raw plane bytes, `stride × rows` long.
    pub data: Vec<u8>,
}

/// A plane entry shaped like the palette sentinel: zero stride,
/// non-empty data.
pub open spec fn is_palette_entry(p: VideoPlane) -> bool {
    p.stride == 0 && p.data@.len() > 0
}

/// The plane list ends with a palette side-channel entry.
pub open spec fn ends_with_palette(planes: Seq<VideoPlane>) -> bool {
    planes.len() > 0 && is_palette_entry(planes.last())
}

/// The image planes of a plane list: everything but a trailing
/// palette entry.
pub open spec fn image_planes_of(planes: Seq<VideoPlane>) -> Seq<VideoPlane> {
    if ends_with_palette(planes) {
        planes.drop_last()
    } else {
        planes
    }
}

/// The palette bytes a plane list carries, if any.
pub open spec fn palette_of(planes: Seq<VideoPlane>) -> Option<Seq<u8>> {
    if ends_with_palette(planes) {
        Some(planes.last().data@)
    } else {
        None
    }
}

/// Image-plane views of two plane lists agree entry by entry (stride
/// and bytes).
pub open spec fn same_planes(a: Seq<VideoPlane>, b: Seq<VideoPlane>) -> bool {
    &&& a.len() == b.len()
    &&& forall|i: int|
        0 <= i < a.len() ==> (#[trigger] a[i]).stride == b[i].stride && a[i].data@ == b[i].data@
}

impl VideoFrame {
    /// `true` when the trailing entry of `planes` is a palette
    /// side-channel rather than an image plane.
    fn trailing_plane_is_palette(&self) -> (b: bool)
        ensures
            b == ends_with_palette(self.planes@),
    {
        let n = self.planes.len();
        if n == 0 {
            false
        } else {
            let p = &self.planes[n - 1];
            p.stride == 0 && p.data.len() > 0
        }
    }

    /// The frame's attached palette, if any: packed 3-byte RGB entries,
    /// entry `i` at bytes `3*i .. 3*i + 3`.
    pub fn palette(&self) -> (r: Option<&[u8]>)
        ensures
            (r is Some) == (palette_of(self.planes@) is Some),
            (r matches Some(p) ==> palette_of(self.planes@) == Some(p@)),
    {
        if self.trailing_plane_is_palette() {
            let n = self.planes.len();
            Some(self.planes[n - 1].data.as_slice())
        } else {
            None
        }
    }

    /// The RGB triplet for palette entry `index`, or `None` when no
    /// palette is attached or the table is too short to cover `index`.
    pub fn palette_rgb(&self, index: u8) -> (r: Option<[u8; 3]>)
        ensures
            (r is Some) == (palette_of(self.planes@) matches Some(p) && 3 * index + 3 <= p.len()),
            (r matches Some(e) ==> e@ == palette_of(self.planes@)->0.subrange(
                3 * index as int,
                3 * index + 3,
            )),
    {
        match self.palette() {
            None => None,
            Some(pal) => {
                let at: usize = (index as usize) * 3;
                if at + 3 <= pal.len() {
                    let e = [pal[at], pal[at + 1], pal[at + 2]];
                    assert(e@ =~= pal@.subrange(at as int, at + 3));
                    Some(e)
                } else {
                    None
                }
            },
        }
    }

    /// Attach (or replace) the frame's palette side-channel. The bytes
    /// are stored verbatim; an empty `rgb` removes any attached palette
    /// instead.
    pub fn set_palette(&mut self, rgb: Vec<u8>)
        ensures
            final(self).pts == old(self).pts,
            final(self).planes@ == image_planes_of(old(self).planes@) + (if rgb@.len() > 0 {
                seq![VideoPlane { stride: 0, data: rgb }]
            } else {
                seq![]
            }),
    {
        if self.trailing_plane_is_palette() {
            self.planes.pop();
        }
        let ghost img = self.planes@;
        if rgb.len() > 0 {
            self.planes.push(VideoPlane { stride: 0, data: rgb });
        }
        assert(self.planes@ =~= img + (if rgb@.len() > 0 {
            seq![VideoPlane { stride: 0, data: rgb }]
        } else {
            seq![]
        }));
    }

    /// Builder-style counterpart to [`Self::set_palette`].
    pub fn with_palette(self, rgb: Vec<u8>) -> (f: Self)
        ensures
            f.pts == self.pts,
            f.planes@ == image_planes_of(self.planes@) + (if rgb@.len() > 0 {
                seq![VideoPlane { stride: 0, data: rgb }]
            } else {
                seq![]
            }),
    {
        let mut f = self;
        f.set_palette(rgb);
        f
    }

    /// Detach and return the frame's palette side-channel, if any.
    /// Afterwards the frame carries image planes only.
    pub fn take_palette(&mut self) -> (r: Option<Vec<u8>>)
        ensures
            final(self).pts == old(self).pts,
            final(self).planes@ == image_planes_of(old(self).planes@),
            (r is Some) == (palette_of(old(self).planes@) is Some),
            (r matches Some(p) ==> palette_of(old(self).planes@) == Some(p@)),
    {
        if self.trailing_plane_is_palette() {
            match self.planes.pop() {
                Some(p) => Some(p.data),
                None => None,
            }
        } else {
            None
        }
    }

    /// The frame's image planes — `planes` with the palette
    /// side-channel (if any) excluded.
    pub fn image_planes(&self) -> (r: &[VideoPlane])
        ensures
            r@ == image_planes_of(self.planes@),
    {
        let n = self.image_plane_count();
        let (head, _) = self.planes.as_slice().split_at(n);
        proof {
            if ends_with_palette(self.planes@) {
                assert(self.planes@.subrange(0, n as int) =~= self.planes@.drop_last());
            } else {
                assert(self.planes@.subrange(0, n as int) =~= self.planes@);
            }
        }
        head
    }

    /// Number of image planes (excludes the palette side-channel).
    pub fn image_plane_count(&self) -> (n: usize)
        ensures
            n == image_planes_of(self.planes@).len(),
    {
        if self.trailing_plane_is_palette() {
            self.planes.len() - 1
        } else {
            self.planes.len()
        }
    }
}

/// The image planes of a frame do not end with a palette-shaped entry
/// (true of every frame whose image planes hold `stride × rows` bytes).
pub open spec fn well_formed_image_planes(planes: Seq<VideoPlane>) -> bool {
    !ends_with_palette(image_planes_of(planes))
}

/// Attaching a palette never touches the image planes, and the palette
/// read back is exactly what was attached (an empty table reads back as
/// no palette).
pub proof fn law_set_palette_then_read(planes: Seq<VideoPlane>, rgb: Vec<u8>)
    requires
        well_formed_image_planes(planes),
    ensures
        ({
            let after = image_planes_of(planes) + (if rgb@.len() > 0 {
                seq![VideoPlane { stride: 0, data: rgb }]
            } else {
                seq![]
            });
            &&& image_planes_of(after) == image_planes_of(planes)
            &&& palette_of(after) == (if rgb@.len() > 0 {
                Some(rgb@)
            } else {
                None::<Seq<u8>>
            })
        }),
{
    let img = image_planes_of(planes);
    if rgb@.len() > 0 {
        let after = img + seq![VideoPlane { stride: 0, data: rgb }];
        assert(after.drop_last() =~= img);
    } else {
        assert(img + Seq::<VideoPlane>::empty() =~= img);
    }
}

/// Taking the palette leaves a frame with no palette whose image planes
/// are unchanged.
pub proof fn law_take_palette_clears(planes: Seq<VideoPlane>)
    requires
        well_formed_image_planes(planes),
    ensures
        palette_of(image_planes_of(planes)) is None,
        image_planes_of(image_planes_of(planes)) == image_planes_of(planes),
{
}

} // verus!
