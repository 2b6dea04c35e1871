use oxideav_core::format::{ChannelLayout, ChannelPosition, PixelFormat, SampleFormat};
/// Pin every `PixelFormat` and `SampleFormat` discriminant. This is the
/// stability commitment — the integer value of each variant is part of
/// the public ABI. Any reorder, renumber, or removal will fail this test
/// and the change MUST be a major version bump (or a fresh variant
/// appended at a new number, leaving the existing ones untouched).
#[test]
fn pixel_format_discriminants_pinned() {
    assert_eq!(PixelFormat::Yuv420P as u16, 0);
    assert_eq!(PixelFormat::Yuv422P as u16, 1);
    assert_eq!(PixelFormat::Yuv444P as u16, 2);
    assert_eq!(PixelFormat::Rgb24 as u16, 3);
    assert_eq!(PixelFormat::Rgba as u16, 4);
    assert_eq!(PixelFormat::Gray8 as u16, 5);
    assert_eq!(PixelFormat::Pal8 as u16, 6);
    assert_eq!(PixelFormat::Bgr24 as u16, 7);
    assert_eq!(PixelFormat::Bgra as u16, 8);
    assert_eq!(PixelFormat::Argb as u16, 9);
    assert_eq!(PixelFormat::Abgr as u16, 10);
    assert_eq!(PixelFormat::Rgb48Le as u16, 11);
    assert_eq!(PixelFormat::Rgba64Le as u16, 12);
    assert_eq!(PixelFormat::Gray16Le as u16, 13);
    assert_eq!(PixelFormat::Gray10Le as u16, 14);
    assert_eq!(PixelFormat::Gray12Le as u16, 15);
    assert_eq!(PixelFormat::Yuv420P10Le as u16, 16);
    assert_eq!(PixelFormat::Yuv422P10Le as u16, 17);
    assert_eq!(PixelFormat::Yuv444P10Le as u16, 18);
    assert_eq!(PixelFormat::Yuv420P12Le as u16, 19);
    assert_eq!(PixelFormat::Yuv422P12Le as u16, 20);
    assert_eq!(PixelFormat::Yuv444P12Le as u16, 21);
    assert_eq!(PixelFormat::YuvJ420P as u16, 22);
    assert_eq!(PixelFormat::YuvJ422P as u16, 23);
    assert_eq!(PixelFormat::YuvJ444P as u16, 24);
    assert_eq!(PixelFormat::Nv12 as u16, 25);
    assert_eq!(PixelFormat::Nv21 as u16, 26);
    assert_eq!(PixelFormat::Ya8 as u16, 27);
    assert_eq!(PixelFormat::Yuva420P as u16, 28);
    assert_eq!(PixelFormat::MonoBlack as u16, 29);
    assert_eq!(PixelFormat::MonoWhite as u16, 30);
    assert_eq!(PixelFormat::Yuyv422 as u16, 31);
    assert_eq!(PixelFormat::Uyvy422 as u16, 32);
    assert_eq!(PixelFormat::Cmyk as u16, 33);
    assert_eq!(PixelFormat::Yuv411P as u16, 34);
}

#[test]
fn sample_format_discriminants_pinned() {
    assert_eq!(SampleFormat::U8 as u8, 0);
    assert_eq!(SampleFormat::S8 as u8, 1);
    assert_eq!(SampleFormat::S16 as u8, 2);
    assert_eq!(SampleFormat::S24 as u8, 3);
    assert_eq!(SampleFormat::S32 as u8, 4);
    assert_eq!(SampleFormat::F32 as u8, 5);
    assert_eq!(SampleFormat::F64 as u8, 6);
    assert_eq!(SampleFormat::U8P as u8, 7);
    assert_eq!(SampleFormat::S16P as u8, 8);
    assert_eq!(SampleFormat::S32P as u8, 9);
    assert_eq!(SampleFormat::F32P as u8, 10);
    assert_eq!(SampleFormat::F64P as u8, 11);
}

#[test]
fn high_bit_yuv_planar_metadata() {
    // 10-bit reference variants are planar with three planes.
    assert!(PixelFormat::Yuv420P10Le.is_planar());
    assert!(PixelFormat::Yuv422P10Le.is_planar());
    assert!(PixelFormat::Yuv444P10Le.is_planar());

    // 12-bit variants must follow the same shape.
    assert!(PixelFormat::Yuv420P12Le.is_planar());
    assert!(PixelFormat::Yuv422P12Le.is_planar());
    assert!(PixelFormat::Yuv444P12Le.is_planar());

    assert_eq!(PixelFormat::Yuv420P12Le.plane_count(), 3);
    assert_eq!(PixelFormat::Yuv422P12Le.plane_count(), 3);
    assert_eq!(PixelFormat::Yuv444P12Le.plane_count(), 3);

    // None of the high-bit YUV variants carry alpha or palette.
    assert!(!PixelFormat::Yuv422P12Le.has_alpha());
    assert!(!PixelFormat::Yuv444P12Le.has_alpha());
    assert!(!PixelFormat::Yuv422P12Le.is_palette());
    assert!(!PixelFormat::Yuv444P12Le.is_palette());
}

#[test]
fn channel_layout_round_trip_count_for_known_layouts() {
    // For every `n` that `from_count` maps to a named layout, the
    // resulting layout's `channel_count()` must equal `n` again.
    for n in 1..=8u16 {
        let layout = ChannelLayout::from_count(n);
        assert_eq!(layout.channel_count(), n, "round-trip failed for n={n}");
        // None of these defaults should fall through to DiscreteN.
        assert!(
            !matches!(layout, ChannelLayout::DiscreteN(_)),
            "from_count({n}) unexpectedly produced DiscreteN"
        );
    }
}

#[test]
fn channel_layout_from_count_default_table() {
    // The exact mapping documented on `from_count` — pin it so
    // future refactors don't silently change the inferred layout.
    assert_eq!(ChannelLayout::from_count(1), ChannelLayout::Mono);
    assert_eq!(ChannelLayout::from_count(2), ChannelLayout::Stereo);
    assert_eq!(ChannelLayout::from_count(3), ChannelLayout::Surround30);
    assert_eq!(ChannelLayout::from_count(4), ChannelLayout::Quad);
    assert_eq!(ChannelLayout::from_count(5), ChannelLayout::Surround50);
    assert_eq!(ChannelLayout::from_count(6), ChannelLayout::Surround51);
    assert_eq!(ChannelLayout::from_count(7), ChannelLayout::Surround61);
    assert_eq!(ChannelLayout::from_count(8), ChannelLayout::Surround71);
}

#[test]
fn channel_layout_unknown_count_falls_through_to_discrete() {
    assert_eq!(ChannelLayout::from_count(0), ChannelLayout::DiscreteN(0));
    assert_eq!(ChannelLayout::from_count(13), ChannelLayout::DiscreteN(13));
    assert_eq!(
        ChannelLayout::from_count(64).channel_count(),
        64,
        "DiscreteN must report the count it was constructed with"
    );
}

#[test]
fn channel_layout_position_lookup() {
    assert_eq!(
        ChannelLayout::Stereo.position(0),
        Some(ChannelPosition::FrontLeft)
    );
    assert_eq!(
        ChannelLayout::Stereo.position(1),
        Some(ChannelPosition::FrontRight)
    );
    assert_eq!(ChannelLayout::Stereo.position(2), None);

    // 5.1 canonical: L, R, C, LFE, Ls, Rs.
    let s51 = ChannelLayout::Surround51;
    assert_eq!(s51.position(0), Some(ChannelPosition::FrontLeft));
    assert_eq!(s51.position(1), Some(ChannelPosition::FrontRight));
    assert_eq!(s51.position(2), Some(ChannelPosition::FrontCenter));
    assert_eq!(s51.position(3), Some(ChannelPosition::LowFrequency));
    assert_eq!(s51.position(4), Some(ChannelPosition::SideLeft));
    assert_eq!(s51.position(5), Some(ChannelPosition::SideRight));
    assert_eq!(s51.position(6), None);

    // DiscreteN never reveals a position.
    assert_eq!(ChannelLayout::DiscreteN(13).position(0), None);
}

#[test]
fn channel_layout_lfe_and_surround_predicates() {
    assert!(ChannelLayout::Surround51.has_lfe());
    assert!(ChannelLayout::Surround71.has_lfe());
    assert!(ChannelLayout::Stereo21.has_lfe());
    assert!(!ChannelLayout::Quad.has_lfe());
    assert!(!ChannelLayout::Surround50.has_lfe());
    assert!(!ChannelLayout::Stereo.has_lfe());

    assert!(!ChannelLayout::Mono.is_surround());
    assert!(!ChannelLayout::Stereo.is_surround());
    // Downmix carriers are still 2ch / no-LFE → not "surround" by
    // the layout-shape definition; the surround info lives in the
    // sample matrix itself.
    assert!(!ChannelLayout::LoRo.is_surround());
    assert!(!ChannelLayout::LtRt.is_surround());
    assert!(ChannelLayout::Stereo21.is_surround());
    assert!(ChannelLayout::Surround51.is_surround());
    assert!(ChannelLayout::Surround71.is_surround());
}

#[test]
fn channel_layout_display_and_fromstr_round_trip() {
    let cases = [
        ChannelLayout::Mono,
        ChannelLayout::Stereo,
        ChannelLayout::Stereo21,
        ChannelLayout::Surround30,
        ChannelLayout::Quad,
        ChannelLayout::Surround40,
        ChannelLayout::Surround41,
        ChannelLayout::Surround50,
        ChannelLayout::Surround51,
        ChannelLayout::Surround60,
        ChannelLayout::Surround61,
        ChannelLayout::Surround70,
        ChannelLayout::Surround71,
        ChannelLayout::LoRo,
        ChannelLayout::LtRt,
        ChannelLayout::DiscreteN(13),
    ];
    for layout in cases {
        let s = layout.to_string();
        let parsed = ChannelLayout::from_str(&s).expect("display output must parse back");
        assert_eq!(parsed, layout, "round-trip failed via {s:?}");
    }
}

#[test]
fn channel_layout_fromstr_accepts_aliases_and_case() {
    assert_eq!(
        ChannelLayout::from_str("STEREO").unwrap(),
        ChannelLayout::Stereo
    );
    assert_eq!(
        ChannelLayout::from_str("2.0").unwrap(),
        ChannelLayout::Stereo
    );
    assert_eq!(
        ChannelLayout::from_str("5.1").unwrap(),
        ChannelLayout::Surround51
    );
    assert_eq!(
        ChannelLayout::from_str("Lo/Ro").unwrap(),
        ChannelLayout::LoRo
    );
    assert_eq!(
        ChannelLayout::from_str("lt/rt").unwrap(),
        ChannelLayout::LtRt
    );
    assert!(ChannelLayout::from_str("absurd_layout").is_err());
}

#[test]
fn channel_layout_positions_owned_matches_static_slice() {
    for layout in [
        ChannelLayout::Mono,
        ChannelLayout::Surround51,
        ChannelLayout::Surround71,
    ] {
        assert_eq!(layout.positions_owned(), layout.positions());
    }
    // DiscreteN returns an empty owned vec — positions are unknown.
    assert!(ChannelLayout::DiscreteN(7).positions_owned().is_empty());
}

#[test]
fn sample_format_plane_count_interleaved_is_one() {
    // Interleaved formats always pack into a single plane, regardless
    // of channel count.
    for ch in [1u16, 2, 6, 8, 64, 0] {
        assert_eq!(SampleFormat::S16.plane_count(ch), 1);
        assert_eq!(SampleFormat::F32.plane_count(ch), 1);
        assert_eq!(SampleFormat::U8.plane_count(ch), 1);
        assert_eq!(SampleFormat::S24.plane_count(ch), 1);
    }
}

#[test]
fn sample_format_plane_count_planar_matches_channels() {
    // Planar formats use one plane per channel.
    assert_eq!(SampleFormat::S16P.plane_count(1), 1);
    assert_eq!(SampleFormat::S16P.plane_count(2), 2);
    assert_eq!(SampleFormat::F32P.plane_count(6), 6);
    assert_eq!(SampleFormat::F64P.plane_count(8), 8);

    // Edge case: zero channels in a planar format yields zero planes.
    assert_eq!(SampleFormat::S32P.plane_count(0), 0);
}

#[test]
fn high_bit_yuv_bits_per_pixel_approx() {
    // 4:2:2 and 4:4:4 12-bit match their 10-bit siblings on the
    // packed-bits estimator (the approximation reports samples-per-pixel
    // density, not the 16-bit storage width).
    assert_eq!(PixelFormat::Yuv422P10Le.bits_per_pixel_approx(), 32);
    assert_eq!(PixelFormat::Yuv422P12Le.bits_per_pixel_approx(), 32);
    assert_eq!(PixelFormat::Yuv444P10Le.bits_per_pixel_approx(), 48);
    assert_eq!(PixelFormat::Yuv444P12Le.bits_per_pixel_approx(), 48);
    assert_eq!(PixelFormat::Yuv420P12Le.bits_per_pixel_approx(), 24);
}
