use oxideav_core::format::ChannelLayout;
use oxideav_core::stream::{
    CodecId, CodecParameters, CodecResolver, CodecTag, NullCodecResolver, ProbeContext,
};

#[test]
fn fourcc_uppercases_on_construction() {
    let t = CodecTag::fourcc(b"div3");
    assert_eq!(t, CodecTag::Fourcc(*b"DIV3"));
    // Non-alphabetic bytes preserved unchanged.
    let t2 = CodecTag::fourcc(b"MP42");
    assert_eq!(t2, CodecTag::Fourcc(*b"MP42"));
    let t3 = CodecTag::fourcc(&[0xFF, b'a', 0x00, b'1']);
    assert_eq!(t3, CodecTag::Fourcc([0xFF, b'A', 0x00, b'1']));
}

#[test]
fn fourcc_equality_case_insensitive_via_ctor() {
    assert_eq!(CodecTag::fourcc(b"xvid"), CodecTag::fourcc(b"XVID"));
    assert_eq!(CodecTag::fourcc(b"DiV3"), CodecTag::fourcc(b"div3"));
}

#[test]
fn display_printable_fourcc() {
    assert_eq!(CodecTag::fourcc(b"XVID").to_string(), "fourcc(XVID)");
}

#[test]
fn display_non_printable_fourcc_as_hex() {
    let t = CodecTag::Fourcc([0x00, 0x00, 0x00, 0x01]);
    assert_eq!(t.to_string(), "fourcc(0x00000001)");
}

#[test]
fn display_wave_format() {
    assert_eq!(
        CodecTag::wave_format(0x0055).to_string(),
        "wFormatTag(0x0055)"
    );
}

#[test]
fn display_mp4_oti() {
    assert_eq!(CodecTag::mp4_object_type(0x40).to_string(), "mp4_oti(0x40)");
}

#[test]
fn display_matroska() {
    assert_eq!(
        CodecTag::matroska("V_MPEG4/ISO/AVC").to_string(),
        "matroska(V_MPEG4/ISO/AVC)",
    );
}

#[test]
fn null_resolver_resolves_nothing() {
    let r = NullCodecResolver;
    let xvid = CodecTag::fourcc(b"XVID");
    assert!(r.resolve_tag(&ProbeContext::new(&xvid)).is_none());
    let wf = CodecTag::wave_format(0x0055);
    assert!(r.resolve_tag(&ProbeContext::new(&wf)).is_none());
}

#[test]
fn probe_context_builder_fills_hints() {
    let tag = CodecTag::wave_format(0x0001);
    let ctx = ProbeContext::new(&tag)
        .bits(24)
        .channels(2)
        .sample_rate(48_000)
        .header(&[1, 2, 3])
        .packet(&[4, 5]);
    assert_eq!(ctx.bits_per_sample, Some(24));
    assert_eq!(ctx.channels, Some(2));
    assert_eq!(ctx.sample_rate, Some(48_000));
    assert_eq!(ctx.header.unwrap(), &[1, 2, 3]);
    assert_eq!(ctx.packet.unwrap(), &[4, 5]);
}


#[test]
fn audio_params_default_to_no_layout() {
    let p = CodecParameters::audio(CodecId::new("pcm_s16le"));
    assert!(p.channel_layout.is_none());
    assert!(p.channels.is_none());
    assert!(p.resolved_layout().is_none());
    assert!(p.resolved_channels().is_none());
}

#[test]
fn channels_only_infers_layout_via_from_count() {
    let p = CodecParameters::audio(CodecId::new("pcm_s16le")).channels(6);
    assert_eq!(p.channels, Some(6));
    assert!(p.channel_layout.is_none());
    assert_eq!(p.resolved_layout(), Some(ChannelLayout::Surround51));
    assert_eq!(p.resolved_channels(), Some(6));
}

#[test]
fn explicit_layout_wins_over_count() {
    let p = CodecParameters::audio(CodecId::new("ac3"))
        .channels(6)
        .channel_layout(ChannelLayout::Surround60);
    // 6ch by-count would default to Surround51, but the explicit
    // layout overrides.
    assert_eq!(p.resolved_layout(), Some(ChannelLayout::Surround60));
    assert_eq!(p.resolved_channels(), Some(6));
}

#[test]
fn layout_only_yields_count_via_resolved_channels() {
    let p =
        CodecParameters::audio(CodecId::new("ac3")).channel_layout(ChannelLayout::Surround71);
    assert!(p.channels.is_none());
    assert_eq!(p.resolved_channels(), Some(8));
    assert_eq!(p.resolved_layout(), Some(ChannelLayout::Surround71));
}


#[test]
fn codec_parameters_device_index_defaults_to_none() {
    assert!(CodecParameters::audio(CodecId::new("pcm_s16le"))
        .device_index
        .is_none());
    assert!(CodecParameters::video(CodecId::new("h264"))
        .device_index
        .is_none());
    assert!(CodecParameters::subtitle(CodecId::new("srt"))
        .device_index
        .is_none());
    assert!(CodecParameters::data(CodecId::new("bin"))
        .device_index
        .is_none());
}

#[test]
fn codec_parameters_with_device_index_sets_field() {
    let p = CodecParameters::video(CodecId::new("h264")).with_device_index(2);
    assert_eq!(p.device_index, Some(2));
}
