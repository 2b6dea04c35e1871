use oxideav_core::error::Error;
use oxideav_core::format::PixelFormat;
use oxideav_core::frame::{VideoFrame, VideoPlane};
use oxideav_core::registry::codec::video_frame_to_arena_sync_frame;

fn plane(stride: usize, data: Vec<u8>) -> VideoPlane {
    VideoPlane { stride, data }
}

#[test]
fn three_planes_are_packed_one_after_another() {
    let v = VideoFrame {
        pts: Some(9),
        planes: vec![plane(4, vec![1; 8]), plane(2, vec![2; 2]), plane(2, vec![3; 2])],
    };
    let f = video_frame_to_arena_sync_frame(&v).ok().expect("converts");
    assert_eq!(f.plane_count(), 3);
    assert_eq!(f.plane(0), Some(&[1u8; 8][..]));
    assert_eq!(f.plane(1), Some(&[2u8; 2][..]));
    assert_eq!(f.plane(2), Some(&[3u8; 2][..]));
    let h = f.header();
    assert_eq!((h.width, h.height), (4, 2));
    assert_eq!(h.pixel_format, PixelFormat::Yuv420P);
    assert_eq!(h.presentation_timestamp, Some(9));
}

#[test]
fn header_guesses_follow_the_plane_count() {
    let one = VideoFrame { pts: None, planes: vec![plane(0, vec![7; 5])] };
    let f = video_frame_to_arena_sync_frame(&one).ok().expect("converts");
    // A zero stride counts as one.
    assert_eq!((f.header().width, f.header().height), (1, 5));
    assert_eq!(f.header().pixel_format, PixelFormat::Gray8);
    let two = VideoFrame { pts: None, planes: vec![plane(1, vec![1]), plane(1, vec![2])] };
    let f2 = video_frame_to_arena_sync_frame(&two).ok().expect("converts");
    assert_eq!(f2.header().pixel_format, PixelFormat::Yuv444P);
}

#[test]
fn conversion_errors() {
    let none = VideoFrame { pts: None, planes: Vec::new() };
    match video_frame_to_arena_sync_frame(&none) {
        Err(Error::InvalidData(m)) => assert_eq!(m, "receive_arena_frame: video frame has no planes"),
        _ => panic!("expected InvalidData"),
    }
    let empty = VideoFrame { pts: None, planes: vec![plane(4, Vec::new())] };
    match video_frame_to_arena_sync_frame(&empty) {
        Err(Error::InvalidData(m)) => {
            assert_eq!(m, "receive_arena_frame: video frame planes are empty")
        }
        _ => panic!("expected InvalidData"),
    }
    let five = VideoFrame { pts: None, planes: (0..5).map(|_| plane(1, vec![1])).collect() };
    match video_frame_to_arena_sync_frame(&five) {
        Err(Error::InvalidData(m)) => {
            assert_eq!(m, "FrameInner supports at most 4 planes (got 5)")
        }
        _ => panic!("expected InvalidData"),
    }
}

use oxideav_core::registry::codec::{
    caps_fit_params, CodecCapabilities, CodecInfo, CodecRegistry,
};
use oxideav_core::stream::{CodecId, CodecParameters, CodecTag};

type Reg = CodecRegistry<u8, u16, u32>;

#[test]
fn register_keeps_one_implementation_list_per_id() {
    let mut reg = Reg::new();
    reg.register(CodecInfo::new(CodecId::new("flac")).decoder(1).tag(CodecTag::fourcc(b"FLAC")));
    reg.register(CodecInfo::new(CodecId::new("flac")).encoder(2));
    // A tag-only registration adds no implementation.
    reg.register(CodecInfo::new(CodecId::new("opus")).tag(CodecTag::fourcc(b"OPUS")));
    let flac = reg.implementations(&CodecId::new("flac"));
    assert_eq!(flac.len(), 2);
    assert!(flac[0].caps.decode && !flac[0].caps.encode);
    assert_eq!(flac[0].make_decoder, Some(1));
    assert!(flac[1].caps.encode && !flac[1].caps.decode);
    assert_eq!(flac[1].make_encoder, Some(2));
    assert!(reg.implementations(&CodecId::new("opus")).is_empty());
    assert!(reg.has_decoder(&CodecId::new("flac")));
    assert!(reg.has_encoder(&CodecId::new("flac")));
    assert!(!reg.has_decoder(&CodecId::new("opus")));
    assert!(!reg.has_encoder(&CodecId::new("mp3")));
}

#[test]
fn caps_limits_filter_parameters() {
    let mut caps = CodecCapabilities::new().with_decode();
    caps.max_width = Some(1920);
    caps.max_channels = Some(2);
    let small = CodecParameters::video(CodecId::new("h264"));
    assert!(caps_fit_params(&caps, &small));
    let mut wide = CodecParameters::video(CodecId::new("h264"));
    wide.width = Some(3840);
    assert!(!caps_fit_params(&caps, &wide));
    let surround = CodecParameters::audio(CodecId::new("aac")).channels(6);
    assert!(!caps_fit_params(&caps, &surround));
    let stereo = CodecParameters::audio(CodecId::new("aac")).channels(2);
    assert!(caps_fit_params(&caps, &stereo));
}

#[test]
fn codec_info_builders_collect_tags() {
    let info: CodecInfo<u8, u16, u32> = CodecInfo::new(CodecId::new("aac"))
        .probe(7)
        .tag(CodecTag::wave_format(0xFF))
        .tags(vec![CodecTag::mp4_object_type(0x40), CodecTag::matroska("A_AAC")]);
    assert_eq!(info.tags.len(), 3);
    assert_eq!(info.probe, Some(7));
    assert!(info.decoder_factory.is_none());
}

#[test]
fn id_listings_follow_the_factories() {
    let mut reg = Reg::new();
    reg.register(CodecInfo::new(CodecId::new("flac")).decoder(1));
    reg.register(CodecInfo::new(CodecId::new("opus")).encoder(2));
    reg.register(CodecInfo::new(CodecId::new("vorbis")).tag(CodecTag::fourcc(b"VORB")));
    reg.register(CodecInfo::new(CodecId::new("opus")).decoder(3));
    reg.register(CodecInfo::new(CodecId::new("aac")).decoder(4).encoder(5));
    let dec: Vec<String> = reg.decoder_ids().into_iter().map(|c| c.0).collect();
    let enc: Vec<String> = reg.encoder_ids().into_iter().map(|c| c.0).collect();
    assert_eq!(dec, vec!["flac", "opus", "aac"]);
    assert_eq!(enc, vec!["opus", "aac"]);
    for id in ["flac", "opus", "vorbis", "aac"] {
        let c = CodecId::new(id);
        assert_eq!(dec.iter().any(|d| d == id), reg.has_decoder(&c));
        assert_eq!(enc.iter().any(|e| e == id), reg.has_encoder(&c));
    }
}

#[test]
fn tag_claims_keep_registration_order() {
    let mut reg = Reg::new();
    let avc = CodecTag::fourcc(b"avc1");
    reg.register(CodecInfo::new(CodecId::new("h264")).decoder(1).tag(avc.clone()));
    reg.register(CodecInfo::new(CodecId::new("mp3")).tag(CodecTag::wave_format(0x55)));
    reg.register(CodecInfo::new(CodecId::new("h264-hw")).tag(CodecTag::fourcc(b"AVC1")).tag(avc.clone()));
    reg.register(CodecInfo::new(CodecId::new("vp9")).tag(CodecTag::matroska("V_VP9")));
    // Fourcc claims are case-insensitive; a registration claiming a tag
    // twice is listed twice.
    assert_eq!(reg.tag_claimants(&avc), vec![0, 2, 2]);
    assert_eq!(reg.tag_claimants(&CodecTag::wave_format(0x55)), vec![1]);
    assert_eq!(reg.tag_claimants(&CodecTag::matroska("V_VP9")), vec![3]);
    assert!(reg.tag_claimants(&CodecTag::matroska("V_VP8")).is_empty());
    assert_eq!(reg.registration_id(2), &CodecId::new("h264-hw"));
    assert_eq!(reg.registration_probe(0), None);
}

#[test]
fn candidates_keep_factory_and_capability_fits_in_order() {
    let mut reg = Reg::new();
    let mut small = CodecCapabilities::new();
    small.max_width = Some(640);
    reg.register(CodecInfo::new(CodecId::new("h264")).decoder(1).capabilities(small));
    reg.register(CodecInfo::new(CodecId::new("h264")).encoder(2));
    reg.register(CodecInfo::new(CodecId::new("h264")).decoder(3).encoder(4));
    let mut params = CodecParameters::video(CodecId::new("h264"));
    params.width = Some(1920);
    let dec: Vec<Option<u8>> = reg.decoder_candidates(&params).iter().map(|i| i.make_decoder).collect();
    assert_eq!(dec, vec![Some(3)]);
    params.width = Some(320);
    let dec: Vec<Option<u8>> = reg.decoder_candidates(&params).iter().map(|i| i.make_decoder).collect();
    assert_eq!(dec, vec![Some(1), Some(3)]);
    let enc: Vec<Option<u16>> = reg.encoder_candidates(&params).iter().map(|i| i.make_encoder).collect();
    assert_eq!(enc, vec![Some(2), Some(4)]);
    assert!(reg.decoder_candidates(&CodecParameters::video(CodecId::new("vp9"))).is_empty());
}

#[test]
fn listings_walk_every_implementation_and_tag_claim() {
    let mut reg = Reg::new();
    reg.register(CodecInfo::new(CodecId::new("flac")).decoder(1).tag(CodecTag::fourcc(b"fLaC")));
    reg.register(CodecInfo::new(CodecId::new("opus")).encoder(2).tag(CodecTag::matroska("A_OPUS")));
    reg.register(CodecInfo::new(CodecId::new("flac")).encoder(3));
    let all: Vec<(&str, Option<u8>, Option<u16>)> = reg
        .all_implementations()
        .into_iter()
        .map(|(id, i)| (id, i.make_decoder, i.make_encoder))
        .collect();
    assert_eq!(all, vec![("flac", Some(1), None), ("flac", None, Some(3)), ("opus", None, Some(2))]);
    let tags: Vec<(CodecTag, String)> = reg
        .all_tag_registrations()
        .into_iter()
        .map(|(t, id)| (t.clone(), id.0.clone()))
        .collect();
    assert_eq!(
        tags,
        vec![
            (CodecTag::fourcc(b"FLAC"), "flac".to_string()),
            (CodecTag::matroska("A_OPUS"), "opus".to_string())
        ]
    );
}
