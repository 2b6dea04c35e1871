use oxideav_core::frame::{VideoFrame, VideoPlane};


fn gray_frame() -> VideoFrame {
    // 4×2 Gray8 image plane.
    VideoFrame {
        pts: Some(7),
        planes: vec![VideoPlane {
            stride: 4,
            data: vec![0u8; 8],
        }],
    }
}

/// A full 256-entry table where entry i is (i, !i, i^0x55).
fn full_palette() -> Vec<u8> {
    (0u16..256)
        .flat_map(|i| {
            let i = i as u8;
            [i, !i, i ^ 0x55]
        })
        .collect()
}

#[test]
fn frame_without_palette_reports_none_and_full_image_planes() {
    let f = gray_frame();
    assert_eq!(f.palette(), None);
    assert_eq!(f.palette_rgb(0), None);
    assert_eq!(f.image_plane_count(), 1);
    assert_eq!(f.image_planes().len(), 1);
    assert_eq!(f.image_planes()[0].stride, 4);
}

#[test]
fn set_palette_round_trips_and_keeps_image_planes_intact() {
    let mut f = gray_frame();
    let pal = full_palette();
    f.set_palette(pal.clone());

    assert_eq!(f.palette(), Some(pal.as_slice()));
    // Image-plane view is unchanged by the side-channel.
    assert_eq!(f.image_plane_count(), 1);
    assert_eq!(f.image_planes()[0].data.len(), 8);
    // The raw field sees the sentinel entry at the tail.
    assert_eq!(f.planes.len(), 2);
    assert_eq!(f.planes[1].stride, 0);

    // Entry lookup: entry i is (i, !i, i ^ 0x55) by construction.
    assert_eq!(f.palette_rgb(0), Some([0x00, 0xFF, 0x55]));
    assert_eq!(f.palette_rgb(0xAB), Some([0xAB, 0x54, 0xFE]));
    assert_eq!(f.palette_rgb(255), Some([0xFF, 0x00, 0xAA]));
}

#[test]
fn set_palette_replaces_existing_table() {
    let mut f = gray_frame();
    f.set_palette(vec![1, 2, 3]);
    f.set_palette(vec![9, 8, 7, 6, 5, 4]);
    // Replacement, not stacking: one image plane + one sentinel.
    assert_eq!(f.planes.len(), 2);
    assert_eq!(f.palette(), Some(&[9, 8, 7, 6, 5, 4][..]));
    assert_eq!(f.palette_rgb(1), Some([6, 5, 4]));
}

#[test]
fn short_palette_covers_only_its_entries() {
    let f = gray_frame().with_palette(vec![10, 20, 30, 40, 50, 60]);
    assert_eq!(f.palette_rgb(0), Some([10, 20, 30]));
    assert_eq!(f.palette_rgb(1), Some([40, 50, 60]));
    // Beyond the table: undefined by the frame → None.
    assert_eq!(f.palette_rgb(2), None);
    assert_eq!(f.palette_rgb(255), None);
}

#[test]
fn empty_palette_clears_and_take_palette_detaches() {
    let mut f = gray_frame();
    f.set_palette(vec![1, 2, 3]);
    assert!(f.palette().is_some());

    // Empty input removes the side-channel entirely.
    f.set_palette(Vec::new());
    assert_eq!(f.palette(), None);
    assert_eq!(f.planes.len(), 1);

    // take_palette detaches and returns the bytes.
    f.set_palette(vec![4, 5, 6]);
    assert_eq!(f.take_palette(), Some(vec![4, 5, 6]));
    assert_eq!(f.palette(), None);
    assert_eq!(f.take_palette(), None);
    assert_eq!(f.planes.len(), 1);
}

#[test]
fn zero_stride_empty_plane_is_not_mistaken_for_a_palette() {
    // stride == 0 with EMPTY data is the degenerate (but
    // contract-consistent) empty image plane, not the sentinel.
    let f = VideoFrame {
        pts: None,
        planes: vec![
            VideoPlane {
                stride: 4,
                data: vec![0u8; 8],
            },
            VideoPlane {
                stride: 0,
                data: Vec::new(),
            },
        ],
    };
    assert_eq!(f.palette(), None);
    assert_eq!(f.image_plane_count(), 2);
}

#[test]
fn palette_on_frame_without_image_planes() {
    // A palette can be attached before pixel planes exist (encoder
    // scaffolding); the image-plane view is then empty.
    let f = VideoFrame {
        pts: None,
        planes: Vec::new(),
    }
    .with_palette(vec![1, 2, 3]);
    assert_eq!(f.palette(), Some(&[1, 2, 3][..]));
    assert_eq!(f.image_plane_count(), 0);
    assert!(f.image_planes().is_empty());
}

