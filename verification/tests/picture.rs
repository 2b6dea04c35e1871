use oxideav_core::picture::PictureType;


#[test]
fn picture_type_known_values() {
    assert_eq!(PictureType::from_u8(0x03), PictureType::FrontCover);
    assert_eq!(PictureType::from_u8(0x07), PictureType::LeadArtist);
    assert_eq!(PictureType::from_u8(0x14), PictureType::PublisherLogo);
}

#[test]
fn picture_type_unknown_collapses() {
    assert_eq!(PictureType::from_u8(0x15), PictureType::Unknown);
    assert_eq!(PictureType::from_u8(0xAB), PictureType::Unknown);
}
