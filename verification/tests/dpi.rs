use piclayout::dpi::{inject_dpi_into_jpeg, inject_icc_into_jpeg};
use piclayout::metadata::extract_icc_profile_from_bytes;

fn minimal_jpeg_without_app0() -> Vec<u8> {
    vec![0xFF, 0xD8, 0xFF, 0xDA, 0x00, 0x02, 0xFF, 0xD9]
}

#[test]
fn inserts_jfif_dpi_when_missing() {
    let out = inject_dpi_into_jpeg(minimal_jpeg_without_app0(), 300);

    assert_eq!(&out[0..4], &[0xFF, 0xD8, 0xFF, 0xE0]);
    assert_eq!(&out[6..11], b"JFIF\0");
    assert_eq!(out[13], 1);
    assert_eq!(u16::from_be_bytes([out[14], out[15]]), 300);
}

#[test]
fn inserts_icc_app2_segments() {
    let out = inject_icc_into_jpeg(inject_dpi_into_jpeg(minimal_jpeg_without_app0(), 300), Some(&[1, 2, 3]));

    assert!(out.windows(12).any(|w| w == b"ICC_PROFILE\0"));
}

#[test]
fn rewriting_dpi_keeps_the_last_value() {
    let once = inject_dpi_into_jpeg(minimal_jpeg_without_app0(), 300);
    let twice = inject_dpi_into_jpeg(once.clone(), 72);
    assert_eq!(twice.len(), once.len());
    assert_eq!(u16::from_be_bytes([twice[14], twice[15]]), 72);
    assert_eq!(u16::from_be_bytes([twice[16], twice[17]]), 72);
    assert_eq!(inject_dpi_into_jpeg(twice, 300), once);
}

#[test]
fn dpi_injection_leaves_non_jpeg_data_alone() {
    let data = vec![1u8, 2, 3, 4];
    assert_eq!(inject_dpi_into_jpeg(data.clone(), 300), data);
}

#[test]
fn missing_icc_profile_keeps_the_jpeg() {
    let jpeg = inject_dpi_into_jpeg(minimal_jpeg_without_app0(), 300);
    assert_eq!(inject_icc_into_jpeg(jpeg.clone(), None), jpeg);
}

#[test]
fn embedded_icc_profile_reads_back() {
    let profile: Vec<u8> = (0..1000u32).map(|i| (i % 251) as u8).collect();
    let jpeg = inject_icc_into_jpeg(inject_dpi_into_jpeg(minimal_jpeg_without_app0(), 300), Some(&profile));
    assert_eq!(extract_icc_profile_from_bytes(&jpeg).unwrap(), Some(profile));
}

#[test]
fn large_icc_profile_is_split_and_reassembled() {
    let profile: Vec<u8> = (0..150_000u32).map(|i| (i % 253) as u8).collect();
    let jpeg = inject_icc_into_jpeg(minimal_jpeg_without_app0(), Some(&profile));
    let markers = jpeg.windows(12).filter(|w| w == b"ICC_PROFILE\0").count();
    assert_eq!(markers, 3);
    assert_eq!(extract_icc_profile_from_bytes(&jpeg).unwrap(), Some(profile));
}
