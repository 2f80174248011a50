use wowl::imaging::{flip_to_jpeg, mirror_rgb};

#[test]
fn mirror_swaps_pixels_within_rows() {
    // 3×2 image, pixels numbered so each byte tells where it came from.
    let px: Vec<u8> = (0u8..18).collect();
    let m = mirror_rgb(3, 2, &px);
    assert_eq!(
        m,
        vec![6, 7, 8, 3, 4, 5, 0, 1, 2, 15, 16, 17, 12, 13, 14, 9, 10, 11]
    );
    assert_eq!(mirror_rgb(3, 2, &m), px);
}

#[test]
fn mirror_ignores_bytes_past_the_image() {
    let px: Vec<u8> = vec![1, 2, 3, 4, 5, 6, 99];
    assert_eq!(mirror_rgb(2, 1, &px), vec![4, 5, 6, 1, 2, 3]);
    assert!(mirror_rgb(0, 5, &px).is_empty());
}

#[test]
fn flip_rejects_garbage() {
    assert!(flip_to_jpeg(b"not an image").is_err());
}
