use voxelruler::skin_images::{cape_preview, skin_file_stem, skin_is_slim};

fn picture(w: u32, h: u32) -> Vec<u8> {
    (0..w * h * 4).map(|i| (i % 251) as u8).collect()
}

#[test]
fn slim_when_marker_pixel_is_transparent() {
    let mut rgba = picture(64, 64);
    let alpha = ((20 * 64 + 54) * 4 + 3) as usize;
    rgba[alpha] = 0;
    assert!(skin_is_slim(&rgba, 64, 64));
    rgba[alpha] = 255;
    assert!(!skin_is_slim(&rgba, 64, 64));
    assert!(!skin_is_slim(&picture(64, 32), 64, 32));
}

#[test]
fn cape_front_is_cut_from_64x32() {
    let src = picture(64, 32);
    let (out, w, h) = cape_preview(src.clone(), 64, 32);
    assert_eq!((w, h), (22, 16));
    assert_eq!(out.len(), 22 * 16 * 4);
    let at = |v: &Vec<u8>, width: usize, x: usize, y: usize, c: usize| v[(y * width + x) * 4 + c];
    assert_eq!(at(&out, 22, 0, 0, 0), at(&src, 64, 1, 1, 0));
    assert_eq!(at(&out, 22, 9, 15, 3), at(&src, 64, 10, 16, 3));
    assert_eq!(at(&out, 22, 10, 3, 2), 0);
    assert_eq!(at(&out, 22, 11, 3, 3), 0);
    assert_eq!(at(&out, 22, 12, 0, 1), at(&src, 64, 12, 1, 1));
    assert_eq!(at(&out, 22, 21, 15, 0), at(&src, 64, 21, 16, 0));
    let other = picture(4, 2);
    assert_eq!(cape_preview(other.clone(), 4, 2), (other, 4, 2));
}

#[test]
fn skin_stem_is_last_url_segment_without_png() {
    assert_eq!(skin_file_stem("http://textures.minecraft.net/texture/abc123"), "abc123");
    assert_eq!(skin_file_stem("https://example.com/skins/steve.png"), "steve");
    assert_eq!(skin_file_stem("a.png.png"), "a");
    assert_eq!(skin_file_stem("https://example.com/"), "");
}
