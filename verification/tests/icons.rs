use tray_menu::icon::{check_rgba, BadIcon};
use tray_menu::linux::{icon_image, rgba_to_bgrx, scale_icon, PlatformIcon as X11Icon};
use tray_menu::macos::{EncodeError, PlatformIcon as MacIcon};
use tray_menu::windows::{encode_wide, tip_buffer, Pixel, RgbaIcon, TIP_LEN};

#[test]
fn rgba_check_accepts_matching_buffers() {
    assert_eq!(check_rgba(16, 2, 2), Ok(()));
    assert_eq!(check_rgba(0, 0, 5), Ok(()));
}

#[test]
fn rgba_check_rejects_partial_pixels() {
    assert_eq!(check_rgba(15, 2, 2), Err(BadIcon::ByteCountNotDivisibleBy4 { byte_count: 15 }));
}

#[test]
fn rgba_check_rejects_wrong_dimensions() {
    assert_eq!(
        check_rgba(12, 2, 2),
        Err(BadIcon::DimensionsVsPixelCount { width: 2, height: 2, width_x_height: 4, pixel_count: 3 })
    );
}

#[test]
fn x11_icon_keeps_pixels() {
    let icon = X11Icon::from_rgba(vec![1, 2, 3, 4, 5, 6, 7, 8], 2, 1).unwrap();
    assert_eq!(icon.rgba(), &[1, 2, 3, 4, 5, 6, 7, 8]);
    assert_eq!(icon.width(), 2);
    assert_eq!(icon.height(), 1);
    assert!(matches!(
        X11Icon::from_rgba(vec![0; 7], 1, 1),
        Err(BadIcon::ByteCountNotDivisibleBy4 { byte_count: 7 })
    ));
}

#[test]
fn bgrx_swaps_and_premultiplies() {
    let out = rgba_to_bgrx(&[255, 128, 0, 255, 200, 100, 50, 0, 255, 255, 255, 128]);
    assert_eq!(out, vec![0, 128, 255, 0, 0, 0, 0, 0, 128, 128, 128, 0]);
    assert!(rgba_to_bgrx(&[]).is_empty());
}

#[test]
fn scaling_to_the_same_size_copies() {
    let rgba: Vec<u8> = (0..16).collect();
    assert_eq!(scale_icon(&rgba, 2, 2, 2, 2), rgba);
}

#[test]
fn scaling_up_repeats_pixels() {
    // 2x1 image: red, blue.
    let rgba = vec![255, 0, 0, 255, 0, 0, 255, 255];
    let out = scale_icon(&rgba, 2, 1, 4, 2);
    assert_eq!(out.len(), 4 * 2 * 4);
    let row = vec![255, 0, 0, 255, 255, 0, 0, 255, 0, 0, 255, 255, 0, 0, 255, 255];
    assert_eq!(&out[0..16], row.as_slice());
    assert_eq!(&out[16..32], row.as_slice());
}

#[test]
fn scaling_down_samples_nearest() {
    // 4x1 image with pixel values 10, 20, 30, 40 in the red channel.
    let rgba = vec![10, 0, 0, 1, 20, 0, 0, 2, 30, 0, 0, 3, 40, 0, 0, 4];
    let out = scale_icon(&rgba, 4, 1, 2, 1);
    assert_eq!(out, vec![10, 0, 0, 1, 30, 0, 0, 3]);
    assert!(scale_icon(&rgba, 4, 1, 0, 3).is_empty());
}

#[test]
fn icon_image_scales_then_converts() {
    let rgba = vec![255, 0, 0, 255];
    let out = icon_image(&rgba, 1, 1, 2, 1);
    assert_eq!(out, vec![0, 0, 255, 0, 0, 0, 255, 0]);
}

#[test]
fn pixel_conversion_swaps_red_and_blue_twice_back() {
    let mut p = Pixel { r: 1, g: 2, b: 3, a: 4 };
    p.convert_to_bgra();
    assert_eq!((p.r, p.g, p.b, p.a), (3, 2, 1, 4));
    p.convert_to_bgra();
    assert_eq!((p.r, p.g, p.b, p.a), (1, 2, 3, 4));
}

#[test]
fn windows_bitmaps_from_rgba() {
    let icon = RgbaIcon::from_rgba(vec![10, 20, 30, 255, 40, 50, 60, 0], 2, 1).unwrap();
    let bitmaps = icon.into_bitmaps();
    assert_eq!(bitmaps.and_mask, vec![0, 1]);
    assert_eq!(bitmaps.bgra, vec![30, 20, 10, 255, 60, 50, 40, 0]);
    assert_eq!((bitmaps.width, bitmaps.height), (2, 1));
    assert!(matches!(
        RgbaIcon::from_rgba(vec![0; 8], 3, 1),
        Err(BadIcon::DimensionsVsPixelCount { width: 3, height: 1, width_x_height: 3, pixel_count: 2 })
    ));
}

#[test]
fn wide_strings_are_nul_terminated_utf16() {
    assert_eq!(encode_wide("Quit"), vec![81, 117, 105, 116, 0]);
    assert_eq!(encode_wide(""), vec![0]);
    assert_eq!(encode_wide("é"), vec![0xE9, 0]);
    assert_eq!(encode_wide("😀"), vec![0xD83D, 0xDE00, 0]);
    let expected: Vec<u16> = "Größe 😀 ok".encode_utf16().chain(std::iter::once(0)).collect();
    assert_eq!(encode_wide("Größe 😀 ok"), expected);
}

#[test]
fn tooltips_fill_a_fixed_buffer() {
    let buf = tip_buffer("Hi");
    assert_eq!(buf.len(), TIP_LEN);
    assert_eq!(&buf[0..3], &[72, 105, 0]);
    assert!(buf[3..].iter().all(|u| *u == 0));

    let long: String = std::iter::repeat('x').take(200).collect();
    let buf = tip_buffer(&long);
    assert_eq!(buf.len(), TIP_LEN);
    assert!(buf.iter().all(|u| *u == 'x' as u16));
}

#[test]
fn mac_icon_encodes_png() {
    let icon = MacIcon::from_rgba(vec![255, 0, 0, 255, 0, 255, 0, 128], 2, 1).unwrap();
    assert_eq!(icon.get_size(), (2, 1));
    let png = icon.to_png().unwrap();
    assert_eq!(&png[0..8], &[137, 80, 78, 71, 13, 10, 26, 10]);
    assert!(png.len() > 8);
    assert_ne!(png, vec![255, 0, 0, 255, 0, 255, 0, 128]);
}

#[test]
fn mac_icon_with_wrong_size_fails_to_encode() {
    let icon = MacIcon::from_rgba(vec![1, 2, 3], 2, 1).unwrap();
    assert!(matches!(icon.to_png(), Err(EncodeError::Png(_))));
    let empty = MacIcon::from_rgba(vec![], 0, 0).unwrap();
    assert!(matches!(empty.to_png(), Err(EncodeError::Png(_))));
}

#[test]
fn wide_strings_decode_back() {
    for text in ["", "Quit", "Größe", "😀 ok", "日本語 𝄞"] {
        let wide = encode_wide(text);
        assert_eq!(wide.iter().filter(|u| **u == 0).count(), 1);
        assert_eq!(wide[wide.len() - 1], 0);
        assert_eq!(String::from_utf16(&wide[..wide.len() - 1]).unwrap(), text);
    }
}
