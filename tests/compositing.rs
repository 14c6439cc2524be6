use rembg_rs::compose::{
    apply_alpha, composite_over_bg, estimate_bg_rgb, parse_hex_rgb, parse_hex_rgb_trimmed,
    threshold_mask, ColorError, GrayBuffer, RgbBuffer,
};
use rembg_rs::request::{Device, GpuBackend, ProgressEvent};
use rembg_rs::download::Progress;

fn rgb(w: u32, h: u32, data: Vec<u8>) -> RgbBuffer {
    RgbBuffer { width: w, height: h, data }
}

fn gray(w: u32, h: u32, data: Vec<u8>) -> GrayBuffer {
    GrayBuffer { width: w, height: h, data }
}

#[test]
fn mask_binarisation() {
    let mut m = gray(2, 2, vec![0, 127, 128, 255]);
    threshold_mask(&mut m, Some(128));
    assert_eq!(m.data, vec![0, 0, 255, 255]);
    let mut n = gray(1, 2, vec![3, 200]);
    threshold_mask(&mut n, None);
    assert_eq!(n.data, vec![3, 200]);
}

#[test]
fn background_estimate() {
    assert_eq!(estimate_bg_rgb(&rgb(0, 0, vec![])), (255, 255, 255));
    assert_eq!(estimate_bg_rgb(&rgb(1, 1, vec![10, 20, 30])), (10, 20, 30));
    // 2x1: patch side 1; corners are pixels 0, 1, 0, 1.
    assert_eq!(estimate_bg_rgb(&rgb(2, 1, vec![0, 0, 0, 100, 50, 7])), (50, 25, 3));
    // 7x7: six-pixel patches; only the bottom-right one holds pixel (6, 6).
    let mut data = vec![0u8; 7 * 7 * 3];
    data[(6 * 7 + 6) * 3] = 144;
    data[(3 * 7 + 3) * 3 + 1] = 144;
    assert_eq!(estimate_bg_rgb(&rgb(7, 7, data)), (1, 4, 0));
}

#[test]
fn alpha_from_mask_and_color_key() {
    let img = rgb(2, 1, vec![10, 10, 10, 200, 0, 0]);
    let mask = gray(2, 1, vec![100, 200]);
    let out = apply_alpha(&img, &mask, None, None);
    assert_eq!(out.data, vec![10, 10, 10, 100, 200, 0, 0, 200]);
    let out = apply_alpha(&img, &mask, Some(150), None);
    assert_eq!(out.data, vec![10, 10, 10, 0, 200, 0, 0, 255]);
    // Background estimate is (105, 5, 5); pixel 0 is 95^2+5^2+5^2 away.
    let out = apply_alpha(&img, &mask, None, Some(96));
    assert_eq!(out.data, vec![10, 10, 10, 0, 200, 0, 0, 0]);
    let out = apply_alpha(&img, &mask, None, Some(0));
    assert_eq!(out.data, vec![10, 10, 10, 100, 200, 0, 0, 200]);
}

#[test]
fn composite_blends_over_color() {
    let img = rgb(2, 1, vec![255, 0, 100, 0, 0, 0]);
    let mask = gray(2, 1, vec![255, 128]);
    let out = composite_over_bg(&img, &mask, None, "#0000ff").unwrap();
    // Pixel 1: (0*128 + bg*127 + 127)/255 for each channel.
    assert_eq!(out.data, vec![255, 0, 100, 0, 0, 127]);
    let out = composite_over_bg(&img, &mask, Some(200), "ffffff").unwrap();
    assert_eq!(out.data, vec![255, 0, 100, 255, 255, 255]);
    assert!(composite_over_bg(&img, &mask, None, "blue").is_err());
}

#[test]
fn hex_colors() {
    assert_eq!(parse_hex_rgb("#ff8000"), Ok((255, 128, 0)));
    assert_eq!(parse_hex_rgb("  A0b1C2 "), Ok((160, 177, 194)));
    assert_eq!(parse_hex_rgb_trimmed("+f+f+f"), Ok((15, 15, 15)));
    assert_eq!(
        parse_hex_rgb_trimmed("#12345"),
        Err(ColorError::InvalidLength { text: "12345".to_string() })
    );
    assert_eq!(
        parse_hex_rgb_trimmed("gg0000"),
        Err(ColorError::InvalidHex { text: "gg0000".to_string() })
    );
    assert!(matches!(parse_hex_rgb("##ff800"), Err(ColorError::InvalidHex { .. })));
    assert!(matches!(parse_hex_rgb("##ff8000"), Err(ColorError::InvalidLength { .. })));
}

#[test]
fn request_conversions() {
    assert_eq!(Device::Gpu.to_cli(), rembg_rs::cli::Device::Gpu);
    assert_eq!(GpuBackend::Directml.to_cli(), rembg_rs::cli::GpuBackend::Directml);
    let e = ProgressEvent::download(
        "runtime",
        "https://x/y.whl",
        Progress { downloaded: 5, total: None, elapsed_ms: 1, done: true },
    );
    assert_eq!(e.stage, "runtime");
    assert_eq!(e.url.as_deref(), Some("https://x/y.whl"));
    assert_eq!(e.downloaded, Some(5));
    assert_eq!(e.done, Some(true));
    let s = ProgressEvent::stage("decode", None);
    assert!(s.url.is_none() && s.message.is_none());
}
