use particle_life::icon::{icon_png_bytes, ICON_SIZE};
use particle_life::renderer::{padded_row_bytes, screenshot_png, unpad_rows};
use particle_life::ui::{
    decode_png_rgba, preset_slug, rgb_to_rgba, thumbnail_paths, BenchmarkPanelResponse, Tool, UiResponse,
};

fn encode_rgb(width: u32, height: u32, pixels: &[u8]) -> Vec<u8> {
    let mut out = Vec::new();
    {
        let mut enc = png::Encoder::new(&mut out, width, height);
        enc.set_color(png::ColorType::Rgb);
        enc.set_depth(png::BitDepth::Eight);
        let mut w = enc.write_header().unwrap();
        w.write_image_data(pixels).unwrap();
    }
    out
}

#[test]
fn rgb_is_widened_with_opaque_alpha() {
    assert_eq!(rgb_to_rgba(&vec![1, 2, 3, 4, 5, 6]), vec![1, 2, 3, 255, 4, 5, 6, 255]);
    assert_eq!(rgb_to_rgba(&vec![]), Vec::<u8>::new());
}

#[test]
fn icon_png_decodes_back_to_its_pixels() {
    let n = (ICON_SIZE * ICON_SIZE * 4) as usize;
    let pixels: Vec<u8> = (0..n).map(|i| (i * 7 % 251) as u8).collect();
    let png = icon_png_bytes(&pixels);
    assert_eq!(&png[..8], &[137, 80, 78, 71, 13, 10, 26, 10]);
    let (w, h, rgba) = decode_png_rgba(&png).expect("decodes");
    assert_eq!((w, h), (64, 64));
    assert_eq!(rgba, pixels);
}

#[test]
fn rgb_thumbnail_decodes_to_rgba() {
    let png = encode_rgb(2, 1, &[10, 20, 30, 40, 50, 60]);
    assert_eq!(decode_png_rgba(&png), Some((2, 1, vec![10, 20, 30, 255, 40, 50, 60, 255])));
}

#[test]
fn grey_or_broken_thumbnails_are_rejected() {
    let mut out = Vec::new();
    {
        let mut enc = png::Encoder::new(&mut out, 1, 1);
        enc.set_color(png::ColorType::Grayscale);
        enc.set_depth(png::BitDepth::Eight);
        enc.write_header().unwrap().write_image_data(&[9]).unwrap();
    }
    assert_eq!(decode_png_rgba(&out), None);
    assert_eq!(decode_png_rgba(&[1, 2, 3]), None);
}

#[test]
fn padded_rows_are_aligned() {
    assert_eq!(padded_row_bytes(1), 256);
    assert_eq!(padded_row_bytes(64), 256);
    assert_eq!(padded_row_bytes(65), 512);
    assert_eq!(padded_row_bytes(1280), 5120);
    assert_eq!(padded_row_bytes(0), 0);
}

#[test]
fn readback_strips_padding_and_swaps_bgra() {
    // Two rows of two pixels, stride 12 bytes.
    let mapped: Vec<u8> = vec![
        1, 2, 3, 4, 5, 6, 7, 8, 90, 91, 92, 93, //
        11, 12, 13, 14, 15, 16, 17, 18, 94, 95, 96, 97,
    ];
    assert_eq!(
        unpad_rows(&mapped, 2, 2, 12, false),
        vec![1, 2, 3, 4, 5, 6, 7, 8, 11, 12, 13, 14, 15, 16, 17, 18]
    );
    assert_eq!(
        unpad_rows(&mapped, 2, 2, 12, true),
        vec![3, 2, 1, 4, 7, 6, 5, 8, 13, 12, 11, 14, 17, 16, 15, 18]
    );
}

#[test]
fn screenshot_png_holds_the_unpadded_pixels() {
    let width = 3u32;
    let height = 2u32;
    let stride = padded_row_bytes(width) as usize;
    let mut mapped = vec![0u8; stride * height as usize];
    for row in 0..height as usize {
        for b in 0..12 {
            mapped[row * stride + b] = (row * 12 + b) as u8;
        }
    }
    let png = screenshot_png(&mapped, width, height, true);
    let (w, h, rgba) = decode_png_rgba(&png).unwrap();
    assert_eq!((w, h), (3, 2));
    assert_eq!(&rgba[..8], &[2, 1, 0, 3, 6, 5, 4, 7]);
    assert_eq!(&rgba[12..16], &[14, 13, 12, 15]);
}

#[test]
fn ui_records_default_to_no_request() {
    let r = UiResponse::default();
    assert!(!r.respawn && !r.randomize && !r.apply_preset && r.apply_share_code.is_none());
    let b = BenchmarkPanelResponse {
        start: false,
        export_csv: false,
        start_quick: true,
        start_capacity: false,
        export_capacity_csv: false,
        cancel: false,
        cancel_capacity: false,
        vsync: Some(false),
    };
    assert!(b.start_quick && b.vsync == Some(false));
    assert!(Tool::Pan != Tool::Spawn);
}

#[test]
fn preset_slug_lowercases_and_dashes_spaces() {
    assert_eq!(preset_slug("Chains"), "chains");
    assert_eq!(preset_slug("My Fancy Preset"), "my-fancy-preset");
    assert_eq!(preset_slug(""), "");
}

#[test]
fn thumbnail_paths_search_builtin_bundled_then_user() {
    assert_eq!(
        thumbnail_paths("Big Swarm"),
        vec![
            "assets/images/preset-big-swarm.png".to_string(),
            "assets/presets/Big Swarm.png".to_string(),
            "presets/Big Swarm.png".to_string(),
        ]
    );
}
