use codec_compare::cli::source_images::{
    decode_png_source, decode_ppm_source, encode_source_ppm, png_color_type_name, png_frame_to_source, SourceError,
    SourceImage,
};

fn png_bytes(w: u32, h: u32, color: png::ColorType, depth: png::BitDepth, data: &[u8]) -> Vec<u8> {
    let mut out = Vec::new();
    {
        let mut enc = png::Encoder::new(&mut out, w, h);
        enc.set_color(color);
        enc.set_depth(depth);
        if color == png::ColorType::Indexed {
            enc.set_palette(vec![0u8, 0, 0, 255, 255, 255]);
        }
        let mut writer = enc.write_header().unwrap();
        writer.write_image_data(data).unwrap();
        writer.finish().unwrap();
    }
    out
}

#[test]
fn png_rgb_is_kept() {
    let data = vec![1u8, 2, 3, 4, 5, 6];
    let bytes = png_bytes(2, 1, png::ColorType::Rgb, png::BitDepth::Eight, &data);
    let img = decode_png_source(&bytes, "a.png").ok().unwrap();
    assert_eq!(img.name, "a.png");
    assert_eq!((img.width, img.height), (2, 1));
    assert_eq!(img.pixels, data);
}

#[test]
fn png_rgba_loses_alpha() {
    let data = vec![1u8, 2, 3, 9, 4, 5, 6, 9];
    let bytes = png_bytes(1, 2, png::ColorType::Rgba, png::BitDepth::Eight, &data);
    let img = decode_png_source(&bytes, "b.png").ok().unwrap();
    assert_eq!((img.width, img.height), (1, 2));
    assert_eq!(img.pixels, vec![1, 2, 3, 4, 5, 6]);
}

#[test]
fn png_gray_is_tripled() {
    let bytes = png_bytes(2, 1, png::ColorType::Grayscale, png::BitDepth::Eight, &[7, 200]);
    let img = decode_png_source(&bytes, "g.png").ok().unwrap();
    assert_eq!(img.pixels, vec![7, 7, 7, 200, 200, 200]);
}

#[test]
fn png_other_color_types_are_refused() {
    let bytes = png_bytes(2, 1, png::ColorType::GrayscaleAlpha, png::BitDepth::Eight, &[1, 2, 3, 4]);
    match decode_png_source(&bytes, "ga.png") {
        Err(SourceError::UnsupportedColorType { name, color_type }) => {
            assert_eq!(name, "ga.png");
            assert_eq!(png_color_type_name(color_type), "GrayscaleAlpha");
        },
        _ => panic!("expected an unsupported colour type"),
    }
    let bytes = png_bytes(2, 1, png::ColorType::Indexed, png::BitDepth::Eight, &[0, 1]);
    match decode_png_source(&bytes, "i.png") {
        Err(SourceError::UnsupportedColorType { color_type, .. }) => {
            assert_eq!(png_color_type_name(color_type), "Indexed");
        },
        _ => panic!("expected an unsupported colour type"),
    }
}

#[test]
fn png_garbage_fails_at_the_header() {
    assert!(matches!(decode_png_source(b"not a png", "x.png"), Err(SourceError::PngHeader(_))));
}

#[test]
fn png_frame_conversions() {
    let img = png_frame_to_source(vec![1, 2, 3, 4, 5, 6, 7, 8], 2, 1, 6, "f").ok().unwrap();
    assert_eq!(img.pixels, vec![1, 2, 3, 5, 6, 7]);
    let img = png_frame_to_source(vec![1, 2, 3, 4, 5, 6, 7], 2, 1, 2, "f").ok().unwrap();
    assert_eq!(img.pixels, vec![1, 2, 3, 4, 5, 6]);
    match png_frame_to_source(vec![1], 2, 1, 0, "short") {
        Err(SourceError::ShortFrame { name }) => assert_eq!(name, "short"),
        _ => panic!("expected a short frame"),
    }
    assert!(matches!(
        png_frame_to_source(vec![], u32::MAX, u32::MAX, 6, "huge"),
        Err(SourceError::ShortFrame { .. })
    ));
}

#[test]
fn ppm_round_trip() {
    let img = SourceImage { name: String::from("c.png"), width: 2, height: 1, pixels: vec![10, 20, 30, 40, 50, 60] };
    let ppm = encode_source_ppm(&img).ok().unwrap();
    assert!(ppm.starts_with(b"P6"));
    let back = decode_ppm_source(&ppm, "c.png").ok().unwrap();
    assert_eq!(back.name, "c.png");
    assert_eq!((back.width, back.height), (2, 1));
    assert_eq!(back.pixels, img.pixels);
}

#[test]
fn ppm_garbage_names_the_image() {
    match decode_ppm_source(b"garbage", "d.ppm") {
        Err(SourceError::PpmDecode { name, message }) => {
            assert_eq!(name, "d.ppm");
            assert!(!message.is_empty());
        },
        _ => panic!("expected a PPM decode error"),
    }
}

#[test]
fn png_color_type_names() {
    assert_eq!(png_color_type_name(0), "Grayscale");
    assert_eq!(png_color_type_name(2), "Rgb");
    assert_eq!(png_color_type_name(6), "Rgba");
    assert_eq!(png_color_type_name(9), "Unknown");
}
