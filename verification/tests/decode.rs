use codec_compare::encoders::decode::{
    avif_8bit_outcome, avif_decode_outcome, avif_pixels_to_rgb, decode_avif, decode_avif_8bit, decode_jpeg, decode_webp, AvifPixels, AvifSamples,
};

fn gradient(w: usize, h: usize) -> Vec<u8> {
    let mut v = Vec::with_capacity(w * h * 3);
    for y in 0..h {
        for x in 0..w {
            v.push((x * 8) as u8);
            v.push((y * 8) as u8);
            v.push(128);
        }
    }
    v
}

#[test]
fn jpeg_round_trip_through_the_decoder() {
    let (w, h) = (16usize, 8usize);
    let rgb = gradient(w, h);
    let mut jpeg = Vec::new();
    image::codecs::jpeg::JpegEncoder::new_with_quality(&mut jpeg, 95)
        .encode(&rgb, w as u32, h as u32, image::ExtendedColorType::Rgb8)
        .unwrap();
    let img = decode_jpeg(&jpeg, "jpeg").unwrap();
    assert_eq!((img.width, img.height), (w, h));
    assert_eq!(img.data.len(), w * h * 3);
    assert_ne!(img.data, jpeg);
    let diff: u32 = img.data.iter().zip(&rgb).map(|(a, b)| (*a as i32 - *b as i32).unsigned_abs()).max().unwrap();
    assert!(diff < 40);
}

#[test]
fn jpeg_errors_name_the_codec() {
    let e = decode_jpeg(b"not a jpeg", "zenjpeg").err().unwrap();
    assert_eq!(e.codec, "zenjpeg");
    assert!(e.message.starts_with("Failed to decode JPEG: "));
}

#[test]
fn webp_round_trip_through_the_decoder() {
    let (w, h) = (16usize, 8usize);
    let rgb = gradient(w, h);
    let webp_bytes = webp::Encoder::from_rgb(&rgb, w as u32, h as u32).encode(100.0).to_vec();
    let img = decode_webp(&webp_bytes).unwrap();
    assert_eq!((img.width, img.height), (w, h));
    assert_eq!(img.data.len(), w * h * 3);
    let e = decode_webp(b"RIFF").err().unwrap();
    assert_eq!(e.codec, "webp");
    assert_eq!(e.message, "Failed to decode WebP");
}

#[test]
fn avif_errors() {
    let e = decode_avif(b"definitely not avif").err().unwrap();
    assert_eq!(e.codec, "avif");
    assert!(e.message.starts_with("Decoding failed: "));
    let e = decode_avif_8bit(b"definitely not avif").err().unwrap();
    assert!(e.message.starts_with("AVIF decode: "));
}

#[test]
fn avif_pixels_convert_to_rgb() {
    let p = AvifPixels { width: 2, height: 1, channels: 4, samples: AvifSamples::Eight(vec![1, 2, 3, 4, 5, 6, 7, 8]) };
    let img = avif_pixels_to_rgb(p).unwrap();
    assert_eq!(img.data, vec![1, 2, 3, 5, 6, 7]);
    assert_eq!((img.width, img.height), (2, 1));
    let p = AvifPixels { width: 1, height: 1, channels: 3, samples: AvifSamples::Eight(vec![9, 8, 7]) };
    assert_eq!(avif_pixels_to_rgb(p).unwrap().data, vec![9, 8, 7]);
    let p = AvifPixels { width: 1, height: 1, channels: 4, samples: AvifSamples::Sixteen(vec![1023, 512, 4, 1000]) };
    assert_eq!(avif_pixels_to_rgb(p).unwrap().data, vec![255, 128, 1]);
    let p = AvifPixels { width: 1, height: 1, channels: 1, samples: AvifSamples::Eight(vec![5]) };
    let e = avif_pixels_to_rgb(p).err().unwrap();
    assert_eq!(e.message, "Unsupported decoded format: 1 channels of 8-bit samples");
    let p = AvifPixels { width: 1, height: 1, channels: 3, samples: AvifSamples::Unsupported };
    let e = avif_pixels_to_rgb(p).err().unwrap();
    assert_eq!(e.codec, "avif");
    assert_eq!(e.message, "Unsupported decoded format: 3 channels of other samples");
}

#[test]
fn avif_outcomes_of_decoder_results() {
    let e = avif_decode_outcome(Err(String::from("bad box"))).err().unwrap();
    assert_eq!(e.codec, "avif");
    assert_eq!(e.message, "Decoding failed: bad box");
    let e = avif_8bit_outcome(Err(String::from("bad box"))).err().unwrap();
    assert_eq!(e.message, "AVIF decode: bad box");
    let p = AvifPixels { width: 2, height: 1, channels: 3, samples: AvifSamples::Sixteen(vec![4, 8, 12, 1023, 0, 400]) };
    let e = avif_8bit_outcome(Err(String::new())).err().unwrap();
    assert_eq!(e.message, "AVIF decode: ");
    let e = avif_8bit_outcome(Ok(p)).err().unwrap();
    assert_eq!(
        e.message,
        "Unexpected AVIF decode output: expected Rgb8 or Rgba8, got 2x1 3 channels of 16-bit samples"
    );
    let p = AvifPixels { width: 2, height: 1, channels: 3, samples: AvifSamples::Sixteen(vec![4, 8, 12, 1023, 0, 400]) };
    assert_eq!(avif_decode_outcome(Ok(p)).ok().unwrap().data, vec![1, 2, 3, 255, 0, 100]);
    let p = AvifPixels { width: 1, height: 1, channels: 4, samples: AvifSamples::Eight(vec![1, 2, 3, 4]) };
    let img = avif_8bit_outcome(Ok(p)).ok().unwrap();
    assert_eq!((img.data, img.width, img.height), (vec![1, 2, 3], 1, 1));
}
