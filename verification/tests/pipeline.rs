use base64::Engine;
use captcha_solver::codec::{
    data_url_prefix, decode_image_as, decode_image_bytes, decode_payload, strip_data_url_prefix,
};
use captcha_solver::{
    decode, grayscale, solve_b64, solve_captcha, solve_gray, DecodeError, GrayscaleImage,
};
use image::{DynamicImage, GrayImage, ImageFormat, Luma, Rgb, RgbImage};
use std::io::Cursor;

const PREFIX: &str = "data:image/gif;base64,";

/// A black 55x24 image in which slot `i` holds `counts[i]` white pixels.
fn slots_image(counts: [u32; 5]) -> GrayImage {
    let mut img = GrayImage::new(55, 24);
    for (i, &count) in counts.iter().enumerate() {
        let start = 5 + 11 * i as u32;
        let width = (55 - start).min(11);
        assert!(count <= width * 24);
        for n in 0..count {
            img.put_pixel(start + n % width, n / width, Luma([255]));
        }
    }
    img
}

fn slots_gray(counts: [u32; 5]) -> GrayscaleImage {
    grayscale(&DynamicImage::ImageLuma8(slots_image(counts)))
}

fn filled(width: u32, height: u32, value: u8) -> GrayscaleImage {
    let pixels = vec![value; (width * height) as usize];
    grayscale(&DynamicImage::ImageLuma8(GrayImage::from_raw(width, height, pixels).unwrap()))
}

fn data_url(img: &DynamicImage, format: ImageFormat) -> String {
    let mut bytes = Cursor::new(Vec::new());
    DynamicImage::ImageRgba8(img.to_rgba8()).write_to(&mut bytes, format).unwrap();
    let encoded = base64::engine::general_purpose::STANDARD.encode(bytes.into_inner());
    format!("{}{}", PREFIX, encoded)
}

#[test]
fn test_captcha_solver() {
    let img = DynamicImage::ImageLuma8(slots_image([10, 30, 40, 50, 60]));
    assert_eq!(solve_captcha(&img), Some("17423".to_string()));
    let img = DynamicImage::ImageLuma8(slots_image([70, 80, 90, 100, 110]));
    assert_eq!(solve_captcha(&img), Some("56890".to_string()));
}

#[test]
fn solve_b64_reads_a_gif_data_url() {
    let img = DynamicImage::ImageLuma8(slots_image([10, 30, 40, 50, 60]));
    let url = data_url(&img, ImageFormat::Gif);
    assert_eq!(solve_b64(&url), Some("17423".to_string()));
}

#[test]
fn solve_b64_reads_other_containers_too() {
    let img = DynamicImage::ImageLuma8(slots_image([0, 21, 66, 96, 115]));
    let url = data_url(&img, ImageFormat::Png);
    assert_eq!(solve_b64(&url), Some("17590".to_string()));
}

#[test]
fn solve_b64_unrecognized_slot_gives_nothing() {
    let img = DynamicImage::ImageLuma8(slots_image([10, 30, 200, 50, 60]));
    assert_eq!(solve_b64(&data_url(&img, ImageFormat::Gif)), None);
    assert_eq!(solve_captcha(&img), None);
    assert_eq!(solve_gray(&slots_gray([10, 30, 200, 50, 60])), None);
}

#[test]
fn any_unrecognized_slot_gives_nothing() {
    for slot in 0..5 {
        let mut counts = [10, 30, 40, 50, 60];
        counts[slot] = 116;
        assert_eq!(solve_gray(&slots_gray(counts)), None, "slot {}", slot);
    }
    assert_eq!(solve_gray(&slots_gray([116, 116, 116, 116, 116])), None);
}

#[test]
fn solve_is_repeatable() {
    let gray = slots_gray([10, 30, 40, 50, 60]);
    assert_eq!(solve_gray(&gray), solve_gray(&gray));
    let img = DynamicImage::ImageLuma8(slots_image([10, 30, 40, 50, 60]));
    let url = data_url(&img, ImageFormat::Gif);
    assert_eq!(solve_b64(&url), solve_b64(&url));
    assert_eq!(solve_b64(&url), solve_b64(&url.clone()));
}

#[test]
fn solve_gray_reads_five_digits() {
    assert_eq!(solve_gray(&slots_gray([10, 30, 40, 50, 60])), Some("17423".to_string()));
    assert_eq!(solve_gray(&slots_gray([20, 35, 45, 55, 65])), Some("17423".to_string()));
    assert_eq!(solve_gray(&slots_gray([0, 0, 0, 0, 0])), Some("11111".to_string()));
    let code = solve_gray(&slots_gray([75, 85, 95, 105, 115])).unwrap();
    assert_eq!(code, "56890");
    assert_eq!(code.len(), 5);
    assert!(code.chars().all(|c| c.is_ascii_digit()));
}

#[test]
fn solve_gray_on_images_of_other_sizes() {
    assert_eq!(solve_gray(&filled(0, 0, 0)), Some("11111".to_string()));
    assert_eq!(solve_gray(&filled(16, 24, 255)), None);
    assert_eq!(solve_gray(&filled(7, 24, 255)), Some("21111".to_string()));
    assert_eq!(solve_gray(&filled(55, 2, 255)), Some("77771".to_string()));
    assert_eq!(solve_gray(&filled(60, 4, 255)), Some("44444".to_string()));
}

#[test]
fn missing_prefix_gives_nothing() {
    let img = DynamicImage::ImageLuma8(slots_image([10, 30, 40, 50, 60]));
    let url = data_url(&img, ImageFormat::Gif);
    let payload = &url[PREFIX.len()..];
    assert_eq!(solve_b64(payload), None);
    assert_eq!(solve_b64(""), None);
    assert_eq!(solve_b64("data:image/gif;base64"), None);
    assert_eq!(solve_b64(&format!("data:image/png;base64,{}", payload)), None);
    assert_eq!(solve_b64(&format!(" {}", url)), None);
    assert_eq!(solve_b64(&format!("Data:image/gif;base64,{}", payload)), None);
    assert_eq!(decode(payload).err(), Some(DecodeError::PrefixMismatch));
    assert_eq!(decode("").err(), Some(DecodeError::PrefixMismatch));
}

#[test]
fn malformed_base64_gives_nothing() {
    assert_eq!(solve_b64("data:image/gif;base64,!!!!"), None);
    assert_eq!(solve_b64("data:image/gif;base64,R0lG!DlhNwAYAA=="), None);
    assert_eq!(solve_b64("data:image/gif;base64,abc"), None);
    assert_eq!(solve_b64("data:image/gif;base64,ab=c"), None);
    assert_eq!(solve_b64("data:image/gif;base64,aGVsbG8\u{e9}"), None);
    assert_eq!(decode("data:image/gif;base64,!!!!").err(), Some(DecodeError::Base64Error));
    assert_eq!(decode("data:image/gif;base64,aGVs bG8=").err(), Some(DecodeError::Base64Error));
}

#[test]
fn bytes_that_are_no_image_give_nothing() {
    assert_eq!(solve_b64("data:image/gif;base64,aGVsbG8="), None);
    assert_eq!(solve_b64("data:image/gif;base64,"), None);
    assert_eq!(decode("data:image/gif;base64,aGVsbG8=").err(), Some(DecodeError::ImageDecodeError));
    assert_eq!(decode("data:image/gif;base64,").err(), Some(DecodeError::ImageDecodeError));
    assert_eq!(decode_image_bytes(b"hello").err(), Some(DecodeError::ImageDecodeError));
    assert_eq!(decode_image_bytes(b"").err(), Some(DecodeError::ImageDecodeError));
}

#[test]
fn decode_gives_the_image() {
    let src = slots_image([10, 30, 40, 50, 60]);
    let url = data_url(&DynamicImage::ImageLuma8(src.clone()), ImageFormat::Png);
    let img = decode(&url).unwrap();
    assert_eq!(img.width(), 55);
    assert_eq!(img.height(), 24);
    assert_eq!(img.to_luma8(), src);
}

#[test]
fn decode_payload_decodes_base64() {
    assert_eq!(decode_payload("aGVsbG8="), Ok(b"hello".to_vec()));
    assert_eq!(decode_payload(""), Ok(vec![]));
    assert_eq!(decode_payload("+/8="), Ok(vec![0xfb, 0xff]));
    assert_eq!(decode_payload("aGVsbG8"), Err(DecodeError::Base64Error));
    assert_eq!(decode_payload("aGVsbG8=\n"), Err(DecodeError::Base64Error));
}

#[test]
fn decode_image_bytes_decodes_a_container() {
    let src = slots_image([1, 2, 3, 4, 5]);
    let mut bytes = Cursor::new(Vec::new());
    DynamicImage::ImageLuma8(src.clone()).write_to(&mut bytes, ImageFormat::Png).unwrap();
    let img = decode_image_bytes(bytes.get_ref()).unwrap();
    assert_eq!((img.width(), img.height()), (55, 24));
    assert_eq!(img.to_luma8(), src);
}

#[test]
fn strip_prefix_gives_the_payload() {
    assert_eq!(data_url_prefix(), PREFIX);
    assert_eq!(strip_data_url_prefix("data:image/gif;base64,abc"), Some("abc"));
    assert_eq!(strip_data_url_prefix("data:image/gif;base64,"), Some(""));
    assert_eq!(strip_data_url_prefix("data:image/gif;base64,\u{e9}t\u{e9}"), Some("\u{e9}t\u{e9}"));
    assert_eq!(strip_data_url_prefix("data:image/gif;base64"), None);
    assert_eq!(strip_data_url_prefix("xdata:image/gif;base64,abc"), None);
    assert_eq!(strip_data_url_prefix("\u{e9}ata:image/gif;base64,abc"), None);
    assert_eq!(strip_data_url_prefix(""), None);
}

#[test]
fn grayscale_keeps_luma_and_dimensions() {
    let mut src = GrayImage::new(4, 3);
    for y in 0..3 {
        for x in 0..4 {
            src.put_pixel(x, y, Luma([(y * 4 + x) as u8 * 20 + 7]));
        }
    }
    let gray = grayscale(&DynamicImage::ImageLuma8(src.clone()));
    for y in 0..3 {
        for x in 0..4 {
            assert_eq!(gray.pixel_or_black(x as u64, y), src.get_pixel(x, y).0[0]);
            assert_ne!(gray.pixel_or_black(x as u64, y), 0);
        }
        assert_eq!(gray.pixel_or_black(4, y), 0);
    }
    assert_eq!(gray.pixel_or_black(0, 3), 0);
}

#[test]
fn grayscale_renders_colour_as_luma() {
    let mut src = RgbImage::new(2, 2);
    src.put_pixel(0, 0, Rgb([255, 255, 255]));
    src.put_pixel(1, 0, Rgb([0, 0, 0]));
    src.put_pixel(0, 1, Rgb([255, 0, 0]));
    src.put_pixel(1, 1, Rgb([0, 255, 0]));
    let img = DynamicImage::ImageRgb8(src);
    let gray = grayscale(&img);
    let luma = img.to_luma8();
    assert_eq!(gray.pixel_or_black(0, 0), 255);
    assert_eq!(gray.pixel_or_black(1, 0), 0);
    for y in 0..2 {
        for x in 0..2 {
            assert_eq!(gray.pixel_or_black(x as u64, y), luma.get_pixel(x, y).0[0]);
        }
    }
    assert!(gray.pixel_or_black(0, 1) < gray.pixel_or_black(1, 1));
}

#[test]
fn solve_captcha_reads_a_colour_image() {
    let gray = slots_image([10, 30, 40, 50, 60]);
    let rgb = DynamicImage::ImageLuma8(gray).to_rgb8();
    assert_eq!(solve_captcha(&DynamicImage::ImageRgb8(rgb)), Some("17423".to_string()));
}

#[test]
fn decode_image_bytes_goes_by_the_signature() {
    let src = slots_image([10, 30, 40, 50, 60]);
    for format in [ImageFormat::Gif, ImageFormat::Png] {
        let mut bytes = Cursor::new(Vec::new());
        DynamicImage::ImageRgba8(DynamicImage::ImageLuma8(src.clone()).to_rgba8())
            .write_to(&mut bytes, format)
            .unwrap();
        let img = decode_image_bytes(bytes.get_ref()).unwrap();
        assert_eq!((img.width(), img.height()), (55, 24));
        assert_eq!(img.to_luma8(), src);
    }
}

#[test]
fn a_signature_alone_is_no_image() {
    assert_eq!(decode_image_bytes(b"GIF89a").err(), Some(DecodeError::ImageDecodeError));
    assert_eq!(decode_image_bytes(b"GIF87a").err(), Some(DecodeError::ImageDecodeError));
    assert_eq!(
        decode_image_bytes(b"\x89PNG\r\n\x1a\n").err(),
        Some(DecodeError::ImageDecodeError)
    );
    assert_eq!(solve_b64("data:image/gif;base64,R0lGODlh"), None);
    assert_eq!(
        decode("data:image/gif;base64,R0lGODlh").err(),
        Some(DecodeError::ImageDecodeError)
    );
}

#[test]
fn a_container_without_a_decoder_is_no_image() {
    assert_eq!(
        decode_image_bytes(&[0xff, 0xd8, 0xff, 0xe0, 0, 0, 0, 0]).err(),
        Some(DecodeError::ImageDecodeError)
    );
    assert_eq!(decode_image_bytes(b"BM\0\0\0\0").err(), Some(DecodeError::ImageDecodeError));
}

#[test]
fn decode_image_as_reads_the_given_format() {
    let src = slots_image([1, 2, 3, 4, 5]);
    let mut bytes = Cursor::new(Vec::new());
    DynamicImage::ImageLuma8(src.clone()).write_to(&mut bytes, ImageFormat::Png).unwrap();
    let img = decode_image_as(bytes.get_ref(), ImageFormat::Png).unwrap();
    assert_eq!((img.width(), img.height()), (55, 24));
    assert_eq!(img.to_luma8(), src);
    assert_eq!(
        decode_image_as(bytes.get_ref(), ImageFormat::Gif).err(),
        Some(DecodeError::ImageDecodeError)
    );
    assert_eq!(
        decode_image_as(bytes.get_ref(), ImageFormat::Jpeg).err(),
        Some(DecodeError::ImageDecodeError)
    );
    assert_eq!(
        decode_image_as(b"", ImageFormat::Png).err(),
        Some(DecodeError::ImageDecodeError)
    );
}
