use image::{DynamicImage, ImageBuffer, ImageFormat, Rgba};
use vibe_extract::capture::{ScreenPoint, ScreenRect};
use vibe_extract::screenshot::{
    check_bounds, crop_rect, crop_window_shot, region_argument, sample_region, sampled_color,
    shot_result, temp_name, Crop, CropError, Scale,
};

fn rect(x: i64, y: i64, w: i64, h: i64) -> ScreenRect {
    ScreenRect { x: x * 64, y: y * 64, w: w * 64, h: h * 64 }
}

/// A picture whose pixel at (x, y) is (x, y, 7).
fn png(w: u32, h: u32) -> Vec<u8> {
    let img: ImageBuffer<Rgba<u8>, Vec<u8>> =
        ImageBuffer::from_fn(w, h, |x, y| Rgba([x as u8, y as u8, 7, 255]));
    let mut bytes = Vec::new();
    DynamicImage::ImageRgba8(img)
        .write_to(&mut std::io::Cursor::new(&mut bytes), ImageFormat::Png)
        .unwrap();
    bytes
}

#[test]
fn a_region_is_given_in_whole_points() {
    let b = ScreenRect { x: -96, y: 32, w: 6432, h: 64 };
    assert_eq!(region_argument(&b).as_deref(), Some("-2,0,100,1"));
    assert_eq!(region_argument(&rect(0, 0, 0, 5)), None);
    assert_eq!(temp_name("shot", 12, 3), "vibe-extract-shot-12-3.png");
    assert_eq!(sample_region(ScreenPoint { x: 64, y: 128 }), rect(1, 2, 2, 2));
}

#[test]
fn a_crop_maps_points_to_pixels() {
    // A window of 100 by 50 points at twice the pixels.
    let win = rect(10, 20, 100, 50);
    assert_eq!(
        crop_rect(&win, &rect(20, 30, 5, 6), 200, 100),
        Ok(Crop { x: 20, y: 20, w: 10, h: 12 })
    );
    // Partly outside: from the edge on, and no further than the picture.
    assert_eq!(
        crop_rect(&win, &rect(5, 60, 10, 40), 200, 100),
        Ok(Crop { x: 0, y: 80, w: 10, h: 20 })
    );
    // Both edges are rounded on their own.
    assert_eq!(
        crop_rect(&rect(0, 0, 3, 3), &rect(1, 1, 1, 1), 4, 4),
        Ok(Crop { x: 1, y: 1, w: 2, h: 2 })
    );
}

#[test]
fn an_element_that_is_not_in_the_window_is_not_cropped() {
    let win = rect(0, 0, 100, 100);
    assert_eq!(crop_rect(&win, &rect(0, 0, 0, 9), 10, 10), Err(CropError::ZeroSized));
    assert_eq!(crop_rect(&rect(0, 0, 0, 9), &rect(0, 0, 9, 9), 10, 10), Err(CropError::BadWindow));
    assert_eq!(crop_rect(&win, &rect(0, 0, 9, 9), 0, 10), Err(CropError::Empty));
    assert_eq!(crop_rect(&win, &rect(200, 0, 9, 9), 10, 10), Err(CropError::NoOverlap));
    let sliver = ScreenRect { x: 100 * 64 - 63, y: 0, w: 640, h: 640 };
    assert_eq!(crop_rect(&win, &sliver, 10, 10), Err(CropError::NoOverlap));
    assert_eq!(check_bounds(&win, &rect(0, 0, 9, 9)), Ok(()));
}

#[test]
fn the_cropped_picture_shows_the_element() {
    let win = rect(10, 20, 40, 30);
    let out = crop_window_shot(&png(80, 60), &win, &rect(15, 25, 4, 3)).unwrap();
    let img = image::load_from_memory(&out).unwrap().into_rgba8();
    assert_eq!((img.width(), img.height()), (8, 6));
    assert_eq!(img.get_pixel(0, 0).0, [10, 10, 7, 255]);
    assert_eq!(img.get_pixel(7, 5).0, [17, 15, 7, 255]);
    assert_eq!(
        crop_window_shot(b"no picture", &win, &rect(15, 25, 4, 3)),
        Err(CropError::Unreadable)
    );
    assert_eq!(
        crop_window_shot(&png(8, 6), &win, &rect(900, 25, 4, 3)),
        Err(CropError::NoOverlap)
    );
}

#[test]
fn the_sampled_colour_is_the_corner() {
    assert_eq!(sampled_color(&png(4, 4)), Some((0, 0, 7)));
    assert_eq!(sampled_color(b"junk"), None);
}

#[test]
fn a_shot_is_returned_inline_with_its_scale() {
    let bytes = png(20, 10);
    let s = shot_result(&bytes, &rect(0, 0, 10, 5));
    assert_eq!((s.px_w, s.px_h), (20, 10));
    assert_eq!((s.point_w, s.point_h), (640, 320));
    assert_eq!(s.scale, Scale { pixels: 1280, points: 640 });
    assert!(s.png_b64.starts_with("iVBORw0KGgo"));
    // What stands before the pixels is enough for the dimensions.
    let head = shot_result(&bytes[..bytes.len() - 14], &rect(0, 0, 10, 5));
    assert_eq!((head.px_w, head.px_h), (20, 10));
    let bad = shot_result(b"junk", &rect(0, 0, 10, 5));
    assert_eq!((bad.px_w, bad.scale), (0, Scale { pixels: 1, points: 1 }));
    assert_eq!(bad.png_b64, "anVuaw==");
}
