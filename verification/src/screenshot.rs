//! Screenshots: which region is captured, and which part of a window's picture shows
//! an element.

use crate::capture::{
    in_range, push_whole_points, tells_points, whole_points, whole_points_read_back, ScreenPoint,
    ScreenRect, UNIT,
};
use crate::encoding::{base64_encode, base64_fits, base64_text, reads_as};
use crate::text::{copy_of, decimal, decimal_text, numbered_is_injective};
use vstd::prelude::*;

verus! {

/// A region as the capture tool takes it: left, top, width and height in whole points.
pub open spec fn region(b: ScreenRect) -> Seq<char> {
    whole_points(b.x as int) + ","@ + whole_points(b.y as int) + ","@ + whole_points(b.w as int)
        + ","@ + whole_points(b.h as int)
}

/// A region as the capture tool takes it; `None` where it is under one point wide or
/// high.
pub fn region_argument(b: &ScreenRect) -> (r: Option<String>)
    ensures
        match r {
            Some(s) => b.w >= 64 && b.h >= 64 && s@ == region(*b),
            None => b.w < 64 || b.h < 64,
        },
{
    if !b.is_valid() {
        return None;
    }
    let mut out = String::new();
    push_whole_points(&mut out, b.x as i128);
    out.push_str(",");
    push_whole_points(&mut out, b.y as i128);
    out.push_str(",");
    push_whole_points(&mut out, b.w as i128);
    out.push_str(",");
    push_whole_points(&mut out, b.h as i128);
    assert(out@ =~= region(*b));
    Some(out)
}

/// The name of a temporary file: what it is for, the process and a number.
pub open spec fn temp_words(kind: Seq<char>, pid: u32, seq: u64) -> Seq<char> {
    "vibe-extract-"@ + kind + "-"@ + decimal(pid as nat) + "-"@ + decimal(seq as nat) + ".png"@
}

/// The name of a temporary file: what it is for, the process and a number.
pub fn temp_name(kind: &str, pid: u32, seq: u64) -> (r: String)
    ensures
        r@ == temp_words(kind@, pid, seq),
{
    let mut out = copy_of("vibe-extract-");
    out.push_str(kind);
    out.push_str("-");
    out.push_str(decimal_text(pid as u64).as_str());
    out.push_str("-");
    out.push_str(decimal_text(seq).as_str());
    out.push_str(".png");
    out
}

/// Two temporary files share a name only where what they are for, the process and the
/// number are all the same.
pub proof fn temp_names_are_distinct(
    kind: Seq<char>,
    pid: u32,
    seq: u64,
    other_kind: Seq<char>,
    other_pid: u32,
    other_seq: u64,
)
    requires
        temp_words(kind, pid, seq) == temp_words(other_kind, other_pid, other_seq),
    ensures
        kind == other_kind,
        pid == other_pid,
        seq == other_seq,
{
    let k1 = "vibe-extract-"@ + kind;
    let k2 = "vibe-extract-"@ + other_kind;
    let p1 = k1 + "-"@ + decimal(pid as nat);
    let p2 = k2 + "-"@ + decimal(other_pid as nat);
    let s1 = p1 + "-"@ + decimal(seq as nat);
    let s2 = p2 + "-"@ + decimal(other_seq as nat);
    assert((s1 + ".png"@).take(s1.len() as int) =~= s1);
    assert((s2 + ".png"@).take(s2.len() as int) =~= s2);
    assert((s1 + ".png"@).len() == s1.len() + ".png"@.len());
    assert((s2 + ".png"@).len() == s2.len() + ".png"@.len());
    numbered_is_injective(p1, seq as nat, p2, other_seq as nat);
    numbered_is_injective(k1, pid as nat, k2, other_pid as nat);
    assert(k1.skip("vibe-extract-"@.len() as int) =~= kind);
    assert(k2.skip("vibe-extract-"@.len() as int) =~= other_kind);
}

/// The region to capture for the colour at a point: two by two points.
pub fn sample_region(at: ScreenPoint) -> (r: ScreenRect)
    ensures
        r == (ScreenRect { x: at.x, y: at.y, w: 128, h: 128 }),
{
    ScreenRect { x: at.x, y: at.y, w: 128, h: 128 }
}

// ---------------------------------------------------------------------------
// Shots
// ---------------------------------------------------------------------------

/// The device pixels per point of a picture: `pixels` for `points`, in the units of
/// [`crate::capture`]; about two to one on Retina displays.
#[derive(Debug, Clone, Copy, PartialEq, Eq, Structural)]
pub struct Scale {
    pub pixels: i64,
    pub points: i64,
}

/// A screenshot returned inline.
#[derive(Debug)]
pub struct ShotResult {
    /// Standard base64 of the PNG bytes.
    pub png_b64: String,
    /// True device-pixel dimensions of the PNG; zero where they cannot be read.
    pub px_w: u32,
    pub px_h: u32,
    /// The size that was requested.
    pub point_w: i64,
    pub point_h: i64,
    /// Device pixels per point: render the replica at point size, then let the
    /// verifier's resize absorb this factor.
    pub scale: Scale,
}

/// The scale of a picture `px_w` pixels wide that shows `w`; one to one where either is
/// not positive.
pub open spec fn scale_of(px_w: u32, w: i64) -> Scale {
    if w > 0 && px_w > 0 {
        Scale { pixels: (px_w * UNIT) as i64, points: w }
    } else {
        Scale { pixels: 1, points: 1 }
    }
}

/// The size in the header of the PNG that given bytes are.
pub uninterp spec fn png_dimensions(bytes: Seq<u8>) -> Option<(u32, u32)>;

/// `image::ImageReader::into_dimensions` on the bytes as a PNG; `None` where it fails.
/// What it finds is a function of the bytes.
#[verifier::external_body]
fn read_dimensions(bytes: &[u8]) -> (r: Option<(u32, u32)>)
    ensures
        r == png_dimensions(bytes@),
{
    let input = std::io::Cursor::new(bytes);
    image::ImageReader::with_format(input, image::ImageFormat::Png).into_dimensions().ok()
}

/// A captured region, returned inline: what is returned decodes to the bytes.
pub fn shot_result(png: &[u8], bounds: &ScreenRect) -> (r: ShotResult)
    requires
        base64_fits(png@.len()),
    ensures
        r.png_b64@ == base64_text(png@),
        reads_as(r.png_b64@, png@),
        (r.px_w, r.px_h) == (match png_dimensions(png@) {
            Some(size) => size,
            None => (0u32, 0u32),
        }),
        r.point_w == bounds.w,
        r.point_h == bounds.h,
        r.scale == scale_of(r.px_w, bounds.w),
{
    let (px_w, px_h): (u32, u32) = match read_dimensions(png) {
        Some(size) => size,
        None => (0, 0),
    };
    let scale = if bounds.w > 0 && px_w > 0 {
        Scale { pixels: px_w as i64 * UNIT, points: bounds.w }
    } else {
        Scale { pixels: 1, points: 1 }
    };
    ShotResult {
        png_b64: base64_encode(png),
        px_w,
        px_h,
        point_w: bounds.w,
        point_h: bounds.h,
        scale,
    }
}

// ---------------------------------------------------------------------------
// Crops
// ---------------------------------------------------------------------------

/// A part of a picture, in pixels.
#[derive(Debug, Clone, Copy, PartialEq, Eq, Structural)]
pub struct Crop {
    pub x: u32,
    pub y: u32,
    pub w: u32,
    pub h: u32,
}

/// Why an element cannot be cropped out of its window.
#[derive(Debug, Clone, Copy, PartialEq, Eq, Structural)]
pub enum CropError {
    /// The element is under one point wide or high.
    ZeroSized,
    /// The window has no extent.
    BadWindow,
    /// The picture could not be read.
    Unreadable,
    /// The picture is empty.
    Empty,
    /// The element overlaps the window by under one point: it belongs to another.
    NoOverlap,
    /// The part could not be written.
    Unwritable,
}

/// How far two spans overlap.
pub open spec fn shared(a0: int, a1: int, b0: int, b1: int) -> int {
    (if a1 < b1 {
        a1
    } else {
        b1
    }) - (if a0 > b0 {
        a0
    } else {
        b0
    })
}

/// `offset` points, not below zero, in pixels of a picture that shows `extent` points
/// in `pixels`: rounded to the nearest, a tie up.
pub open spec fn to_pixels(offset: int, pixels: int, extent: int) -> int {
    let d = if offset < 0 {
        0
    } else {
        offset
    };
    (2 * d * pixels + extent) / (2 * extent)
}

/// One axis of a crop. Both edges are rounded on their own and the size is their
/// difference, so that the far edge does not drift. The part lies in the picture and
/// is at least one pixel.
pub open spec fn crop_axis(e0: int, e_len: int, w0: int, w_len: int, pixels: int) -> (int, int) {
    let p0 = to_pixels(e0 - w0, pixels, w_len);
    let p1 = to_pixels(e0 + e_len - w0, pixels, w_len);
    let start = if p0 > pixels - 1 {
        pixels - 1
    } else {
        p0
    };
    let len = if p1 - p0 < 1 {
        1
    } else {
        p1 - p0
    };
    (
        start,
        if len > pixels - start {
            pixels - start
        } else {
            len
        },
    )
}

/// The element and the window have at least one point in common on each axis.
pub open spec fn croppable(elem: ScreenRect, win: ScreenRect) -> bool {
    &&& shared(elem.x as int, elem.x + elem.w, win.x as int, win.x + win.w) >= 64
    &&& shared(elem.y as int, elem.y + elem.h, win.y as int, win.y + win.h) >= 64
}

/// What is known before the window is captured: an element and a window without
/// extent are refused.
pub fn check_bounds(win: &ScreenRect, elem: &ScreenRect) -> (r: Result<(), CropError>)
    ensures
        r == (if elem.w < 64 || elem.h < 64 {
            Err::<(), CropError>(CropError::ZeroSized)
        } else if win.w <= 0 || win.h <= 0 {
            Err::<(), CropError>(CropError::BadWindow)
        } else {
            Ok::<(), CropError>(())
        }),
{
    if !elem.is_valid() {
        return Err(CropError::ZeroSized);
    }
    if win.w <= 0 || win.h <= 0 {
        return Err(CropError::BadWindow);
    }
    Ok(())
}

proof fn pixels_monotone(a: int, b: int, pixels: int, extent: int)
    requires
        a <= b,
        pixels >= 0,
        extent > 0,
    ensures
        0 <= to_pixels(a, pixels, extent) <= to_pixels(b, pixels, extent),
{
    let da = if a < 0 {
        0
    } else {
        a
    };
    let db = if b < 0 {
        0
    } else {
        b
    };
    assert(0 <= 2 * da * pixels <= 2 * db * pixels) by (nonlinear_arith)
        requires
            0 <= da <= db,
            pixels >= 0,
    ;
    assert(0 <= (2 * da * pixels + extent) / (2 * extent) <= (2 * db * pixels + extent) / (2
        * extent)) by (nonlinear_arith)
        requires
            0 <= 2 * da * pixels <= 2 * db * pixels,
            extent > 0,
    ;
}

fn pixels_of(offset: i64, pixels: u32, extent: i64) -> (r: i128)
    requires
        extent > 0,
        -0x1_0000_0000_0000 <= offset <= 0x1_0000_0000_0000,
        extent <= 0x1_0000_0000_0000,
    ensures
        r == to_pixels(offset as int, pixels as int, extent as int),
        0 <= r <= 0x1000_0000_0000_0000_0000_0000,
{
    let d: i128 = if offset < 0 {
        0
    } else {
        offset as i128
    };
    let n: i128 = pixels as i128;
    assert(0 <= 2 * d * n <= 2 * 0x1_0000_0000_0000 * 0x1_0000_0000) by (nonlinear_arith)
        requires
            0 <= d <= 0x1_0000_0000_0000,
            0 <= n <= 0xffff_ffff,
    ;
    assert(0 <= d * n <= 0x1_0000_0000_0000 * 0x1_0000_0000) by (nonlinear_arith)
        requires
            0 <= d <= 0x1_0000_0000_0000,
            0 <= n <= 0xffff_ffff,
    ;
    let top: i128 = 2 * d * n + extent as i128;
    let bottom: i128 = 2 * extent as i128;
    let q: i128 = top / bottom;
    assert(0 <= top / bottom <= top) by (nonlinear_arith)
        requires
            top >= 0,
            bottom >= 1,
    ;
    q
}

fn axis(e0: i64, e_len: i64, w0: i64, w_len: i64, pixels: u32) -> (r: (u32, u32))
    requires
        in_range(e0),
        in_range(e_len),
        in_range(w0),
        in_range(w_len),
        e_len >= 0,
        w_len > 0,
        pixels > 0,
    ensures
        (r.0 as int, r.1 as int) == crop_axis(
            e0 as int,
            e_len as int,
            w0 as int,
            w_len as int,
            pixels as int,
        ),
        r.0 < pixels,
        1 <= r.1,
        r.0 + r.1 <= pixels,
{
    proof {
        pixels_monotone(e0 - w0, e0 + e_len - w0, pixels as int, w_len as int);
    }
    let p0 = pixels_of(e0 - w0, pixels, w_len);
    let p1 = pixels_of(e0 + e_len - w0, pixels, w_len);
    let last: i128 = pixels as i128 - 1;
    let start: i128 = if p0 > last {
        last
    } else {
        p0
    };
    let len: i128 = if p1 - p0 < 1 {
        1
    } else {
        p1 - p0
    };
    let room: i128 = pixels as i128 - start;
    let kept: i128 = if len > room {
        room
    } else {
        len
    };
    (start as u32, kept as u32)
}

/// The part of a window's picture of `img_w` by `img_h` pixels that shows an element.
pub fn crop_rect(win: &ScreenRect, elem: &ScreenRect, img_w: u32, img_h: u32) -> (r: Result<
    Crop,
    CropError,
>)
    requires
        win.wf(),
        elem.wf(),
    ensures
        r == crop_of(*win, *elem, img_w, img_h),
        r matches Ok(c) ==> c.w >= 1 && c.h >= 1 && c.x + c.w <= img_w && c.y + c.h <= img_h,
{
    if let Err(e) = check_bounds(win, elem) {
        return Err(e);
    }
    if img_w == 0 || img_h == 0 {
        return Err(CropError::Empty);
    }
    let ox: i64 = if elem.x > win.x {
        elem.x
    } else {
        win.x
    };
    let oy: i64 = if elem.y > win.y {
        elem.y
    } else {
        win.y
    };
    let ox2: i64 = if elem.x + elem.w < win.x + win.w {
        elem.x + elem.w
    } else {
        win.x + win.w
    };
    let oy2: i64 = if elem.y + elem.h < win.y + win.h {
        elem.y + elem.h
    } else {
        win.y + win.h
    };
    if ox2 - ox < 64 || oy2 - oy < 64 {
        return Err(CropError::NoOverlap);
    }
    let (x, w) = axis(elem.x, elem.w, win.x, win.w, img_w);
    let (y, h) = axis(elem.y, elem.h, win.y, win.h, img_h);
    Ok(Crop { x, y, w, h })
}

/// The part of a window's picture that shows an element, or why there is none.
pub open spec fn crop_of(win: ScreenRect, elem: ScreenRect, img_w: u32, img_h: u32) -> Result<
    Crop,
    CropError,
> {
    if elem.w < 64 || elem.h < 64 {
        Err(CropError::ZeroSized)
    } else if win.w <= 0 || win.h <= 0 {
        Err(CropError::BadWindow)
    } else if img_w == 0 || img_h == 0 {
        Err(CropError::Empty)
    } else if !croppable(elem, win) {
        Err(CropError::NoOverlap)
    } else {
        let (x, w) = crop_axis(
            elem.x as int,
            elem.w as int,
            win.x as int,
            win.w as int,
            img_w as int,
        );
        let (y, h) = crop_axis(
            elem.y as int,
            elem.h as int,
            win.y as int,
            win.h as int,
            img_h as int,
        );
        Ok(Crop { x: x as u32, y: y as u32, w: w as u32, h: h as u32 })
    }
}

// ---------------------------------------------------------------------------
// Pictures
// ---------------------------------------------------------------------------

/// The size in pixels of the picture that given bytes are.
pub uninterp spec fn picture_size(bytes: Seq<u8>) -> Option<(u32, u32)>;

/// A part of the picture that given bytes are, as the bytes of a PNG.
pub uninterp spec fn picture_part(bytes: Seq<u8>, x: u32, y: u32, w: u32, h: u32) -> Option<Seq<u8>>;

/// The colour of the top left pixel of the picture that given bytes are.
pub uninterp spec fn picture_corner(bytes: Seq<u8>) -> Option<(u8, u8, u8)>;

/// `image::load_from_memory` with the width and height of what it gives; `None` where
/// it fails. What it finds is a function of the bytes.
#[verifier::external_body]
fn decode_size(bytes: &[u8]) -> (r: Option<(u32, u32)>)
    ensures
        r == picture_size(bytes@),
{
    let picture = image::load_from_memory(bytes).ok()?;
    Some((picture.width(), picture.height()))
}

/// `DynamicImage::crop_imm` of what `image::load_from_memory` gives, written as PNG by
/// `DynamicImage::write_to`; `None` where reading or writing fails. The bytes are a
/// function of the arguments. Only parts of at least one pixel are asked for.
#[verifier::external_body]
fn decode_and_crop(bytes: &[u8], c: Crop) -> (r: Option<Vec<u8>>)
    requires
        c.w >= 1,
        c.h >= 1,
    ensures
        (match r {
            Some(png) => Some(png@),
            None => None,
        }) == picture_part(bytes@, c.x, c.y, c.w, c.h),
{
    let picture = image::load_from_memory(bytes).ok()?;
    let mut out = std::io::Cursor::new(Vec::new());
    picture.crop_imm(c.x, c.y, c.w, c.h).write_to(&mut out, image::ImageFormat::Png).ok()?;
    Some(out.into_inner())
}

/// `ImageBuffer::get_pixel` at the origin of what `image::load_from_memory` gives, in
/// eight bits per channel and without its alpha. It is a function of the bytes. The
/// call panics on an empty picture, so that is left out.
#[verifier::external_body]
fn decode_corner(bytes: &[u8]) -> (r: Option<(u8, u8, u8)>)
    requires
        picture_size(bytes@) matches Some(s) && s.0 > 0 && s.1 > 0,
    ensures
        r == picture_corner(bytes@),
{
    let picture = image::load_from_memory(bytes).ok()?.into_rgba8();
    let p = picture.get_pixel(0, 0);
    Some((p[0], p[1], p[2]))
}

/// Crop an element out of the picture of its window: the bytes of a PNG. A picture
/// that does not show the element is refused, since a wrong reference is worse than
/// none.
pub fn crop_window_shot(shot: &[u8], win: &ScreenRect, elem: &ScreenRect) -> (r: Result<
    Vec<u8>,
    CropError,
>)
    requires
        win.wf(),
        elem.wf(),
    ensures
        match picture_size(shot@) {
            None => r == Err::<Vec<u8>, CropError>(
                if elem.w < 64 || elem.h < 64 {
                    CropError::ZeroSized
                } else if win.w <= 0 || win.h <= 0 {
                    CropError::BadWindow
                } else {
                    CropError::Unreadable
                },
            ),
            Some((w, h)) => match crop_of(*win, *elem, w, h) {
                Err(e) => r == Err::<Vec<u8>, CropError>(e),
                Ok(c) => match picture_part(shot@, c.x, c.y, c.w, c.h) {
                    Some(png) => r matches Ok(bytes) && bytes@ == png,
                    None => r == Err::<Vec<u8>, CropError>(CropError::Unwritable),
                },
            },
        },
{
    if let Err(e) = check_bounds(win, elem) {
        return Err(e);
    }
    let (w, h) = match decode_size(shot) {
        Some(size) => size,
        None => {
            return Err(CropError::Unreadable);
        },
    };
    let c = match crop_rect(win, elem, w, h) {
        Ok(c) => c,
        Err(e) => {
            return Err(e);
        },
    };
    match decode_and_crop(shot, c) {
        Some(png) => Ok(png),
        None => Err(CropError::Unwritable),
    }
}

/// The colour that a capture of a point shows: its top left pixel. `None` where the
/// capture cannot be read or is empty.
pub fn sampled_color(shot: &[u8]) -> (r: Option<(u8, u8, u8)>)
    ensures
        match picture_size(shot@) {
            Some((w, h)) if w > 0 && h > 0 => r == picture_corner(shot@),
            _ => r is None,
        },
{
    match decode_size(shot) {
        Some((w, h)) => {
            if w == 0 || h == 0 {
                None
            } else {
                decode_corner(shot)
            }
        },
        None => None,
    }
}

// ---------------------------------------------------------------------------
// What a crop shows
// ---------------------------------------------------------------------------

/// Four texts with commas between them.
pub open spec fn listed(a: Seq<char>, b: Seq<char>, c: Seq<char>, d: Seq<char>) -> Seq<char> {
    a + ","@ + b + ","@ + c + ","@ + d
}

/// A region tells the rectangle: its left edge, its top, its width and its height, in
/// this order, each rounded to whole points.
pub proof fn a_region_tells_the_rectangle(b: ScreenRect)
    ensures
        exists|x: Seq<char>, y: Seq<char>, w: Seq<char>, h: Seq<char>|
            #[trigger] listed(x, y, w, h) == region(b) && tells_points(x, b.x as int)
                && tells_points(y, b.y as int) && tells_points(w, b.w as int) && tells_points(
                h,
                b.h as int,
            ),
{
    whole_points_read_back(b.x as int);
    whole_points_read_back(b.y as int);
    whole_points_read_back(b.w as int);
    whole_points_read_back(b.h as int);
    assert(listed(
        whole_points(b.x as int),
        whole_points(b.y as int),
        whole_points(b.w as int),
        whole_points(b.h as int),
    ) == region(b));
}

/// The scale of a picture tells its width: as many pixels to a point as the picture is
/// wide to what it shows.
pub proof fn the_scale_is_pixels_to_points(px_w: u32, w: i64)
    ensures
        w > 0 && px_w > 0 ==> {
            let s = scale_of(px_w, w);
            s.points > 0 && s.pixels * w == (px_w * 64) * s.points
        },
        w <= 0 || px_w == 0 ==> scale_of(px_w, w).pixels == scale_of(px_w, w).points,
{
}

proof fn nearest_pixel(offset: int, pixels: int, extent: int)
    requires
        offset >= 0,
        pixels >= 0,
        extent > 0,
    ensures
        -extent <= 2 * (to_pixels(offset, pixels, extent) * extent) - 2 * (offset * pixels)
            <= extent,
{
    let n = 2 * offset * pixels + extent;
    let d = 2 * extent;
    let q = n / d;
    assert(d * q <= n < d * q + d) by (nonlinear_arith)
        requires
            d > 0,
            q == n / d,
    ;
    assert(d * q == 2 * (q * extent)) by (nonlinear_arith)
        requires
            d == 2 * extent,
    ;
    assert(2 * offset * pixels == 2 * (offset * pixels)) by (nonlinear_arith);
}

/// One axis of a part of a picture shows one axis of an element: each edge is at the
/// pixel nearest to where the element's edge is in the picture, but that a part is at
/// least a pixel.
pub open spec fn shows_axis(
    at: int,
    len: int,
    e0: int,
    e_len: int,
    w0: int,
    w_len: int,
    pixels: int,
) -> bool {
    &&& at == pixels - 1 || -w_len <= 2 * (at * w_len) - 2 * ((e0 - w0) * pixels) <= w_len
    &&& len == 1 || -w_len <= 2 * ((at + len) * w_len) - 2 * ((e0 + e_len - w0) * pixels) <= w_len
}

proof fn axis_shows(e0: int, e_len: int, w0: int, w_len: int, pixels: int)
    requires
        w0 <= e0,
        e_len > 0,
        e0 + e_len <= w0 + w_len,
        pixels > 0,
    ensures
        ({
            let (at, len) = crop_axis(e0, e_len, w0, w_len, pixels);
            &&& 0 <= at <= pixels - 1
            &&& 1 <= len <= pixels
            &&& shows_axis(at, len, e0, e_len, w0, w_len, pixels)
        }),
{
    let p0 = to_pixels(e0 - w0, pixels, w_len);
    let p1 = to_pixels(e0 + e_len - w0, pixels, w_len);
    nearest_pixel(e0 - w0, pixels, w_len);
    nearest_pixel(e0 + e_len - w0, pixels, w_len);
    let far = e0 + e_len - w0;
    assert(far * pixels <= w_len * pixels) by (nonlinear_arith)
        requires
            far <= w_len,
            pixels > 0,
    ;
    assert(p1 <= pixels) by (nonlinear_arith)
        requires
            2 * (p1 * w_len) - 2 * (far * pixels) <= w_len,
            far * pixels <= w_len * pixels,
            w_len > 0,
    ;
    assert(p0 >= 0) by (nonlinear_arith)
        requires
            -w_len <= 2 * (p0 * w_len) - 2 * ((e0 - w0) * pixels),
            (e0 - w0) >= 0,
            pixels > 0,
            w_len > 0,
    ;
}

/// A part of a window's picture shows the element: its left and right edges where those
/// of the element are in the picture's width, its top and bottom edges where those of the
/// element are in the picture's height.
pub proof fn a_crop_shows_the_element(win: ScreenRect, elem: ScreenRect, img_w: u32, img_h: u32)
    requires
        elem.w >= 64 && elem.h >= 64,
        win.x <= elem.x && elem.x + elem.w <= win.x + win.w,
        win.y <= elem.y && elem.y + elem.h <= win.y + win.h,
        img_w > 0 && img_h > 0,
    ensures
        crop_of(win, elem, img_w, img_h) matches Ok(c) && shows_axis(
            c.x as int,
            c.w as int,
            elem.x as int,
            elem.w as int,
            win.x as int,
            win.w as int,
            img_w as int,
        ) && shows_axis(
            c.y as int,
            c.h as int,
            elem.y as int,
            elem.h as int,
            win.y as int,
            win.h as int,
            img_h as int,
        ),
{
    axis_shows(elem.x as int, elem.w as int, win.x as int, win.w as int, img_w as int);
    axis_shows(elem.y as int, elem.h as int, win.y as int, win.h as int, img_h as int);
}

/// Where a window is on the screen makes no difference to what is cropped out of its
/// picture.
pub proof fn a_crop_goes_by_the_window(
    win: ScreenRect,
    elem: ScreenRect,
    img_w: u32,
    img_h: u32,
    moved_win: ScreenRect,
    moved_elem: ScreenRect,
)
    requires
        moved_win.w == win.w && moved_win.h == win.h,
        moved_elem.w == elem.w && moved_elem.h == elem.h,
        moved_elem.x - moved_win.x == elem.x - win.x,
        moved_elem.y - moved_win.y == elem.y - win.y,
    ensures
        crop_of(moved_win, moved_elem, img_w, img_h) == crop_of(win, elem, img_w, img_h),
{
    assert(moved_elem.x + moved_elem.w - moved_win.x == elem.x + elem.w - win.x);
    assert(moved_elem.y + moved_elem.h - moved_win.y == elem.y + elem.h - win.y);
}

/// An element is refused for lack of overlap exactly where it has under one point of
/// width or of height in common with the window.
pub proof fn a_crop_needs_a_point_in_common(
    win: ScreenRect,
    elem: ScreenRect,
    img_w: u32,
    img_h: u32,
)
    requires
        elem.w >= 64 && elem.h >= 64,
        win.w >= 64 && win.h >= 64,
        img_w > 0 && img_h > 0,
    ensures
        crop_of(win, elem, img_w, img_h) is Ok <==> elem.x + 64 <= win.x + win.w && win.x + 64
            <= elem.x + elem.w && elem.y + 64 <= win.y + win.h && win.y + 64 <= elem.y + elem.h,
        crop_of(win, elem, img_w, img_h) is Err ==> crop_of(win, elem, img_w, img_h)->Err_0
            == CropError::NoOverlap,
{
}

} // verus!
