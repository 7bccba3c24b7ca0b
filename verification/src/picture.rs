//! Decoded images with their size, the quarter-turn rotations the viewer
//! applies, and the downscaling that keeps a texture within the GPU's limit.
use vstd::prelude::*;
use image::DynamicImage;

verus! {

#[verifier::external_type_specification]
#[verifier::external_body]
pub struct ExDynamicImage(image::DynamicImage);

/// The width in pixels of an image (what `DynamicImage::width` returns).
pub uninterp spec fn image_width_of(image: DynamicImage) -> u32;

/// The height in pixels of an image (what `DynamicImage::height` returns).
pub uninterp spec fn image_height_of(image: DynamicImage) -> u32;

/// An image turned a quarter clockwise (what `DynamicImage::rotate90` returns).
pub uninterp spec fn rotate90_of(image: DynamicImage) -> DynamicImage;

/// An image turned half round (what `DynamicImage::rotate180` returns).
pub uninterp spec fn rotate180_of(image: DynamicImage) -> DynamicImage;

/// An image turned three quarters clockwise (what `DynamicImage::rotate270`
/// returns).
pub uninterp spec fn rotate270_of(image: DynamicImage) -> DynamicImage;

/// An image scaled with the triangle filter to fit a bound (what
/// `DynamicImage::resize` returns with `FilterType::Triangle`).
pub uninterp spec fn resize_of(image: DynamicImage, max_width: u32, max_height: u32) -> DynamicImage;

/// An image scaled to fit a bound by sampling (what `DynamicImage::thumbnail`
/// returns).
pub uninterp spec fn thumbnail_of(image: DynamicImage, max_width: u32, max_height: u32) -> DynamicImage;

/// The size a `width` by `height` image takes when scaled, keeping its aspect
/// ratio, to the largest size that fits in an `m` by `m` square: no side over
/// `m`; and, unless the image has no pixels at all, every side at least one
/// pixel and the longer side (both, when they are equal) exactly `m`.
pub open spec fn fills_square(width: u32, height: u32, m: u32, new_width: u32, new_height: u32) -> bool {
    &&& new_width <= m
    &&& new_height <= m
    &&& (width >= 1 || height >= 1) ==> {
        &&& new_width >= 1
        &&& new_height >= 1
        &&& width >= height ==> new_width == m
        &&& height >= width ==> new_height == m
    }
}

/// `DynamicImage::width`.
#[verifier::external_body]
fn image_width(image: &DynamicImage) -> (r: u32)
    ensures
        r == image_width_of(*image),
{
    image.width()
}

/// `DynamicImage::height`.
#[verifier::external_body]
fn image_height(image: &DynamicImage) -> (r: u32)
    ensures
        r == image_height_of(*image),
{
    image.height()
}

/// `DynamicImage::rotate90`: the image turned a quarter clockwise; the crate
/// builds the result `height` wide and `width` high.
#[verifier::external_body]
fn rotated_90(image: &DynamicImage) -> (r: DynamicImage)
    ensures
        r == rotate90_of(*image),
        image_width_of(r) == image_height_of(*image),
        image_height_of(r) == image_width_of(*image),
{
    image.rotate90()
}

/// `DynamicImage::rotate180`: the image turned half round, of the same size.
#[verifier::external_body]
fn rotated_180(image: &DynamicImage) -> (r: DynamicImage)
    ensures
        r == rotate180_of(*image),
        image_width_of(r) == image_width_of(*image),
        image_height_of(r) == image_height_of(*image),
{
    image.rotate180()
}

/// `DynamicImage::rotate270`: the image turned three quarters clockwise; the
/// crate builds the result `height` wide and `width` high.
#[verifier::external_body]
fn rotated_270(image: &DynamicImage) -> (r: DynamicImage)
    ensures
        r == rotate270_of(*image),
        image_width_of(r) == image_height_of(*image),
        image_height_of(r) == image_width_of(*image),
{
    image.rotate270()
}

/// `DynamicImage::clone`: the same image.
#[verifier::external_body]
fn copied(image: &DynamicImage) -> (r: DynamicImage)
    ensures
        r == *image,
{
    image.clone()
}

/// `DynamicImage::resize` with the triangle filter: the image scaled, keeping
/// its aspect ratio, to the largest size that fits within `max_width` by
/// `max_height` (the crate documents the fit). Its size computation scales
/// both sides by the smaller of the two bound-to-side ratios and never goes
/// below one pixel a side; an image already of the bound's size is copied.
/// So within a square bound of at least one pixel the result fills the square
/// as `fills_square` says. The exact length of the shorter side (a rounded
/// floating-point product) is not stated.
#[verifier::external_body]
fn resized_within(image: &DynamicImage, max_width: u32, max_height: u32) -> (r: DynamicImage)
    ensures
        r == resize_of(*image, max_width, max_height),
        max_width >= 1 && max_height >= 1 ==> image_width_of(r) <= max_width && image_height_of(r)
            <= max_height,
        max_width == max_height && max_width >= 1 ==> fills_square(
            image_width_of(*image),
            image_height_of(*image),
            max_width,
            image_width_of(r),
            image_height_of(r),
        ),
{
    image.resize(max_width, max_height, image::imageops::FilterType::Triangle)
}

/// `DynamicImage::thumbnail`: the image scaled, keeping its aspect ratio, to
/// the largest size that fits within `max_width` by `max_height`, by the same
/// size computation as `resize` (upscaling included). Within a square bound of
/// at least one pixel the result fills the square as `fills_square` says. The
/// exact length of the shorter side is not stated.
#[verifier::external_body]
fn thumbnail_within(image: &DynamicImage, max_width: u32, max_height: u32) -> (r: DynamicImage)
    ensures
        r == thumbnail_of(*image, max_width, max_height),
        max_width >= 1 && max_height >= 1 ==> image_width_of(r) <= max_width && image_height_of(r)
            <= max_height,
        max_width == max_height && max_width >= 1 ==> fills_square(
            image_width_of(*image),
            image_height_of(*image),
            max_width,
            image_width_of(r),
            image_height_of(r),
        ),
{
    image.thumbnail(max_width, max_height)
}

/// A decoded image; its size is that of the image.
pub struct Picture {
    image: DynamicImage,
}

impl Picture {
    pub closed spec fn view_image(&self) -> DynamicImage {
        self.image
    }

    pub open spec fn view_width(&self) -> u32 {
        image_width_of(self.view_image())
    }

    pub open spec fn view_height(&self) -> u32 {
        image_height_of(self.view_image())
    }

    /// A decoded image, as a picture.
    pub fn new(image: DynamicImage) -> (r: Picture)
        ensures
            r.view_image() == image,
    {
        Picture { image }
    }

    pub fn width(&self) -> (r: u32)
        ensures
            r == self.view_width(),
    {
        image_width(&self.image)
    }

    pub fn height(&self) -> (r: u32)
        ensures
            r == self.view_height(),
    {
        image_height(&self.image)
    }

    /// The decoded image.
    pub fn image(&self) -> (r: &DynamicImage)
        ensures
            *r == self.view_image(),
    {
        &self.image
    }

    /// The decoded image, giving up the picture.
    pub fn into_image(self) -> (r: DynamicImage)
        ensures
            r == self.view_image(),
    {
        self.image
    }
}

/// An angle in degrees brought into `0..360` (`i32::rem_euclid(360)`).
pub open spec fn spec_normalize_angle(angle: int) -> int {
    angle % 360
}

pub fn normalize_angle(angle: i32) -> (r: i32)
    ensures
        r == spec_normalize_angle(angle as int),
        0 <= r < 360,
{
    let m = angle % 360;
    if m < 0 {
        m + 360
    } else {
        m
    }
}

/// Whether turning by `angle` degrees swaps an image's width and height.
pub open spec fn swaps_sides(angle: int) -> bool {
    spec_normalize_angle(angle) == 90 || spec_normalize_angle(angle) == 270
}

/// The image turned clockwise by `angle` degrees: by a quarter, a half or
/// three quarters when that is what `angle` comes to, else unturned.
pub open spec fn turned_image(image: DynamicImage, angle: int) -> DynamicImage {
    let a = spec_normalize_angle(angle);
    if a == 90 {
        rotate90_of(image)
    } else if a == 180 {
        rotate180_of(image)
    } else if a == 270 {
        rotate270_of(image)
    } else {
        image
    }
}

/// Turning goes by the angle modulo a full turn, clockwise: an angle that comes
/// to a quarter turn gives the image turned a quarter clockwise, a half turn
/// the image turned half round, three quarters the image turned three quarters
/// clockwise (a quarter anticlockwise), a whole number of full turns the image
/// itself. So from an unturned image, one turn left (`-90` degrees) gives the
/// three-quarter clockwise turn and one turn right the quarter clockwise turn.
pub proof fn lemma_turned_image_by_angle(image: DynamicImage, angle: int)
    ensures
        angle % 360 == 90 ==> turned_image(image, angle) == rotate90_of(image),
        angle % 360 == 180 ==> turned_image(image, angle) == rotate180_of(image),
        angle % 360 == 270 ==> turned_image(image, angle) == rotate270_of(image),
        angle % 360 == 0 ==> turned_image(image, angle) == image,
        angle % 360 == 0 ==> turned_image(image, angle - 90) == rotate270_of(image),
        angle % 360 == 0 ==> turned_image(image, angle + 90) == rotate90_of(image),
        angle % 360 == 0 ==> turned_image(image, angle + 180) == rotate180_of(image),
{
}

/// The width of `p` once turned by `angle` degrees.
pub open spec fn turned_width(p: Picture, angle: int) -> u32 {
    if swaps_sides(angle) {
        p.view_height()
    } else {
        p.view_width()
    }
}

/// The height of `p` once turned by `angle` degrees.
pub open spec fn turned_height(p: Picture, angle: int) -> u32 {
    if swaps_sides(angle) {
        p.view_width()
    } else {
        p.view_height()
    }
}

/// The picture turned clockwise by `angle` degrees when that is a quarter,
/// half or three-quarter turn; any other angle gives an unrotated copy.
pub fn rotate_image(p: &Picture, angle: i32) -> (r: Picture)
    ensures
        r.view_image() == turned_image(p.view_image(), angle as int),
        (angle as int) % 360 == 90 ==> r.view_image() == rotate90_of(p.view_image()),
        (angle as int) % 360 == 180 ==> r.view_image() == rotate180_of(p.view_image()),
        (angle as int) % 360 == 270 ==> r.view_image() == rotate270_of(p.view_image()),
        (angle as int) % 360 != 90 && (angle as int) % 360 != 180 && (angle as int) % 360 != 270
            ==> r.view_image() == p.view_image(),
        r.view_width() == turned_width(*p, angle as int),
        r.view_height() == turned_height(*p, angle as int),
{
    let a = normalize_angle(angle);
    let image = if a == 90 {
        rotated_90(&p.image)
    } else if a == 180 {
        rotated_180(&p.image)
    } else if a == 270 {
        rotated_270(&p.image)
    } else {
        copied(&p.image)
    };
    Picture { image }
}

/// The texture size limit as the viewer uses it: the GPU's maximum texture
/// side, at least one, as a `u32` (truncating, as `as u32` does).
pub open spec fn spec_texture_side(max_texture_side: usize) -> u32 {
    let m: int = if max_texture_side < 1 {
        1
    } else {
        max_texture_side as int
    };
    (m % 0x1_0000_0000) as u32
}

pub fn texture_side(max_texture_side: usize) -> (r: u32)
    ensures
        r == spec_texture_side(max_texture_side),
        1 <= max_texture_side <= u32::MAX ==> r == max_texture_side,
        max_texture_side == 0 ==> r == 1,
{
    let m: usize = if max_texture_side < 1 {
        1
    } else {
        max_texture_side
    };
    (m as u64 % 0x1_0000_0000u64) as u32
}

/// The GPU's maximum texture side is taken as it is whenever it fits in 32
/// bits (a limit of zero counts as one pixel), so an image whose sides are both
/// within that limit is uploaded unscaled, at full resolution; one with a side
/// over it is scaled to fit.
pub proof fn lemma_texture_limit_kept(image: DynamicImage, max_texture_side: usize)
    ensures
        1 <= max_texture_side <= u32::MAX ==> spec_texture_side(max_texture_side) == max_texture_side,
        max_texture_side == 0 ==> spec_texture_side(max_texture_side) == 1,
        1 <= max_texture_side <= u32::MAX && image_width_of(image) <= max_texture_side
            && image_height_of(image) <= max_texture_side ==> texture_fit(
            image,
            spec_texture_side(max_texture_side),
        ) == image,
        1 <= max_texture_side <= u32::MAX && (image_width_of(image) > max_texture_side
            || image_height_of(image) > max_texture_side) ==> texture_fit(
            image,
            spec_texture_side(max_texture_side),
        ) == resize_of(image, max_texture_side as u32, max_texture_side as u32),
{
}

/// Whether a picture of this size has to be scaled down to be uploaded as a
/// texture whose sides may be at most `max`.
pub open spec fn exceeds_side(width: u32, height: u32, max: u32) -> bool {
    width > max || height > max
}

/// The image uploaded as a texture whose sides may be at most `max`: the image
/// itself when both sides are within `max`, else the image scaled to fit a
/// `max` by `max` square.
pub open spec fn texture_fit(image: DynamicImage, max: u32) -> DynamicImage {
    if exceeds_side(image_width_of(image), image_height_of(image), max) {
        resize_of(image, max, max)
    } else {
        image
    }
}

/// The picture to upload as a texture: itself when both sides are within
/// `max`, else a copy scaled, keeping its aspect ratio, so that its longer side
/// is exactly `max`. Either way no side is over `max` (for any `max` of at
/// least one): a texture above the GPU's limit is never sent.
pub fn fit_for_texture(p: Picture, max: u32) -> (r: Picture)
    ensures
        r.view_image() == texture_fit(p.view_image(), max),
        max >= 1 ==> r.view_width() <= max && r.view_height() <= max,
        !exceeds_side(p.view_width(), p.view_height(), max) ==> r == p,
        exceeds_side(p.view_width(), p.view_height(), max) && max >= 1 ==> fills_square(
            p.view_width(),
            p.view_height(),
            max,
            r.view_width(),
            r.view_height(),
        ),
{
    let w = image_width(&p.image);
    let h = image_height(&p.image);
    if w > max || h > max {
        Picture { image: resized_within(&p.image, max, max) }
    } else {
        p
    }
}

/// The size thumbnails are scaled into.
pub const THUMB: u32 = 96;

/// The picture scaled, keeping its aspect ratio, to fill a thumbnail cell:
/// its longer side becomes exactly `THUMB` pixels (both sides, for a square),
/// the other side is at most that and at least one pixel.
pub fn make_thumbnail(p: &Picture) -> (r: Picture)
    ensures
        r.view_image() == thumbnail_of(p.view_image(), THUMB, THUMB),
        fills_square(p.view_width(), p.view_height(), THUMB, r.view_width(), r.view_height()),
{
    Picture { image: thumbnail_within(&p.image, THUMB, THUMB) }
}

} // verus!
