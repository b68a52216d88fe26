//! Frame images and the trusted boundary to the `image` and `imageproc`
//! crates.
//!
//! A [`Frame`] carries an opaque pixel buffer together with its dimensions as
//! plain fields, so that contracts can speak of the dimensions while the
//! pixel data stays with the outside crates. The fields are private and set
//! only here, from the buffer the outside crate hands back, so the mirror
//! stays faithful to the buffer. Rotation is performed through a projective
//! warp whose matrix is handed over as plain integers in thousandths;
//! `Projection::from_matrix` rescales a homogeneous matrix by its last
//! entry, so no floating-point value crosses the boundary.

use vstd::prelude::*;

use crate::fixed::{cos_sin_milli, spec_cos_milli, spec_sin_milli};

verus! {

/// Largest width or height, in pixels, of any frame the pipeline handles.
/// Keeps every pixel-buffer size and every warp-centre coordinate well inside
/// the ranges the outside crates accept without panicking.
pub const MAX_DIM: u32 = 0xFFFE;

#[verifier::external_type_specification]
#[verifier::external_body]
pub struct ExDynamicImage(image::DynamicImage);

#[verifier::external_type_specification]
#[verifier::external_body]
pub struct ExProjection(imageproc::geometric_transformations::Projection);

#[verifier::external_type_specification]
#[verifier::external_body]
pub struct ExImageError(image::ImageError);

/// Relies on image::DynamicImage's Clone: the copy equals the original.
pub assume_specification[ <image::DynamicImage as Clone>::clone ](
    img: &image::DynamicImage,
) -> (r: image::DynamicImage)
    ensures
        r == *img,
;

/// A frame image: an opaque pixel buffer together with its dimensions,
/// mirrored as plain fields so that contracts can speak of them.
pub struct Frame {
    image: image::DynamicImage,
    width: u32,
    height: u32,
}

impl Frame {
    /// The mirrored width of the pixel buffer.
    pub closed spec fn spec_width(&self) -> u32 {
        self.width
    }

    /// The mirrored height of the pixel buffer.
    pub closed spec fn spec_height(&self) -> u32 {
        self.height
    }

    /// The dimensions stay within the pipeline's size cap.
    pub open spec fn wf(&self) -> bool {
        self.spec_width() <= MAX_DIM && self.spec_height() <= MAX_DIM
    }

    pub fn width(&self) -> (r: u32)
        ensures
            r == self.spec_width(),
    {
        self.width
    }

    pub fn height(&self) -> (r: u32)
        ensures
            r == self.spec_height(),
    {
        self.height
    }

    /// Read access to the pixel buffer, for sampling or writing it out.
    pub fn buffer(&self) -> &image::DynamicImage {
        &self.image
    }

    /// Relies on image::DynamicImage::width/height: wraps a pixel buffer,
    /// mirroring the dimensions the buffer reports. This is the only way to
    /// build a frame outside this module.
    #[verifier::external_body]
    pub fn from_image(image: image::DynamicImage) -> (r: Frame)
    {
        let (w, h) = (image.width(), image.height());
        Frame { image, width: w, height: h }
    }

    /// A copy of the frame, pixel buffer included.
    pub fn duplicate(&self) -> (r: Frame)
        ensures
            r == *self,
    {
        Frame { image: self.image.clone(), width: self.width, height: self.height }
    }
}

/// Relies on image::ImageReader: opens and decodes an image file; what
/// comes back depends on the disk, so nothing is promised of it.
#[verifier::external_body]
pub(crate) fn load_image_file(path: &str) -> (r: Result<Frame, image::ImageError>)
{
    let img = image::ImageReader::open(path)?.decode()?;
    let (w, h) = (img.width(), img.height());
    Ok(Frame { image: img, width: w, height: h })
}

/// Relies on image::DynamicImage::resize_exact: the result has exactly the
/// requested dimensions, aspect ratio ignored.
#[verifier::external_body]
pub(crate) fn resize_exact_frame(frame: &Frame, nwidth: u32, nheight: u32) -> (r: Frame)
    requires
        frame.wf(),
        nwidth <= MAX_DIM,
        nheight <= MAX_DIM,
    ensures
        r.spec_width() == nwidth,
        r.spec_height() == nheight,
{
    let out = frame.image.resize_exact(nwidth, nheight, image::imageops::FilterType::Nearest);
    let (w, h) = (out.width(), out.height());
    Frame { image: out, width: w, height: h }
}

/// Relies on image::DynamicImage::resize: the result keeps the aspect ratio
/// and is the largest size that fits within the requested bounds, so both
/// dimensions stay within them and neither collapses below one pixel.
#[verifier::external_body]
pub(crate) fn resize_fit_frame(frame: &Frame, nwidth: u32, nheight: u32) -> (r: Frame)
    requires
        frame.wf(),
        1 <= nwidth <= MAX_DIM,
        1 <= nheight <= MAX_DIM,
    ensures
        1 <= r.spec_width() <= nwidth,
        1 <= r.spec_height() <= nheight,
{
    let out = frame.image.resize(nwidth, nheight, image::imageops::FilterType::Nearest);
    let (w, h) = (out.width(), out.height());
    Frame { image: out, width: w, height: h }
}

/// Relies on image::DynamicImage::new_rgb8: a zero-filled buffer of the
/// given size, that is a fully black, fully opaque canvas.
#[verifier::external_body]
pub(crate) fn new_canvas_rgb(width: u32, height: u32) -> (r: Frame)
    requires
        width <= MAX_DIM,
        height <= MAX_DIM,
    ensures
        r.spec_width() == width,
        r.spec_height() == height,
{
    Frame { image: image::DynamicImage::new_rgb8(width, height), width, height }
}

/// Relies on image::DynamicImage::new_rgba8: a zero-filled buffer of the
/// given size, that is a fully transparent canvas.
#[verifier::external_body]
pub(crate) fn new_canvas_rgba(width: u32, height: u32) -> (r: Frame)
    requires
        width <= MAX_DIM,
        height <= MAX_DIM,
    ensures
        r.spec_width() == width,
        r.spec_height() == height,
{
    Frame { image: image::DynamicImage::new_rgba8(width, height), width, height }
}

/// Relies on image::imageops::overlay: source-over-destination alpha
/// compositing of `top` onto `base` at the given offset, clipping whatever
/// falls outside; the destination keeps its dimensions.
#[verifier::external_body]
pub(crate) fn overlay_frame(base: &mut Frame, top: &Frame, x: i64, y: i64)
    ensures
        final(base).spec_width() == old(base).spec_width(),
        final(base).spec_height() == old(base).spec_height(),
{
    image::imageops::overlay(&mut base.image, &top.image, x, y);
}

/// Relies on imageproc's Projection::from_matrix, which rescales a
/// homogeneous matrix by its last entry: a matrix in thousandths enters as
/// plain integers. None is returned for a non-invertible matrix.
#[verifier::external_body]
fn projection_from_milli_matrix(m: [i16; 9]) -> (r: Option<
    imageproc::geometric_transformations::Projection,
>)
{
    imageproc::geometric_transformations::Projection::from_matrix(
        [
            m[0].into(),
            m[1].into(),
            m[2].into(),
            m[3].into(),
            m[4].into(),
            m[5].into(),
            m[6].into(),
            m[7].into(),
            m[8].into(),
        ],
    )
}

/// Relies on imageproc's Projection::translate.
#[verifier::external_body]
fn projection_translate(tx: i16, ty: i16) -> (r:
    imageproc::geometric_transformations::Projection)
{
    imageproc::geometric_transformations::Projection::translate(tx.into(), ty.into())
}

/// Relies on imageproc's projection composition: applying `a * b` applies
/// `b` first, then `a`.
#[verifier::external_body]
fn projection_compose(
    a: imageproc::geometric_transformations::Projection,
    b: imageproc::geometric_transformations::Projection,
) -> (r: imageproc::geometric_transformations::Projection)
{
    a * b
}

/// Relies on imageproc's warp: the output image has the same dimensions as
/// the input; pixels whose pre-image falls outside it are transparent.
#[verifier::external_body]
fn warp_frame(frame: &Frame, projection: imageproc::geometric_transformations::Projection) -> (r:
    Frame)
    requires
        frame.wf(),
    ensures
        r.spec_width() == frame.spec_width(),
        r.spec_height() == frame.spec_height(),
{
    let out = imageproc::geometric_transformations::warp(
        &frame.image.to_rgba8(),
        projection,
        imageproc::geometric_transformations::Interpolation::Nearest,
        imageproc::geometric_transformations::Border::Constant(image::Rgba([0u8, 0u8, 0u8, 0u8])),
    );
    let (w, h) = (out.width(), out.height());
    Frame { image: image::DynamicImage::ImageRgba8(out), width: w, height: h }
}

/// Rotates a frame clockwise about its centre by a milli-radian angle,
/// keeping its dimensions and clipping the corners: the warp matrix is the
/// fixed-point rotation matrix conjugated with the move to the centre.
pub fn rotate_frame(frame: Frame, milli_radians: i64) -> (r: Frame)
    requires
        frame.wf(),
    ensures
        r.spec_width() == frame.spec_width(),
        r.spec_height() == frame.spec_height(),
{
    let cs = cos_sin_milli(milli_radians);
    let c = cs.0;
    let s = cs.1;
    let m: [i16; 9] = [c, -s, 0, s, c, 0, 0, 0, 1000];
    match projection_from_milli_matrix(m) {
        Option::None => frame,
        Option::Some(rot) => {
            let cx: i16 = (frame.width() / 2) as i16;
            let cy: i16 = (frame.height() / 2) as i16;
            let fwd = projection_translate(cx, cy);
            let back = projection_translate(-cx, -cy);
            let total = projection_compose(projection_compose(fwd, rot), back);
            warp_frame(&frame, total)
        },
    }
}

/// The side of the transparent canvas that an uncropped rotation pads a
/// frame into: the bounding size of the frame turned by the reference
/// eighth-turn angle, never smaller than the frame.
pub open spec fn spec_pad_dim(a: int, b: int) -> int {
    let bound = (a + b) * 7072 / 10000;
    if bound >= a {
        bound
    } else {
        a
    }
}

/// Rotates a frame about its centre by a milli-radian angle without
/// clipping its corners: the frame is first centred on a larger transparent
/// canvas sized by the reference angle, which is then rotated in place.
/// The padded canvas must itself stay within the pipeline's size cap; the
/// effect chain checks this before calling.
pub fn rotate_frame_uncropped(frame: Frame, milli_radians: i64) -> (r: Frame)
    requires
        frame.wf(),
        spec_pad_dim(frame.spec_width() as int, frame.spec_height() as int) <= MAX_DIM,
        spec_pad_dim(frame.spec_height() as int, frame.spec_width() as int) <= MAX_DIM,
    ensures
        r.spec_width() == spec_pad_dim(frame.spec_width() as int, frame.spec_height() as int),
        r.spec_height() == spec_pad_dim(frame.spec_height() as int, frame.spec_width() as int),
{
    let pw: u32 = pad_dim(frame.width(), frame.height());
    let ph: u32 = pad_dim(frame.height(), frame.width());
    let mut canvas = new_canvas_rgba(pw, ph);
    let ox: i64 = ((pw - frame.width()) / 2) as i64;
    let oy: i64 = ((ph - frame.height()) / 2) as i64;
    overlay_frame(&mut canvas, &frame, ox, oy);
    rotate_frame(canvas, milli_radians)
}

pub(crate) fn pad_dim(a: u32, b: u32) -> (r: u32)
    requires
        a <= MAX_DIM,
        b <= MAX_DIM,
    ensures
        r == spec_pad_dim(a as int, b as int),
        a <= r,
{
    let bound: u64 = (a as u64 + b as u64) * 7072 / 10000;
    let grown: u64 = if bound >= a as u64 {
        bound
    } else {
        a as u64
    };
    grown as u32
}

} // verus!
