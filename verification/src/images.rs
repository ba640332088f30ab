//! Pictures for display.

use crate::event::StereoImageId;
use crate::recording::Recording;
use crate::time::{Time, WallTime};
use vstd::prelude::*;

verus! {

/// A picture of one camera: rows of pixels with four bytes each.
#[derive(Debug)]
pub struct CameraImage {
    pub width: u32,
    pub height: u32,
    pub rgba: Vec<u8>,
}

/// A pair of pictures with its times.
#[derive(Debug)]
pub struct StereoFrame {
    pub sequence: u64,
    pub source_time: Time,
    pub log_time: WallTime,
    pub publish_time: WallTime,
    pub left: CameraImage,
    pub right: CameraImage,
}

/// A decoded picture: rows of pixels with three bytes each.
#[derive(Debug)]
pub struct RgbPixels {
    pub width: u32,
    pub height: u32,
    pub rgb: Vec<u8>,
}

/// Why there is no picture.
#[derive(Clone, Copy, Debug, PartialEq, Eq, Structural)]
pub enum ImageError {
    /// The recording has no image of that name.
    OutOfBounds,
    /// A picture has fewer bytes than its size asks for.
    MissingPixels,
}

/// The value of an opaque alpha channel.
pub const OPAQUE: u8 = 255;

/// Whether a decoded picture has the bytes that its size asks for.
pub open spec fn has_all_pixels(pixels: RgbPixels) -> bool {
    3 * (pixels.width * pixels.height) <= pixels.rgb@.len()
}

/// Whether the four bytes of a pixel are the three of a decoded one and an opaque alpha.
pub open spec fn shows_pixel(rgba: Seq<u8>, rgb: Seq<u8>, pixel: int) -> bool {
    &&& rgba[4 * pixel] == rgb[3 * pixel]
    &&& rgba[4 * pixel + 1] == rgb[3 * pixel + 1]
    &&& rgba[4 * pixel + 2] == rgb[3 * pixel + 2]
    &&& rgba[4 * pixel + 3] == OPAQUE
}

/// Whether a picture shows the pixels of a decoded one, each of them opaque.
pub open spec fn shows_pixels(image: CameraImage, pixels: RgbPixels) -> bool {
    &&& image.width == pixels.width
    &&& image.height == pixels.height
    &&& image.rgba@.len() == 4 * (pixels.width * pixels.height)
    &&& forall|i: int|
        0 <= i < pixels.width * pixels.height ==> #[trigger] shows_pixel(
            image.rgba@,
            pixels.rgb@,
            i,
        )
}

/// Adds an opaque alpha channel to a decoded picture.
pub fn camera_image_from_rgb(pixels: &RgbPixels) -> (result: Result<CameraImage, ImageError>)
    ensures
        match result {
            Ok(image) => has_all_pixels(*pixels) && shows_pixels(image, *pixels),
            Err(error) => !has_all_pixels(*pixels) && error == ImageError::MissingPixels,
        },
{
    proof {
        assert(0 <= pixels.width * pixels.height <= 0xffff_ffff * 0xffff_ffff) by (nonlinear_arith)
            requires
                0 <= pixels.width <= 0xffff_ffff,
                0 <= pixels.height <= 0xffff_ffff,
        ;
    }
    let count: u64 = pixels.width as u64 * pixels.height as u64;
    if 3 * (count as u128) > pixels.rgb.len() as u128 {
        return Err(ImageError::MissingPixels);
    }
    let mut rgba: Vec<u8> = Vec::new();
    let mut pixel: usize = 0;
    while (pixel as u64) < count
        invariant
            pixel <= count,
            count == pixels.width * pixels.height,
            3 * count <= pixels.rgb@.len() <= usize::MAX,
            rgba@.len() == 4 * pixel,
            forall|i: int|
                0 <= i < pixel ==> #[trigger] shows_pixel(rgba@, pixels.rgb@, i),
        decreases count - pixel,
    {
        let ghost before = rgba@;
        rgba.push(pixels.rgb[3 * pixel]);
        rgba.push(pixels.rgb[3 * pixel + 1]);
        rgba.push(pixels.rgb[3 * pixel + 2]);
        rgba.push(OPAQUE);
        proof {
            assert forall|i: int| 0 <= i < pixel + 1 implies #[trigger] shows_pixel(
                rgba@,
                pixels.rgb@,
                i,
            ) by {
                if i < pixel {
                    assert(shows_pixel(before, pixels.rgb@, i));
                }
            }
        }
        pixel = pixel + 1;
    }
    Ok(CameraImage { width: pixels.width, height: pixels.height, rgba })
}

impl Recording {
    /// Puts a pair of decoded pictures together with the times of the image that they came from.
    pub fn stereo_frame(
        &self,
        image_id: StereoImageId,
        source_time: Time,
        left: &RgbPixels,
        right: &RgbPixels,
    ) -> (result: Result<StereoFrame, ImageError>)
        ensures
            match result {
                Ok(frame) => {
                    &&& image_id.0 < self@.images.len()
                    &&& has_all_pixels(*left) && has_all_pixels(*right)
                    &&& frame.sequence == self@.images[image_id.0 as int].order
                    &&& frame.source_time == source_time
                    &&& frame.log_time == self@.images[image_id.0 as int].log_time
                    &&& frame.publish_time == self@.images[image_id.0 as int].publish_time
                    &&& shows_pixels(frame.left, *left) && shows_pixels(frame.right, *right)
                },
                Err(ImageError::OutOfBounds) => image_id.0 >= self@.images.len(),
                Err(ImageError::MissingPixels) => image_id.0 < self@.images.len() && !(
                has_all_pixels(*left) && has_all_pixels(*right)),
            },
    {
        let image = match self.image(image_id) {
            Some(image) => image,
            None => {
                return Err(ImageError::OutOfBounds);
            },
        };
        let left = match camera_image_from_rgb(left) {
            Ok(left) => left,
            Err(error) => {
                return Err(error);
            },
        };
        let right = match camera_image_from_rgb(right) {
            Ok(right) => right,
            Err(error) => {
                return Err(error);
            },
        };
        Ok(
            StereoFrame {
                sequence: image.order as u64,
                source_time,
                log_time: image.log_time,
                publish_time: image.publish_time,
                left,
                right,
            },
        )
    }
}

/// A picture has the size of the decoded one and its three color channels, each pixel behind the
/// other, with an alpha of 255.
pub proof fn pictures_keep_their_colors(image: CameraImage, pixels: RgbPixels, pixel: int, channel: int)
    requires
        shows_pixels(image, pixels),
        0 <= pixel < pixels.width * pixels.height,
        0 <= channel < 3,
    ensures
        image.width == pixels.width,
        image.height == pixels.height,
        image.rgba@.len() == 4 * (pixels.width * pixels.height),
        image.rgba@[4 * pixel + channel] == pixels.rgb@[3 * pixel + channel],
        image.rgba@[4 * pixel + 3] == 255,
        has_all_pixels(pixels) <==> pixels.rgb@.len() >= 3 * (pixels.width * pixels.height),
{
    assert(shows_pixel(image.rgba@, pixels.rgb@, pixel));
}

} // verus!
