use vstd::prelude::*;
use crate::error::Error;
use crate::repack::{packed_rows, repack_plane, row_bytes};

verus! {

/// The output layouts a frame can be converted to.
#[derive(Debug, Clone, Copy, PartialEq, Eq, Structural)]
pub enum PixelFormat {
    /// Three bytes per pixel: red, green, blue.
    RGB24,
    /// Four bytes per pixel: red, green, blue, alpha.
    RGBA,
    /// One byte per pixel: luminance.
    GRAY8,
}

impl PixelFormat {
    pub open spec fn spec_channels(self) -> u32 {
        match self {
            PixelFormat::RGB24 => 3,
            PixelFormat::RGBA => 4,
            PixelFormat::GRAY8 => 1,
        }
    }

    /// Bytes per pixel in this layout.
    #[verifier::when_used_as_spec(spec_channels)]
    pub fn channels(self) -> (r: u32)
        ensures
            r == self.spec_channels(),
    {
        match self {
            PixelFormat::RGB24 => 3,
            PixelFormat::RGBA => 4,
            PixelFormat::GRAY8 => 1,
        }
    }
}

/// A frame's pixels in one output layout, rows back to back with no padding.
pub struct PackedImage {
    width: u32,
    height: u32,
    format: PixelFormat,
    data: Vec<u8>,
}

impl PackedImage {
    pub closed spec fn spec_width(&self) -> u32 {
        self.width
    }

    pub closed spec fn spec_height(&self) -> u32 {
        self.height
    }

    pub closed spec fn spec_format(&self) -> PixelFormat {
        self.format
    }

    pub closed spec fn view(&self) -> Seq<u8> {
        self.data@
    }

    /// The buffer holds exactly `width * height * channels` bytes.
    pub open spec fn wf(&self) -> bool {
        self@.len() == self.spec_width() * self.spec_height() * self.spec_format().spec_channels()
    }

    /// Wraps a packed buffer, which must hold exactly one byte per channel
    /// of each pixel; `None` otherwise.
    pub fn from_raw(width: u32, height: u32, format: PixelFormat, data: Vec<u8>) -> (r: Option<
        PackedImage,
    >)
        ensures
            r is Some <==> data@.len() == width * height * format.spec_channels(),
            r is Some ==> r->Some_0.wf(),
            r is Some ==> r->Some_0.width() == width && r->Some_0.height() == height
                && r->Some_0.format() == format && r->Some_0@ == data@,
    {
        let c: u32 = format.channels();
        proof {
            assert(width * height <= 0xffff_ffffu128 * 0xffff_ffffu128) by (nonlinear_arith)
                requires
                    width <= 0xffff_ffffu128,
                    height <= 0xffff_ffffu128,
            ;
            assert(width * height * c <= 0xffff_ffffu128 * 0xffff_ffffu128 * 4) by (nonlinear_arith)
                requires
                    width * height <= 0xffff_ffffu128 * 0xffff_ffffu128,
                    c <= 4,
            ;
        }
        let n: u128 = width as u128 * height as u128 * c as u128;
        if data.len() as u128 == n {
            Some(PackedImage { width, height, format, data })
        } else {
            None
        }
    }

    #[verifier::when_used_as_spec(spec_width)]
    pub fn width(&self) -> (r: u32)
        ensures
            r == self.spec_width(),
    {
        self.width
    }

    #[verifier::when_used_as_spec(spec_height)]
    pub fn height(&self) -> (r: u32)
        ensures
            r == self.spec_height(),
    {
        self.height
    }

    #[verifier::when_used_as_spec(spec_format)]
    pub fn format(&self) -> (r: PixelFormat)
        ensures
            r == self.spec_format(),
    {
        self.format
    }

    /// The packed bytes.
    pub fn as_bytes(&self) -> (r: &[u8])
        ensures
            r@ == self@,
    {
        self.data.as_slice()
    }

    /// Gives up the packed bytes.
    pub fn into_raw(self) -> (r: Vec<u8>)
        ensures
            r@ == self@,
    {
        self.data
    }
}

/// One plane of a frame after the decoder's pixel-format converter has run:
/// `height` rows of `stride` bytes each, of which the first
/// `width * channels` bytes of a row are pixels and the rest padding.
pub struct Plane {
    pub data: Vec<u8>,
    pub stride: usize,
    pub width: u32,
    pub height: u32,
}

/// A decoded frame, known by its native dimensions.
pub struct Frame {
    width: u32,
    height: u32,
}

/// The error returned when a converted plane cannot make an image of the
/// frame's size.
pub open spec fn convert_failed() -> Error {
    Error::Static("Failed to convert image")
}

impl Frame {
    /// Whether `plane` is a converted copy of this frame with `channels`
    /// bytes per pixel: same dimensions, rows wide enough for the pixels, and
    /// exactly `height` rows of `stride` bytes.
    pub open spec fn fits(&self, channels: u32, plane: &Plane) -> bool {
        &&& plane.width == self.spec_width()
        &&& plane.height == self.spec_height()
        &&& row_bytes(plane.width as nat, channels as nat) <= plane.stride
        &&& plane.data@.len() == plane.stride * plane.height
    }

    /// The packed bytes of a converted plane, rows back to back.
    pub open spec fn packed(&self, channels: u32, plane: &Plane) -> Seq<u8> {
        packed_rows(
            plane.data@,
            plane.stride as nat,
            row_bytes(plane.width as nat, channels as nat),
            plane.height as nat,
        )
    }

    pub fn new(width: u32, height: u32) -> (r: Frame)
        ensures
            r.width() == width,
            r.height() == height,
    {
        Frame { width, height }
    }

    #[verifier::when_used_as_spec(spec_width)]
    pub fn width(&self) -> (r: u32)
        ensures
            r == self.spec_width(),
    {
        self.width
    }

    #[verifier::when_used_as_spec(spec_height)]
    pub fn height(&self) -> (r: u32)
        ensures
            r == self.spec_height(),
    {
        self.height
    }

    pub closed spec fn spec_width(&self) -> u32 {
        self.width
    }

    pub closed spec fn spec_height(&self) -> u32 {
        self.height
    }

    /// Packs a converted plane of this frame into a buffer with no row
    /// padding, `width * height * channels` bytes long.
    pub fn as_vec(&self, channels: u32, plane: &Plane) -> (r: Result<Vec<u8>, Error>)
        ensures
            r is Ok <==> self.fits(channels, plane),
            r is Ok ==> r->Ok_0@ == self.packed(channels, plane),
            r is Ok ==> r->Ok_0@.len() == self.width() * self.height() * channels,
            r is Ok && plane.stride == row_bytes(self.width() as nat, channels as nat) ==> r->Ok_0@
                == plane.data@,
            r is Err ==> r->Err_0 == convert_failed(),
    {
        if plane.width != self.width || plane.height != self.height {
            return Err(Error::Static("Failed to convert image"));
        }
        proof {
            assert(plane.width * channels <= 0xffff_ffffu64 * 0xffff_ffffu64) by (nonlinear_arith)
                requires
                    plane.width <= 0xffff_ffffu64,
                    channels <= 0xffff_ffffu64,
            ;
        }
        let row: u64 = plane.width as u64 * channels as u64;
        if row > plane.stride as u64 {
            return Err(Error::Static("Failed to convert image"));
        }
        let rows: usize = plane.height as usize;
        let len: usize = plane.data.len();
        match plane.stride.checked_mul(rows) {
            Some(n) => {
                if n != len {
                    return Err(Error::Static("Failed to convert image"));
                }
            },
            None => {
                return Err(Error::Static("Failed to convert image"));
            },
        }
        Ok(repack_plane(plane.data.as_slice(), plane.stride, plane.width, plane.height, channels))
    }

    /// The frame in `format`, from its plane converted to that format.
    pub fn as_format(&self, format: PixelFormat, converted: &Plane) -> (r: Result<
        PackedImage,
        Error,
    >)
        ensures
            r is Ok <==> self.fits(format.spec_channels(), converted),
            r is Ok ==> r->Ok_0.wf() && r->Ok_0.format() == format,
            r is Ok ==> r->Ok_0.width() == self.width() && r->Ok_0.height() == self.height(),
            r is Ok ==> r->Ok_0@ == self.packed(format.spec_channels(), converted),
            r is Err ==> r->Err_0 == convert_failed(),
    {
        let vec = self.as_vec(format.channels(), converted)?;
        match PackedImage::from_raw(self.width(), self.height(), format, vec) {
            Some(img) => Ok(img),
            None => Err(Error::Static("Failed to convert image")),
        }
    }

    /// The frame as an RGB image, three bytes per pixel, from its plane
    /// converted to RGB.
    pub fn as_rgb(&self, converted: &Plane) -> (r: Result<PackedImage, Error>)
        ensures
            r is Ok <==> self.fits(3, converted),
            r is Ok ==> r->Ok_0.wf() && r->Ok_0.format() == PixelFormat::RGB24,
            r is Ok ==> r->Ok_0.width() == self.width() && r->Ok_0.height() == self.height(),
            r is Ok ==> r->Ok_0@ == self.packed(3, converted),
            r is Err ==> r->Err_0 == convert_failed(),
    {
        self.as_format(PixelFormat::RGB24, converted)
    }

    /// The frame as an RGBA image, four bytes per pixel, from its plane
    /// converted to RGBA.
    pub fn as_rgba(&self, converted: &Plane) -> (r: Result<PackedImage, Error>)
        ensures
            r is Ok <==> self.fits(4, converted),
            r is Ok ==> r->Ok_0.wf() && r->Ok_0.format() == PixelFormat::RGBA,
            r is Ok ==> r->Ok_0.width() == self.width() && r->Ok_0.height() == self.height(),
            r is Ok ==> r->Ok_0@ == self.packed(4, converted),
            r is Err ==> r->Err_0 == convert_failed(),
    {
        self.as_format(PixelFormat::RGBA, converted)
    }

    /// The frame as a luminance image, one byte per pixel, from its plane
    /// converted to 8-bit gray.
    pub fn as_luma(&self, converted: &Plane) -> (r: Result<PackedImage, Error>)
        ensures
            r is Ok <==> self.fits(1, converted),
            r is Ok ==> r->Ok_0.wf() && r->Ok_0.format() == PixelFormat::GRAY8,
            r is Ok ==> r->Ok_0.width() == self.width() && r->Ok_0.height() == self.height(),
            r is Ok ==> r->Ok_0@ == self.packed(1, converted),
            r is Err ==> r->Err_0 == convert_failed(),
    {
        self.as_format(PixelFormat::GRAY8, converted)
    }
}

} // verus!
