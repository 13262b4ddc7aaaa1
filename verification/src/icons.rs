//! Icon image and icon set types, in the two representations the library
//! works with.
//!
//! The system representation is a bare RGBA pixel buffer, as produced and
//! consumed by platform folder-icon mechanisms. The render representation
//! additionally carries a scale factor and a content-bounds rectangle, as
//! consumed by the rendering stage. An icon set is an ordered sequence of
//! images; the order is semantically significant and is preserved by every
//! operation of the library.

use vstd::prelude::*;

verus! {

/// A rectangle in pixel coordinates, used for content bounds.
#[derive(Debug, Clone, Copy, PartialEq, Eq, Structural)]
pub struct RectPx {
    pub x: u32,
    pub y: u32,
    pub width: u32,
    pub height: u32,
}

impl RectPx {
    pub fn new(x: u32, y: u32, width: u32, height: u32) -> (r: RectPx)
        ensures
            r == (RectPx { x, y, width, height }),
    {
        RectPx { x, y, width, height }
    }
}

/// The mathematical view of a system-representation image.
pub struct ImageView {
    pub width: u32,
    pub height: u32,
    pub pixels: Seq<u8>,
}

/// The mathematical view of a render-representation image.
pub struct RenderImageView {
    pub width: u32,
    pub height: u32,
    pub pixels: Seq<u8>,
    pub scale: u32,
    pub bounds: RectPx,
}

/// Whether an image view is a well-formed RGBA buffer: four bytes per pixel.
pub open spec fn image_wf(v: ImageView) -> bool {
    v.pixels.len() == 4 * v.width * v.height
}

/// An icon image in the system representation: an RGBA pixel buffer.
#[derive(Debug)]
pub struct SysIconImage {
    pub width: u32,
    pub height: u32,
    pub pixels: Vec<u8>,
}

impl View for SysIconImage {
    type V = ImageView;

    open spec fn view(&self) -> ImageView {
        ImageView { width: self.width, height: self.height, pixels: self.pixels@ }
    }
}

impl SysIconImage {
    /// Builds a system image, checking that the buffer holds exactly four
    /// bytes per pixel.
    pub fn new(width: u32, height: u32, pixels: Vec<u8>) -> (r: Option<SysIconImage>)
        ensures
            r is Some <==> pixels@.len() == 4 * width * height,
            r matches Some(img) ==> img@ == (ImageView { width, height, pixels: pixels@ }),
    {
        proof {
            assert(4u128 * (width as u128) * (height as u128) < 0x4_0000_0000_0000_0000u128)
                by (nonlinear_arith)
                requires
                    width <= 0xffff_ffffu32,
                    height <= 0xffff_ffffu32,
            ;
        }
        if pixels.len() as u128 == 4u128 * (width as u128) * (height as u128) {
            Some(SysIconImage { width, height, pixels })
        } else {
            None
        }
    }
}

impl Clone for SysIconImage {
    fn clone(&self) -> (r: Self)
        ensures
            r@ == self@,
    {
        let pixels = self.pixels.clone();
        proof {
            assert(pixels@ =~= self.pixels@);
        }
        SysIconImage { width: self.width, height: self.height, pixels }
    }
}

/// An icon image in the render representation: an RGBA pixel buffer plus a
/// scale factor and the content-bounds rectangle consumed by the renderer.
#[derive(Debug)]
pub struct RenderIconImage {
    pub width: u32,
    pub height: u32,
    pub pixels: Vec<u8>,
    /// Scale factor; system-sourced icons are unscaled references (scale 1).
    pub scale: u32,
    /// The sub-rectangle that holds the actual folder visual.
    pub bounds: RectPx,
}

impl View for RenderIconImage {
    type V = RenderImageView;

    open spec fn view(&self) -> RenderImageView {
        RenderImageView {
            width: self.width,
            height: self.height,
            pixels: self.pixels@,
            scale: self.scale,
            bounds: self.bounds,
        }
    }
}

impl RenderIconImage {
    pub fn new(width: u32, height: u32, pixels: Vec<u8>, scale: u32, bounds: RectPx) -> (r:
        RenderIconImage)
        ensures
            r@ == (RenderImageView { width, height, pixels: pixels@, scale, bounds }),
    {
        RenderIconImage { width, height, pixels, scale, bounds }
    }
}

impl Clone for RenderIconImage {
    fn clone(&self) -> (r: Self)
        ensures
            r@ == self@,
    {
        let pixels = self.pixels.clone();
        proof {
            assert(pixels@ =~= self.pixels@);
        }
        RenderIconImage {
            width: self.width,
            height: self.height,
            pixels,
            scale: self.scale,
            bounds: self.bounds,
        }
    }
}

/// An ordered icon set in the system representation.
#[derive(Debug)]
pub struct SysIconSet {
    pub images: Vec<SysIconImage>,
}

impl View for SysIconSet {
    type V = Seq<ImageView>;

    open spec fn view(&self) -> Seq<ImageView> {
        Seq::new(self.images@.len(), |i: int| self.images@[i]@)
    }
}

impl SysIconSet {
    pub fn new(images: Vec<SysIconImage>) -> (r: SysIconSet)
        ensures
            r@ == Seq::new(images@.len(), |i: int| images@[i]@),
    {
        SysIconSet { images }
    }

    pub fn len(&self) -> (r: usize)
        ensures
            r == self@.len(),
    {
        self.images.len()
    }
}

impl Clone for SysIconSet {
    fn clone(&self) -> (r: Self)
        ensures
            r@ == self@,
    {
        let mut images: Vec<SysIconImage> = Vec::new();
        let mut i: usize = 0;
        while i < self.images.len()
            invariant
                i <= self.images@.len(),
                images@.len() == i,
                forall|j: int| 0 <= j < i ==> images@[j]@ == self.images@[j]@,
            decreases self.images@.len() - i,
        {
            images.push(self.images[i].clone());
            i += 1;
        }
        let r = SysIconSet { images };
        proof {
            assert(r@ =~= self@);
        }
        r
    }
}

/// An ordered icon set in the render representation.
#[derive(Debug)]
pub struct RenderIconSet {
    pub images: Vec<RenderIconImage>,
}

impl View for RenderIconSet {
    type V = Seq<RenderImageView>;

    open spec fn view(&self) -> Seq<RenderImageView> {
        Seq::new(self.images@.len(), |i: int| self.images@[i]@)
    }
}

impl RenderIconSet {
    pub fn from_images(images: Vec<RenderIconImage>) -> (r: RenderIconSet)
        ensures
            r@ == Seq::new(images@.len(), |i: int| images@[i]@),
    {
        RenderIconSet { images }
    }

    pub fn len(&self) -> (r: usize)
        ensures
            r == self@.len(),
    {
        self.images.len()
    }
}

impl Clone for RenderIconSet {
    fn clone(&self) -> (r: Self)
        ensures
            r@ == self@,
    {
        let mut images: Vec<RenderIconImage> = Vec::new();
        let mut i: usize = 0;
        while i < self.images.len()
            invariant
                i <= self.images@.len(),
                images@.len() == i,
                forall|j: int| 0 <= j < i ==> images@[j]@ == self.images@[j]@,
            decreases self.images@.len() - i,
        {
            images.push(self.images[i].clone());
            i += 1;
        }
        let r = RenderIconSet { images };
        proof {
            assert(r@ =~= self@);
        }
        r
    }
}

} // verus!
