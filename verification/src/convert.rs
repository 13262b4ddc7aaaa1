//! Structural conversion between the system and the render icon
//! representations.
//!
//! Both directions preserve image count, order, and per-image pixel data.
//! Converting to the render representation attaches a scale factor of 1
//! (system-sourced icons are unscaled references) and the content bounds for
//! the image's dimensions; an undefined dimension combination is a hard
//! failure for the whole conversion, never a silently-assumed default.
//! Converting back to the system representation discards the metadata and
//! keeps only the pixel buffer.

use vstd::prelude::*;

use crate::bounds::{get_folder_icon_content_bounds, spec_content_bounds};
use crate::error::Error;
use crate::icons::{ImageView, RenderIconImage, RenderIconSet, RenderImageView, SysIconImage, SysIconSet};

verus! {

/// Whether every image of the set has dimensions in the content-bounds table.
pub open spec fn supported_dims(s: Seq<ImageView>) -> bool {
    forall|i: int|
        0 <= i < s.len() ==> spec_content_bounds(#[trigger] s[i].width, s[i].height) is Some
}

/// The render-representation image for a system image: same pixels, scale 1,
/// content bounds from the table.
pub open spec fn spec_render_image(v: ImageView) -> RenderImageView {
    RenderImageView {
        width: v.width,
        height: v.height,
        pixels: v.pixels,
        scale: 1,
        bounds: spec_content_bounds(v.width, v.height)->0,
    }
}

/// The render-representation view of a whole system set.
pub open spec fn spec_to_render(s: Seq<ImageView>) -> Seq<RenderImageView> {
    Seq::new(s.len(), |i: int| spec_render_image(s[i]))
}

/// The system-representation view of a render image: metadata discarded.
pub open spec fn spec_sys_image(v: RenderImageView) -> ImageView {
    ImageView { width: v.width, height: v.height, pixels: v.pixels }
}

/// The system-representation view of a whole render set.
pub open spec fn spec_to_sys(s: Seq<RenderImageView>) -> Seq<ImageView> {
    Seq::new(s.len(), |i: int| spec_sys_image(s[i]))
}

/// Round trip: converting a system icon set to the render representation and
/// back returns the original set. In particular, image count, order, and
/// per-image pixel dimensions are preserved.
pub proof fn lemma_conversion_round_trip(s: Seq<ImageView>)
    requires
        supported_dims(s),
    ensures
        spec_to_sys(spec_to_render(s)) == s,
{
    assert(spec_to_sys(spec_to_render(s)) =~= s);
}

/// Converts a system icon set to the render representation.
///
/// Succeeds exactly when every image's dimensions are in the content-bounds
/// table; an unsupported image makes the whole conversion fail with a
/// `Render` error.
pub fn convert_icon_set(sys_icon_set: &SysIconSet) -> (r: Result<RenderIconSet, Error>)
    ensures
        r is Ok <==> supported_dims(sys_icon_set@),
        r matches Ok(rs) ==> rs@ == spec_to_render(sys_icon_set@),
        r matches Err(e) ==> e is Render,
{
    let mut images: Vec<RenderIconImage> = Vec::new();
    let mut i: usize = 0;
    while i < sys_icon_set.images.len()
        invariant
            i <= sys_icon_set.images@.len(),
            images@.len() == i,
            forall|j: int|
                0 <= j < i ==> spec_content_bounds(
                    #[trigger] sys_icon_set@[j].width,
                    sys_icon_set@[j].height,
                ) is Some,
            forall|j: int| 0 <= j < i ==> images@[j]@ == spec_render_image(sys_icon_set@[j]),
        decreases sys_icon_set.images@.len() - i,
    {
        let img = &sys_icon_set.images[i];
        match get_folder_icon_content_bounds(img.width, img.height) {
            Some(bounds) => {
                let pixels = img.pixels.clone();
                proof {
                    assert(pixels@ =~= img.pixels@);
                }
                images.push(RenderIconImage::new(img.width, img.height, pixels, 1, bounds));
            },
            None => {
                proof {
                    assert(spec_content_bounds(
                        sys_icon_set@[i as int].width,
                        sys_icon_set@[i as int].height,
                    ) is None);
                    assert(!supported_dims(sys_icon_set@));
                }
                return Err(
                    Error::Render(String::from_str("undefined content bounds for icon dimensions")),
                );
            },
        }
        i += 1;
    }
    let rs = RenderIconSet::from_images(images);
    proof {
        assert(rs@ =~= spec_to_render(sys_icon_set@));
    }
    Ok(rs)
}

/// Converts a render icon set back to the system representation, keeping only
/// the pixel buffers. Total: never fails.
pub fn convert_icon_set_to_sys(renderer_icon_set: &RenderIconSet) -> (r: SysIconSet)
    ensures
        r@ == spec_to_sys(renderer_icon_set@),
{
    let mut images: Vec<SysIconImage> = Vec::new();
    let mut i: usize = 0;
    while i < renderer_icon_set.images.len()
        invariant
            i <= renderer_icon_set.images@.len(),
            images@.len() == i,
            forall|j: int| 0 <= j < i ==> images@[j]@ == spec_sys_image(renderer_icon_set@[j]),
        decreases renderer_icon_set.images@.len() - i,
    {
        let img = &renderer_icon_set.images[i];
        let pixels = img.pixels.clone();
        proof {
            assert(pixels@ =~= img.pixels@);
        }
        images.push(SysIconImage { width: img.width, height: img.height, pixels });
        i += 1;
    }
    let r = SysIconSet { images };
    proof {
        assert(r@ =~= spec_to_sys(renderer_icon_set@));
    }
    r
}

} // verus!
