use folco_core::bounds::get_folder_icon_content_bounds;
use folco_core::convert::{convert_icon_set, convert_icon_set_to_sys};
use folco_core::error::Error;
use folco_core::icons::{RectPx, RenderIconImage, RenderIconSet, SysIconImage, SysIconSet};

fn solid_pixels(width: u32, height: u32, rgba: [u8; 4]) -> Vec<u8> {
    let mut pixels: Vec<u8> = Vec::with_capacity((width * height * 4) as usize);
    for _ in 0..(width * height) {
        pixels.extend_from_slice(&rgba);
    }
    pixels
}

#[test]
fn test_convert_icon_set() {
    let pixels = solid_pixels(32, 32, [255, 0, 0, 255]);
    let sys_set = SysIconSet::new(vec![SysIconImage::new(32, 32, pixels).unwrap()]);

    let renderer_set = convert_icon_set(&sys_set).unwrap();

    assert_eq!(renderer_set.len(), 1);
    let img = &renderer_set.images[0];
    assert_eq!(img.width, 32);
    assert_eq!(img.height, 32);
    assert_eq!(img.scale, 1);
}

#[test]
fn test_convert_icon_set_to_sys() {
    let pixels = solid_pixels(16, 16, [0, 255, 0, 255]);
    let bounds = get_folder_icon_content_bounds(16, 16).unwrap();
    let renderer_img = RenderIconImage::new(16, 16, pixels, 1, bounds);
    let renderer_set = RenderIconSet::from_images(vec![renderer_img]);

    let sys_set = convert_icon_set_to_sys(&renderer_set);

    assert_eq!(sys_set.images.len(), 1);
    let img = &sys_set.images[0];
    assert_eq!(img.width, 16);
    assert_eq!(img.height, 16);
}

#[test]
fn test_roundtrip_conversion() {
    let pixels = solid_pixels(48, 48, [0, 0, 255, 255]);
    let original_sys_set = SysIconSet::new(vec![SysIconImage::new(48, 48, pixels).unwrap()]);

    let renderer_set = convert_icon_set(&original_sys_set).unwrap();
    let roundtrip_sys_set = convert_icon_set_to_sys(&renderer_set);

    assert_eq!(
        original_sys_set.images[0].width,
        roundtrip_sys_set.images[0].width
    );
    assert_eq!(
        original_sys_set.images[0].height,
        roundtrip_sys_set.images[0].height
    );
    assert_eq!(
        original_sys_set.images[0].pixels,
        roundtrip_sys_set.images[0].pixels
    );
}

#[test]
fn unsupported_dimensions_fail_conversion() {
    let pixels = solid_pixels(17, 17, [0, 0, 0, 255]);
    let sys_set = SysIconSet::new(vec![SysIconImage::new(17, 17, pixels).unwrap()]);
    let r = convert_icon_set(&sys_set);
    assert!(matches!(r, Err(Error::Render(_))));
}

#[test]
fn conversion_preserves_count_and_order() {
    let a = SysIconImage::new(16, 16, solid_pixels(16, 16, [1, 1, 1, 1])).unwrap();
    let b = SysIconImage::new(32, 32, solid_pixels(32, 32, [2, 2, 2, 2])).unwrap();
    let sys_set = SysIconSet::new(vec![a, b]);
    let renderer_set = convert_icon_set(&sys_set).unwrap();
    assert_eq!(renderer_set.len(), 2);
    assert_eq!(renderer_set.images[0].width, 16);
    assert_eq!(renderer_set.images[1].width, 32);
}

#[test]
fn test_content_bounds_16() {
    let bounds = get_folder_icon_content_bounds(16, 16).unwrap();
    assert_eq!(bounds.x, 0);
    assert_eq!(bounds.y, 4);
    assert_eq!(bounds.width, 16);
    assert_eq!(bounds.height, 9);
}

#[test]
fn test_content_bounds_32() {
    let bounds = get_folder_icon_content_bounds(32, 32).unwrap();
    assert_eq!(bounds.x, 2);
    assert_eq!(bounds.y, 8);
    assert_eq!(bounds.width, 28);
    assert_eq!(bounds.height, 17);
}

#[test]
fn test_content_bounds_256() {
    let bounds = get_folder_icon_content_bounds(256, 256).unwrap();
    assert_eq!(bounds.x, 16);
    assert_eq!(bounds.y, 62);
    assert_eq!(bounds.width, 224);
    assert_eq!(bounds.height, 144);
}

#[test]
fn test_all_sizes_valid() {
    for dim in [16u32, 20, 24, 32, 40, 48, 64, 256] {
        let bounds: RectPx = get_folder_icon_content_bounds(dim, dim).unwrap();
        assert!(bounds.x + bounds.width <= dim);
        assert!(bounds.y + bounds.height <= dim);
    }
}

#[test]
fn undefined_bounds_are_reported_not_assumed() {
    assert!(get_folder_icon_content_bounds(15, 15).is_none());
    assert!(get_folder_icon_content_bounds(0, 0).is_none());
    assert!(get_folder_icon_content_bounds(512, 512).is_none());
}
