use cicero::render::{centering_offset, crop_to_canvas, render_from_raster};
use cicero::{Error, RenderSize, RenderedCharacter};

#[test]
fn small_glyph_is_padded_with_zeros() {
    let buffer = vec![1, 2, 3, 4];
    let rendered = render_from_raster(&buffer, 2, 2, 2, RenderSize::new(4, 3)).unwrap();
    assert_eq!(
        rendered.bitmap,
        vec![vec![1, 2, 0, 0], vec![3, 4, 0, 0], vec![0, 0, 0, 0]]
    );
    assert_eq!(rendered.glyph_size, RenderSize::new(2, 2));
}

#[test]
fn large_glyph_is_cropped() {
    let buffer: Vec<u8> = (0..30).collect();
    let rendered = render_from_raster(&buffer, 5, 6, 5, RenderSize::new(2, 3)).unwrap();
    assert_eq!(rendered.bitmap, vec![vec![0, 1], vec![5, 6], vec![10, 11]]);
    assert_eq!(rendered.glyph_size, RenderSize::new(5, 6));
}

#[test]
fn padded_rows_use_the_pitch() {
    let buffer = vec![9, 8, 0, 0, 7, 6, 0, 0];
    let bitmap = crop_to_canvas(&buffer, RenderSize::new(2, 2), 4, RenderSize::new(3, 2));
    assert_eq!(bitmap, vec![vec![9, 8, 0], vec![7, 6, 0]]);
}

#[test]
fn unusable_raster_fails() {
    let buffer = vec![1, 2, 3];
    assert_eq!(
        render_from_raster(&buffer, 2, 2, 2, RenderSize::new(4, 4)).err(),
        Some(Error::RasterizationFailed)
    );
    assert_eq!(
        render_from_raster(&buffer, -1, 1, 1, RenderSize::new(4, 4)).err(),
        Some(Error::RasterizationFailed)
    );
    assert_eq!(
        render_from_raster(&buffer, 3, 1, -3, RenderSize::new(4, 4)).err(),
        Some(Error::RasterizationFailed)
    );
}

#[test]
fn empty_raster_gives_blank_canvas() {
    let rendered = render_from_raster(&vec![], 0, 0, 0, RenderSize::new(3, 1)).unwrap();
    assert_eq!(rendered.bitmap, vec![vec![0, 0, 0]]);
}

#[test]
fn zero_sized_canvas() {
    let rendered = render_from_raster(&vec![5; 4], 2, 2, 2, RenderSize::new(0, 0)).unwrap();
    assert!(rendered.bitmap.is_empty());
}

#[test]
fn centering_offsets() {
    assert_eq!(centering_offset(10, 4), 3);
    assert_eq!(centering_offset(10, 5), 2);
    assert_eq!(centering_offset(4, 10), 0);
    assert_eq!(centering_offset(4, 4), 0);
}

#[test]
fn tofu_is_a_filled_square() {
    let tofu = RenderedCharacter::tofu(RenderSize::new(3, 3));
    assert_eq!(tofu.bitmap, vec![vec![255; 3]; 3]);
    assert_eq!(tofu.glyph_size, RenderSize::new(3, 3));
}

use cicero::render::preview_sizes;

#[test]
fn preview_canvas_from_cells() {
    assert_eq!(preview_sizes(3, 10), None);
    assert_eq!(preview_sizes(10, 3), None);
    assert_eq!(
        preview_sizes(14, 9),
        Some((RenderSize::new(20, 20), RenderSize::new(20, 20)))
    );
    assert_eq!(
        preview_sizes(24, 9),
        Some((RenderSize::new(40, 20), RenderSize::new(20, 20)))
    );
    assert_eq!(
        preview_sizes(8, 14),
        Some((RenderSize::new(8, 40), RenderSize::new(8, 8)))
    );
}
