//! Drawing a character of a font into a coverage bitmap of a requested size.
//!
//! The bitmap always has the requested size: the glyph's own raster is copied
//! into its top-left corner, cropped where it is larger and padded with zeros
//! where it is smaller, never scaled. The glyph's own size comes back with it
//! so that a caller can center it.
use crate::font_match::Error;
use vstd::prelude::*;

verus! {

#[derive(Debug, Copy, Clone, PartialEq, Eq)]
pub struct RenderSize {
    pub width: usize,
    pub height: usize,
}

impl RenderSize {
    pub fn new(width: usize, height: usize) -> (r: Self)
        ensures
            r.width == width,
            r.height == height,
    {
        RenderSize { width, height }
    }
}

#[derive(Debug)]
pub struct RenderedCharacter {
    /// Rows of coverage values, top to bottom.
    pub bitmap: Vec<Vec<u8>>,
    /// The size of the glyph's own raster.
    pub glyph_size: RenderSize,
}

/// Whether `bitmap` has `size.height` rows of `size.width` cells each.
pub open spec fn has_size(bitmap: Seq<Vec<u8>>, size: RenderSize) -> bool {
    &&& bitmap.len() == size.height
    &&& forall|y: int| 0 <= y < size.height ==> (#[trigger] bitmap[y])@.len() == size.width
}

/// The coverage at row `y`, column `x` of a raster of `natural` size whose
/// rows start `stride` bytes apart in `buffer`; zero outside the raster.
pub open spec fn coverage_at(
    buffer: Seq<u8>,
    natural: RenderSize,
    stride: nat,
    y: int,
    x: int,
) -> u8 {
    if y < natural.height && x < natural.width {
        buffer[y * stride + x]
    } else {
        0
    }
}

/// Whether `bitmap` is the raster of `natural` size in `buffer`, copied into
/// a canvas of `size`: cropped where larger, padded with zeros where smaller.
pub open spec fn is_cropped_copy(
    bitmap: Seq<Vec<u8>>,
    size: RenderSize,
    buffer: Seq<u8>,
    natural: RenderSize,
    stride: nat,
) -> bool {
    &&& has_size(bitmap, size)
    &&& forall|y: int, x: int|
        0 <= y < size.height && 0 <= x < size.width ==> #[trigger] bitmap[y]@[x] == coverage_at(
            buffer,
            natural,
            stride,
            y,
            x,
        )
}

/// Copies the raster of `natural` size, whose rows start `stride` bytes
/// apart in `buffer`, into a zeroed canvas of `size`.
pub fn crop_to_canvas(buffer: &Vec<u8>, natural: RenderSize, stride: usize, size: RenderSize) -> (r:
    Vec<Vec<u8>>)
    requires
        natural.width <= stride,
        natural.height * stride <= buffer@.len(),
    ensures
        is_cropped_copy(r@, size, buffer@, natural, stride as nat),
{
    let blen = buffer.len();
    let mut bitmap: Vec<Vec<u8>> = Vec::new();
    let mut y: usize = 0;
    while y < size.height
        invariant
            0 <= y <= size.height,
            blen == buffer@.len(),
            natural.width <= stride,
            natural.height * stride <= buffer@.len(),
            bitmap@.len() == y,
            forall|k: int| 0 <= k < y ==> (#[trigger] bitmap@[k])@.len() == size.width,
            forall|k: int, x: int|
                0 <= k < y && 0 <= x < size.width ==> #[trigger] bitmap@[k]@[x] == coverage_at(
                    buffer@,
                    natural,
                    stride as nat,
                    k,
                    x,
                ),
        decreases size.height - y,
    {
        let mut row: Vec<u8> = Vec::new();
        let mut x: usize = 0;
        while x < size.width
            invariant
                0 <= x <= size.width,
                0 <= y < size.height,
                blen == buffer@.len(),
                natural.width <= stride,
                natural.height * stride <= buffer@.len(),
                row@.len() == x,
                forall|m: int|
                    0 <= m < x ==> row@[m] == coverage_at(buffer@, natural, stride as nat, y as int, m),
            decreases size.width - x,
        {
            if y < natural.height && x < natural.width {
                proof {
                    assert(y * stride + x < natural.height * stride) by (nonlinear_arith)
                        requires
                            y < natural.height,
                            x < natural.width,
                            natural.width <= stride,
                    ;
                }
                row.push(buffer[y * stride + x]);
            } else {
                row.push(0);
            }
            x = x + 1;
        }
        bitmap.push(row);
        y = y + 1;
    }
    bitmap
}

/// Whether the backend's raster is usable: non-negative width and row count,
/// rows at least as long as the width, and a buffer that holds all rows.
pub open spec fn raster_is_usable(buffer_len: nat, width: i32, rows: i32, pitch: i32) -> bool {
    width >= 0 && rows >= 0 && pitch >= width && rows * pitch <= buffer_len
}

/// The rendered character from the raster that the backend produced: fails
/// when the raster is not usable, otherwise copies it into a canvas of
/// `size` and reports the raster's own size.
pub fn render_from_raster(
    buffer: &Vec<u8>,
    width: i32,
    rows: i32,
    pitch: i32,
    size: RenderSize,
) -> (r: Result<RenderedCharacter, Error>)
    ensures
        !raster_is_usable(buffer@.len(), width, rows, pitch) ==> r == Err::<
            RenderedCharacter,
            Error,
        >(Error::RasterizationFailed),
        raster_is_usable(buffer@.len(), width, rows, pitch) ==> (r matches Ok(rc) && rc.glyph_size
            == RenderSize { width: width as usize, height: rows as usize } && is_cropped_copy(
            rc.bitmap@,
            size,
            buffer@,
            rc.glyph_size,
            pitch as nat,
        )),
{
    if width < 0 || rows < 0 || pitch < width {
        return Err(Error::RasterizationFailed);
    }
    proof {
        assert((rows as u64) * (pitch as u64) <= 0x7fff_ffffu64 * 0x7fff_ffffu64) by (nonlinear_arith)
            requires
                0 <= rows <= 0x7fff_ffff,
                0 <= pitch <= 0x7fff_ffff,
        ;
    }
    if rows as u64 * pitch as u64 > buffer.len() as u64 {
        return Err(Error::RasterizationFailed);
    }
    let natural = RenderSize::new(width as usize, rows as usize);
    let bitmap = crop_to_canvas(buffer, natural, pitch as usize, size);
    Ok(RenderedCharacter { bitmap, glyph_size: natural })
}

/// How far to shift a glyph of length `natural` to center it in a canvas of
/// length `canvas`; zero when it does not fit.
pub fn centering_offset(canvas: usize, natural: usize) -> (r: usize)
    ensures
        natural < canvas ==> r == (canvas - natural) / 2,
        natural >= canvas ==> r == 0,
{
    if natural < canvas {
        (canvas - natural) / 2
    } else {
        0
    }
}

impl RenderedCharacter {
    /// The placeholder for a character that cannot be drawn: a fully covered
    /// square of `size`.
    pub fn tofu(size: RenderSize) -> (r: Self)
        ensures
            r.glyph_size == size,
            has_size(r.bitmap@, size),
            forall|y: int, x: int|
                0 <= y < size.height && 0 <= x < size.width ==> #[trigger] r.bitmap@[y]@[x]
                    == 255,
    {
        let mut bitmap: Vec<Vec<u8>> = Vec::new();
        let mut y: usize = 0;
        while y < size.height
            invariant
                0 <= y <= size.height,
                bitmap@.len() == y,
                forall|k: int| 0 <= k < y ==> (#[trigger] bitmap@[k])@.len() == size.width,
                forall|k: int, x: int|
                    0 <= k < y && 0 <= x < size.width ==> #[trigger] bitmap@[k]@[x] == 255,
            decreases size.height - y,
        {
            let mut row: Vec<u8> = Vec::new();
            let mut x: usize = 0;
            while x < size.width
                invariant
                    0 <= x <= size.width,
                    row@.len() == x,
                    forall|m: int| 0 <= m < x ==> row@[m] == 255,
                decreases size.width - x,
            {
                row.push(255);
                x = x + 1;
            }
            bitmap.push(row);
            y = y + 1;
        }
        RenderedCharacter { bitmap, glyph_size: size }
    }
}

#[verifier::external_type_specification]
#[verifier::external_body]
pub struct ExGlyphSlot(freetype::GlyphSlot);

#[verifier::external_type_specification]
#[verifier::external_body]
pub struct ExBitmap(freetype::Bitmap);

/// Relies on `freetype::Face::set_pixel_sizes`: whether FreeType accepted
/// the pixel size.
#[verifier::external_body]
fn face_set_pixel_sizes<B>(face: &freetype::Face<B>, width: u32, height: u32) -> (r: bool) {
    face.set_pixel_sizes(width, height).is_ok()
}

/// Relies on `freetype::Face::load_char` with `LoadFlag::RENDER`: whether
/// FreeType loaded and rendered the glyph of `chr` into the face's glyph slot.
#[verifier::external_body]
fn face_load_char<B>(face: &freetype::Face<B>, chr: char) -> (r: bool) {
    face.load_char(chr as usize, freetype::face::LoadFlag::RENDER).is_ok()
}

/// Relies on `freetype::Face::glyph`: the face's glyph slot.
#[verifier::external_body]
fn face_glyph<B>(face: &freetype::Face<B>) -> (r: &freetype::GlyphSlot) {
    face.glyph()
}

/// Relies on `freetype::GlyphSlot::bitmap`: the slot's rendered raster.
#[verifier::external_body]
fn glyph_bitmap(slot: &freetype::GlyphSlot) -> (r: freetype::Bitmap) {
    slot.bitmap()
}

/// Relies on `freetype::Bitmap::buffer`: a copy of the raster's bytes.
#[verifier::external_body]
fn bitmap_buffer(bitmap: &freetype::Bitmap) -> (r: Vec<u8>) {
    bitmap.buffer().to_vec()
}

/// Relies on `freetype::Bitmap::width`: the number of pixels in a row.
#[verifier::external_body]
fn bitmap_width(bitmap: &freetype::Bitmap) -> (r: i32) {
    bitmap.width()
}

/// Relies on `freetype::Bitmap::rows`: the number of rows.
#[verifier::external_body]
fn bitmap_rows(bitmap: &freetype::Bitmap) -> (r: i32) {
    bitmap.rows()
}

/// Relies on `freetype::Bitmap::pitch`: the number of bytes from one row to the next.
#[verifier::external_body]
fn bitmap_pitch(bitmap: &freetype::Bitmap) -> (r: i32) {
    bitmap.pitch()
}

/// Draws `chr` with `face` at `size`. Fails when a side of `size` does not
/// fit in 32 bits, when the face cannot be sized, has no glyph for `chr` or
/// reports an unusable raster. Whatever the face produces, a bitmap that
/// comes back has exactly the requested size, and is zero outside the
/// glyph's own raster.
pub fn render<B>(face: &freetype::Face<B>, chr: char, size: RenderSize) -> (r: Result<
    RenderedCharacter,
    Error,
>)
    ensures
        (size.width > u32::MAX || size.height > u32::MAX) ==> r == Err::<RenderedCharacter, Error>(
            Error::RasterizationFailed,
        ),
        r matches Ok(rc) ==> has_size(rc.bitmap@, size) && forall|y: int, x: int|
            0 <= y < size.height && 0 <= x < size.width && !(y < rc.glyph_size.height && x
                < rc.glyph_size.width) ==> #[trigger] rc.bitmap@[y]@[x] == 0,
{
    if size.width > u32::MAX as usize || size.height > u32::MAX as usize {
        return Err(Error::RasterizationFailed);
    }
    if !face_set_pixel_sizes(face, size.width as u32, size.height as u32) {
        return Err(Error::RasterizationFailed);
    }
    if !face_load_char(face, chr) {
        return Err(Error::RasterizationFailed);
    }
    let bitmap = glyph_bitmap(face_glyph(face));
    let buffer = bitmap_buffer(&bitmap);
    render_from_raster(&buffer, bitmap_width(&bitmap), bitmap_rows(&bitmap), bitmap_pitch(&bitmap), size)
}

/// Cells left around the preview inside its area, in each direction.
pub const RENDER_PADDING_IN_CELLS: u16 = 4;

/// Braille dots per terminal cell, across.
pub const BRAILLE_PATTERN_DOTS_PER_CELL_HORIZONTAL: u16 = 2;

/// Braille dots per terminal cell, down.
pub const BRAILLE_PATTERN_DOTS_PER_CELL_VERTICAL: u16 = 4;

/// The pixel canvas that a preview area of `width` by `height` terminal
/// cells offers, after padding, in braille dots; and the largest square in
/// it, in which the glyph is drawn. None when the area is smaller than the
/// padding.
pub fn preview_sizes(width: u16, height: u16) -> (r: Option<(RenderSize, RenderSize)>)
    ensures
        (width < RENDER_PADDING_IN_CELLS || height < RENDER_PADDING_IN_CELLS) ==> r.is_none(),
        !(width < RENDER_PADDING_IN_CELLS || height < RENDER_PADDING_IN_CELLS) ==> {
            let w = (width - RENDER_PADDING_IN_CELLS) * BRAILLE_PATTERN_DOTS_PER_CELL_HORIZONTAL;
            let h = (height - RENDER_PADDING_IN_CELLS) * BRAILLE_PATTERN_DOTS_PER_CELL_VERTICAL;
            let side = if w < h { w } else { h };
            r == Some(
                (
                    RenderSize { width: w as usize, height: h as usize },
                    RenderSize { width: side as usize, height: side as usize },
                ),
            )
        },
{
    if width < RENDER_PADDING_IN_CELLS || height < RENDER_PADDING_IN_CELLS {
        return None;
    }
    let w: usize = (width - RENDER_PADDING_IN_CELLS) as usize * BRAILLE_PATTERN_DOTS_PER_CELL_HORIZONTAL as usize;
    let h: usize = (height - RENDER_PADDING_IN_CELLS) as usize * BRAILLE_PATTERN_DOTS_PER_CELL_VERTICAL as usize;
    let side = if w < h { w } else { h };
    Some((RenderSize::new(w, h), RenderSize::new(side, side)))
}

} // verus!
