use std::path::Path;

use cicero::font_match::try_create_font_descriptor_from_face;
use cicero::preview::CharacterPreview;
use cicero::{render, RenderSize};

const DEJAVU_SANS: &str = "/usr/share/fonts/truetype/dejavu/DejaVuSans.ttf";

fn dejavu_face(library: &freetype::Library) -> Option<freetype::Face> {
    if !Path::new(DEJAVU_SANS).exists() {
        println!("{} is not installed; nothing to check", DEJAVU_SANS);
        return None;
    }
    Some(library.new_face(DEJAVU_SANS, 0).unwrap())
}

#[test]
fn scanned_font_with_glyph_is_described() {
    let library = freetype::Library::init().unwrap();
    let face = match dejavu_face(&library) {
        Some(face) => face,
        None => return,
    };
    let font = try_create_font_descriptor_from_face(DEJAVU_SANS.to_owned(), &face, 'A').unwrap();
    assert_eq!(font.path, DEJAVU_SANS);
    assert_eq!(font.family_name, "DejaVu Sans");
    assert_eq!(font.full_name, "DejaVuSans");
    assert!(try_create_font_descriptor_from_face(DEJAVU_SANS.to_owned(), &face, '\u{10FFFD}').is_none());
}

#[test]
fn rendered_bitmap_has_the_requested_size() {
    let library = freetype::Library::init().unwrap();
    let face = match dejavu_face(&library) {
        Some(face) => face,
        None => return,
    };
    let square = render(&face, 'W', RenderSize::new(40, 40)).unwrap();
    assert!(square.bitmap.iter().flatten().any(|p| *p != 0));
    for (width, height) in [(40, 40), (1, 60), (60, 1), (7, 9), (120, 80)] {
        if let Ok(rendered) = render(&face, 'W', RenderSize::new(width, height)) {
            assert_eq!(rendered.bitmap.len(), height);
            assert!(rendered.bitmap.iter().all(|row| row.len() == width));
        }
    }
}

#[test]
fn preview_renders_with_selected_font() {
    let library = freetype::Library::init().unwrap();
    let face = match dejavu_face(&library) {
        Some(face) => face,
        None => return,
    };
    let font = try_create_font_descriptor_from_face(DEJAVU_SANS.to_owned(), &face, 'g').unwrap();
    let preview = CharacterPreview::new('g', vec![font], None).unwrap();
    let rendered = preview.render(&face, RenderSize::new(30, 30)).unwrap();
    assert_eq!(rendered.bitmap.len(), 30);
    assert!(rendered.glyph_size.width < 30 && rendered.glyph_size.height < 30);
    assert_eq!(preview.get_current_font_display_name(&face), "DejaVu Sans - Book");
}
