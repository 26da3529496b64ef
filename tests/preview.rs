use cicero::preview::{font_display_name, CharacterPreview};
use cicero::FontDescriptor;

fn font(path: &str) -> FontDescriptor {
    FontDescriptor {
        path: path.to_owned(),
        family_name: "F".to_owned(),
        full_name: "F".to_owned(),
    }
}

#[test]
fn no_fonts_no_preview() {
    assert!(CharacterPreview::new('A', vec![], None).is_none());
}

#[test]
fn previously_chosen_font_is_restored() {
    let fonts = vec![font("/a.ttf"), font("/b.ttf"), font("/c.ttf")];
    let chosen = "/c.ttf".to_owned();
    let preview = CharacterPreview::new('A', fonts, Some(&chosen)).unwrap();
    assert_eq!(preview.get_current_font_path(), Some("/c.ttf".to_owned()));
    assert!(!preview.has_next_font());
    assert!(preview.has_previous_font());
}

#[test]
fn missing_chosen_font_falls_back_to_first() {
    let fonts = vec![font("/a.ttf"), font("/b.ttf")];
    let chosen = "/gone.ttf".to_owned();
    let mut preview = CharacterPreview::new('A', fonts, Some(&chosen)).unwrap();
    assert_eq!(preview.get_current_font_path(), Some("/a.ttf".to_owned()));
    preview.select_next_font();
    assert_eq!(preview.get_current_font_path(), Some("/b.ttf".to_owned()));
    preview.select_next_font();
    assert_eq!(preview.get_current_font_path(), Some("/b.ttf".to_owned()));
    preview.select_previous_font();
    preview.select_previous_font();
    assert_eq!(preview.current_font().map(|f| f.path.as_str()), Some("/a.ttf"));
}

#[test]
fn display_names() {
    assert_eq!(
        font_display_name(Some("DejaVu Sans".to_owned()), Some("Bold".to_owned())),
        "DejaVu Sans - Bold"
    );
    assert_eq!(font_display_name(None, None), "Unknown Family - Unknown Style");
}
