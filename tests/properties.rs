use cicero::properties::{
    add_padding_to_column_data, graphems_to_string, CharacterProperties, CharacterPropertyView,
    Decomposition, GraphemeProperties, PropertyRow, StringValuedProperty,
};

fn property(abbr: &str, human: &str) -> StringValuedProperty {
    StringValuedProperty {
        abbr: abbr.to_owned(),
        long: human.replace(' ', "_"),
        human_readable: human.to_owned(),
    }
}

fn euro() -> CharacterProperties {
    CharacterProperties {
        character: '€',
        code_point: 0x20AC,
        name: "EURO SIGN".to_owned(),
        age: Some("2.1".to_owned()),
        general_category: property("Sc", "Currency Symbol"),
        plane_name: "Basic Multilingual Plane".to_owned(),
        block_name: Some("Currency Symbols".to_owned()),
        name_corrections: None,
        control_code_names: None,
        alternative_names: Some(vec!["EURO".to_owned(), "EUR".to_owned()]),
        figments: None,
        name_abbreviations: None,
        is_cased: false,
        uppercase: None,
        lowercase: None,
        ccc: 0,
        decomposition: None,
        bidi_class: property("ET", "European Terminator"),
        is_bidi_control: false,
        is_bidi_mirrored: false,
        utf8: vec![0xe2, 0x82, 0xac],
        utf16: vec![0x20ac],
    }
}

fn with_ccc(ccc: u8) -> CharacterProperties {
    let mut p = euro();
    p.ccc = ccc;
    p
}

#[test]
fn ccc_descriptions() {
    assert_eq!(with_ccc(0).ccc_description(), "Not_Reordered(0)");
    assert_eq!(with_ccc(9).ccc_description(), "Virama(9)");
    assert_eq!(with_ccc(10).ccc_description(), "CCC10(10)");
    assert_eq!(with_ccc(199).ccc_description(), "CCC199(199)");
    assert_eq!(with_ccc(230).ccc_description(), "Above(230)");
    assert_eq!(with_ccc(240).ccc_description(), "Iota_Subscript(240)");
    assert_eq!(with_ccc(2).ccc_description(), "2");
    assert_eq!(with_ccc(255).ccc_description(), "255");
}

#[test]
fn property_rows_of_a_character() {
    let rows = PropertyRow::from_character_properties(&euro());
    let pairs: Vec<(&str, &str)> = rows.iter().map(|r| (r.title, r.value.as_str())).collect();
    assert_eq!(pairs[0], ("Code Point", "U+20AC"));
    assert_eq!(pairs[2], ("Age", "Unicode 2.1"));
    assert_eq!(pairs[5], ("General Category", "Currency Symbol(Sc)"));
    assert!(rows[6].is_default());
    assert_eq!(pairs[7], ("Name Corrections", "N/A"));
    assert_eq!(pairs[9], ("Alternative Names", "EURO"));
    assert_eq!(pairs[10], ("", "EUR"));
    assert_eq!(pairs[pairs.len() - 2], ("UTF-8", "[0xe2 0x82 0xac]"));
    assert_eq!(pairs[pairs.len() - 1], ("UTF-16", "[0x20ac]"));
    assert!(pairs.contains(&("Ccc", "Not_Reordered(0)")));
    assert!(pairs.contains(&("Decompositions", "N/A")));
    assert!(pairs.contains(&("Is Cased", "No")));
}

#[test]
fn decomposition_rows_list_components() {
    let mut p = euro();
    p.decomposition = Some(Decomposition {
        decomposition_type: property("can", "Canonical"),
        components: vec!['e', '\u{0301}'],
    });
    let rows = PropertyRow::from_character_properties(&p);
    let pairs: Vec<(&str, &str)> = rows.iter().map(|r| (r.title, r.value.as_str())).collect();
    let at = pairs
        .iter()
        .position(|r| r.0 == "Decomposition Type")
        .unwrap();
    assert_eq!(pairs[at].1, "Canonical(can)");
    assert_eq!(pairs[at + 1], ("Decompositions", "U+0065 e"));
    assert_eq!(pairs[at + 2], ("", "U+0301 \u{0301}"));
}

#[test]
fn single_rows() {
    assert_eq!(PropertyRow::from_bool("Is X", true).value, "Yes");
    assert_eq!(PropertyRow::from_optional_character("V", None).value, "N/A");
    assert_eq!(PropertyRow::from_character("C", 'A').value, "U+0041 A");
    assert!(PropertyRow::blank().is_default());
    assert!(!PropertyRow::new("", "x".to_owned()).is_default());
    let rows = PropertyRow::from_optional_character_components("Upper", &Some(vec!['A', 'B']));
    assert_eq!(rows.len(), 2);
    assert_eq!(rows[1].title, "");
}

#[test]
fn column_padding() {
    assert_eq!(add_padding_to_column_data("ab", 5), "   ab");
    assert_eq!(add_padding_to_column_data("abcdef", 3), "abcdef");
    assert_eq!(add_padding_to_column_data("", 2), "  ");
}

#[test]
fn scrolling_skips_blank_rows() {
    let mut view = CharacterPropertyView::new(euro());
    assert_eq!(view.selected(), None);
    view.scroll_down();
    assert_eq!(view.selected(), Some(0));
    for _ in 0..5 {
        view.scroll_down();
    }
    assert_eq!(view.selected(), Some(5));
    view.scroll_down();
    assert_eq!(view.selected(), Some(7));
    view.scroll_up();
    assert_eq!(view.selected(), Some(5));
}

#[test]
fn scrolling_up_from_nothing_selects_last_row() {
    let mut view = CharacterPropertyView::new(euro());
    view.scroll_up();
    assert_eq!(view.selected(), Some(view.rows().len() - 1));
    let last = view.rows().len() - 1;
    view.scroll_down();
    assert_eq!(view.selected(), Some(last));
}

#[test]
fn grapheme_text_output() {
    let mut e = euro();
    e.name = "EURO SIGN".to_owned();
    let mut a = euro();
    a.character = 'a';
    a.name = "LATIN SMALL LETTER A".to_owned();
    let mut acute = euro();
    acute.character = '\u{0301}';
    acute.name = "COMBINING ACUTE ACCENT".to_owned();
    let graphemes = vec![
        GraphemeProperties {
            grapheme: "€".to_owned(),
            characters: vec![e],
        },
        GraphemeProperties {
            grapheme: "a\u{0301}".to_owned(),
            characters: vec![a, acute],
        },
    ];
    assert_eq!(
        graphems_to_string(&graphemes),
        "€\n└── U+20AC  €  EURO SIGN\n\na\u{0301}\n├── U+0061  a  LATIN SMALL LETTER A\n└── U+0301  \u{0301}  COMBINING ACUTE ACCENT\n"
    );
}
