use cicero::font_match::{
    descriptors_from_index, filter_fonts_with_preview_font_settings, font_source,
    try_create_font_descriptor_from_names, FontSource,
};
use cicero::{
    fonts_for, get_settings, match_fonts_for_character, CodePointRange, Error, FontDescriptor,
    FoundFonts, IndexedFont, PreviewFontSetting, Settings,
};

fn font(path: &str, family: &str, full: &str) -> FontDescriptor {
    FontDescriptor {
        path: path.to_owned(),
        family_name: family.to_owned(),
        full_name: full.to_owned(),
    }
}

fn paths(fonts: &[FontDescriptor]) -> Vec<String> {
    fonts.iter().map(|f| f.path.clone()).collect()
}

fn scan_settings(preview_fonts: Option<Vec<PreviewFontSetting>>) -> Settings {
    Settings {
        use_fontconfig: Some(false),
        font_search_paths: Some(vec!["/fonts".to_owned()]),
        preview_fonts,
    }
}

fn rule(range: Option<CodePointRange>, name: &str) -> PreviewFontSetting {
    PreviewFontSetting {
        code_point_range: range,
        font_name: name.to_owned(),
    }
}

fn indexed(path: &str, family: &str, full: &str) -> IndexedFont {
    IndexedFont {
        path: Some(path.to_owned()),
        family_name: Some(family.to_owned()),
        full_name: Some(full.to_owned()),
    }
}

#[test]
fn no_source_configured_is_an_error() {
    let settings = Settings {
        use_fontconfig: Some(false),
        font_search_paths: None,
        preview_fonts: None,
    };
    assert_eq!(font_source(&settings), Err(Error::FontSourceUnavailable));
    let result = fonts_for('A', &settings, FoundFonts::Scanned(vec![]));
    assert_eq!(result.err(), Some(Error::FontSourceUnavailable));

    let empty_paths = Settings {
        use_fontconfig: None,
        font_search_paths: Some(vec![]),
        preview_fonts: None,
    };
    assert_eq!(font_source(&empty_paths), Err(Error::FontSourceUnavailable));
}

#[test]
fn source_follows_settings() {
    assert_eq!(font_source(&Settings::default()), Ok(FontSource::SystemIndex));
    assert_eq!(font_source(&scan_settings(None)), Ok(FontSource::SearchPaths));
}

#[test]
fn scan_keeps_exactly_the_fonts_with_the_glyph() {
    let a = try_create_font_descriptor_from_names(
        "/fonts/a.ttf".to_owned(),
        Some(36),
        Some("Alpha".to_owned()),
        Some("Alpha-Regular".to_owned()),
    );
    let b = try_create_font_descriptor_from_names(
        "/fonts/b.ttf".to_owned(),
        None,
        Some("Beta".to_owned()),
        Some("Beta-Regular".to_owned()),
    );
    let c = try_create_font_descriptor_from_names(
        "/fonts/sub/c.otf".to_owned(),
        Some(3),
        Some("Gamma".to_owned()),
        None,
    );
    assert!(b.is_none());
    let found: Vec<FontDescriptor> = vec![a, b, c].into_iter().flatten().collect();
    let result = fonts_for('A', &scan_settings(Some(vec![])), FoundFonts::Scanned(found)).unwrap();
    assert_eq!(paths(&result), vec!["/fonts/a.ttf", "/fonts/sub/c.otf"]);
    assert_eq!(result[0].full_name, "Alpha-Regular");
    assert_eq!(result[1].full_name, "Gamma");
}

#[test]
fn scan_skips_fonts_without_family_name() {
    let d = try_create_font_descriptor_from_names("/fonts/d.ttf".to_owned(), Some(7), None, None);
    assert!(d.is_none());
    let zero = try_create_font_descriptor_from_names(
        "/fonts/e.ttf".to_owned(),
        Some(0),
        Some("E".to_owned()),
        None,
    );
    assert!(zero.is_none());
}

#[test]
fn index_results_are_sorted_by_path() {
    let entries = vec![
        indexed("/usr/share/fonts/z.ttf", "Zed", "Zed Regular"),
        indexed("/usr/share/fonts/a.ttf", "Ay", "Ay Regular"),
        IndexedFont {
            path: Some("/usr/share/fonts/m.ttf".to_owned()),
            family_name: None,
            full_name: Some("Em".to_owned()),
        },
        indexed("/usr/share/fonts/B.ttf", "Bee", "Bee Bold"),
    ];
    let result = descriptors_from_index(entries);
    assert_eq!(
        paths(&result),
        vec![
            "/usr/share/fonts/B.ttf",
            "/usr/share/fonts/a.ttf",
            "/usr/share/fonts/z.ttf"
        ]
    );
}

#[test]
fn index_order_does_not_depend_on_report_order() {
    let first = fonts_for(
        'A',
        &Settings::default(),
        FoundFonts::Indexed(vec![
            indexed("/f/2.ttf", "Two", "Two"),
            indexed("/f/1.ttf", "One", "One"),
            indexed("/f/3.ttf", "Three", "Three"),
        ]),
    )
    .unwrap();
    let second = fonts_for(
        'A',
        &Settings::default(),
        FoundFonts::Indexed(vec![
            indexed("/f/3.ttf", "Three", "Three"),
            indexed("/f/2.ttf", "Two", "Two"),
            indexed("/f/1.ttf", "One", "One"),
        ]),
    )
    .unwrap();
    assert_eq!(paths(&first), vec!["/f/1.ttf", "/f/2.ttf", "/f/3.ttf"]);
    assert_eq!(paths(&first), paths(&second));
}

#[test]
fn unmatched_rules_leave_nothing() {
    let candidates = vec![
        font("/f/a.ttf", "DejaVu Sans", "DejaVu Sans Book"),
        font("/f/b.ttf", "Noto Serif", "Noto Serif Regular"),
    ];
    let settings = scan_settings(Some(vec![rule(None, "Helvetica")]));
    let result = match_fonts_for_character('A', &settings, candidates);
    assert!(result.is_empty());
}

#[test]
fn rules_for_other_code_points_leave_nothing() {
    let candidates = vec![font("/f/a.ttf", "DejaVu Sans", "DejaVu Sans Book")];
    let settings = scan_settings(Some(vec![rule(
        Some(CodePointRange::Raw {
            first: '\u{4E00}',
            last: '\u{9FFF}',
        }),
        "DejaVu",
    )]));
    let result = match_fonts_for_character('A', &settings, candidates);
    assert!(result.is_empty());
}

#[test]
fn rules_match_family_or_full_name() {
    let candidates = vec![
        font("/f/a.ttf", "DejaVu Sans", "DejaVu Sans Book"),
        font("/f/b.ttf", "Noto Serif", "Noto Serif Regular"),
        font("/f/c.ttf", "Other", "Serif Fallback"),
    ];
    let settings = scan_settings(Some(vec![
        rule(Some(CodePointRange::Raw { first: ' ', last: '\u{FF}' }), "Serif"),
        rule(
            Some(CodePointRange::Plane {
                name: "Supplementary Multilingual Plane".to_owned(),
            }),
            "DejaVu",
        ),
    ]));
    let result = match_fonts_for_character('A', &settings, candidates);
    assert_eq!(paths(&result), vec!["/f/b.ttf", "/f/c.ttf"]);
}

#[test]
fn plane_and_block_rules_select_by_character() {
    let settings = scan_settings(Some(vec![
        rule(
            Some(CodePointRange::Plane {
                name: "Basic Multilingual Plane".to_owned(),
            }),
            "Sans",
        ),
        rule(
            Some(CodePointRange::Block {
                name: "Basic Latin".to_owned(),
            }),
            "Mono",
        ),
    ]));
    assert_eq!(settings.get_preview_fonts_for('A'), vec!["Sans", "Mono"]);
    assert_eq!(settings.get_preview_fonts_for('\u{E9}'), vec!["Sans"]);
    assert!(settings.get_preview_fonts_for('\u{1F600}').is_empty());
}

#[test]
fn no_rules_keep_all_candidates() {
    let candidates = vec![font("/f/a.ttf", "A", "A"), font("/f/b.ttf", "B", "B")];
    let result = match_fonts_for_character('A', &Settings::default(), candidates);
    assert_eq!(paths(&result), vec!["/f/a.ttf", "/f/b.ttf"]);
}

#[test]
fn empty_name_list_keeps_everything_in_filter() {
    let candidates = vec![font("/f/a.ttf", "A", "A")];
    let kept = filter_fonts_with_preview_font_settings(candidates, &vec![]);
    assert_eq!(kept.len(), 1);
    let candidates = vec![font("/f/a.ttf", "Abc", "Abc"), font("/f/b.ttf", "Xyz", "Xyz")];
    let kept = filter_fonts_with_preview_font_settings(candidates, &vec!["bc".to_owned()]);
    assert_eq!(paths(&kept), vec!["/f/a.ttf"]);
}

#[test]
fn empty_candidate_list_is_not_an_error() {
    let result = fonts_for('A', &scan_settings(None), FoundFonts::Scanned(vec![]));
    assert_eq!(result.map(|v| v.len()), Ok(0));
}

#[test]
fn settings_fall_back_to_defaults() {
    assert_eq!(get_settings(None), Settings::default());
    let custom = scan_settings(None);
    assert_eq!(get_settings(Some(scan_settings(None))), custom);
    assert_eq!(Settings::default().use_fontconfig, Some(true));
}

#[test]
fn descriptors_compare_by_path() {
    assert!(font("/f/a.ttf", "A", "A") == font("/f/a.ttf", "B", "C"));
    assert!(font("/f/a.ttf", "A", "A") != font("/f/b.ttf", "A", "A"));
}

use cicero::settings::{code_point_range_from_str, parse_code_point_range, RangeError};

#[test]
fn code_point_ranges_from_text() {
    assert_eq!(
        code_point_range_from_str("U+0020..U+00FF"),
        Ok(CodePointRange::Raw {
            first: ' ',
            last: '\u{FF}'
        })
    );
    assert_eq!(
        code_point_range_from_str("Basic Multilingual Plane"),
        Ok(CodePointRange::Plane {
            name: "Basic Multilingual Plane".to_owned()
        })
    );
    assert_eq!(
        code_point_range_from_str("Basic Latin"),
        Ok(CodePointRange::Block {
            name: "Basic Latin".to_owned()
        })
    );
    assert_eq!(
        code_point_range_from_str("Nowhere"),
        Err(RangeError::Unrecognized("Nowhere".to_owned()))
    );
    assert_eq!(
        code_point_range_from_str("x..U+20"),
        Err(RangeError::InvalidFirst("x".to_owned()))
    );
    assert_eq!(
        code_point_range_from_str("U+20..y..U+30"),
        Err(RangeError::InvalidLast("y".to_owned()))
    );
}

#[test]
fn block_names_come_from_the_given_list() {
    assert_eq!(
        parse_code_point_range("Mine", &vec!["Mine"]),
        Ok(CodePointRange::Block {
            name: "Mine".to_owned()
        })
    );
    assert_eq!(
        parse_code_point_range("U+41..U+5A", &vec![]),
        Ok(CodePointRange::Raw { first: 'A', last: 'Z' })
    );
}
