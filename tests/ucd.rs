use cicero::ucd::{code_point_description, Plane, Range, PLANE_COUNT};
use cicero::{code_point_to_string, string_to_code_point};

#[test]
fn test_code_point_to_string() {
    assert_eq!("U+0020", code_point_to_string('\u{0020}'));
    assert_eq!("U+34FF", code_point_to_string('\u{34FF}'));
    assert_eq!("U+10FFFF", code_point_to_string('\u{10FFFF}'));
}

#[test]
fn test_string_to_code_point() {
    assert_eq!(Some('\u{0020}'), string_to_code_point("U+20"));
    assert_eq!(Some('\u{0020}'), string_to_code_point("U+0020"));
    assert_eq!(Some('\u{34FF}'), string_to_code_point("U+34FF"));
    assert_eq!(Some('\u{10FFFF}'), string_to_code_point("U+10FFFF"));

    assert_eq!(Some('\u{0020}'), string_to_code_point("u+20"));
    assert_eq!(Some('\u{0020}'), string_to_code_point("u+0020"));
    assert_eq!(Some('\u{34ff}'), string_to_code_point("u+34ff"));
    assert_eq!(Some('\u{10ffff}'), string_to_code_point("u+10ffff"));

    assert_eq!(None, string_to_code_point("Invalid"));
    assert_eq!(None, string_to_code_point("U+11FFFF"));
}

#[test]
fn test_number_of_planes() {
    assert_eq!(PLANE_COUNT, 17);
    assert_eq!(Plane::all_plane_names().len(), 17);
}

#[test]
fn test_plane_of_character() {
    let names = Plane::all_plane_names();
    let cases: [(char, u32, u32); 17] = [
        ('\u{0060}', 0x0, 0xFFFF),
        ('\u{10060}', 0x10000, 0x1FFFF),
        ('\u{20060}', 0x20000, 0x2FFFF),
        ('\u{30060}', 0x30000, 0x3FFFF),
        ('\u{40060}', 0x40000, 0x4FFFF),
        ('\u{50060}', 0x50000, 0x5FFFF),
        ('\u{60060}', 0x60000, 0x6FFFF),
        ('\u{70060}', 0x70000, 0x7FFFF),
        ('\u{80060}', 0x80000, 0x8FFFF),
        ('\u{90060}', 0x90000, 0x9FFFF),
        ('\u{A0060}', 0xA0000, 0xAFFFF),
        ('\u{B0060}', 0xB0000, 0xBFFFF),
        ('\u{C0060}', 0xC0000, 0xCFFFF),
        ('\u{D0060}', 0xD0000, 0xDFFFF),
        ('\u{E0060}', 0xE0000, 0xEFFFF),
        ('\u{F0060}', 0xF0000, 0xFFFFF),
        ('\u{100060}', 0x100000, 0x10FFFF),
    ];
    for (index, (chr, start, end)) in cases.iter().enumerate() {
        assert_eq!(
            Plane::of(*chr),
            Plane {
                name: names[index],
                range: Range {
                    start: *start,
                    end: *end
                }
            }
        );
    }
}

#[test]
fn plane_names_are_the_unicode_ones() {
    assert_eq!(Plane::of('A').name, "Basic Multilingual Plane");
    assert_eq!(Plane::of('\u{E0001}').name, "Supplementary Special-purpose Plane");
    assert_eq!(
        Plane::of('\u{10FFFD}').name,
        "Supplementary Private Use Area (Plane 16)"
    );
}

#[test]
fn code_point_text_pads_to_four_digits() {
    assert_eq!(code_point_to_string('\u{0}'), "U+0000");
    assert_eq!(code_point_to_string('A'), "U+0041");
    assert_eq!(code_point_to_string('\u{1F600}'), "U+1F600");
    assert_eq!(code_point_description('\u{E9}'), "U+00E9");
}

#[test]
fn code_point_parsing_edge_cases() {
    assert_eq!(string_to_code_point("U+"), None);
    assert_eq!(string_to_code_point("U+D800"), None);
    assert_eq!(string_to_code_point("U+G1"), None);
    assert_eq!(string_to_code_point("X+41"), None);
    assert_eq!(string_to_code_point("U++41"), Some('A'));
    assert_eq!(string_to_code_point("U+100000000"), None);
    assert_eq!(string_to_code_point("U+0000000041"), Some('A'));
}
