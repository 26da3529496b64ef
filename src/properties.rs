//! Unicode properties of a character, as plain values, and the rows in which
//! the property view lists them.
use crate::graphemes::ListState;
use hex_slice::AsHex;
use crate::text::push_char;
use crate::ucd::{code_point_text, code_point_to_string};
use vstd::prelude::*;
use vstd::string::{StrSliceExecFns, StringExecFns};

verus! {

pub const NOT_AVAILABLE_DISPLAY_TEXT: &'static str = "N/A";

/// An enumerated property value by its names.
#[derive(Debug, Clone)]
pub struct StringValuedProperty {
    pub abbr: String,
    pub long: String,
    pub human_readable: String,
}

/// A character's decomposition: its type and the characters it decomposes into.
#[derive(Debug, Clone)]
pub struct Decomposition {
    pub decomposition_type: StringValuedProperty,
    pub components: Vec<char>,
}

/// The properties of one character that the views show.
#[derive(Debug, Clone)]
pub struct CharacterProperties {
    pub character: char,
    pub code_point: u32,
    pub name: String,
    pub age: Option<String>,
    pub general_category: StringValuedProperty,
    pub plane_name: String,
    pub block_name: Option<String>,
    pub name_corrections: Option<Vec<String>>,
    pub control_code_names: Option<Vec<String>>,
    pub alternative_names: Option<Vec<String>>,
    pub figments: Option<Vec<String>>,
    pub name_abbreviations: Option<Vec<String>>,
    pub is_cased: bool,
    pub uppercase: Option<Vec<char>>,
    pub lowercase: Option<Vec<char>>,
    pub ccc: u8,
    pub decomposition: Option<Decomposition>,
    pub bidi_class: StringValuedProperty,
    pub is_bidi_control: bool,
    pub is_bidi_mirrored: bool,
    /// The character's UTF-8 code units.
    pub utf8: Vec<u8>,
    /// The character's UTF-16 code units.
    pub utf16: Vec<u16>,
}

/// A grapheme cluster and the properties of each of its characters.
#[derive(Debug, Clone)]
pub struct GraphemeProperties {
    pub grapheme: String,
    pub characters: Vec<CharacterProperties>,
}

pub open spec fn decimal_digit(d: nat) -> char {
    ((d % 10 + 48) as u8) as char
}

/// The decimal digits of `n`, without leading zeros.
pub open spec fn decimal_text(n: nat) -> Seq<char>
    decreases n,
{
    if n < 10 {
        seq![decimal_digit(n)]
    } else {
        decimal_text(n / 10).push(decimal_digit(n % 10))
    }
}

/// Writes `n` in decimal.
pub fn decimal_string(n: u8) -> (r: String)
    ensures
        r@ == decimal_text(n as nat),
{
    let mut m: u32 = n as u32 / 10;
    let mut digits: Vec<char> = Vec::new();
    digits.push(((n % 10 + 48) as u8) as char);
    proof {
        assert(decimal_text(n as nat) == (if m == 0 { Seq::<char>::empty() } else { decimal_text(m as nat) }) + digits@) by {
            if n >= 10 {
                assert(decimal_text(n as nat) =~= decimal_text(m as nat) + digits@);
            } else {
                assert(decimal_text(n as nat) =~= Seq::<char>::empty() + digits@);
            }
        }
    }
    while m > 0
        invariant
            decimal_text(n as nat) == (if m == 0 { Seq::<char>::empty() } else { decimal_text(m as nat) }) + digits@,
        decreases m,
    {
        let d = ((m % 10 + 48) as u8) as char;
        let ghost before = digits@;
        digits.insert(0, d);
        proof {
            if m >= 10 {
                assert(decimal_text(m as nat) == decimal_text((m / 10) as nat).push(d));
                assert(decimal_text((m / 10) as nat).push(d) + before =~= decimal_text((m / 10) as nat) + digits@);
            } else {
                assert(decimal_text(m as nat) == seq![d]);
                assert(Seq::<char>::empty() + digits@ =~= seq![d] + before);
            }
        }
        m = m / 10;
    }
    proof {
        assert(Seq::<char>::empty() + digits@ =~= digits@);
    }
    crate::cli::string_from_chars(&digits)
}

/// The long name of a canonical combining class, for the classes that have one.
pub open spec fn ccc_name(n: u8) -> Option<Seq<char>> {
    if n == 0 {
        Some("Not_Reordered"@)
    } else if n == 1 {
        Some("Overlay"@)
    } else if n == 6 {
        Some("Han_Reading"@)
    } else if n == 7 {
        Some("Nukta"@)
    } else if n == 8 {
        Some("Kana_Voicing"@)
    } else if n == 9 {
        Some("Virama"@)
    } else if 10 <= n <= 199 {
        Some("CCC"@ + decimal_text(n as nat))
    } else if n == 200 {
        Some("Attached_Below_Left"@)
    } else if n == 202 {
        Some("Attached_Below"@)
    } else if n == 214 {
        Some("Attached_Above"@)
    } else if n == 216 {
        Some("Attached_Above_Right"@)
    } else if n == 218 {
        Some("Below_Left"@)
    } else if n == 220 {
        Some("Below"@)
    } else if n == 222 {
        Some("Below_Right"@)
    } else if n == 224 {
        Some("Left"@)
    } else if n == 226 {
        Some("Right"@)
    } else if n == 228 {
        Some("Above_Left"@)
    } else if n == 230 {
        Some("Above"@)
    } else if n == 232 {
        Some("Above_Right"@)
    } else if n == 233 {
        Some("Double_Below"@)
    } else if n == 234 {
        Some("Double_Above"@)
    } else if n == 240 {
        Some("Iota_Subscript"@)
    } else {
        None
    }
}

fn fixed_ccc_name(n: u8) -> (r: Option<&'static str>)
    ensures
        !(10 <= n <= 199) ==> opt_view(r) == ccc_name(n),
        10 <= n <= 199 ==> r.is_none(),
{
    if n == 0 {
        Some("Not_Reordered")
    } else if n == 1 {
        Some("Overlay")
    } else if n == 6 {
        Some("Han_Reading")
    } else if n == 7 {
        Some("Nukta")
    } else if n == 8 {
        Some("Kana_Voicing")
    } else if n == 9 {
        Some("Virama")
    } else if 10 <= n && n <= 199 {
        None
    } else if n == 200 {
        Some("Attached_Below_Left")
    } else if n == 202 {
        Some("Attached_Below")
    } else if n == 214 {
        Some("Attached_Above")
    } else if n == 216 {
        Some("Attached_Above_Right")
    } else if n == 218 {
        Some("Below_Left")
    } else if n == 220 {
        Some("Below")
    } else if n == 222 {
        Some("Below_Right")
    } else if n == 224 {
        Some("Left")
    } else if n == 226 {
        Some("Right")
    } else if n == 228 {
        Some("Above_Left")
    } else if n == 230 {
        Some("Above")
    } else if n == 232 {
        Some("Above_Right")
    } else if n == 233 {
        Some("Double_Below")
    } else if n == 234 {
        Some("Double_Above")
    } else if n == 240 {
        Some("Iota_Subscript")
    } else {
        None
    }
}

pub open spec fn opt_view(o: Option<&str>) -> Option<Seq<char>> {
    match o {
        Some(s) => Some(s@),
        None => None,
    }
}

/// A canonical combining class as `Name(n)`, or as `n` alone for a class without a name.
pub open spec fn ccc_text(n: u8) -> Seq<char> {
    match ccc_name(n) {
        Some(name) => name + "("@ + decimal_text(n as nat) + ")"@,
        None => decimal_text(n as nat),
    }
}

/// `Human Readable(abbr)`.
pub open spec fn property_text(p: StringValuedProperty) -> Seq<char> {
    p.human_readable@ + "("@ + p.abbr@ + ")"@
}

impl StringValuedProperty {
    /// The value as `Human Readable(abbr)`.
    pub fn to_text(&self) -> (r: String)
        ensures
            r@ == property_text(*self),
    {
        let mut r = self.human_readable.clone();
        r.append("(");
        r.append(self.abbr.as_str());
        r.append(")");
        r
    }
}

impl CharacterProperties {
    /// The canonical combining class as `Name(n)`, or `n` for a class without a name.
    pub fn ccc_description(&self) -> (r: String)
        ensures
            r@ == ccc_text(self.ccc),
    {
        let number = decimal_string(self.ccc);
        let long_description: Option<String> = if 10 <= self.ccc && self.ccc <= 199 {
            let mut s = String::from_str("CCC");
            s.append(number.as_str());
            Some(s)
        } else {
            match fixed_ccc_name(self.ccc) {
                Some(name) => Some(String::from_str(name)),
                None => None,
            }
        };
        match long_description {
            Some(mut description) => {
                description.append("(");
                description.append(number.as_str());
                description.append(")");
                description
            },
            None => number,
        }
    }
}

/// One row of the property view: a title, a value, and the character that
/// the row links to, if any.
#[derive(Debug, Clone, PartialEq, Eq)]
pub struct PropertyRow {
    pub title: &'static str,
    pub value: String,
    pub link: Option<char>,
}

/// A row as its title, value and link.
pub type RowView = (Seq<char>, Seq<char>, Option<char>);

pub open spec fn row_view(r: PropertyRow) -> RowView {
    (r.title@, r.value@, r.link)
}

pub open spec fn row_views(rows: Seq<PropertyRow>) -> Seq<RowView> {
    rows.map_values(|r: PropertyRow| row_view(r))
}

/// A row with a title and a value and no link.
pub open spec fn plain_row(title: Seq<char>, value: Seq<char>) -> RowView {
    (title, value, None)
}

/// The empty row that separates groups of rows.
pub open spec fn blank_row() -> RowView {
    (Seq::empty(), Seq::empty(), None)
}

/// The title of row `i` of a group: the group's title on its first row only.
pub open spec fn group_title(title: Seq<char>, i: int) -> Seq<char> {
    if i == 0 {
        title
    } else {
        Seq::empty()
    }
}

/// `U+hhhh c`: a character by its code point and itself.
pub open spec fn character_value(c: char) -> Seq<char> {
    code_point_text(c) + " "@ + seq![c]
}

pub open spec fn strings_view(o: Option<Vec<String>>) -> Option<Seq<Seq<char>>> {
    match o {
        Some(v) => Some(v@.map_values(|s: String| s@)),
        None => None,
    }
}

/// One row per name alias, the title on the first; `N/A` when there is no list.
pub open spec fn alias_rows(title: Seq<char>, aliases: Option<Seq<Seq<char>>>) -> Seq<RowView> {
    match aliases {
        Some(list) => Seq::new(list.len(), |i: int| plain_row(group_title(title, i), list[i])),
        None => seq![plain_row(title, NOT_AVAILABLE_DISPLAY_TEXT@)],
    }
}

/// One row per character, the title on the first.
pub open spec fn component_rows(title: Seq<char>, cs: Seq<char>) -> Seq<RowView> {
    Seq::new(cs.len(), |i: int| plain_row(group_title(title, i), character_value(cs[i])))
}

/// One row per character, the title on the first; `N/A` when there is no list.
pub open spec fn optional_component_rows(title: Seq<char>, cs: Option<Vec<char>>) -> Seq<RowView> {
    match cs {
        Some(v) => component_rows(title, v@),
        None => seq![plain_row(title, NOT_AVAILABLE_DISPLAY_TEXT@)],
    }
}

pub open spec fn yes_no(b: bool) -> Seq<char> {
    if b {
        "Yes"@
    } else {
        "No"@
    }
}

impl PropertyRow {
    pub fn new(title: &'static str, value: String) -> (r: Self)
        ensures
            row_view(r) == plain_row(title@, value@),
    {
        PropertyRow { title, value, link: None }
    }

    /// The empty separator row.
    pub fn blank() -> (r: Self)
        ensures
            row_view(r) == blank_row(),
    {
        proof {
            reveal_strlit("");
        }
        PropertyRow { title: "", value: String::new(), link: None }
    }

    pub fn from_name_aliases(title: &'static str, name_aliases: &Option<Vec<String>>) -> (r: Vec<Self>)
        ensures
            row_views(r@) == alias_rows(title@, strings_view(*name_aliases)),
    {
        let mut property_rows: Vec<PropertyRow> = Vec::new();
        match name_aliases {
            Some(aliases) => {
                let ghost list = aliases@.map_values(|s: String| s@);
                let mut index: usize = 0;
                while index < aliases.len()
                    invariant
                        0 <= index <= aliases@.len(),
                        list == aliases@.map_values(|s: String| s@),
                        row_views(property_rows@) == Seq::new(
                            index as nat,
                            |i: int| plain_row(group_title(title@, i), list[i]),
                        ),
                    decreases aliases@.len() - index,
                {
                    let row_title = if index == 0 {
                        title
                    } else {
                        proof {
                            reveal_strlit("");
                        }
                        assert(""@ =~= Seq::<char>::empty());
                        ""
                    };
                    assert(row_title@ == group_title(title@, index as int));
                    let ghost pre = property_rows@;
                    property_rows.push(PropertyRow::new(row_title, aliases[index].clone()));
                    proof {
                        assert(row_views(property_rows@) =~= row_views(pre).push(
                            plain_row(group_title(title@, index as int), list[index as int]),
                        ));
                        assert(row_views(property_rows@) =~= Seq::new(
                            (index + 1) as nat,
                            |i: int| plain_row(group_title(title@, i), list[i]),
                        ));
                    }
                    index = index + 1;
                }
            },
            None => {
                property_rows.push(
                    PropertyRow::new(title, String::from_str(NOT_AVAILABLE_DISPLAY_TEXT)),
                );
                proof {
                    assert(row_views(property_rows@) =~= seq![
                        plain_row(title@, NOT_AVAILABLE_DISPLAY_TEXT@),
                    ]);
                }
            },
        }
        property_rows
    }

    pub fn from_character_components(title: &'static str, character_components: &Vec<char>) -> (r: Vec<Self>)
        ensures
            row_views(r@) == component_rows(title@, character_components@),
    {
        let mut property_rows: Vec<PropertyRow> = Vec::new();
        let mut index: usize = 0;
        while index < character_components.len()
            invariant
                0 <= index <= character_components@.len(),
                row_views(property_rows@) == Seq::new(
                    index as nat,
                    |i: int| plain_row(group_title(title@, i), character_value(character_components@[i])),
                ),
            decreases character_components@.len() - index,
        {
            let row_title = if index == 0 {
                title
            } else {
                proof {
                    reveal_strlit("");
                }
                assert(""@ =~= Seq::<char>::empty());
                ""
            };
            assert(row_title@ == group_title(title@, index as int));
            let ghost pre = property_rows@;
            property_rows.push(PropertyRow::from_character(row_title, character_components[index]));
            proof {
                assert(row_views(property_rows@) =~= row_views(pre).push(
                    plain_row(group_title(title@, index as int), character_value(character_components@[index as int])),
                ));
                assert(row_views(property_rows@) =~= Seq::new(
                    (index + 1) as nat,
                    |i: int| plain_row(group_title(title@, i), character_value(character_components@[i])),
                ));
            }
            index = index + 1;
        }
        property_rows
    }

    pub fn from_optional_character_components(
        title: &'static str,
        character_components: &Option<Vec<char>>,
    ) -> (r: Vec<Self>)
        ensures
            row_views(r@) == optional_component_rows(title@, *character_components),
    {
        match character_components {
            Some(components) => PropertyRow::from_character_components(title, components),
            None => {
                let mut rows: Vec<PropertyRow> = Vec::new();
                rows.push(PropertyRow::new(title, String::from_str(NOT_AVAILABLE_DISPLAY_TEXT)));
                proof {
                    assert(row_views(rows@) =~= seq![plain_row(title@, NOT_AVAILABLE_DISPLAY_TEXT@)]);
                }
                rows
            },
        }
    }

    pub fn from_character(title: &'static str, chr: char) -> (r: Self)
        ensures
            row_view(r) == plain_row(title@, character_value(chr)),
    {
        let mut value = code_point_to_string(chr);
        value.append(" ");
        push_char(&mut value, chr);
        proof {
            assert(value@ =~= character_value(chr));
        }
        PropertyRow::new(title, value)
    }

    pub fn from_optional_character(title: &'static str, optional_chr: Option<char>) -> (r: Self)
        ensures
            row_view(r) == plain_row(
                title@,
                match optional_chr {
                    Some(c) => character_value(c),
                    None => NOT_AVAILABLE_DISPLAY_TEXT@,
                },
            ),
    {
        match optional_chr {
            Some(chr) => PropertyRow::from_character(title, chr),
            None => PropertyRow::new(title, String::from_str(NOT_AVAILABLE_DISPLAY_TEXT)),
        }
    }

    pub fn from_bool(title: &'static str, b: bool) -> (r: Self)
        ensures
            row_view(r) == plain_row(title@, yes_no(b)),
    {
        PropertyRow::new(title, if b { String::from_str("Yes") } else { String::from_str("No") })
    }

    /// Whether this is the empty separator row.
    pub fn is_default(&self) -> (r: bool)
        ensures
            r == (row_view(*self) == blank_row()),
    {
        let r = self.title.is_empty() && self.value.as_str().is_empty() && self.link.is_none();
        proof {
            if self.title@.len() == 0 && self.value@.len() == 0 {
                assert(self.title@ =~= Seq::<char>::empty());
                assert(self.value@ =~= Seq::<char>::empty());
            }
        }
        r
    }
}

/// The lower-case hexadecimal digits of `n`, padded with zeros to at least
/// `width` digits.
pub open spec fn lower_hex_text(n: nat, width: nat) -> Seq<char>
    decreases n + width,
{
    if n == 0 && width == 0 {
        Seq::empty()
    } else {
        let d = n % 16;
        let c = if d < 10 { ((d + 48) as u8) as char } else { ((d - 10 + 97) as u8) as char };
        lower_hex_text(n / 16, if width > 0 { (width - 1) as nat } else { 0 }).push(c)
    }
}

/// The code units `units`, each as `0x` and `width` lower-case digits,
/// separated by spaces, between brackets.
pub open spec fn hex_list(units: Seq<nat>, width: nat) -> Seq<char> {
    "["@ + hex_items(units, width) + "]"@
}

pub open spec fn hex_items(units: Seq<nat>, width: nat) -> Seq<char>
    decreases units.len(),
{
    if units.len() == 0 {
        Seq::empty()
    } else if units.len() == 1 {
        "0x"@ + lower_hex_text(units[0], width)
    } else {
        hex_items(units.drop_last(), width) + " "@ + "0x"@ + lower_hex_text(units.last(), width)
    }
}

pub open spec fn byte_values(b: Seq<u8>) -> Seq<nat> {
    b.map_values(|x: u8| x as nat)
}

pub open spec fn unit_values(u: Seq<u16>) -> Seq<nat> {
    u.map_values(|x: u16| x as nat)
}

/// Relies on `hex_slice::AsHex` formatted with `{:#04x}`: `[`, each byte as
/// `0x` and two lower-case digits separated by spaces, `]`.
#[verifier::external_body]
fn utf8_hex(bytes: &Vec<u8>) -> (r: String)
    ensures
        r@ == hex_list(byte_values(bytes@), 2),
{
    format!("{:#04x}", bytes.as_slice().as_hex())
}

/// Relies on `hex_slice::AsHex` formatted with `{:#06x}`: `[`, each unit as
/// `0x` and four lower-case digits separated by spaces, `]`.
#[verifier::external_body]
fn utf16_hex(units: &Vec<u16>) -> (r: String)
    ensures
        r@ == hex_list(unit_values(units@), 4),
{
    format!("{:#06x}", units.as_slice().as_hex())
}

/// The text if present, else `N/A`.
pub open spec fn or_not_available(o: Option<String>) -> Seq<char> {
    match o {
        Some(s) => s@,
        None => NOT_AVAILABLE_DISPLAY_TEXT@,
    }
}

/// The rows for a decomposition: its type and one row per component, or
/// `N/A` for both when there is none.
pub open spec fn decomposition_rows(d: Option<Decomposition>) -> Seq<RowView> {
    match d {
        Some(d) => seq![plain_row("Decomposition Type"@, property_text(d.decomposition_type))]
            + component_rows("Decompositions"@, d.components@),
        None => seq![
            plain_row("Decomposition Type"@, NOT_AVAILABLE_DISPLAY_TEXT@),
            plain_row("Decompositions"@, NOT_AVAILABLE_DISPLAY_TEXT@),
        ],
    }
}

/// The rows that name the character and place it.
pub open spec fn head_rows(p: CharacterProperties) -> Seq<RowView> {
    seq![
        plain_row("Code Point"@, code_point_text(p.character)),
        plain_row("Name"@, p.name@),
        plain_row("Age"@, "Unicode "@ + or_not_available(p.age)),
        plain_row("Plane"@, p.plane_name@),
        plain_row("Block"@, or_not_available(p.block_name)),
        plain_row("General Category"@, property_text(p.general_category)),
        blank_row(),
    ]
}

/// The rows of the name aliases, by kind.
pub open spec fn alias_group_rows(p: CharacterProperties) -> Seq<RowView> {
    alias_rows("Name Corrections"@, strings_view(p.name_corrections)) + alias_rows(
        "Control Code Names"@,
        strings_view(p.control_code_names),
    ) + alias_rows("Alternative Names"@, strings_view(p.alternative_names)) + alias_rows(
        "Figments"@,
        strings_view(p.figments),
    ) + alias_rows("Name Abbreviations"@, strings_view(p.name_abbreviations))
}

/// The rows on case.
pub open spec fn case_rows(p: CharacterProperties) -> Seq<RowView> {
    seq![blank_row(), plain_row("Is Cased"@, yes_no(p.is_cased))] + optional_component_rows(
        "Uppercase"@,
        p.uppercase,
    ) + optional_component_rows("Lowercase"@, p.lowercase)
}

/// The rows on combining class and decomposition.
pub open spec fn combining_rows(p: CharacterProperties) -> Seq<RowView> {
    seq![blank_row(), plain_row("Ccc"@, ccc_text(p.ccc))] + decomposition_rows(p.decomposition)
}

/// The rows on bidirectional text and encodings.
pub open spec fn tail_rows(p: CharacterProperties) -> Seq<RowView> {
    seq![
        blank_row(),
        plain_row("Bidi Class"@, property_text(p.bidi_class)),
        plain_row("Is Bidi Control"@, yes_no(p.is_bidi_control)),
        plain_row("Is Bidi Mirroed"@, yes_no(p.is_bidi_mirrored)),
        blank_row(),
        plain_row("UTF-8"@, hex_list(byte_values(p.utf8@), 2)),
        plain_row("UTF-16"@, hex_list(unit_values(p.utf16@), 4)),
    ]
}

/// The rows of the property view for `p`, in groups separated by blank rows.
pub open spec fn property_rows(p: CharacterProperties) -> Seq<RowView> {
    head_rows(p) + alias_group_rows(p) + case_rows(p) + combining_rows(p) + tail_rows(p)
}

fn push_row(rows: &mut Vec<PropertyRow>, row: PropertyRow)
    ensures
        row_views(final(rows)@) == row_views(old(rows)@).push(row_view(row)),
{
    rows.push(row);
    proof {
        assert(row_views(final(rows)@) =~= row_views(old(rows)@).push(row_view(row)));
    }
}

fn append_rows(rows: &mut Vec<PropertyRow>, more: Vec<PropertyRow>)
    ensures
        row_views(final(rows)@) == row_views(old(rows)@) + row_views(more@),
{
    let mut more = more;
    let ghost m = more@;
    rows.append(&mut more);
    proof {
        assert(row_views(final(rows)@) =~= row_views(old(rows)@) + row_views(m));
    }
}

fn text_or_not_available(o: &Option<String>) -> (r: String)
    ensures
        r@ == or_not_available(*o),
{
    match o {
        Some(s) => s.clone(),
        None => String::from_str(NOT_AVAILABLE_DISPLAY_TEXT),
    }
}

fn head_rows_of(p: &CharacterProperties) -> (r: Vec<PropertyRow>)
    ensures
        row_views(r@) == head_rows(*p),
{
    let mut rows: Vec<PropertyRow> = Vec::new();
    push_row(&mut rows, PropertyRow::new("Code Point", code_point_to_string(p.character)));
    push_row(&mut rows, PropertyRow::new("Name", p.name.clone()));
    let mut age = String::from_str("Unicode ");
    age.append(text_or_not_available(&p.age).as_str());
    push_row(&mut rows, PropertyRow::new("Age", age));
    push_row(&mut rows, PropertyRow::new("Plane", p.plane_name.clone()));
    push_row(&mut rows, PropertyRow::new("Block", text_or_not_available(&p.block_name)));
    push_row(&mut rows, PropertyRow::new("General Category", p.general_category.to_text()));
    push_row(&mut rows, PropertyRow::blank());
    proof {
        assert(row_views(rows@) =~= head_rows(*p));
    }
    rows
}

fn alias_group_rows_of(p: &CharacterProperties) -> (r: Vec<PropertyRow>)
    ensures
        row_views(r@) == alias_group_rows(*p),
{
    let mut rows = PropertyRow::from_name_aliases("Name Corrections", &p.name_corrections);
    append_rows(&mut rows, PropertyRow::from_name_aliases("Control Code Names", &p.control_code_names));
    append_rows(&mut rows, PropertyRow::from_name_aliases("Alternative Names", &p.alternative_names));
    append_rows(&mut rows, PropertyRow::from_name_aliases("Figments", &p.figments));
    append_rows(&mut rows, PropertyRow::from_name_aliases("Name Abbreviations", &p.name_abbreviations));
    rows
}

fn case_rows_of(p: &CharacterProperties) -> (r: Vec<PropertyRow>)
    ensures
        row_views(r@) == case_rows(*p),
{
    let mut rows: Vec<PropertyRow> = Vec::new();
    push_row(&mut rows, PropertyRow::blank());
    push_row(&mut rows, PropertyRow::from_bool("Is Cased", p.is_cased));
    proof {
        assert(row_views(rows@) =~= seq![blank_row(), plain_row("Is Cased"@, yes_no(p.is_cased))]);
    }
    append_rows(&mut rows, PropertyRow::from_optional_character_components("Uppercase", &p.uppercase));
    append_rows(&mut rows, PropertyRow::from_optional_character_components("Lowercase", &p.lowercase));
    rows
}

fn combining_rows_of(p: &CharacterProperties) -> (r: Vec<PropertyRow>)
    ensures
        row_views(r@) == combining_rows(*p),
{
    let mut rows: Vec<PropertyRow> = Vec::new();
    push_row(&mut rows, PropertyRow::blank());
    push_row(&mut rows, PropertyRow::new("Ccc", p.ccc_description()));
    let ghost g = row_views(rows@);
    proof {
        assert(g =~= seq![blank_row(), plain_row("Ccc"@, ccc_text(p.ccc))]);
    }
    match &p.decomposition {
        Some(decomposition) => {
            push_row(
                &mut rows,
                PropertyRow::new("Decomposition Type", decomposition.decomposition_type.to_text()),
            );
            append_rows(
                &mut rows,
                PropertyRow::from_character_components("Decompositions", &decomposition.components),
            );
        },
        None => {
            push_row(
                &mut rows,
                PropertyRow::new("Decomposition Type", String::from_str(NOT_AVAILABLE_DISPLAY_TEXT)),
            );
            push_row(
                &mut rows,
                PropertyRow::new("Decompositions", String::from_str(NOT_AVAILABLE_DISPLAY_TEXT)),
            );
        },
    }
    proof {
        assert(row_views(rows@) =~= g + decomposition_rows(p.decomposition));
    }
    rows
}

fn tail_rows_of(p: &CharacterProperties) -> (r: Vec<PropertyRow>)
    ensures
        row_views(r@) == tail_rows(*p),
{
    let mut rows: Vec<PropertyRow> = Vec::new();
    push_row(&mut rows, PropertyRow::blank());
    push_row(&mut rows, PropertyRow::new("Bidi Class", p.bidi_class.to_text()));
    push_row(&mut rows, PropertyRow::from_bool("Is Bidi Control", p.is_bidi_control));
    push_row(&mut rows, PropertyRow::from_bool("Is Bidi Mirroed", p.is_bidi_mirrored));
    push_row(&mut rows, PropertyRow::blank());
    push_row(&mut rows, PropertyRow::new("UTF-8", utf8_hex(&p.utf8)));
    push_row(&mut rows, PropertyRow::new("UTF-16", utf16_hex(&p.utf16)));
    proof {
        assert(row_views(rows@) =~= tail_rows(*p));
    }
    rows
}

impl PropertyRow {
    /// The rows of the property view for `character_properties`.
    pub fn from_character_properties(character_properties: &CharacterProperties) -> (r: Vec<Self>)
        ensures
            row_views(r@) == property_rows(*character_properties),
    {
        let p = character_properties;
        let mut rows = head_rows_of(p);
        append_rows(&mut rows, alias_group_rows_of(p));
        append_rows(&mut rows, case_rows_of(p));
        append_rows(&mut rows, combining_rows_of(p));
        append_rows(&mut rows, tail_rows_of(p));
        rows
    }
}

/// `string` right-aligned in a column of `column_width` characters; unchanged
/// when it is longer than the column.
pub open spec fn padded(string: Seq<char>, column_width: nat) -> Seq<char> {
    if column_width < string.len() {
        string
    } else {
        Seq::new((column_width - string.len()) as nat, |i: int| ' ') + string
    }
}

/// Right-aligns `string` in a column of `column_width` characters.
pub fn add_padding_to_column_data(string: &str, column_width: u16) -> (r: String)
    ensures
        r@ == padded(string@, column_width as nat),
{
    let n = string.unicode_len();
    if (column_width as usize) < n {
        return string.to_owned();
    }
    let mut r = String::new();
    let mut i: usize = 0;
    while i < column_width as usize - n
        invariant
            0 <= i <= column_width as usize - n,
            n == string@.len(),
            r@ == Seq::new(i as nat, |k: int| ' '),
        decreases column_width as usize - n - i,
    {
        push_char(&mut r, ' ');
        proof {
            assert(r@ =~= Seq::new((i + 1) as nat, |k: int| ' '));
        }
        i = i + 1;
    }
    r.append(string);
    r
}

/// The row that scrolling down selects: the next row, or the row after a
/// blank row when that one is not blank too, never past the last row.
pub open spec fn scroll_down_target(rows: Seq<RowView>, sel: Option<int>) -> Option<int> {
    if rows.len() == 0 {
        sel
    } else {
        let p = match sel {
            Some(s) => if s + 1 <= rows.len() - 1 {
                s + 1
            } else {
                rows.len() - 1
            },
            None => 0,
        };
        if rows[p] == blank_row() {
            if p + 1 < rows.len() - 1 && rows[p + 1] != blank_row() {
                Some(p + 1)
            } else {
                sel
            }
        } else {
            Some(p)
        }
    }
}

/// The row that scrolling up selects: the previous row, or the row before a
/// blank row when that one is not blank too; from no selection, the last row.
pub open spec fn scroll_up_target(rows: Seq<RowView>, sel: Option<int>) -> Option<int> {
    if rows.len() == 0 {
        sel
    } else {
        let p = match sel {
            Some(s) => if s > 0 {
                s - 1
            } else {
                0
            },
            None => rows.len() - 1,
        };
        if rows[p] == blank_row() {
            if p > 0 && rows[p - 1] != blank_row() {
                Some(p - 1)
            } else {
                sel
            }
        } else {
            Some(p)
        }
    }
}

/// The properties of one character as a scrollable list of rows.
pub struct CharacterPropertyView {
    character_properties: CharacterProperties,
    shared_list_state: ListState,
    rows: Vec<PropertyRow>,
}

impl CharacterPropertyView {
    #[verifier::type_invariant]
    spec fn inv(self) -> bool {
        match self.shared_list_state.selected {
            Some(i) => i < self.rows@.len(),
            None => true,
        }
    }

    /// The rows, in order.
    pub closed spec fn rows_view(&self) -> Seq<RowView> {
        row_views(self.rows@)
    }

    /// The selected row, if any.
    pub closed spec fn selected_row(&self) -> Option<int> {
        match self.shared_list_state.selected {
            Some(i) => Some(i as int),
            None => None,
        }
    }

    /// The view of `character_properties`, with nothing selected.
    pub fn new(character_properties: CharacterProperties) -> (r: Self)
        ensures
            r.rows_view() == property_rows(character_properties),
            r.selected_row().is_none(),
    {
        let rows = PropertyRow::from_character_properties(&character_properties);
        CharacterPropertyView { character_properties, shared_list_state: ListState::new(), rows }
    }

    pub fn character_properties(&self) -> (r: &CharacterProperties) {
        &self.character_properties
    }

    pub fn rows(&self) -> (r: &Vec<PropertyRow>)
        ensures
            row_views(r@) == self.rows_view(),
    {
        &self.rows
    }

    pub fn selected(&self) -> (r: Option<usize>)
        ensures
            match r {
                Some(i) => self.selected_row() == Some(i as int) && i < self.rows_view().len(),
                None => self.selected_row().is_none(),
            },
    {
        proof {
            use_type_invariant(self);
        }
        self.shared_list_state.selected()
    }

    pub fn scroll_down(&mut self)
        ensures
            final(self).rows_view() == old(self).rows_view(),
            final(self).selected_row() == scroll_down_target(old(self).rows_view(), old(self).selected_row()),
    {
        proof {
            use_type_invariant(&*self);
        }
        if self.rows.len() == 0 {
            return ;
        }
        let last = self.rows.len() - 1;
        let proposed_selection = match self.shared_list_state.selected() {
            Some(selected) => if selected < last {
                selected + 1
            } else {
                last
            },
            None => 0,
        };
        proof {
            assert(self.rows_view()[proposed_selection as int] == row_view(self.rows@[proposed_selection as int]));
        }
        if self.rows[proposed_selection].is_default() {
            if proposed_selection + 1 < last {
                proof {
                    assert(self.rows_view()[proposed_selection + 1] == row_view(self.rows@[proposed_selection + 1]));
                }
                if !self.rows[proposed_selection + 1].is_default() {
                    self.shared_list_state = ListState { selected: Some(proposed_selection + 1) };
                }
            }
        } else {
            self.shared_list_state = ListState { selected: Some(proposed_selection) };
        }
    }

    pub fn scroll_up(&mut self)
        ensures
            final(self).rows_view() == old(self).rows_view(),
            final(self).selected_row() == scroll_up_target(old(self).rows_view(), old(self).selected_row()),
    {
        proof {
            use_type_invariant(&*self);
        }
        if self.rows.len() == 0 {
            return ;
        }
        let proposed_selection = match self.shared_list_state.selected() {
            Some(selected) => if selected > 0 {
                selected - 1
            } else {
                0
            },
            None => self.rows.len() - 1,
        };
        proof {
            assert(self.rows_view()[proposed_selection as int] == row_view(self.rows@[proposed_selection as int]));
        }
        if self.rows[proposed_selection].is_default() {
            if proposed_selection > 0 {
                proof {
                    assert(self.rows_view()[proposed_selection - 1] == row_view(self.rows@[proposed_selection - 1]));
                }
                if !self.rows[proposed_selection - 1].is_default() {
                    self.shared_list_state = ListState { selected: Some(proposed_selection - 1) };
                }
            }
        } else {
            self.shared_list_state = ListState { selected: Some(proposed_selection) };
        }
    }
}

pub const TREE_GRAPH_EDGE: &'static str = "├── ";

pub const TREE_GRAPH_CORNER: &'static str = "└── ";

/// `U+hhhh  c  name` and a line break.
pub open spec fn character_line(p: CharacterProperties) -> Seq<char> {
    code_point_text(p.character) + "  "@ + seq![p.character] + "  "@ + p.name@ + "\n"@
}

/// The tree lines of the first `n` characters: each character's line after
/// an edge, the last one after a corner.
pub open spec fn tree_lines(cs: Seq<CharacterProperties>, n: nat) -> Seq<char>
    decreases n,
{
    if n == 0 {
        Seq::empty()
    } else {
        let i = n - 1;
        tree_lines(cs, (n - 1) as nat) + (if i + 1 == cs.len() {
            TREE_GRAPH_CORNER@
        } else {
            TREE_GRAPH_EDGE@
        }) + character_line(cs[i])
    }
}

/// A grapheme on its own line, then a tree of its characters.
pub open spec fn grapheme_text(g: GraphemeProperties) -> Seq<char> {
    g.grapheme@ + "\n"@ + tree_lines(g.characters@, g.characters@.len())
}

/// The texts of the first `n` graphemes, separated by line breaks.
pub open spec fn graphemes_text(gs: Seq<GraphemeProperties>, n: nat) -> Seq<char>
    decreases n,
{
    if n == 0 {
        Seq::empty()
    } else if n == 1 {
        grapheme_text(gs[0])
    } else {
        graphemes_text(gs, (n - 1) as nat) + "\n"@ + grapheme_text(gs[n - 1])
    }
}

impl CharacterProperties {
    /// `U+hhhh  c  name` and a line break.
    pub fn to_line(&self) -> (r: String)
        ensures
            r@ == character_line(*self),
    {
        let mut r = code_point_to_string(self.character);
        r.append("  ");
        push_char(&mut r, self.character);
        r.append("  ");
        r.append(self.name.as_str());
        r.append("\n");
        r
    }
}

impl GraphemeProperties {
    /// The grapheme on its own line, then a tree of its characters.
    pub fn to_text(&self) -> (r: String)
        ensures
            r@ == grapheme_text(*self),
    {
        let mut r = self.grapheme.clone();
        r.append("\n");
        let n = self.characters.len();
        let mut i: usize = 0;
        while i < n
            invariant
                0 <= i <= n,
                n == self.characters@.len(),
                r@ == self.grapheme@ + "\n"@ + tree_lines(self.characters@, i as nat),
            decreases n - i,
        {
            if i + 1 == n {
                r.append(TREE_GRAPH_CORNER);
            } else {
                r.append(TREE_GRAPH_EDGE);
            }
            r.append(self.characters[i].to_line().as_str());
            i = i + 1;
        }
        r
    }
}

/// The texts of the graphemes, separated by line breaks.
pub fn graphems_to_string(graphemes: &Vec<GraphemeProperties>) -> (r: String)
    ensures
        r@ == graphemes_text(graphemes@, graphemes@.len()),
{
    let mut r = String::new();
    let mut i: usize = 0;
    while i < graphemes.len()
        invariant
            0 <= i <= graphemes@.len(),
            r@ == graphemes_text(graphemes@, i as nat),
        decreases graphemes@.len() - i,
    {
        if i > 0 {
            r.append("\n");
        }
        r.append(graphemes[i].to_text().as_str());
        proof {
            if i == 0 {
                assert(r@ =~= graphemes_text(graphemes@, 1));
            }
        }
        i = i + 1;
    }
    r
}

} // verus!
