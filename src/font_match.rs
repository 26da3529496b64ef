//! Finding the fonts that can show a character.
//!
//! Two strategies exist: asking the system font index, or scanning the
//! configured search paths. Gathering the raw candidates touches the file
//! system and is left to the caller; this module decides which strategy
//! applies, turns what was gathered into font descriptors, orders index
//! results by path, and applies the preview font rules.
use crate::settings::{
    applicable_patterns, rule_applies, rules_of, search_paths_of, PreviewFontSetting, Settings,
};
use crate::text::{chars_of, contains_chars, is_substring};
use vstd::prelude::*;
use vstd::std_specs::cmp::PartialEqSpecImpl;
use vstd::utf8::encode_utf8;

verus! {

/// A font on this system: where it is, its family name and its full name.
/// A font is identified by its path.
#[derive(Debug)]
pub struct FontDescriptor {
    pub path: String,
    pub family_name: String,
    pub full_name: String,
}

/// A font descriptor as text: path, family name, full name.
pub type FontView = (Seq<char>, Seq<char>, Seq<char>);

impl View for FontDescriptor {
    type V = FontView;

    open spec fn view(&self) -> FontView {
        (self.path@, self.family_name@, self.full_name@)
    }
}

impl PartialEq for FontDescriptor {
    fn eq(&self, other: &FontDescriptor) -> (r: bool) {
        self.path == other.path
    }
}

impl PartialEqSpecImpl for FontDescriptor {
    open spec fn obeys_eq_spec() -> bool {
        true
    }

    open spec fn eq_spec(&self, other: &FontDescriptor) -> bool {
        self.path@ == other.path@
    }
}

pub open spec fn font_views(fonts: Seq<FontDescriptor>) -> Seq<FontView> {
    fonts.map_values(|f: FontDescriptor| f@)
}

/// Why fonts could not be found or a glyph could not be drawn.
#[derive(Debug, Clone, Copy, PartialEq, Eq)]
pub enum Error {
    /// Neither the system font index nor any search path is configured.
    FontSourceUnavailable,
    /// The font could not be sized, has no glyph for the character, or the
    /// rendering backend failed.
    RasterizationFailed,
}

/// Where fonts are looked for.
#[derive(Debug, Clone, Copy, PartialEq, Eq)]
pub enum FontSource {
    /// The system font index.
    SystemIndex,
    /// A recursive scan of the configured search paths.
    SearchPaths,
}

/// The strategy that `settings` selects, if any.
pub open spec fn source_of(settings: Settings) -> Option<FontSource> {
    if settings.use_fontconfig == Some(true) {
        Some(FontSource::SystemIndex)
    } else if search_paths_of(settings).len() > 0 {
        Some(FontSource::SearchPaths)
    } else {
        None
    }
}

/// Chooses the discovery strategy: the system font index when enabled, else
/// the search paths when there are any.
pub fn font_source(settings: &Settings) -> (r: Result<FontSource, Error>)
    ensures
        match source_of(*settings) {
            Some(s) => r == Ok::<FontSource, Error>(s),
            None => r == Err::<FontSource, Error>(Error::FontSourceUnavailable),
        },
{
    if settings.uses_fontconfig() {
        return Ok(FontSource::SystemIndex);
    }
    match &settings.font_search_paths {
        Some(paths) => if paths.len() > 0 {
            Ok(FontSource::SearchPaths)
        } else {
            Err(Error::FontSourceUnavailable)
        },
        None => Err(Error::FontSourceUnavailable),
    }
}

/// Whether some pattern occurs in `name`.
pub open spec fn name_matches(name: Seq<char>, patterns: Seq<Seq<char>>) -> bool {
    exists|j: int| 0 <= j < patterns.len() && is_substring(#[trigger] patterns[j], name)
}

/// Whether some pattern occurs in the family name or the full name of `f`.
pub open spec fn font_matches(f: FontView, patterns: Seq<Seq<char>>) -> bool {
    name_matches(f.1, patterns) || name_matches(f.2, patterns)
}

/// The fonts that some pattern matches, in their order.
pub open spec fn kept_fonts(fonts: Seq<FontView>, patterns: Seq<Seq<char>>) -> Seq<FontView>
    decreases fonts.len(),
{
    if fonts.len() == 0 {
        Seq::empty()
    } else {
        let init = kept_fonts(fonts.drop_last(), patterns);
        if font_matches(fonts.last(), patterns) {
            init.push(fonts.last())
        } else {
            init
        }
    }
}

/// The fonts that some pattern matches; all fonts when there is no pattern.
pub open spec fn filtered_fonts(fonts: Seq<FontView>, patterns: Seq<Seq<char>>) -> Seq<FontView> {
    if patterns.len() == 0 {
        fonts
    } else {
        kept_fonts(fonts, patterns)
    }
}

/// The candidates that the preview font rules keep for `c`: all of them when
/// there is no rule, else those that a rule applying to `c` matches.
pub open spec fn preview_filter(fonts: Seq<FontView>, settings: Settings, c: char) -> Seq<FontView> {
    if rules_of(settings).len() == 0 {
        fonts
    } else {
        kept_fonts(fonts, applicable_patterns(rules_of(settings), c))
    }
}

fn matches_any(name: &Vec<char>, patterns: &Vec<Vec<char>>) -> (r: bool)
    ensures
        r == name_matches(name@, patterns@.map_values(|p: Vec<char>| p@)),
{
    let ghost ps = patterns@.map_values(|p: Vec<char>| p@);
    let mut j: usize = 0;
    while j < patterns.len()
        invariant
            0 <= j <= patterns@.len(),
            ps == patterns@.map_values(|p: Vec<char>| p@),
            forall|k: int| 0 <= k < j ==> !is_substring(#[trigger] ps[k], name@),
        decreases patterns@.len() - j,
    {
        if contains_chars(name, &patterns[j]) {
            proof {
                assert(is_substring(ps[j as int], name@));
            }
            return true;
        }
        j = j + 1;
    }
    false
}

/// Keeps the fonts whose family name or full name contains one of `names`;
/// keeps all fonts when `names` is empty.
pub fn filter_fonts_with_preview_font_settings(
    all_available_fonts: Vec<FontDescriptor>,
    specified_preview_font_names: &Vec<String>,
) -> (r: Vec<FontDescriptor>)
    ensures
        font_views(r@) == filtered_fonts(
            font_views(all_available_fonts@),
            specified_preview_font_names@.map_values(|s: String| s@),
        ),
{
    if specified_preview_font_names.len() == 0 {
        return all_available_fonts;
    }
    let ghost names = specified_preview_font_names@.map_values(|s: String| s@);
    let mut patterns: Vec<Vec<char>> = Vec::new();
    let mut j: usize = 0;
    while j < specified_preview_font_names.len()
        invariant
            0 <= j <= specified_preview_font_names@.len(),
            names == specified_preview_font_names@.map_values(|s: String| s@),
            patterns@.map_values(|p: Vec<char>| p@) == names.take(j as int),
        decreases specified_preview_font_names@.len() - j,
    {
        let ghost pre = patterns@;
        patterns.push(chars_of(specified_preview_font_names[j].as_str()));
        proof {
            assert(patterns@.map_values(|p: Vec<char>| p@) =~= pre.map_values(|p: Vec<char>| p@).push(
                names[j as int],
            ));
            assert(names.take(j + 1) =~= names.take(j as int).push(names[j as int]));
        }
        j = j + 1;
    }
    proof {
        assert(names.take(names.len() as int) =~= names);
    }
    kept_by_patterns(all_available_fonts, &patterns)
}

/// Keeps the fonts whose family name or full name contains one of `patterns`.
fn kept_by_patterns(fonts: Vec<FontDescriptor>, patterns: &Vec<Vec<char>>) -> (r: Vec<FontDescriptor>)
    ensures
        font_views(r@) == kept_fonts(font_views(fonts@), patterns@.map_values(|p: Vec<char>| p@)),
{
    let ghost ps = patterns@.map_values(|p: Vec<char>| p@);
    let ghost all = font_views(fonts@);
    let n = fonts.len();
    let mut rest = fonts;
    let mut r: Vec<FontDescriptor> = Vec::new();
    let mut i: usize = 0;
    while rest.len() > 0
        invariant
            0 <= i <= all.len(),
            all.len() == n,
            ps == patterns@.map_values(|p: Vec<char>| p@),
            font_views(rest@) == all.skip(i as int),
            font_views(r@) == kept_fonts(all.take(i as int), ps),
        decreases rest@.len(),
    {
        proof {
            assert(all.skip(i as int).len() > 0);
        }
        let ghost old_rest = rest@;
        let f = rest.remove(0);
        proof {
            assert(f == old_rest[0]);
            assert(font_views(old_rest)[0] == f@);
            assert(all.skip(i as int)[0] == all[i as int]);
            assert(f@ == all[i as int]);
            assert(rest@ =~= old_rest.subrange(1, old_rest.len() as int));
            assert(all.take(i + 1).drop_last() =~= all.take(i as int));
            assert forall|k: int| 0 <= k < rest@.len() implies font_views(rest@)[k] == all.skip(
                i + 1,
            )[k] by {
                assert(rest@[k] == old_rest[k + 1]);
                assert(font_views(old_rest)[k + 1] == all.skip(i as int)[k + 1]);
            }
            assert(font_views(rest@) =~= all.skip(i + 1));
        }
        let family = chars_of(f.family_name.as_str());
        let full = chars_of(f.full_name.as_str());
        if matches_any(&family, patterns) || matches_any(&full, patterns) {
            let ghost pre = r@;
            r.push(f);
            proof {
                assert(font_views(r@) =~= font_views(pre).push(all[i as int]));
            }
        }
        i = i + 1;
    }
    proof {
        assert(all.take(i as int) =~= all);
    }
    r
}

/// Applies the preview font rules of `settings` for `chr` to the candidates:
/// with no rule all candidates stay; otherwise only those whose family name or
/// full name contains the pattern of a rule that applies to `chr` stay.
pub fn match_fonts_for_character(
    chr: char,
    settings: &Settings,
    all_fonts: Vec<FontDescriptor>,
) -> (r: Vec<FontDescriptor>)
    ensures
        font_views(r@) == preview_filter(font_views(all_fonts@), *settings, chr),
{
    if !settings.has_preview_fonts() {
        return all_fonts;
    }
    let names = settings.get_preview_fonts_for(chr);
    if names.len() == 0 {
        let ghost all = font_views(all_fonts@);
        let ghost patterns = applicable_patterns(rules_of(*settings), chr);
        proof {
            assert(patterns.len() == names@.len());
            lemma_nothing_kept_without_patterns(all, patterns);
        }
        let none: Vec<FontDescriptor> = Vec::new();
        proof {
            assert(font_views(none@) =~= Seq::<FontView>::empty());
        }
        return none;
    }
    filter_fonts_with_preview_font_settings(all_fonts, &names)
}

proof fn lemma_nothing_kept_without_patterns(fonts: Seq<FontView>, patterns: Seq<Seq<char>>)
    requires
        patterns.len() == 0,
    ensures
        kept_fonts(fonts, patterns) == Seq::<FontView>::empty(),
    decreases fonts.len(),
{
    if fonts.len() > 0 {
        lemma_nothing_kept_without_patterns(fonts.drop_last(), patterns);
    }
}

/// What the system font index reported for one font; a property is absent
/// when the index did not give it.
#[derive(Debug)]
pub struct IndexedFont {
    pub path: Option<String>,
    pub family_name: Option<String>,
    pub full_name: Option<String>,
}

/// The descriptor that an index entry gives, when it has all three properties.
pub open spec fn index_entry_view(e: IndexedFont) -> Option<FontView> {
    match (e.path, e.family_name, e.full_name) {
        (Some(p), Some(f), Some(n)) => Some((p@, f@, n@)),
        _ => None,
    }
}

/// The descriptors of the complete index entries, in their order.
pub open spec fn complete_entries(entries: Seq<IndexedFont>) -> Seq<FontView>
    decreases entries.len(),
{
    if entries.len() == 0 {
        Seq::empty()
    } else {
        let init = complete_entries(entries.drop_last());
        match index_entry_view(entries.last()) {
            Some(v) => init.push(v),
            None => init,
        }
    }
}

/// Whether `a` comes strictly before `b` in lexicographic byte order.
pub open spec fn bytes_lt(a: Seq<u8>, b: Seq<u8>) -> bool
    decreases a.len(),
{
    if a.len() == 0 {
        b.len() > 0
    } else if b.len() == 0 {
        false
    } else if a[0] != b[0] {
        a[0] < b[0]
    } else {
        bytes_lt(a.drop_first(), b.drop_first())
    }
}

/// Whether font `a` comes strictly before font `b` by path, comparing the
/// UTF-8 bytes of the paths as `String`'s order does.
pub open spec fn path_lt(a: FontView, b: FontView) -> bool {
    bytes_lt(encode_utf8(a.0), encode_utf8(b.0))
}

/// `x` inserted into `s` after every item whose path does not come after it.
pub open spec fn insert_sorted(s: Seq<FontView>, x: FontView) -> Seq<FontView>
    decreases s.len(),
{
    if s.len() == 0 {
        seq![x]
    } else if path_lt(x, s[0]) {
        seq![x] + s
    } else {
        seq![s[0]] + insert_sorted(s.drop_first(), x)
    }
}

/// `s` ordered by path; fonts with equal paths keep their relative order.
pub open spec fn sorted_by_path(s: Seq<FontView>) -> Seq<FontView>
    decreases s.len(),
{
    if s.len() == 0 {
        Seq::empty()
    } else {
        insert_sorted(sorted_by_path(s.drop_last()), s.last())
    }
}

/// Whether path `a` comes strictly before path `b` in byte order.
fn path_less(a: &String, b: &String) -> (r: bool)
    ensures
        r == bytes_lt(encode_utf8(a@), encode_utf8(b@)),
{
    let x = a.as_str().as_bytes();
    let y = b.as_str().as_bytes();
    let mut i: usize = 0;
    proof {
        assert(x@.skip(0) =~= x@);
        assert(y@.skip(0) =~= y@);
    }
    loop
        invariant
            0 <= i <= x@.len(),
            i <= y@.len(),
            x@ == encode_utf8(a@),
            y@ == encode_utf8(b@),
            bytes_lt(x@, y@) == bytes_lt(x@.skip(i as int), y@.skip(i as int)),
        decreases x@.len() - i,
    {
        if i == x.len() {
            return i < y.len();
        }
        if i == y.len() {
            return false;
        }
        if x[i] != y[i] {
            return x[i] < y[i];
        }
        proof {
            assert(x@.skip(i as int).drop_first() =~= x@.skip(i + 1));
            assert(y@.skip(i as int).drop_first() =~= y@.skip(i + 1));
        }
        i = i + 1;
    }
}

proof fn lemma_insert_sorted_at(s: Seq<FontView>, x: FontView, j: int)
    requires
        0 <= j <= s.len(),
        forall|k: int| 0 <= k < j ==> !path_lt(x, #[trigger] s[k]),
        j < s.len() ==> path_lt(x, s[j]),
    ensures
        insert_sorted(s, x) == s.insert(j, x),
    decreases j,
{
    if j == 0 {
        if s.len() == 0 {
            assert(s.insert(0, x) =~= seq![x]);
        } else {
            assert(s.insert(0, x) =~= seq![x] + s);
        }
    } else {
        let t = s.drop_first();
        assert(forall|k: int| 0 <= k < j - 1 ==> t[k] == s[k + 1]);
        assert(!path_lt(x, s[0]));
        lemma_insert_sorted_at(t, x, j - 1);
        assert(seq![s[0]] + t.insert(j - 1, x) =~= s.insert(j, x));
    }
}

/// Inserts `f` after every font whose path does not come after its path.
fn insert_by_path(sorted: &mut Vec<FontDescriptor>, f: FontDescriptor)
    ensures
        font_views(final(sorted)@) == insert_sorted(font_views(old(sorted)@), f@),
{
    let ghost s = font_views(sorted@);
    let mut j: usize = 0;
    loop
        invariant
            0 <= j <= sorted@.len(),
            s == font_views(sorted@),
            sorted@ == old(sorted)@,
            forall|k: int| 0 <= k < j ==> !path_lt(f@, #[trigger] s[k]),
        ensures
            0 <= j <= sorted@.len(),
            s == font_views(sorted@),
            sorted@ == old(sorted)@,
            forall|k: int| 0 <= k < j ==> !path_lt(f@, #[trigger] s[k]),
            j == s.len() || path_lt(f@, s[j as int]),
        decreases sorted@.len() - j,
    {
        if j >= sorted.len() {
            break;
        }
        if path_less(&f.path, &sorted[j].path) {
            break;
        }
        j = j + 1;
    }
    proof {
        lemma_insert_sorted_at(s, f@, j as int);
    }
    sorted.insert(j, f);
    proof {
        assert(font_views(sorted@) =~= s.insert(j as int, f@));
    }
}

/// The descriptors of the complete index entries, ordered by path.
pub fn descriptors_from_index(entries: Vec<IndexedFont>) -> (r: Vec<FontDescriptor>)
    ensures
        font_views(r@) == sorted_by_path(complete_entries(entries@)),
{
    let ghost all = entries@;
    let n = entries.len();
    let mut rest = entries;
    let mut r: Vec<FontDescriptor> = Vec::new();
    let mut i: usize = 0;
    while rest.len() > 0
        invariant
            0 <= i <= all.len(),
            all.len() == n,
            rest@ == all.skip(i as int),
            font_views(r@) == sorted_by_path(complete_entries(all.take(i as int))),
        decreases rest@.len(),
    {
        let e = rest.remove(0);
        proof {
            assert(e == all[i as int]);
            assert(rest@ =~= all.skip(i + 1));
            assert(all.take(i + 1).drop_last() =~= all.take(i as int));
        }
        match e {
            IndexedFont { path: Some(path), family_name: Some(family_name), full_name: Some(full_name) } => {
                let f = FontDescriptor { path, family_name, full_name };
                let ghost fv = f@;
                proof {
                    assert(index_entry_view(all[i as int]) == Some(fv));
                    assert(complete_entries(all.take(i + 1)) == complete_entries(
                        all.take(i as int),
                    ).push(fv));
                    assert(complete_entries(all.take(i + 1)).drop_last() =~= complete_entries(
                        all.take(i as int),
                    ));
                }
                insert_by_path(&mut r, f);
            },
            _ => {
                proof {
                    assert(index_entry_view(all[i as int]).is_none());
                    assert(complete_entries(all.take(i + 1)) == complete_entries(
                        all.take(i as int),
                    ));
                }
            },
        }
        i = i + 1;
    }
    proof {
        assert(all.take(i as int) =~= all);
    }
    r
}

/// The descriptor of a scanned font file, given the glyph index that its face
/// reports for the character and its family and PostScript names: present
/// when the glyph exists and the family name is known; the PostScript name
/// serves as the full name, or the family name when it is absent.
pub open spec fn scanned_view(
    path: Seq<char>,
    glyph_index: Option<u32>,
    family_name: Option<Seq<char>>,
    postscript_name: Option<Seq<char>>,
) -> Option<FontView> {
    match (glyph_index, family_name) {
        (Some(g), Some(family)) => if g != 0 {
            Some(
                (
                    path,
                    family,
                    match postscript_name {
                        Some(p) => p,
                        None => family,
                    },
                ),
            )
        } else {
            None
        },
        _ => None,
    }
}

pub open spec fn opt_string_view(o: Option<String>) -> Option<Seq<char>> {
    match o {
        Some(s) => Some(s@),
        None => None,
    }
}

pub open spec fn opt_font_view(o: Option<FontDescriptor>) -> Option<FontView> {
    match o {
        Some(f) => Some(f@),
        None => None,
    }
}

/// The descriptor of a scanned font file from what its face reports; see
/// `scanned_view`.
pub fn try_create_font_descriptor_from_names(
    path: String,
    glyph_index: Option<u32>,
    family_name: Option<String>,
    postscript_name: Option<String>,
) -> (r: Option<FontDescriptor>)
    ensures
        opt_font_view(r) == scanned_view(
            path@,
            glyph_index,
            opt_string_view(family_name),
            opt_string_view(postscript_name),
        ),
{
    match glyph_index {
        Some(g) => if g == 0 {
            return None;
        },
        None => {
            return None;
        },
    }
    match family_name {
        Some(family_name) => {
            let full_name = match postscript_name {
                Some(p) => p,
                None => family_name.clone(),
            };
            Some(FontDescriptor { path, family_name, full_name })
        },
        None => None,
    }
}

#[verifier::external_type_specification]
#[verifier::external_body]
#[verifier::reject_recursive_types(BYTES)]
pub struct ExFace<BYTES>(freetype::Face<BYTES>);

/// Relies on `freetype::Face::get_char_index`: the glyph index of `chr` in the
/// face, absent when FreeType reports glyph 0 (no glyph).
#[verifier::external_body]
pub(crate) fn face_char_index<B>(face: &freetype::Face<B>, chr: char) -> (r: Option<u32>)
    ensures
        r matches Some(g) ==> g != 0,
{
    face.get_char_index(chr as usize)
}

/// Relies on `freetype::Face::family_name`: the face's family name, if it has one.
#[verifier::external_body]
pub(crate) fn face_family_name<B>(face: &freetype::Face<B>) -> (r: Option<String>) {
    face.family_name()
}

/// Relies on `freetype::Face::postscript_name`: the face's PostScript name, if it has one.
#[verifier::external_body]
pub(crate) fn face_postscript_name<B>(face: &freetype::Face<B>) -> (r: Option<String>) {
    face.postscript_name()
}

/// The descriptor of the font file at `path`, whose face is `face`, when it
/// has a glyph for `chr` and a family name. Whatever the face reports, a
/// descriptor that comes back carries `path`.
pub fn try_create_font_descriptor_from_face<B>(
    path: String,
    face: &freetype::Face<B>,
    chr: char,
) -> (r: Option<FontDescriptor>)
    ensures
        r matches Some(f) ==> f.path@ == path@,
{
    let glyph_index = face_char_index(face, chr);
    let family_name = face_family_name(face);
    let postscript_name = face_postscript_name(face);
    try_create_font_descriptor_from_names(path, glyph_index, family_name, postscript_name)
}

/// The candidates that one discovery strategy gathered.
#[derive(Debug)]
pub enum FoundFonts {
    /// The entries that the system font index reported for the character.
    Indexed(Vec<IndexedFont>),
    /// The fonts with a glyph for the character found under the search paths.
    Scanned(Vec<FontDescriptor>),
}

/// The unfiltered candidates: complete index entries ordered by path, or the
/// scanned fonts in the order they were found.
pub open spec fn candidates_of(found: FoundFonts) -> Seq<FontView> {
    match found {
        FoundFonts::Indexed(entries) => sorted_by_path(complete_entries(entries@)),
        FoundFonts::Scanned(fonts) => font_views(fonts@),
    }
}

/// The fonts that can show `chr`: fails when `settings` selects no discovery
/// strategy; otherwise the gathered candidates (index results ordered by
/// path) after the preview font rules. An empty list is a normal result.
pub fn fonts_for(chr: char, settings: &Settings, found: FoundFonts) -> (r: Result<
    Vec<FontDescriptor>,
    Error,
>)
    ensures
        source_of(*settings).is_none() ==> r == Err::<Vec<FontDescriptor>, Error>(
            Error::FontSourceUnavailable,
        ),
        source_of(*settings).is_some() ==> (r matches Ok(fonts) && font_views(fonts@)
            == preview_filter(candidates_of(found), *settings, chr)),
{
    if let Err(e) = font_source(settings) {
        return Err(e);
    }
    let candidates = match found {
        FoundFonts::Indexed(entries) => descriptors_from_index(entries),
        FoundFonts::Scanned(fonts) => fonts,
    };
    Ok(match_fonts_for_character(chr, settings, candidates))
}

/// Whether `p` is the pattern of a rule that applies to `c`.
pub open spec fn pattern_of_applicable_rule(rules: Seq<PreviewFontSetting>, c: char, p: Seq<char>) -> bool {
    exists|j: int| 0 <= j < rules.len() && rule_applies(#[trigger] rules[j], c) && rules[j].font_name@ == p
}

proof fn lemma_patterns_come_from_applicable_rules(rules: Seq<PreviewFontSetting>, c: char)
    ensures
        forall|k: int|
            0 <= k < applicable_patterns(rules, c).len() ==> pattern_of_applicable_rule(
                rules,
                c,
                #[trigger] applicable_patterns(rules, c)[k],
            ),
    decreases rules.len(),
{
    if rules.len() > 0 {
        let init = rules.drop_last();
        lemma_patterns_come_from_applicable_rules(init, c);
        let ps = applicable_patterns(rules, c);
        let pi = applicable_patterns(init, c);
        assert forall|k: int| 0 <= k < ps.len() implies pattern_of_applicable_rule(
            rules,
            c,
            #[trigger] ps[k],
        ) by {
            if k < pi.len() {
                assert(ps[k] == pi[k]);
                assert(pattern_of_applicable_rule(init, c, pi[k]));
                let j = choose|j: int|
                    0 <= j < init.len() && rule_applies(#[trigger] init[j], c) && init[j].font_name@
                        == pi[k];
                assert(rules[j] == init[j]);
                assert(rule_applies(rules[j], c) && rules[j].font_name@ == ps[k]);
            } else {
                let j = rules.len() - 1;
                assert(rule_applies(rules.last(), c));
                assert(ps == pi.push(rules.last().font_name@));
                assert(rules[j] == rules.last());
                assert(rule_applies(rules[j], c) && rules[j].font_name@ == ps[k]);
            }
        }
    }
}

proof fn lemma_kept_nothing_when_unmatched(fonts: Seq<FontView>, patterns: Seq<Seq<char>>)
    requires
        forall|i: int| 0 <= i < fonts.len() ==> !font_matches(#[trigger] fonts[i], patterns),
    ensures
        kept_fonts(fonts, patterns) == Seq::<FontView>::empty(),
    decreases fonts.len(),
{
    if fonts.len() > 0 {
        let init = fonts.drop_last();
        assert(forall|i: int| 0 <= i < init.len() ==> init[i] == fonts[i]);
        lemma_kept_nothing_when_unmatched(init, patterns);
        assert(!font_matches(fonts[fonts.len() - 1], patterns));
    }
}

proof fn lemma_kept_from_input(fonts: Seq<FontView>, patterns: Seq<Seq<char>>)
    ensures
        kept_fonts(fonts, patterns).len() <= fonts.len(),
        forall|x: FontView| #[trigger] kept_fonts(fonts, patterns).contains(x) ==> fonts.contains(x),
    decreases fonts.len(),
{
    if fonts.len() > 0 {
        let init = fonts.drop_last();
        lemma_kept_from_input(init, patterns);
        let k = kept_fonts(fonts, patterns);
        let ki = kept_fonts(init, patterns);
        assert forall|x: FontView| #[trigger] k.contains(x) implies fonts.contains(x) by {
            if ki.contains(x) {
                let i = choose|i: int| 0 <= i < init.len() && init[i] == x;
                assert(fonts[i] == x);
            } else {
                assert(fonts[fonts.len() - 1] == x);
            }
        }
    }
}

/// When preview font rules exist but no rule that applies to `c` has a
/// pattern contained in the family name or the full name of any candidate,
/// the preview filter leaves no candidate.
pub proof fn lemma_unmatched_rules_keep_nothing(fonts: Seq<FontView>, settings: Settings, c: char)
    requires
        rules_of(settings).len() > 0,
        forall|i: int, j: int|
            0 <= i < fonts.len() && 0 <= j < rules_of(settings).len() && rule_applies(
                #[trigger] rules_of(settings)[j],
                c,
            ) ==> !is_substring(rules_of(settings)[j].font_name@, (#[trigger] fonts[i]).1)
                && !is_substring(rules_of(settings)[j].font_name@, fonts[i].2),
    ensures
        preview_filter(fonts, settings, c) == Seq::<FontView>::empty(),
{
    let rules = rules_of(settings);
    let ps = applicable_patterns(rules, c);
    lemma_patterns_come_from_applicable_rules(rules, c);
    assert forall|i: int| 0 <= i < fonts.len() implies !font_matches(#[trigger] fonts[i], ps) by {
        if name_matches(fonts[i].1, ps) {
            let k = choose|k: int| 0 <= k < ps.len() && is_substring(#[trigger] ps[k], fonts[i].1);
            assert(pattern_of_applicable_rule(rules, c, ps[k]));
            let j = choose|j: int|
                0 <= j < rules.len() && rule_applies(#[trigger] rules[j], c) && rules[j].font_name@
                    == ps[k];
        }
        if name_matches(fonts[i].2, ps) {
            let k = choose|k: int| 0 <= k < ps.len() && is_substring(#[trigger] ps[k], fonts[i].2);
            assert(pattern_of_applicable_rule(rules, c, ps[k]));
            let j = choose|j: int|
                0 <= j < rules.len() && rule_applies(#[trigger] rules[j], c) && rules[j].font_name@
                    == ps[k];
        }
    }
    lemma_kept_nothing_when_unmatched(fonts, ps);
}

/// The preview filter never adds a candidate: what it keeps is no longer
/// than the candidates, and each font it keeps is one of them.
pub proof fn lemma_preview_filter_never_adds(fonts: Seq<FontView>, settings: Settings, c: char)
    ensures
        preview_filter(fonts, settings, c).len() <= fonts.len(),
        forall|x: FontView| #[trigger]
            preview_filter(fonts, settings, c).contains(x) ==> fonts.contains(x),
{
    lemma_kept_from_input(fonts, applicable_patterns(rules_of(settings), c));
}

} // verus!
