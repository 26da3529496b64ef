//! User settings: which font discovery strategy to use, where to look for
//! fonts, and which fonts to prefer for which code points.
use crate::cli::string_from_chars;
use crate::text::{chars_of, same_text};
use crate::ucd::{
    block_name, block_name_of, code_point_from_chars, parse_code_point, plane_index, plane_name_view,
    Plane, PLANE_COUNT,
};
use vstd::prelude::*;

verus! {

/// A set of code points that a preview font rule applies to.
#[derive(Debug, PartialEq, Eq)]
pub enum CodePointRange {
    /// The code points from `first` to `last`, both included.
    Raw { first: char, last: char },
    /// The code points of the plane with this name.
    Plane { name: String },
    /// The code points of the block with this name.
    Block { name: String },
}

/// Prefer fonts whose family or full name contains `font_name`, for the code
/// points of `code_point_range` (or for all code points when it is absent).
#[derive(Debug, PartialEq, Eq)]
pub struct PreviewFontSetting {
    pub code_point_range: Option<CodePointRange>,
    pub font_name: String,
}

#[derive(Debug, PartialEq, Eq)]
pub struct Settings {
    pub use_fontconfig: Option<bool>,
    pub font_search_paths: Option<Vec<String>>,
    pub preview_fonts: Option<Vec<PreviewFontSetting>>,
}

impl Default for Settings {
    fn default() -> (r: Settings)
        ensures
            r.use_fontconfig == Some(true),
            r.font_search_paths.is_none(),
            r.preview_fonts.is_none(),
    {
        Settings { use_fontconfig: Some(true), font_search_paths: None, preview_fonts: None }
    }
}

/// Whether `range` holds `c`.
pub open spec fn range_contains(range: CodePointRange, c: char) -> bool {
    match range {
        CodePointRange::Raw { first, last } => first as u32 <= c as u32 && c as u32 <= last as u32,
        CodePointRange::Plane { name } => name@ == plane_name_view(plane_index(c)),
        CodePointRange::Block { name } => block_name_of(c) == Some(name@),
    }
}

/// Whether `rule` applies to `c`.
pub open spec fn rule_applies(rule: PreviewFontSetting, c: char) -> bool {
    match rule.code_point_range {
        Some(range) => range_contains(range, c),
        None => true,
    }
}

/// The name patterns of the rules that apply to `c`, in order.
pub open spec fn applicable_patterns(rules: Seq<PreviewFontSetting>, c: char) -> Seq<Seq<char>>
    decreases rules.len(),
{
    if rules.len() == 0 {
        Seq::empty()
    } else {
        let init = applicable_patterns(rules.drop_last(), c);
        if rule_applies(rules.last(), c) {
            init.push(rules.last().font_name@)
        } else {
            init
        }
    }
}

/// The preview font rules, none when absent.
pub open spec fn rules_of(settings: Settings) -> Seq<PreviewFontSetting> {
    match settings.preview_fonts {
        Some(rules) => rules@,
        None => Seq::empty(),
    }
}

/// The font search paths, none when absent.
pub open spec fn search_paths_of(settings: Settings) -> Seq<String> {
    match settings.font_search_paths {
        Some(paths) => paths@,
        None => Seq::empty(),
    }
}

impl CodePointRange {
    /// Whether this range holds `chr`.
    pub fn contains(&self, chr: char) -> (r: bool)
        ensures
            r == range_contains(*self, chr),
    {
        match self {
            CodePointRange::Raw { first, last } => *first as u32 <= chr as u32 && chr as u32
                <= *last as u32,
            CodePointRange::Plane { name } => same_text(name.as_str(), Plane::of(chr).name),
            CodePointRange::Block { name } => match block_name(chr) {
                Some(block) => same_text(name.as_str(), block),
                None => false,
            },
        }
    }
}

impl PreviewFontSetting {
    /// Whether this rule applies to `chr`.
    pub fn applies_to(&self, chr: char) -> (r: bool)
        ensures
            r == rule_applies(*self, chr),
    {
        match &self.code_point_range {
            Some(range) => range.contains(chr),
            None => true,
        }
    }
}

impl Settings {
    /// Whether fonts are found through the system font index.
    pub fn uses_fontconfig(&self) -> (r: bool)
        ensures
            r == (self.use_fontconfig == Some(true)),
    {
        match self.use_fontconfig {
            Some(b) => b,
            None => false,
        }
    }

    /// Whether any preview font rule is set.
    pub fn has_preview_fonts(&self) -> (r: bool)
        ensures
            r == (rules_of(*self).len() > 0),
    {
        match &self.preview_fonts {
            Some(rules) => rules.len() > 0,
            None => false,
        }
    }

    /// The name patterns of the preview font rules that apply to `chr`, in order.
    pub fn get_preview_fonts_for(&self, chr: char) -> (r: Vec<String>)
        ensures
            r@.map_values(|s: String| s@) == applicable_patterns(rules_of(*self), chr),
    {
        let mut r: Vec<String> = Vec::new();
        match &self.preview_fonts {
            None => {
                proof {
                    assert(r@.map_values(|s: String| s@) =~= Seq::<Seq<char>>::empty());
                }
            },
            Some(rules) => {
                let mut i: usize = 0;
                while i < rules.len()
                    invariant
                        0 <= i <= rules@.len(),
                        rules_of(*self) == rules@,
                        r@.map_values(|s: String| s@) == applicable_patterns(
                            rules@.take(i as int),
                            chr,
                        ),
                    decreases rules@.len() - i,
                {
                    let rule = &rules[i];
                    proof {
                        assert(rules@.take(i + 1).drop_last() =~= rules@.take(i as int));
                    }
                    if rule.applies_to(chr) {
                        let ghost pre = r@;
                        r.push(rule.font_name.clone());
                        proof {
                            assert(r@.map_values(|s: String| s@) =~= pre.map_values(
                                |s: String| s@,
                            ).push(rule.font_name@));
                        }
                    }
                    i = i + 1;
                }
                proof {
                    assert(rules@.take(rules@.len() as int) =~= rules@);
                }
            },
        }
        r
    }
}

/// The settings read from the settings file, or the defaults when there are none.
pub fn get_settings(from_file: Option<Settings>) -> (r: Settings)
    ensures
        from_file matches Some(s) ==> r == s,
        from_file.is_none() ==> r.use_fontconfig == Some(true) && r.font_search_paths.is_none()
            && r.preview_fonts.is_none(),
{
    match from_file {
        Some(settings) => settings,
        None => Settings::default(),
    }
}

/// The first position at or after `from` where `..` begins in `s`, if any.
pub open spec fn separator_at(s: Seq<char>, from: int) -> Option<int>
    decreases s.len() - from,
{
    if from < 0 || from + 1 >= s.len() {
        None
    } else if s[from] == '.' && s[from + 1] == '.' {
        Some(from)
    } else {
        separator_at(s, from + 1)
    }
}

/// Why a code point range could not be read.
#[derive(Debug, PartialEq, Eq)]
pub enum RangeError {
    /// The text before `..` names no code point.
    InvalidFirst(String),
    /// The text after `..` names no code point.
    InvalidLast(String),
    /// The text is neither a range nor a plane or block name.
    Unrecognized(String),
}

/// The two bounds of a range written `first..last`: the text before the
/// first `..`, and the text after it up to the next `..` or the end.
pub open spec fn range_bounds(s: Seq<char>) -> Option<(Seq<char>, Seq<char>)> {
    match separator_at(s, 0) {
        Some(k) => Some(
            (
                s.subrange(0, k),
                match separator_at(s, k + 2) {
                    Some(k2) => s.subrange(k + 2, k2),
                    None => s.subrange(k + 2, s.len() as int),
                },
            ),
        ),
        None => None,
    }
}

/// Whether `name` is the name of a plane.
pub open spec fn is_plane_name(name: Seq<char>) -> bool {
    exists|i: int| 0 <= i < PLANE_COUNT && plane_name_view(i) == name
}

/// Whether `name` is one of `names`.
pub open spec fn is_listed(name: Seq<char>, names: Seq<&str>) -> bool {
    exists|i: int| 0 <= i < names.len() && names[i]@ == name
}

fn separator_from(s: &Vec<char>, from: usize) -> (r: Option<usize>)
    ensures
        opt_usize(r) == separator_at(s@, from as int),
    decreases s@.len() - from,
{
    let mut k = from;
    while s.len() > 0 && k < s.len() - 1
        invariant
            from <= k,
            separator_at(s@, from as int) == separator_at(s@, k as int),
        decreases s@.len() - k,
    {
        if s[k] == '.' && s[k + 1] == '.' {
            return Some(k);
        }
        k = k + 1;
    }
    None
}

pub open spec fn opt_usize(o: Option<usize>) -> Option<int> {
    match o {
        Some(k) => Some(k as int),
        None => None,
    }
}

fn slice_chars(s: &Vec<char>, from: usize, to: usize) -> (r: Vec<char>)
    requires
        from <= to <= s@.len(),
    ensures
        r@ == s@.subrange(from as int, to as int),
{
    let mut r: Vec<char> = Vec::new();
    let mut i = from;
    while i < to
        invariant
            from <= i <= to <= s@.len(),
            r@ == s@.subrange(from as int, i as int),
        decreases to - i,
    {
        r.push(s[i]);
        proof {
            assert(s@.subrange(from as int, i + 1) =~= s@.subrange(from as int, i as int).push(s@[i as int]));
        }
        i = i + 1;
    }
    r
}

fn listed(name: &str, names: &Vec<&'static str>) -> (r: bool)
    ensures
        r == is_listed(name@, names@),
{
    let mut i: usize = 0;
    while i < names.len()
        invariant
            0 <= i <= names@.len(),
            forall|j: int| 0 <= j < i ==> names@[j]@ != name@,
        decreases names@.len() - i,
    {
        if same_text(names[i], name) {
            return true;
        }
        i = i + 1;
    }
    false
}

/// Reads a code point range as the settings file writes it: `U+hhhh..U+hhhh`
/// (a raw range, both bounds named as `U+hhhh`), or else the name of a plane,
/// or else one of `block_names`.
pub fn parse_code_point_range(v: &str, block_names: &Vec<&'static str>) -> (r: Result<
    CodePointRange,
    RangeError,
>)
    ensures
        match range_bounds(v@) {
            Some((first, last)) => match (parse_code_point(first), parse_code_point(last)) {
                (Some(f), Some(l)) => r matches Ok(CodePointRange::Raw { first: fc, last: lc })
                    && (fc as u32) as nat == f && (lc as u32) as nat == l,
                (None, _) => r matches Err(RangeError::InvalidFirst(t)) && t@ == first,
                (Some(_), None) => r matches Err(RangeError::InvalidLast(t)) && t@ == last,
            },
            None => if is_plane_name(v@) {
                r matches Ok(CodePointRange::Plane { name }) && name@ == v@
            } else if is_listed(v@, block_names@) {
                r matches Ok(CodePointRange::Block { name }) && name@ == v@
            } else {
                r matches Err(RangeError::Unrecognized(t)) && t@ == v@
            },
        },
{
    let s = chars_of(v);
    match separator_from(&s, 0) {
        Some(k) => {
            proof {
                lemma_separator_in_range(s@, 0);
            }
            let end = match separator_from(&s, k + 2) {
                Some(k2) => k2,
                None => s.len(),
            };
            proof {
                if let Some(k2) = separator_at(s@, k + 2) {
                    lemma_separator_in_range(s@, k + 2);
                }
                lemma_separator_in_range(s@, 0);
            }
            let first_chars = slice_chars(&s, 0, k);
            let last_chars = slice_chars(&s, k + 2, end);
            let first = code_point_from_chars(&first_chars);
            let last = code_point_from_chars(&last_chars);
            match (first, last) {
                (Some(first), Some(last)) => Ok(CodePointRange::Raw { first, last }),
                (None, _) => Err(RangeError::InvalidFirst(string_from_chars(&first_chars))),
                (Some(_), None) => Err(RangeError::InvalidLast(string_from_chars(&last_chars))),
            }
        },
        None => {
            let planes = Plane::all_plane_names();
            if listed(v, &planes) {
                proof {
                    let i = choose|i: int| 0 <= i < planes@.len() && planes@[i]@ == v@;
                    assert(plane_name_view(i) == v@);
                }
                return Ok(CodePointRange::Plane { name: v.to_owned() });
            }
            proof {
                assert forall|i: int| 0 <= i < PLANE_COUNT implies plane_name_view(i) != v@ by {
                    assert(planes@[i]@ == plane_name_view(i));
                }
            }
            if listed(v, block_names) {
                Ok(CodePointRange::Block { name: v.to_owned() })
            } else {
                Err(RangeError::Unrecognized(v.to_owned()))
            }
        },
    }
}

proof fn lemma_separator_in_range(s: Seq<char>, from: int)
    ensures
        separator_at(s, from) matches Some(k) ==> from <= k && k + 2 <= s.len(),
    decreases s.len() - from,
{
    if !(from < 0 || from + 1 >= s.len()) && !(s[from] == '.' && s[from + 1] == '.') {
        lemma_separator_in_range(s, from + 1);
    }
}

/// Relies on `unic::ucd::BlockIter`: the names of the Unicode blocks.
#[verifier::external_body]
fn block_names() -> (r: Vec<&'static str>) {
    unic::ucd::BlockIter::new().map(|block| block.name).collect()
}

/// Reads a code point range as the settings file writes it; block names are
/// those that the Unicode database lists. A raw range and a plane name are
/// read exactly as `parse_code_point_range` says, whatever the list holds.
pub fn code_point_range_from_str(v: &str) -> (r: Result<CodePointRange, RangeError>)
    ensures
        range_bounds(v@) is Some ==> match range_bounds(v@) {
            Some((first, last)) => match (parse_code_point(first), parse_code_point(last)) {
                (Some(f), Some(l)) => r matches Ok(CodePointRange::Raw { first: fc, last: lc })
                    && (fc as u32) as nat == f && (lc as u32) as nat == l,
                (None, _) => r matches Err(RangeError::InvalidFirst(t)) && t@ == first,
                (Some(_), None) => r matches Err(RangeError::InvalidLast(t)) && t@ == last,
            },
            None => true,
        },
        (range_bounds(v@) is None && is_plane_name(v@)) ==> (r matches Ok(CodePointRange::Plane { name })
            && name@ == v@),
{
    parse_code_point_range(v, &block_names())
}

} // verus!
