//! The preview of one character: the fonts that can show it, which of them
//! is selected, and drawing the character with the selected font.
use crate::cursor::{step_next, step_previous, StatefulVec};
use crate::font_match::{face_family_name, font_views, Error, FontDescriptor, FontView};
use crate::render::{has_size, render, RenderSize, RenderedCharacter};
use vstd::prelude::*;
use vstd::string::StringExecFns;

verus! {

/// The index of the first font whose path is `path`, if any.
pub open spec fn first_with_path(fonts: Seq<FontView>, path: Seq<char>) -> Option<int>
    decreases fonts.len(),
{
    if fonts.len() == 0 {
        None
    } else if fonts[0].0 == path {
        Some(0)
    } else {
        match first_with_path(fonts.drop_first(), path) {
            Some(i) => Some(i + 1),
            None => None,
        }
    }
}

/// The font selected first: the one with the previously chosen path when it
/// is among the fonts, else the first one.
pub open spec fn initial_font(fonts: Seq<FontView>, selected_font_path: Option<Seq<char>>) -> int {
    match selected_font_path {
        Some(path) => match first_with_path(fonts, path) {
            Some(i) => i,
            None => 0,
        },
        None => 0,
    }
}

fn index_of_path(fonts: &Vec<FontDescriptor>, path: &String) -> (r: Option<usize>)
    ensures
        opt_index(r) == first_with_path(font_views(fonts@), path@),
{
    let ghost v = font_views(fonts@);
    let mut i: usize = 0;
    proof {
        assert(v.skip(0) =~= v);
    }
    while i < fonts.len()
        invariant
            0 <= i <= fonts@.len(),
            v == font_views(fonts@),
            first_with_path(v, path@) == shifted(first_with_path(v.skip(i as int), path@), i as int),
        decreases fonts@.len() - i,
    {
        let ghost rest = v.skip(i as int);
        proof {
            assert(rest[0] == v[i as int]);
            assert(rest.drop_first() =~= v.skip(i + 1));
        }
        if fonts[i].path == *path {
            return Some(i);
        }
        i = i + 1;
    }
    proof {
        assert(v.skip(i as int).len() == 0);
    }
    None
}

pub open spec fn opt_index(o: Option<usize>) -> Option<int> {
    match o {
        Some(i) => Some(i as int),
        None => None,
    }
}

pub open spec fn shifted(o: Option<int>, by: int) -> Option<int> {
    match o {
        Some(i) => Some(i + by),
        None => None,
    }
}

pub struct CharacterPreview {
    pub chr: char,
    paths_for_matching_fonts: StatefulVec<FontDescriptor>,
}

impl CharacterPreview {
    /// The character previewed.
    pub closed spec fn character(&self) -> char {
        self.chr
    }

    /// The fonts that can show the character, in order.
    pub closed spec fn fonts(&self) -> Seq<FontView> {
        font_views(self.paths_for_matching_fonts.items())
    }

    /// The selected font, if any.
    pub closed spec fn selection(&self) -> Option<int> {
        self.paths_for_matching_fonts.selection()
    }

    /// A preview of `chr` among `fonts`, selecting the font with the
    /// previously chosen path when it is among them and the first font
    /// otherwise; none when no font can show the character.
    pub fn new(chr: char, fonts: Vec<FontDescriptor>, selected_font_path: Option<&String>) -> (r: Option<Self>)
        ensures
            fonts@.len() == 0 <==> r.is_none(),
            r matches Some(p) ==> p.character() == chr && p.fonts() == font_views(fonts@) && p.selection()
                == Some(initial_font(font_views(fonts@), match selected_font_path {
                Some(s) => Some(s@),
                None => None,
            })),
    {
        if fonts.len() == 0 {
            return None;
        }
        let start: usize = match selected_font_path {
            Some(path) => match index_of_path(&fonts, path) {
                Some(i) => i,
                None => 0,
            },
            None => 0,
        };
        proof {
            if let Some(path) = selected_font_path {
                if let Some(i) = first_with_path(font_views(fonts@), path@) {
                    lemma_first_with_path_in_range(font_views(fonts@), path@);
                }
            }
        }
        Some(CharacterPreview { chr, paths_for_matching_fonts: StatefulVec::new(fonts, Some(start)) })
    }

    /// The selected font.
    pub fn current_font(&self) -> (r: Option<&FontDescriptor>)
        ensures
            match self.selection() {
                Some(i) => r matches Some(f) && f@ == self.fonts()[i],
                None => r.is_none(),
            },
    {
        let r = self.paths_for_matching_fonts.current_item();
        r
    }

    /// The path of the selected font.
    pub fn get_current_font_path(&self) -> (r: Option<String>)
        ensures
            match self.selection() {
                Some(i) => r matches Some(p) && p@ == self.fonts()[i].0,
                None => r.is_none(),
            },
    {
        match self.current_font() {
            Some(font) => Some(font.path.clone()),
            None => None,
        }
    }

    pub fn has_previous_font(&self) -> (r: bool)
        ensures
            r == (step_previous(self.fonts().len(), self.selection()) != self.selection()),
    {
        self.paths_for_matching_fonts.has_previous()
    }

    pub fn select_previous_font(&mut self)
        ensures
            final(self).character() == old(self).character(),
            final(self).fonts() == old(self).fonts(),
            final(self).selection() == step_previous(old(self).fonts().len(), old(self).selection()),
    {
        self.paths_for_matching_fonts.select_previous();
    }

    pub fn has_next_font(&self) -> (r: bool)
        ensures
            r == (step_next(self.fonts().len(), self.selection()) != self.selection()),
    {
        self.paths_for_matching_fonts.has_next()
    }

    pub fn select_next_font(&mut self)
        ensures
            final(self).character() == old(self).character(),
            final(self).fonts() == old(self).fonts(),
            final(self).selection() == step_next(old(self).fonts().len(), old(self).selection()),
    {
        self.paths_for_matching_fonts.select_next();
    }

    /// Draws the character with `face`, the face of the selected font; see
    /// `render::render`. A bitmap that comes back has the requested size.
    pub fn render<B>(&self, face: &freetype::Face<B>, requested_size: RenderSize) -> (r: Result<
        RenderedCharacter,
        Error,
    >)
        ensures
            r matches Ok(rc) ==> has_size(rc.bitmap@, requested_size),
    {
        render(face, self.chr, requested_size)
    }

    /// The display name of `face`, the face of the selected font: its family
    /// and style names.
    pub fn get_current_font_display_name<B>(&self, face: &freetype::Face<B>) -> (r: String)
        ensures
            exists|family: Option<Seq<char>>, style: Option<Seq<char>>|
                r@ == display_name(family, style),
    {
        font_display_name(face_family_name(face), face_style_name(face))
    }
}

proof fn lemma_first_with_path_in_range(fonts: Seq<FontView>, path: Seq<char>)
    ensures
        first_with_path(fonts, path) matches Some(i) ==> 0 <= i < fonts.len(),
    decreases fonts.len(),
{
    if fonts.len() > 0 {
        lemma_first_with_path_in_range(fonts.drop_first(), path);
    }
}

/// Relies on `freetype::Face::style_name`: the face's style name, if it has one.
#[verifier::external_body]
fn face_style_name<B>(face: &freetype::Face<B>) -> (r: Option<String>) {
    face.style_name()
}

/// `family - style`, with `Unknown Family` or `Unknown Style` for a part that
/// is absent.
pub open spec fn display_name(family: Option<Seq<char>>, style: Option<Seq<char>>) -> Seq<char> {
    (match family {
        Some(f) => f,
        None => "Unknown Family"@,
    }) + " - "@ + (match style {
        Some(s) => s,
        None => "Unknown Style"@,
    })
}

/// The display name from a face's family and style names.
pub fn font_display_name(family: Option<String>, style: Option<String>) -> (r: String)
    ensures
        r@ == display_name(
            match family {
                Some(f) => Some(f@),
                None => None,
            },
            match style {
                Some(s) => Some(s@),
                None => None,
            },
        ),
{
    let mut r = match family {
        Some(f) => f,
        None => String::from_str("Unknown Family"),
    };
    r.append(" - ");
    match style {
        Some(s) => r.append(s.as_str()),
        None => r.append("Unknown Style"),
    }
    r
}

} // verus!
