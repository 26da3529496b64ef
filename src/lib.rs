//! Per-character font discovery, glyph preview and grapheme-aware navigation
//! for a Unicode inspection tool.
//!
//! - `cursor`: a bidirectional selection cursor over a list.
//! - `graphemes`: rows of code points grouped by grapheme cluster, and
//!   navigation that steps over cluster boundaries.
//! - `font_match`, `font_order`: choosing a discovery strategy, turning what
//!   was gathered into font descriptors, ordering and filtering them.
//! - `preview`: the fonts offered for one character and the selected one.
//! - `render`: drawing a glyph into a bitmap of a requested size.
//! - `settings`: configuration and preview font rules.
//! - `ucd`, `properties`: code point text, planes, and the property rows.
//! - `cli`, `view`: command line input and interactive state.
//! - `text`: character-level string helpers.
pub mod cli;
pub mod cursor;
pub mod font_match;
pub mod font_order;
pub mod graphemes;
pub mod preview;
pub mod properties;
pub mod render;
pub mod settings;
pub mod text;
pub mod ucd;
pub mod view;

pub use cursor::StatefulVec;
pub use font_match::{fonts_for, match_fonts_for_character, Error, FontDescriptor, FoundFonts, IndexedFont};
pub use graphemes::{GraphemeRow, ListState, StatefulGraphemes};
pub use render::{render, RenderSize, RenderedCharacter};
pub use settings::{get_settings, CodePointRange, PreviewFontSetting, Settings};
pub use ucd::{code_point_to_string, string_to_code_point, Plane, Range};
