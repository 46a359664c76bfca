//! Choosing CJK font files.
//!
//! Reading the candidate files and handing the font to the GUI toolkit is
//! done by the caller.

use vstd::prelude::*;

use crate::text::{chars_of, file_stem_chars, file_stem_of, string_of};

verus! {

/// A TrueType Collection begins with the magic `ttcf`.
pub open spec fn is_collection_spec(bytes: Seq<u8>) -> bool {
    bytes.len() >= 4 && bytes[0] == 0x74u8 && bytes[1] == 0x74u8 && bytes[2] == 0x63u8 && bytes[3]
        == 0x66u8
}

/// Whether font data is a TrueType Collection (`ttcf`), which the glyph
/// loader handles badly and which is therefore skipped.
pub fn is_font_collection(bytes: &[u8]) -> (b: bool)
    ensures
        b == is_collection_spec(bytes@),
{
    bytes.len() >= 4 && bytes[0] == 0x74u8 && bytes[1] == 0x74u8 && bytes[2] == 0x63u8 && bytes[3]
        == 0x66u8
}

/// The name a font is registered under: its file stem, or `cjk`.
pub open spec fn font_name_spec(path: Seq<char>) -> Seq<char> {
    match file_stem_of(path) {
        Some(s) => s,
        None => "cjk"@,
    }
}

/// The name a font file is registered under: its file stem, or `cjk`.
pub fn font_name(path: &str) -> (out: String)
    ensures
        out@ == font_name_spec(path@),
{
    let v = chars_of(path);
    match file_stem_chars(&v) {
        Some(s) => string_of(&s),
        None => string_of(&chars_of("cjk")),
    }
}

/// A font name as a one-element list, or nothing.
pub open spec fn opt_list(name: Option<String>) -> Seq<String> {
    match name {
        Some(n) => seq![n],
        None => Seq::empty(),
    }
}

/// Where the CJK fonts go in the font families: the body font first among
/// the proportional fonts and last among the monospace ones (so that code
/// text still finds CJK glyphs), the monospace CJK font first among the
/// monospace ones.  Returns the new proportional and monospace lists.
pub fn cjk_families(
    proportional: Vec<String>,
    monospace: Vec<String>,
    body: Option<String>,
    mono: Option<String>,
) -> (r: (Vec<String>, Vec<String>))
    ensures
        r.0@ == opt_list(body) + proportional@,
        r.1@ == opt_list(mono) + monospace@ + opt_list(body),
{
    let mut prop = proportional;
    let mut monos = monospace;
    if let Some(b) = body {
        prop.insert(0, b.clone());
        monos.push(b);
    }
    if let Some(m) = mono {
        monos.insert(0, m);
    }
    (prop, monos)
}

} // verus!
