//! The banner renderer: a short string becomes a multi-line block-glyph
//! text through the FIGlet standard font. The font is embedded in the
//! rendering crate, so the glyphs are a pure function of the message.
use vstd::prelude::*;
use crate::text::spec_lines;
use crate::text::split_lines;

verus! {

/// What the FIGlet standard font renders a message to, when it renders it
/// at all: a function of the message's characters alone.
pub uninterp spec fn banner_render(s: Seq<char>) -> Option<Seq<char>>;

/// Relies on figlet_rs::FIGlet::standard, FIGlet::convert and the FIGure
/// Display form: the standard font is embedded in that crate, so what a
/// message renders to depends on the message's characters alone; convert
/// returns nothing for a message with no renderable characters, in
/// particular for the empty message.
#[verifier::external_body]
fn figlet_standard(s: &str) -> (r: Option<String>)
    ensures
        (r is Some) == (banner_render(s@) is Some),
        r matches Some(b) ==> Some(b@) == banner_render(s@),
        s@.len() == 0 ==> r is None,
{
    match figlet_rs::FIGlet::standard() {
        Ok(font) => font.convert(s).map(|figure| figure.to_string()),
        Err(_) => None,
    }
}

/// The banner text shown for a message: its block-glyph rendering, or an
/// empty block where the font has no glyphs for it.
pub open spec fn spec_banner_text(s: Seq<char>) -> Seq<char> {
    match banner_render(s) {
        Some(b) => b,
        None => Seq::empty(),
    }
}

/// The banner, split at its newlines, line by line.
pub open spec fn spec_banner_lines(s: Seq<char>) -> Seq<Seq<char>> {
    spec_lines(spec_banner_text(s))
}

/// Renders a message as large block glyphs; a message the font cannot
/// render — in particular an empty one — gives an empty block, never a
/// failure.
pub fn render_banner(s: &str) -> (r: String)
    ensures
        r@ == spec_banner_text(s@),
        s@.len() == 0 ==> r@.len() == 0,
{
    match figlet_standard(s) {
        Some(b) => b,
        None => String::new(),
    }
}

/// Renders a message as block glyphs and splits the block into lines.
pub fn banner_lines(s: &str) -> (r: Vec<String>)
    ensures
        r.deep_view() == spec_banner_lines(s@),
{
    let block = render_banner(s);
    split_lines(block.as_str())
}

} // verus!
