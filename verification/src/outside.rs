//! The calls into the `markdown` and `maud` crates.
//!
//! Nothing in this file is proved. Each function makes one outside call and
//! states what that call returns; the rest of the crate is verified against
//! these statements.

use crate::markup::{decimal, escaped};
use vstd::prelude::*;

verus! {

/// The HTML fragment that the markdown renderer makes of `text`.
pub uninterp spec fn markdown_html(text: Seq<char>) -> Seq<char>;

/// Calls `markdown::to_html`, which compiles CommonMark text to HTML and
/// accepts every input. The result depends on the text alone; it is not
/// described here but named: [`markdown_html`].
#[verifier::external_body]
pub(crate) fn markdown_to_html(text: &str) -> (html: String)
    ensures
        html@ == markdown_html(text@),
{
    markdown::to_html(text)
}

/// Calls maud's `Render::render_to` for `str`, which copies the text and
/// writes `&amp;`, `&lt;`, `&gt;` and `&quot;` in place of `&`, `<`, `>` and
/// `"`.
#[verifier::external_body]
pub(crate) fn escape(text: &str) -> (html: String)
    ensures
        html@ == escaped(text@),
{
    let mut html = String::new();
    maud::Render::render_to(text, &mut html);
    html
}

/// Calls maud's `Render::render_to` for `usize`, which writes the number in
/// decimal.
#[verifier::external_body]
pub(crate) fn index_text(index: usize) -> (text: String)
    ensures
        text@ == decimal(index as nat),
{
    let mut text = String::new();
    maud::Render::render_to(&index, &mut text);
    text
}

/// Reads maud's constant `DOCTYPE`, the text `<!DOCTYPE html>`.
#[verifier::external_body]
pub(crate) fn doctype() -> (text: String)
    ensures
        text@ == "<!DOCTYPE html>"@,
{
    maud::DOCTYPE.into_string()
}

} // verus!
