//! One slide: its fields, the defaults for those left out, and its markup.
//!
//! The layout of a slide is the one it declares, and `Centered` where it
//! declares none; whether it has media plays no part. Its markup is the
//! heading, then the image, then the text.

use crate::layout::{lemma_class_name_is_valid, Layout};
use crate::markup::{escaped, lemma_plain_text_is_unchanged};
use crate::outside::{escape, markdown_html, markdown_to_html};
use vstd::prelude::*;
use vstd::string::*;

verus! {

/// One slide of a deck. Every field may be left out.
#[derive(Clone, Debug, PartialEq, Eq)]
pub struct Slide {
    /// Markdown text shown as the slide's heading.
    pub title: Option<String>,
    /// Markdown text shown as the slide's main content.
    pub body: Option<String>,
    /// Plain text for the speaker, kept out of the main view.
    pub notes: Option<String>,
    /// Path of an image shown on the slide.
    pub media: Option<String>,
    /// How the slide is laid out.
    pub layout: Option<Layout>,
}

/// A slide as plain values.
pub ghost struct SlideView {
    pub title: Option<Seq<char>>,
    pub body: Option<Seq<char>>,
    pub notes: Option<Seq<char>>,
    pub media: Option<Seq<char>>,
    pub layout: Option<Layout>,
}

impl View for Slide {
    type V = SlideView;

    open spec fn view(&self) -> SlideView {
        SlideView {
            title: self.title.deep_view(),
            body: self.body.deep_view(),
            notes: self.notes.deep_view(),
            media: self.media.deep_view(),
            layout: self.layout,
        }
    }
}

impl DeepView for Slide {
    type V = SlideView;

    open spec fn deep_view(&self) -> SlideView {
        self.view()
    }
}

/// A heading that holds `title_html`.
pub open spec fn heading_markup(title_html: Seq<char>) -> Seq<char> {
    "<h1>"@ + title_html + "</h1>"@
}

/// An image element that shows the file at `media`.
pub open spec fn image_markup(media: Seq<char>) -> Seq<char> {
    "<img src=\""@ + escaped(media) + "\">"@
}

/// `part`, or nothing where there is none.
pub open spec fn or_nothing(part: Option<Seq<char>>) -> Seq<char> {
    match part {
        Some(text) => text,
        None => Seq::empty(),
    }
}

/// The content of a slide: heading, then image, then text, each only where
/// the slide has it, inside one `div`.
pub open spec fn fragment_markup(
    title_html: Option<Seq<char>>,
    media: Option<Seq<char>>,
    body_html: Option<Seq<char>>,
) -> Seq<char> {
    "<div>"@ + or_nothing(
        match title_html {
            Some(html) => Some(heading_markup(html)),
            None => None,
        },
    ) + or_nothing(
        match media {
            Some(path) => Some(image_markup(path)),
            None => None,
        },
    ) + or_nothing(body_html) + "</div>"@
}

/// What the markdown renderer makes of `text`, where there is any.
pub open spec fn rendered(text: Option<Seq<char>>) -> Option<Seq<char>> {
    match text {
        Some(text) => Some(markdown_html(text)),
        None => None,
    }
}

impl SlideView {
    /// The declared layout, or `Centered` where none is declared.
    pub open spec fn resolved_layout(self) -> Layout {
        match self.layout {
            Some(layout) => layout,
            None => Layout::Centered,
        }
    }

    /// The CSS class of the resolved layout.
    pub open spec fn class_name(self) -> Seq<char> {
        self.resolved_layout().class_name()
    }

    /// The speaker notes, or the placeholder where there are none.
    pub open spec fn notes_text(self) -> Seq<char> {
        match self.notes {
            Some(notes) => notes,
            None => "(no notes)"@,
        }
    }

    /// The slide's content as markup, title and body rendered from markdown.
    pub open spec fn fragment(self) -> Seq<char> {
        fragment_markup(rendered(self.title), self.media, rendered(self.body))
    }
}

/// Puts the parts of a slide together: `title_html` and `body_html` are
/// markup already and go in as they are, `media` is a path and is escaped.
pub fn fragment(title_html: Option<&str>, media: Option<&str>, body_html: Option<&str>) -> (html:
    String)
    ensures
        html@ == fragment_markup(
            title_html.deep_view(),
            media.deep_view(),
            body_html.deep_view(),
        ),
{
    let mut html = String::from_str("<div>");
    if let Some(title) = title_html {
        html.append("<h1>");
        html.append(title);
        html.append("</h1>");
    }
    if let Some(path) = media {
        let src = escape(path);
        html.append("<img src=\"");
        html.append(src.as_str());
        html.append("\">");
    }
    if let Some(body) = body_html {
        html.append(body);
    }
    html.append("</div>");
    html
}

impl Slide {
    /// The slide's content as markup.
    pub fn render(&self) -> (html: String)
        ensures
            html@ == self@.fragment(),
    {
        let title = match &self.title {
            Some(text) => Some(markdown_to_html(text.as_str())),
            None => None,
        };
        let body = match &self.body {
            Some(text) => Some(markdown_to_html(text.as_str())),
            None => None,
        };
        fragment(as_text(&title), as_text(&self.media), as_text(&body))
    }

    /// The declared layout, or `Centered` where none is declared.
    pub fn layout(&self) -> (layout: Layout)
        ensures
            layout == self@.resolved_layout(),
    {
        match self.layout {
            Some(layout) => layout,
            None => Layout::Centered,
        }
    }

    /// The CSS class of the slide's layout.
    pub fn class(&self) -> (name: &'static str)
        ensures
            name@ == self@.class_name(),
    {
        self.layout().as_str()
    }

    /// The speaker notes, or `(no notes)` where there are none.
    pub fn notes(&self) -> (notes: &str)
        ensures
            notes@ == self@.notes_text(),
    {
        match &self.notes {
            Some(notes) => notes.as_str(),
            None => "(no notes)",
        }
    }
}

/// Whatever fields a slide has, its layout resolves to exactly one class
/// name, `simple` or `centered`, and that name stands in a `class` attribute
/// as it is. A slide that declares no layout is centered.
pub proof fn lemma_every_slide_has_a_class(slide: SlideView)
    ensures
        slide.class_name() == "simple"@ || slide.class_name() == "centered"@,
        slide.layout is None ==> slide.class_name() == "centered"@,
        slide.class_name().len() > 0,
        escaped(slide.class_name()) == slide.class_name(),
{
    lemma_class_name_is_valid(slide.resolved_layout());
    lemma_plain_text_is_unchanged(slide.class_name());
}

/// Borrows the text of an optional string.
pub(crate) fn as_text(text: &Option<String>) -> (borrowed: Option<&str>)
    ensures
        borrowed.deep_view() == text.deep_view(),
{
    match text {
        Some(text) => Some(text.as_str()),
        None => None,
    }
}

} // verus!
