//! The whole presentation: one container per slide between a head that holds
//! the style sheet and a trailing script.

use crate::markup::{decimal, escaped};
use crate::outside::{doctype, escape, index_text};
use crate::slide::{Slide, SlideView};
use vstd::prelude::*;
use vstd::seq_lib::lemma_flatten_concat;
use vstd::string::*;

verus! {

/// The element that holds one slide: its classes, its position in the deck
/// as `id`, its notes as `data-notes`, and its content.
pub open spec fn container_markup(
    index: nat,
    class: Seq<char>,
    notes: Seq<char>,
    fragment: Seq<char>,
) -> Seq<char> {
    "<div class=\"slide "@ + escaped(class) + "\" id=\""@ + decimal(index) + "\" data-notes=\""@
        + escaped(notes) + "\">"@ + fragment + "</div>"@
}

/// Everything in the document that comes before the first slide.
pub open spec fn page_open(style: Seq<char>) -> Seq<char> {
    "<!DOCTYPE html>"@ + "<head><style>"@ + style + "</style></head><body>"@
}

/// Everything in the document that comes after the last slide.
pub open spec fn page_close(script: Seq<char>) -> Seq<char> {
    "</body><script type=\"text/javascript\">"@ + script + "</script>"@
}

/// A document with `body` between the style sheet and the script, both
/// copied as they are.
pub open spec fn page_markup(style: Seq<char>, script: Seq<char>, body: Seq<char>) -> Seq<char> {
    page_open(style) + body + page_close(script)
}

/// The container of the slide at position `index`.
pub open spec fn slide_container(index: nat, slide: SlideView) -> Seq<char> {
    container_markup(index, slide.class_name(), slide.notes_text(), slide.fragment())
}

/// The containers of a deck, one per slide, in deck order.
pub open spec fn containers(deck: Seq<SlideView>) -> Seq<Seq<char>> {
    Seq::new(deck.len(), |i: int| slide_container(i as nat, deck[i]))
}

/// The document that presents `deck`.
pub open spec fn document(deck: Seq<SlideView>, style: Seq<char>, script: Seq<char>) -> Seq<char> {
    page_markup(style, script, containers(deck).flatten())
}

/// Where in the document the container of slide `i` starts.
pub open spec fn container_start(deck: Seq<SlideView>, style: Seq<char>, i: int) -> int {
    (page_open(style).len() + containers(deck).take(i).flatten().len()) as int
}

/// Wraps the content of one slide in its container. `class` and `notes` are
/// escaped, `fragment` is markup already and goes in as it is.
pub fn container(index: usize, class: &str, notes: &str, fragment: &str) -> (html: String)
    ensures
        html@ == container_markup(index as nat, class@, notes@, fragment@),
{
    let class = escape(class);
    let id = index_text(index);
    let notes = escape(notes);
    let mut html = String::from_str("<div class=\"slide ");
    html.append(class.as_str());
    html.append("\" id=\"");
    html.append(id.as_str());
    html.append("\" data-notes=\"");
    html.append(notes.as_str());
    html.append("\">");
    html.append(fragment);
    html.append("</div>");
    html
}

/// Puts `body` between the document's head, which holds `style`, and the
/// trailing `script`.
pub fn page(style: &str, script: &str, body: &str) -> (html: String)
    ensures
        html@ == page_markup(style@, script@, body@),
{
    let mut html = doctype();
    html.append("<head><style>");
    html.append(style);
    html.append("</style></head><body>");
    html.append(body);
    html.append("</body><script type=\"text/javascript\">");
    html.append(script);
    html.append("</script>");
    html
}

/// Renders a deck as one HTML document.
pub fn render_slides(slides: &[Slide], style: &str, script: &str) -> (html: String)
    ensures
        html@ == document(slides.deep_view(), style@, script@),
{
    let ghost all = containers(slides.deep_view());
    let mut body = String::new();
    let mut i: usize = 0;
    assert(all.take(0).flatten() =~= Seq::<char>::empty());
    while i < slides.len()
        invariant
            i <= slides.len(),
            all == containers(slides.deep_view()),
            body@ == all.take(i as int).flatten(),
        decreases slides.len() - i,
    {
        let slide = &slides[i];
        let content = slide.render();
        let block = container(i, slide.class(), slide.notes(), content.as_str());
        body.append(block.as_str());
        proof {
            assert(all.take(i + 1) =~= all.take(i as int).push(all[i as int]));
            all.take(i as int).lemma_flatten_push(all[i as int]);
        }
        i += 1;
    }
    assert(all.take(i as int) =~= all);
    page(style, script, body.as_str())
}

/// A deck of N slides is rendered as N containers, and the container at
/// position `i` is that of the slide at position `i`.
pub proof fn lemma_containers_follow_deck(deck: Seq<SlideView>, i: int)
    requires
        0 <= i < deck.len(),
    ensures
        containers(deck).len() == deck.len(),
        containers(deck)[i] == slide_container(i as nat, deck[i]),
{
}

/// The containers stand in the document in deck order: that of slide `i`
/// starts where that of slide `i - 1` ends, the first one right after the
/// head, and the last one ends where the closing part starts.
pub proof fn lemma_containers_are_in_order(
    deck: Seq<SlideView>,
    style: Seq<char>,
    script: Seq<char>,
    i: int,
)
    requires
        0 <= i < deck.len(),
    ensures
        container_start(deck, style, 0) == page_open(style).len(),
        container_start(deck, style, i + 1) == container_start(deck, style, i) + containers(
            deck,
        )[i].len(),
        document(deck, style, script).subrange(
            container_start(deck, style, i),
            container_start(deck, style, i + 1),
        ) == containers(deck)[i],
        container_start(deck, style, deck.len() as int) + page_close(script).len() == document(
            deck,
            style,
            script,
        ).len(),
{
    let all = containers(deck);
    let before = all.take(i);
    let after = all.skip(i + 1);
    assert(all.take(0).flatten() =~= Seq::<char>::empty());
    assert(all.take(i + 1) =~= before.push(all[i]));
    before.lemma_flatten_push(all[i]);
    assert(all =~= all.take(i + 1) + after);
    lemma_flatten_concat(all.take(i + 1), after);
    assert(all.take(deck.len() as int) =~= all);
    assert(document(deck, style, script) =~= page_open(style) + before.flatten() + all[i]
        + after.flatten() + page_close(script));
}

/// An empty deck is rendered as a document without containers.
pub proof fn lemma_empty_deck(style: Seq<char>, script: Seq<char>)
    ensures
        containers(Seq::<SlideView>::empty()).len() == 0,
        document(Seq::<SlideView>::empty(), style, script) == page_open(style) + page_close(
            script,
        ),
{
    assert(containers(Seq::<SlideView>::empty()).flatten() =~= Seq::<char>::empty());
}

} // verus!
