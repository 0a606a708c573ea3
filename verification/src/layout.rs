//! Layout variants and the CSS class each one is rendered with.

use vstd::prelude::*;

verus! {

/// How a slide is laid out on screen.
#[derive(Clone, Copy, Debug, PartialEq, Eq, Structural)]
pub enum Layout {
    /// Content flows from the top left.
    Simple,
    /// Content is centered on the slide.
    Centered,
}

impl Layout {
    /// The CSS class that stands for this layout.
    pub open spec fn class_name(self) -> Seq<char> {
        match self {
            Layout::Simple => "simple"@,
            Layout::Centered => "centered"@,
        }
    }

    /// The CSS class that stands for this layout.
    pub fn as_str(&self) -> (name: &'static str)
        ensures
            name@ == self.class_name(),
    {
        match self {
            Layout::Simple => "simple",
            Layout::Centered => "centered",
        }
    }
}

impl Default for Layout {
    /// Slides that declare no layout are centered.
    fn default() -> (layout: Layout)
        ensures
            layout == Layout::Centered,
    {
        Layout::Centered
    }
}

/// Whether `c` may stand in a class name: a lower-case ASCII letter.
pub open spec fn is_class_char(c: char) -> bool {
    'a' <= c && c <= 'z'
}

/// Every layout has a class name: it is not empty and is made of lower-case
/// letters only, so it can stand in a `class` attribute as it is.
pub proof fn lemma_class_name_is_valid(layout: Layout)
    ensures
        layout.class_name().len() > 0,
        forall|i: int|
            0 <= i < layout.class_name().len() ==> is_class_char(
                #[trigger] layout.class_name()[i],
            ),
{
    reveal_strlit("simple");
    reveal_strlit("centered");
}

/// Two layouts share a class name only if they are the same layout.
pub proof fn lemma_class_name_is_injective(a: Layout, b: Layout)
    requires
        a.class_name() == b.class_name(),
    ensures
        a == b,
{
    reveal_strlit("simple");
    reveal_strlit("centered");
    assert("simple"@.len() == 6);
    assert("centered"@.len() == 8);
}

} // verus!
