//! Where a slide's media file goes in the output, and how the slide refers
//! to it afterwards.
//!
//! A media file keeps only its file name: `/abs/path/to/pic.png` is copied to
//! `<asset directory>/pic.png` and the slide then refers to `assets/pic.png`.
//! Two slides whose files share a name therefore share one copy, the later
//! one. Paths are read with `/` as the only separator.

use crate::slide::{Slide, SlideView};
use vstd::prelude::*;
use vstd::string::*;

verus! {

/// The position of the last `/` in `path`, or -1 where it has none.
pub open spec fn last_separator(path: Seq<char>) -> int
    decreases path.len(),
{
    if path.len() == 0 {
        -1
    } else if path.last() == '/' {
        path.len() - 1
    } else {
        last_separator(path.drop_last())
    }
}

/// Whether `segment` is a path component that names nothing: it is empty, as
/// between two separators, or is `.`.
pub open spec fn names_nothing(segment: Seq<char>) -> bool {
    segment.len() == 0 || segment =~= seq!['.']
}

/// The file name of `path`: its last component that names something, unless
/// that is `..`.
pub open spec fn file_name_of(path: Seq<char>) -> Option<Seq<char>>
    decreases path.len(),
{
    let cut = last_separator(path);
    let segment = path.skip(cut + 1);
    if names_nothing(segment) {
        if 0 <= cut < path.len() {
            file_name_of(path.take(cut))
        } else {
            None
        }
    } else if segment =~= seq!['.', '.'] {
        None
    } else {
        Some(segment)
    }
}

/// Whether `name` can be the file name of a path.
pub open spec fn is_file_name(name: Seq<char>) -> bool {
    &&& !names_nothing(name)
    &&& !(name =~= seq!['.', '.'])
    &&& forall|i: int| 0 <= i < name.len() ==> name[i] != '/'
}

/// How a slide refers to the copy of its media file named `name`: by a path
/// relative to the output directory.
pub open spec fn asset_link(name: Seq<char>) -> Seq<char> {
    "assets/"@ + name
}

/// Where in `asset_dir` the copy of a media file named `name` goes.
pub open spec fn asset_target(asset_dir: Seq<char>, name: Seq<char>) -> Seq<char> {
    asset_dir + "/"@ + name
}

/// A file to copy.
#[derive(Clone, Debug, PartialEq, Eq)]
pub struct AssetCopy {
    /// The media path as the slide gave it.
    pub source: String,
    /// The path of the copy.
    pub target: String,
}

/// A file to copy, as plain values.
pub ghost struct AssetCopyView {
    pub source: Seq<char>,
    pub target: Seq<char>,
}

impl View for AssetCopy {
    type V = AssetCopyView;

    open spec fn view(&self) -> AssetCopyView {
        AssetCopyView { source: self.source@, target: self.target@ }
    }
}

impl DeepView for AssetCopy {
    type V = AssetCopyView;

    open spec fn deep_view(&self) -> AssetCopyView {
        self.view()
    }
}

/// The media path of the slide at position `slide` has no file name.
#[derive(Clone, Copy, Debug, PartialEq, Eq, Structural)]
pub struct UnnamedMedia {
    pub slide: usize,
}

/// The file name of the slide's media file, where it has one.
pub open spec fn media_name(slide: SlideView) -> Option<Seq<char>> {
    match slide.media {
        Some(path) => file_name_of(path),
        None => None,
    }
}

/// Whether the slide has a media path without a file name.
pub open spec fn is_unnamed(slide: SlideView) -> bool {
    slide.media is Some && media_name(slide) is None
}

/// The position of the first slide of `deck` that has a media path without a
/// file name.
pub open spec fn first_unnamed(deck: Seq<SlideView>) -> Option<int>
    decreases deck.len(),
{
    if deck.len() == 0 {
        None
    } else {
        match first_unnamed(deck.drop_last()) {
            Some(i) => Some(i),
            None => if is_unnamed(deck.last()) {
                Some(deck.len() - 1)
            } else {
                None
            },
        }
    }
}

/// The slide with its media path, if it has a file name, replaced by the
/// link to the copy.
pub open spec fn consolidated_slide(slide: SlideView) -> SlideView {
    SlideView {
        media: match media_name(slide) {
            Some(name) => Some(asset_link(name)),
            None => slide.media,
        },
        ..slide
    }
}

/// The deck with every slide consolidated, in the same order.
pub open spec fn consolidated(deck: Seq<SlideView>) -> Seq<SlideView> {
    Seq::new(deck.len(), |i: int| consolidated_slide(deck[i]))
}

/// The copies that consolidating `deck` asks for: one for each slide with a
/// named media file, in deck order.
pub open spec fn copies_for(deck: Seq<SlideView>, asset_dir: Seq<char>) -> Seq<AssetCopyView>
    decreases deck.len(),
{
    if deck.len() == 0 {
        Seq::empty()
    } else {
        let before = copies_for(deck.drop_last(), asset_dir);
        match media_name(deck.last()) {
            Some(name) => before.push(
                AssetCopyView {
                    source: deck.last().media->0,
                    target: asset_target(asset_dir, name),
                },
            ),
            None => before,
        }
    }
}

/// The characters of `text`, one by one.
fn chars_of(text: &str) -> (chars: Vec<char>)
    ensures
        chars@ == text@,
{
    let mut chars: Vec<char> = Vec::new();
    for c in it: text.chars()
        invariant
            chars@ == it.seq().take(it.index() as int),
            it.seq() == text@,
    {
        chars.push(c);
    }
    chars
}

/// The last separator stands right before the trailing run of characters
/// that are no separators.
proof fn lemma_last_separator(path: Seq<char>, start: int)
    requires
        0 <= start <= path.len(),
        start == 0 || path[start - 1] == '/',
        forall|k: int| start <= k < path.len() ==> path[k] != '/',
    ensures
        last_separator(path) == start - 1,
    decreases path.len() - start,
{
    if start < path.len() {
        lemma_last_separator(path.drop_last(), start);
    }
}

/// The file name of `path`, or `None` where it has none: the path is empty,
/// is made of separators and `.` only, or ends in `..`.
pub fn file_name(path: &str) -> (name: Option<String>)
    ensures
        name.deep_view() == file_name_of(path@),
{
    let chars = chars_of(path);
    let mut end: usize = chars.len();
    assert(path@.take(end as int) =~= path@);
    loop
        invariant
            chars@ == path@,
            end <= chars.len(),
            file_name_of(path@) == file_name_of(path@.take(end as int)),
        decreases end,
    {
        let ghost head = path@.take(end as int);
        let mut start: usize = end;
        while start > 0 && chars[start - 1] != '/'
            invariant
                chars@ == path@,
                start <= end <= chars.len(),
                forall|k: int| start <= k < end ==> chars[k] != '/',
            decreases start,
        {
            start -= 1;
        }
        proof {
            lemma_last_separator(head, start as int);
        }
        let ghost segment = head.skip(start as int);
        let len: usize = end - start;
        assert(segment.len() == len);
        assert(forall|k: int| 0 <= k < len ==> segment[k] == chars[start + k]);
        if len == 0 || (len == 1 && chars[start] == '.') {
            if start == 0 {
                return None;
            }
            assert(head.take(start - 1) =~= path@.take(start - 1));
            end = start - 1;
        } else if len == 2 && chars[start] == '.' && chars[start + 1] == '.' {
            return None;
        } else {
            assert(segment =~= path@.subrange(start as int, end as int));
            assert(len == 1 ==> segment[0] != seq!['.'][0]);
            assert(len == 2 ==> segment[0] != seq!['.', '.'][0] || segment[1] != seq!['.', '.'][1]);
            return Some(path.substring_char(start, end).to_owned());
        }
    }
}

/// The first unnamed slide of a deck is that of every prefix long enough to
/// hold it.
proof fn lemma_first_unnamed_of_prefix(deck: Seq<SlideView>, n: int)
    requires
        0 <= n <= deck.len(),
    ensures
        first_unnamed(deck.take(n)) is Some ==> first_unnamed(deck) == first_unnamed(
            deck.take(n),
        ),
    decreases deck.len() - n,
{
    if n < deck.len() {
        assert(deck.take(n + 1).drop_last() =~= deck.take(n));
        lemma_first_unnamed_of_prefix(deck, n + 1);
    } else {
        assert(deck.take(n) =~= deck);
    }
}

/// Rewrites the media path of every slide to the link to its copy, and
/// returns the copies to make into `asset_dir`, in deck order.
///
/// Fails at the first slide whose media path has no file name, and then
/// leaves the deck as it was.
pub fn consolidate_assets(slides: &mut Vec<Slide>, asset_dir: &str) -> (result: Result<
    Vec<AssetCopy>,
    UnnamedMedia,
>)
    ensures
        match result {
            Ok(copies) => {
                &&& first_unnamed(old(slides).deep_view()) is None
                &&& final(slides).deep_view() == consolidated(old(slides).deep_view())
                &&& copies.deep_view() == copies_for(old(slides).deep_view(), asset_dir@)
            },
            Err(unnamed) => {
                &&& first_unnamed(old(slides).deep_view()) == Some(unnamed.slide as int)
                &&& *final(slides) == *old(slides)
            },
        },
{
    let ghost deck = slides.deep_view();
    let mut names: Vec<Option<String>> = Vec::new();
    let mut i: usize = 0;
    assert(deck.take(0) =~= Seq::<SlideView>::empty());
    while i < slides.len()
        invariant
            *slides == *old(slides),
            deck == slides.deep_view(),
            i <= slides.len(),
            names.len() == i,
            first_unnamed(deck.take(i as int)) is None,
            forall|j: int| 0 <= j < i ==> (#[trigger] names[j]).deep_view() == media_name(deck[j]),
        decreases slides.len() - i,
    {
        proof {
            assert(deck.take(i + 1).drop_last() =~= deck.take(i as int));
            lemma_first_unnamed_of_prefix(deck, i + 1);
        }
        let name = match &slides[i].media {
            Some(path) => {
                let name = file_name(path.as_str());
                if name.is_none() {
                    return Err(UnnamedMedia { slide: i });
                }
                name
            },
            None => None,
        };
        names.push(name);
        i += 1;
    }
    assert(deck.take(i as int) =~= deck);
    let mut copies: Vec<AssetCopy> = Vec::new();
    let mut i: usize = 0;
    assert(deck.take(0) =~= Seq::<SlideView>::empty());
    while i < slides.len()
        invariant
            slides.len() == deck.len(),
            names.len() == deck.len(),
            i <= slides.len(),
            forall|j: int|
                0 <= j < deck.len() ==> (#[trigger] names[j]).deep_view() == media_name(deck[j]),
            forall|j: int| 0 <= j < i ==> (#[trigger] slides[j])@ == consolidated_slide(deck[j]),
            forall|j: int| i <= j < deck.len() ==> (#[trigger] slides[j])@ == deck[j],
            copies.deep_view() == copies_for(deck.take(i as int), asset_dir@),
        decreases slides.len() - i,
    {
        proof {
            assert(deck.take(i + 1).drop_last() =~= deck.take(i as int));
            assert(names[i as int].deep_view() == media_name(deck[i as int]));
        }
        if let Some(name) = &names[i] {
            if let Some(source) = slides[i].media.take() {
                let mut target = String::from_str(asset_dir);
                target.append("/");
                target.append(name.as_str());
                let mut link = String::from_str("assets/");
                link.append(name.as_str());
                slides[i].media = Some(link);
                copies.push(AssetCopy { source, target });
                assert(copies.deep_view() =~= copies_for(deck.take(i + 1), asset_dir@));
            }
        }
        i += 1;
    }
    assert(deck.take(i as int) =~= deck);
    assert(slides.deep_view() =~= consolidated(deck));
    Ok(copies)
}

/// The last separator is a separator, and none comes after it.
pub proof fn lemma_nothing_after_last_separator(path: Seq<char>)
    ensures
        -1 <= last_separator(path) < path.len(),
        last_separator(path) >= 0 ==> path[last_separator(path)] == '/',
        forall|k: int| last_separator(path) < k < path.len() ==> path[k] != '/',
    decreases path.len(),
{
    if path.len() > 0 && path.last() != '/' {
        let front = path.drop_last();
        lemma_nothing_after_last_separator(front);
        assert forall|k: int| last_separator(path) < k < path.len() implies path[k] != '/' by {
            if k < front.len() {
                assert(front[k] == path[k]);
            }
        }
    }
}

/// What `file_name_of` finds is a file name: it is not empty, is neither `.`
/// nor `..`, and holds no separator.
pub proof fn lemma_file_name_is_a_name(path: Seq<char>)
    ensures
        file_name_of(path) matches Some(name) ==> is_file_name(name),
    decreases path.len(),
{
    let cut = last_separator(path);
    lemma_nothing_after_last_separator(path);
    if names_nothing(path.skip(cut + 1)) && 0 <= cut {
        lemma_file_name_is_a_name(path.take(cut));
    }
}

/// A file name behind a separator is the file name of the whole path.
pub proof fn lemma_file_name_after_separator(prefix: Seq<char>, name: Seq<char>)
    requires
        prefix.len() > 0,
        prefix.last() == '/',
        is_file_name(name),
    ensures
        file_name_of(prefix + name) == Some(name),
{
    let path = prefix + name;
    lemma_last_separator(path, prefix.len() as int);
    assert(path.skip(prefix.len() as int) =~= name);
}

/// The link to a copy and the path of the copy both end in the file name
/// they were made from.
pub proof fn lemma_link_and_target_keep_the_name(asset_dir: Seq<char>, name: Seq<char>)
    requires
        is_file_name(name),
    ensures
        file_name_of(asset_link(name)) == Some(name),
        file_name_of(asset_target(asset_dir, name)) == Some(name),
{
    reveal_strlit("assets/");
    reveal_strlit("/");
    lemma_file_name_after_separator("assets/"@, name);
    lemma_file_name_after_separator(asset_dir + "/"@, name);
}

/// Consolidating keeps the number of slides and their order, and changes
/// nothing of a slide but its media path.
pub proof fn lemma_consolidation_keeps_order(deck: Seq<SlideView>, i: int)
    requires
        0 <= i < deck.len(),
    ensures
        consolidated(deck).len() == deck.len(),
        consolidated(deck)[i] == (SlideView { media: consolidated(deck)[i].media, ..deck[i] }),
        consolidated(deck)[i].media is Some <==> deck[i].media is Some,
{
}

/// Consolidating a deck that is consolidated already changes nothing.
pub proof fn lemma_consolidation_is_idempotent(deck: Seq<SlideView>)
    ensures
        consolidated(consolidated(deck)) == consolidated(deck),
{
    assert forall|i: int| 0 <= i < deck.len() implies consolidated_slide(
        consolidated_slide(deck[i]),
    ) == consolidated_slide(deck[i]) by {
        if let Some(path) = deck[i].media {
            lemma_file_name_is_a_name(path);
            if let Some(name) = file_name_of(path) {
                lemma_link_and_target_keep_the_name(Seq::empty(), name);
            }
        }
    }
    assert(consolidated(consolidated(deck)) =~= consolidated(deck));
}

/// After consolidation the media path of a slide whose file has a name is
/// relative to the output directory, and a copy with that name is asked for.
pub proof fn lemma_every_link_has_a_copy(deck: Seq<SlideView>, asset_dir: Seq<char>, i: int)
    requires
        0 <= i < deck.len(),
        media_name(deck[i]) is Some,
    ensures
        consolidated(deck)[i].media == Some(asset_link(media_name(deck[i])->0)),
        copies_for(deck, asset_dir).contains(
            AssetCopyView {
                source: deck[i].media->0,
                target: asset_target(asset_dir, media_name(deck[i])->0),
            },
        ),
    decreases deck.len(),
{
    let copy = AssetCopyView {
        source: deck[i].media->0,
        target: asset_target(asset_dir, media_name(deck[i])->0),
    };
    let before = copies_for(deck.drop_last(), asset_dir);
    if i == deck.len() - 1 {
        assert(before.push(copy).last() == copy);
    } else {
        lemma_every_link_has_a_copy(deck.drop_last(), asset_dir, i);
        let k = choose|k: int| 0 <= k < before.len() && before[k] == copy;
        assert(copies_for(deck, asset_dir)[k] == copy);
    }
}

/// `first_unnamed` finds a slide with an unnamed media path, the first one,
/// and finds none only where there is none.
pub proof fn lemma_first_unnamed(deck: Seq<SlideView>)
    ensures
        match first_unnamed(deck) {
            Some(i) => {
                &&& 0 <= i < deck.len()
                &&& is_unnamed(deck[i])
                &&& forall|j: int| 0 <= j < i ==> !is_unnamed(#[trigger] deck[j])
            },
            None => forall|j: int| 0 <= j < deck.len() ==> !is_unnamed(#[trigger] deck[j]),
        },
    decreases deck.len(),
{
    if deck.len() > 0 {
        lemma_first_unnamed(deck.drop_last());
        assert(forall|j: int| 0 <= j < deck.len() - 1 ==> deck.drop_last()[j] == deck[j]);
    }
}

} // verus!
