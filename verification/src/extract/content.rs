//! The text of a page that describes the product: title, headings,
//! breadcrumbs, descriptions and specifications.

use crate::dom::{element_views, spaced_text, whole_text, Element, ElementModel};
use crate::seqs::{first_items, first_picked, lemma_first_picked_front, picked};
use crate::text::{chars_of, text_of, trim, trimmed, views};
use vstd::prelude::*;

verus! {

/// The number of heading elements that are looked at.
pub const MAX_HEADINGS: usize = 5;

/// The longest heading that is kept, in characters.
pub const HEADING_CHARS: usize = 200;

/// The number of elements of one selector among which a breadcrumb is sought.
pub const CRUMB_ELEMENTS: usize = 2;

/// The longest breadcrumb that is kept, in characters.
pub const CRUMB_CHARS: usize = 300;

/// The number of elements of one selector that are looked at for
/// descriptions or specifications.
pub const BLOCKS_PER_SELECTOR: usize = 3;

/// The title of a page: the trimmed text of its first title element, empty
/// where it has none.
pub open spec fn title_of(titles: Seq<ElementModel>) -> Seq<char> {
    if titles.len() > 0 {
        trimmed(whole_text(titles[0]))
    } else {
        Seq::empty()
    }
}

/// The heading of an element: its trimmed text, where that is not empty and
/// has at most 200 characters.
pub open spec fn heading_of(e: ElementModel) -> Option<Seq<char>> {
    let t = trimmed(whole_text(e));
    if 0 < t.len() <= HEADING_CHARS {
        Some(t)
    } else {
        None
    }
}

pub open spec fn heading_picker() -> spec_fn(ElementModel) -> Option<Seq<char>> {
    |e: ElementModel| heading_of(e)
}

/// The headings among the first five heading elements.
pub open spec fn headings_of(elements: Seq<ElementModel>) -> Seq<Seq<char>> {
    picked(first_items(elements, MAX_HEADINGS as nat), heading_picker())
}

/// The breadcrumb of an element: its text with one blank between its words,
/// where that is not empty and has at most 300 characters.
pub open spec fn crumb_of(e: ElementModel) -> Option<Seq<char>> {
    let t = spaced_text(e);
    if 0 < t.len() <= CRUMB_CHARS {
        Some(t)
    } else {
        None
    }
}

pub open spec fn crumb_picker() -> spec_fn(ElementModel) -> Option<Seq<char>> {
    |e: ElementModel| crumb_of(e)
}

/// The breadcrumb of one selector: the first among its first two elements.
pub open spec fn crumb_among(elements: Seq<ElementModel>) -> Option<Seq<char>> {
    first_picked(first_items(elements, CRUMB_ELEMENTS as nat), crumb_picker())
}

/// The block of an element: its text with one blank between its words,
/// where that has more than `low` and fewer than `high` characters.
pub open spec fn block_of(e: ElementModel, low: nat, high: nat) -> Option<Seq<char>> {
    let t = spaced_text(e);
    if low < t.len() < high {
        Some(t)
    } else {
        None
    }
}

pub open spec fn block_picker(low: nat, high: nat) -> spec_fn(ElementModel) -> Option<Seq<char>> {
    |e: ElementModel| block_of(e, low, high)
}

/// The blocks among the first three elements of one selector.
pub open spec fn blocks_of(elements: Seq<ElementModel>, low: nat, high: nat) -> Seq<Seq<char>> {
    picked(first_items(elements, BLOCKS_PER_SELECTOR as nat), block_picker(low, high))
}

/// The title of a page.
pub fn page_title(titles: &Vec<Element>) -> (out: String)
    ensures
        out@ == title_of(element_views(titles@)),
{
    if titles.len() > 0 {
        text_of(&trim(&chars_of(titles[0].whole_text().as_str())))
    } else {
        String::new()
    }
}

fn front_len(len: usize, n: usize) -> (out: usize)
    ensures
        out == if len <= n {
            len
        } else {
            n
        },
{
    if len <= n {
        len
    } else {
        n
    }
}

/// The headings among the first five heading elements.
pub fn collect_headings(elements: &Vec<Element>) -> (out: Vec<String>)
    ensures
        views(out@) == headings_of(element_views(elements@)),
{
    let ghost all = element_views(elements@);
    let ghost pick = heading_picker();
    let n: usize = front_len(elements.len(), MAX_HEADINGS);
    let mut out: Vec<String> = Vec::new();
    let mut i: usize = 0;
    assert(all.take(0) == Seq::<ElementModel>::empty());
    assert(views(out@) =~= Seq::<Seq<char>>::empty());
    while i < n
        invariant
            i <= n <= elements.len(),
            all == element_views(elements@),
            pick == heading_picker(),
            views(out@) == picked(all.take(i as int), pick),
        decreases n - i,
    {
        assert(all.take(i + 1).drop_last() == all.take(i as int));
        assert(all.take(i + 1).last() == elements@[i as int]@);
        let t = trim(&chars_of(elements[i].whole_text().as_str()));
        if 0 < t.len() && t.len() <= HEADING_CHARS {
            let ghost shown = views(out@);
            out.push(text_of(&t));
            assert(views(out@) =~= shown.push(t@));
        }
        i += 1;
    }
    assert(all.take(elements.len() as int) == all);
    out
}

/// The breadcrumb of one selector.
pub fn first_crumb(elements: &Vec<Element>) -> (out: Option<String>)
    ensures
        match out {
            Some(t) => crumb_among(element_views(elements@)) == Some(t@),
            None => crumb_among(element_views(elements@)) is None,
        },
{
    let ghost all = element_views(elements@);
    let ghost pick = crumb_picker();
    let n: usize = front_len(elements.len(), CRUMB_ELEMENTS);
    let mut i: usize = 0;
    assert(all.take(0) == Seq::<ElementModel>::empty());
    while i < n
        invariant
            i <= n <= elements.len(),
            all == element_views(elements@),
            pick == crumb_picker(),
            first_picked(all.take(i as int), pick) is None,
            n == if elements.len() <= CRUMB_ELEMENTS {
                elements.len()
            } else {
                CRUMB_ELEMENTS
            },
        decreases n - i,
    {
        assert(all.take(i + 1).drop_last() == all.take(i as int));
        assert(all.take(i + 1).last() == elements@[i as int]@);
        let t = elements[i].spaced_text();
        if 0 < t.len() && t.len() <= CRUMB_CHARS {
            proof {
                lemma_first_picked_front(all.take(n as int), pick, i + 1);
                assert(all.take(n as int).take(i + 1) == all.take(i + 1));
                assert(all.take(elements.len() as int) == all);
            }
            return Some(text_of(&t));
        }
        i += 1;
    }
    assert(all.take(elements.len() as int) == all);
    None
}

/// The blocks among the first three elements of one selector.
pub fn collect_blocks(elements: &Vec<Element>, low: usize, high: usize) -> (out: Vec<String>)
    ensures
        views(out@) == blocks_of(element_views(elements@), low as nat, high as nat),
{
    let ghost all = element_views(elements@);
    let ghost pick = block_picker(low as nat, high as nat);
    let n: usize = front_len(elements.len(), BLOCKS_PER_SELECTOR);
    let mut out: Vec<String> = Vec::new();
    let mut i: usize = 0;
    assert(all.take(0) == Seq::<ElementModel>::empty());
    assert(views(out@) =~= Seq::<Seq<char>>::empty());
    while i < n
        invariant
            i <= n <= elements.len(),
            all == element_views(elements@),
            pick == block_picker(low as nat, high as nat),
            views(out@) == picked(all.take(i as int), pick),
        decreases n - i,
    {
        assert(all.take(i + 1).drop_last() == all.take(i as int));
        assert(all.take(i + 1).last() == elements@[i as int]@);
        let t = elements[i].spaced_text();
        if low < t.len() && t.len() < high {
            let ghost shown = views(out@);
            out.push(text_of(&t));
            assert(views(out@) =~= shown.push(t@));
        }
        i += 1;
    }
    assert(all.take(elements.len() as int) == all);
    out
}

} // verus!
