//! Price signals: short texts of the page in which a price stands.

use crate::dom::{element_views, whole_text, Element, ElementModel};
use crate::patterns::{is_match, regex_matches, regex_replaced, replace_matches};
use crate::seqs::{first_items, lemma_first_picks, lemma_picked_members, picked};
use crate::text::{chars_of, clip, clipped, text_of, trim, trimmed, views};
use vstd::prelude::*;

verus! {

/// A currency symbol and an amount, or an amount and a currency code.
pub const PRICE_PATTERN: &'static str =
    r"[\$£€¥₹]\s*[\d,]+\.?\d*\+?|\d+[\.,]\d+\s*(?:USD|EUR|GBP|INR|CAD|AUD)";

/// A run of white space.
pub const SPACE_PATTERN: &'static str = r"\s+";

/// The most signals taken from the elements of one selector.
pub const SIGNALS_PER_SELECTOR: usize = 20;

/// The most signals kept in all.
pub const MAX_SIGNALS: usize = 10;

/// The longest signal, in characters.
pub const SIGNAL_CHARS: usize = 100;

/// The signal of an element: its trimmed text, where that is not empty and a
/// price stands in it, with every run of white space turned into one blank
/// and cut to a hundred characters.
pub open spec fn signal_of(e: ElementModel) -> Option<Seq<char>> {
    let text = trimmed(whole_text(e));
    if text.len() > 0 && regex_matches(PRICE_PATTERN@, text) {
        Some(clipped(regex_replaced(SPACE_PATTERN@, text, " "@), SIGNAL_CHARS as nat))
    } else {
        None
    }
}

pub open spec fn signal_picker() -> spec_fn(ElementModel) -> Option<Seq<char>> {
    |e: ElementModel| signal_of(e)
}

/// The signals of the elements of one selector: the first twenty.
pub open spec fn signals_of(elements: Seq<ElementModel>) -> Seq<Seq<char>> {
    first_items(picked(elements, signal_picker()), SIGNALS_PER_SELECTOR as nat)
}

/// The texts of `list` without repeats: of equal texts the first stays.
pub open spec fn distinct(list: Seq<Seq<char>>) -> Seq<Seq<char>>
    decreases list.len(),
{
    if list.len() == 0 {
        Seq::empty()
    } else {
        let front = distinct(list.drop_last());
        if front.contains(list.last()) {
            front
        } else {
            front.push(list.last())
        }
    }
}

/// The signals kept of all that were found: the first ten different ones.
pub open spec fn kept_signals(found: Seq<Seq<char>>) -> Seq<Seq<char>> {
    first_items(distinct(found), MAX_SIGNALS as nat)
}

/// Every text of [`distinct`] is a text of the list.
pub proof fn lemma_distinct_members(list: Seq<Seq<char>>)
    ensures
        forall|i: int|
            0 <= i < distinct(list).len() ==> list.contains(#[trigger] distinct(list)[i]),
        distinct(list).len() <= list.len(),
    decreases list.len(),
{
    if list.len() > 0 {
        let front = list.drop_last();
        let out = distinct(list);
        lemma_distinct_members(front);
        assert forall|i: int| 0 <= i < out.len() implies list.contains(#[trigger] out[i]) by {
            if i < distinct(front).len() {
                assert(out[i] == distinct(front)[i]);
                let k = choose|k: int| 0 <= k < front.len() && front[k] == out[i];
                assert(list[k] == out[i]);
            } else {
                assert(list[list.len() - 1] == out[i]);
            }
        }
    }
}

/// Every signal of one selector has at most a hundred characters.
pub proof fn lemma_signals_are_short(elements: Seq<ElementModel>)
    ensures
        forall|i: int|
            0 <= i < signals_of(elements).len() ==> (#[trigger] signals_of(elements)[i]).len()
                <= SIGNAL_CHARS,
{
    let all = picked(elements, signal_picker());
    lemma_picked_members(elements, signal_picker());
    assert forall|i: int| 0 <= i < signals_of(elements).len() implies (#[trigger] signals_of(
        elements,
    )[i]).len() <= SIGNAL_CHARS by {
        assert(signals_of(elements)[i] == all[i]);
        let k = choose|k: int|
            0 <= k < elements.len() && signal_picker()(elements[k]) == Some(all[i]);
        assert(signal_of(elements[k]) == Some(all[i]));
    }
}

/// The signals that are kept are at most ten, and each is one of those found.
pub proof fn lemma_kept_signals(found: Seq<Seq<char>>)
    ensures
        kept_signals(found).len() <= MAX_SIGNALS,
        forall|i: int|
            0 <= i < kept_signals(found).len() ==> found.contains(
                #[trigger] kept_signals(found)[i],
            ),
{
    lemma_distinct_members(found);
    assert forall|i: int| 0 <= i < kept_signals(found).len() implies found.contains(
        #[trigger] kept_signals(found)[i],
    ) by {
        assert(kept_signals(found)[i] == distinct(found)[i]);
    }
}

fn signal(e: &Element) -> (out: Option<String>)
    ensures
        match out {
            Some(s) => signal_of(e@) == Some(s@),
            None => signal_of(e@) is None,
        },
{
    let text = trim(&chars_of(e.whole_text().as_str()));
    if text.len() == 0 {
        return None;
    }
    let text = text_of(&text);
    if !is_match(PRICE_PATTERN, text.as_str()) {
        return None;
    }
    let cleaned = replace_matches(SPACE_PATTERN, text.as_str(), " ");
    Some(text_of(&clip(&chars_of(cleaned.as_str()), SIGNAL_CHARS)))
}

/// The signals of the elements of one selector.
pub fn collect_signals(elements: &Vec<Element>) -> (out: Vec<String>)
    ensures
        views(out@) == signals_of(element_views(elements@)),
{
    let ghost all = element_views(elements@);
    let ghost pick = signal_picker();
    let mut out: Vec<String> = Vec::new();
    let mut i: usize = 0;
    assert(all.take(0) == Seq::<ElementModel>::empty());
    assert(views(out@) =~= Seq::<Seq<char>>::empty());
    while i < elements.len() && out.len() < SIGNALS_PER_SELECTOR
        invariant
            i <= elements.len(),
            all == element_views(elements@),
            pick == signal_picker(),
            out.len() <= SIGNALS_PER_SELECTOR,
            views(out@) == picked(all.take(i as int), pick),
        decreases elements.len() - i,
    {
        assert(all.take(i + 1).drop_last() == all.take(i as int));
        assert(all.take(i + 1).last() == elements@[i as int]@);
        if let Some(s) = signal(&elements[i]) {
            let ghost shown = views(out@);
            out.push(s);
            assert(views(out@) =~= shown.push(s@));
        }
        i += 1;
    }
    proof {
        if i == elements.len() {
            assert(all.take(i as int) == all);
        }
        lemma_first_picks(all, pick, i as int, SIGNALS_PER_SELECTOR as nat);
    }
    out
}

/// Whether `list` holds the text `t`.
fn holds(list: &Vec<String>, t: &String) -> (r: bool)
    ensures
        r == views(list@).contains(t@),
{
    crate::text::list_has(list, t.as_str())
}

/// The signals kept of all that were found.
pub fn keep_signals(found: &Vec<String>) -> (out: Vec<String>)
    ensures
        views(out@) == kept_signals(views(found@)),
{
    let ghost all = views(found@);
    let mut out: Vec<String> = Vec::new();
    let mut i: usize = 0;
    assert(all.take(0) == Seq::<Seq<char>>::empty());
    assert(views(out@) =~= Seq::<Seq<char>>::empty());
    while i < found.len() && out.len() < MAX_SIGNALS
        invariant
            i <= found.len(),
            all == views(found@),
            out.len() <= MAX_SIGNALS,
            views(out@) == distinct(all.take(i as int)),
        decreases found.len() - i,
    {
        assert(all.take(i + 1).drop_last() == all.take(i as int));
        assert(all.take(i + 1).last() == found@[i as int]@);
        if !holds(&out, &found[i]) {
            let ghost shown = views(out@);
            out.push(found[i].clone());
            assert(views(out@) =~= shown.push(found@[i as int]@));
        }
        i += 1;
    }
    proof {
        if i == found.len() {
            assert(all.take(i as int) == all);
        }
        lemma_distinct_front(all, i as int);
    }
    out
}

/// The different texts of the front of a list are the front of the
/// different texts of all of it.
pub proof fn lemma_distinct_front(list: Seq<Seq<char>>, i: int)
    requires
        0 <= i <= list.len(),
    ensures
        distinct(list.take(i)).len() <= distinct(list).len(),
        distinct(list.take(i)) == distinct(list).take(distinct(list.take(i)).len() as int),
    decreases list.len(),
{
    if i == list.len() {
        assert(list.take(i) == list);
        assert(distinct(list).take(distinct(list).len() as int) == distinct(list));
    } else {
        let front = list.drop_last();
        lemma_distinct_front(front, i);
        assert(front.take(i) == list.take(i));
        let some = distinct(front.take(i));
        assert(distinct(front).take(some.len() as int) == distinct(list).take(some.len() as int));
    }
}

} // verus!
