//! The elements that a CSS selector picks from an HTML text.
//!
//! Parsing HTML and matching selectors is the work of the `scraper` crate.
//! The library asks for the elements of one selector at a time and gets,
//! for each, plain values: some attributes, the text below it, and the
//! nodes above it.

use crate::text::{chars_of, collapse, collapsed, concat, join, joined, str_views, vec_views, views};
use vstd::prelude::*;
use vstd::string::StringExecFns;

verus! {

/// A node above an element: whether it is an element itself, and the value
/// of the one attribute that was asked of the nodes above, where it has it.
#[derive(Debug)]
pub struct Ancestor {
    pub is_element: bool,
    pub attr: Option<String>,
}

pub struct AncestorModel {
    pub is_element: bool,
    pub attr: Option<Seq<char>>,
}

/// One selected element: the values of the attributes that were asked for,
/// in the order of the request; the text nodes below it, in document order;
/// the nodes above it, from its parent up to the root.
#[derive(Debug)]
pub struct Element {
    pub attrs: Vec<Option<String>>,
    pub text: Vec<String>,
    pub ancestors: Vec<Ancestor>,
}

pub struct ElementModel {
    pub attrs: Seq<Option<Seq<char>>>,
    pub text: Seq<Seq<char>>,
    pub ancestors: Seq<AncestorModel>,
}

impl View for Ancestor {
    type V = AncestorModel;

    open spec fn view(&self) -> AncestorModel {
        AncestorModel {
            is_element: self.is_element,
            attr: match self.attr {
                Some(c) => Some(c@),
                None => None,
            },
        }
    }
}

impl View for Element {
    type V = ElementModel;

    open spec fn view(&self) -> ElementModel {
        ElementModel {
            attrs: Seq::new(
                self.attrs.len() as nat,
                |i: int|
                    match self.attrs[i] {
                        Some(a) => Some(a@),
                        None => None,
                    },
            ),
            text: views(self.text@),
            ancestors: Seq::new(self.ancestors.len() as nat, |i: int| self.ancestors[i]@),
        }
    }
}

/// The views of a list of elements.
pub open spec fn element_views(elements: Seq<Element>) -> Seq<ElementModel> {
    Seq::new(elements.len(), |i: int| elements[i]@)
}

/// The elements that `scraper` selects: `html` parsed as a document by
/// `Html::parse_document`, `selector` parsed by `Selector::parse`, the
/// elements in the order in which `Html::select` hands them out, and of each
/// what `attr` returns for the names of `names`, what `text` yields, and for
/// the nodes that `ancestors` yields whether each is an element and what its
/// `attr` returns for the name `above`. No element where the selector does
/// not parse.
pub uninterp spec fn selection(
    html: Seq<char>,
    selector: Seq<char>,
    names: Seq<Seq<char>>,
    above: Seq<char>,
) -> Seq<ElementModel>;

/// `scraper::Html::parse_document`, `scraper::Selector::parse` and
/// `Html::select`, each element copied out as plain values. The elements
/// are named, not described.
#[verifier::external_body]
pub(crate) fn select_elements(
    html: &str,
    selector: &str,
    names: &Vec<&'static str>,
    above: &str,
) -> (out: Vec<Element>)
    ensures
        element_views(out@) == selection(html@, selector@, str_views(names@), above@),
{
    let Ok(sel) = scraper::Selector::parse(selector) else { return Vec::new() };
    let doc = scraper::Html::parse_document(html);
    doc.select(&sel).map(|e| Element {
        attrs: names.iter().map(|n| e.attr(n).map(String::from)).collect(),
        text: e.text().map(String::from).collect(),
        ancestors: e.ancestors().map(|a| match a.value().as_element() {
            Some(p) => Ancestor { is_element: true, attr: p.attr(above).map(String::from) },
            None => Ancestor { is_element: false, attr: None },
        }).collect(),
    }).collect()
}

/// The value of the attribute that was asked for at place `k`.
pub open spec fn attr(e: ElementModel, k: int) -> Option<Seq<char>> {
    if 0 <= k < e.attrs.len() {
        e.attrs[k]
    } else {
        None
    }
}

/// The value of the attribute at place `k`, the empty text where it is absent.
pub open spec fn attr_or_empty(e: ElementModel, k: int) -> Seq<char> {
    match attr(e, k) {
        Some(v) => v,
        None => Seq::empty(),
    }
}

/// The text below an element, piece after piece.
pub open spec fn whole_text(e: ElementModel) -> Seq<char> {
    concat(e.text)
}

/// The text below an element with a blank between its pieces, then every
/// run of white space turned into one blank.
pub open spec fn spaced_text(e: ElementModel) -> Seq<char> {
    collapsed(joined(e.text, seq![' ']))
}

impl Element {
    /// The value of the attribute that was asked for at place `k`.
    pub fn attr_at(&self, k: usize) -> (out: Option<&String>)
        ensures
            match out {
                Some(v) => attr(self@, k as int) == Some(v@),
                None => attr(self@, k as int) is None,
            },
    {
        if k < self.attrs.len() {
            match &self.attrs[k] {
                Some(v) => Some(v),
                None => None,
            }
        } else {
            None
        }
    }

    /// The value of the attribute at place `k`, the empty text where it is absent.
    pub fn attr_text(&self, k: usize) -> (out: String)
        ensures
            out@ == attr_or_empty(self@, k as int),
    {
        match self.attr_at(k) {
            Some(v) => v.clone(),
            None => String::new(),
        }
    }

    /// The text below the element, piece after piece.
    pub fn whole_text(&self) -> (out: String)
        ensures
            out@ == whole_text(self@),
    {
        let ghost all = views(self.text@);
        let mut out = String::new();
        let mut i: usize = 0;
        assert(all.take(0) == Seq::<Seq<char>>::empty());
        while i < self.text.len()
            invariant
                i <= self.text.len(),
                all == views(self.text@),
                out@ == concat(all.take(i as int)),
            decreases self.text.len() - i,
        {
            assert(all.take(i + 1).drop_last() == all.take(i as int));
            assert(all.take(i + 1).last() == self.text@[i as int]@);
            out.append(self.text[i].as_str());
            i += 1;
        }
        assert(all.take(self.text.len() as int) == all);
        out
    }

    /// The text below the element with one blank between its words.
    pub fn spaced_text(&self) -> (out: Vec<char>)
        ensures
            out@ == spaced_text(self@),
    {
        let mut pieces: Vec<Vec<char>> = Vec::new();
        let mut i: usize = 0;
        while i < self.text.len()
            invariant
                i <= self.text.len(),
                pieces.len() == i,
                forall|k: int| 0 <= k < i ==> pieces@[k]@ == self.text@[k]@,
            decreases self.text.len() - i,
        {
            pieces.push(chars_of(self.text[i].as_str()));
            i += 1;
        }
        assert(vec_views(pieces@) =~= views(self.text@));
        let blank: Vec<char> = vec![' '];
        assert(blank@ =~= seq![' ']);
        collapse(&join(&pieces, &blank))
    }
}

} // verus!
