//! The product record that a scrape fills in.

use crate::price::{Price, PriceModel};
use crate::text::{opt_view, str_views, views};
use vstd::prelude::*;

verus! {

/// What is known of one product. `image_urls` keeps the order in which the
/// URLs were found.
#[derive(Debug)]
pub struct ProductData {
    pub product_name: Option<String>,
    pub brand: Option<String>,
    pub price: Option<Price>,
    pub image_urls: Vec<String>,
    pub garment_type: Option<String>,
    pub availability: Option<String>,
}

pub struct ProductModel {
    pub product_name: Option<Seq<char>>,
    pub brand: Option<Seq<char>>,
    pub price: Option<PriceModel>,
    pub image_urls: Seq<Seq<char>>,
    pub garment_type: Option<Seq<char>>,
    pub availability: Option<Seq<char>>,
}

impl View for ProductData {
    type V = ProductModel;

    open spec fn view(&self) -> ProductModel {
        ProductModel {
            product_name: opt_view(self.product_name),
            brand: opt_view(self.brand),
            price: match self.price {
                Some(p) => Some(p@),
                None => None,
            },
            image_urls: views(self.image_urls@),
            garment_type: opt_view(self.garment_type),
            availability: opt_view(self.availability),
        }
    }
}

/// A record in which nothing is known yet.
pub open spec fn empty_product() -> ProductModel {
    ProductModel {
        product_name: None,
        brand: None,
        price: None,
        image_urls: Seq::empty(),
        garment_type: None,
        availability: None,
    }
}

/// Whether the record has a price with an amount.
pub open spec fn has_amount(p: ProductModel) -> bool {
    p.price matches Some(price) && price.amount is Some
}

/// A record is complete when it has a name, a brand, a price with an amount,
/// at least one image and a garment type.
pub open spec fn complete(p: ProductModel) -> bool {
    &&& p.product_name is Some
    &&& p.brand is Some
    &&& has_amount(p)
    &&& p.image_urls.len() > 0
    &&& p.garment_type is Some
}

/// The names of the fields that a complete record needs and `p` lacks, in
/// the order name, brand, price, images, garment type.
pub open spec fn missing(p: ProductModel) -> Seq<Seq<char>> {
    let a = if p.product_name is None {
        seq!["product_name"@]
    } else {
        Seq::empty()
    };
    let b = if p.brand is None {
        seq!["brand"@]
    } else {
        Seq::empty()
    };
    let c = if !has_amount(p) {
        seq!["price"@]
    } else {
        Seq::empty()
    };
    let d = if p.image_urls.len() == 0 {
        seq!["image_urls"@]
    } else {
        Seq::empty()
    };
    let e = if p.garment_type is None {
        seq!["garment_type"@]
    } else {
        Seq::empty()
    };
    a + b + c + d + e
}

/// The record is complete exactly when no field is missing.
pub proof fn lemma_complete_iff_nothing_missing(p: ProductModel)
    ensures
        complete(p) <==> missing(p).len() == 0,
{
}

fn copy_text(t: &Option<String>) -> (out: Option<String>)
    ensures
        opt_view(out) == opt_view(*t),
{
    match t {
        Some(s) => Some(s.clone()),
        None => None,
    }
}

impl ProductData {
    /// A record in which nothing is known yet.
    pub fn new() -> (out: Self)
        ensures
            out@ == empty_product(),
    {
        let out = ProductData {
            product_name: None,
            brand: None,
            price: None,
            image_urls: Vec::new(),
            garment_type: None,
            availability: None,
        };
        assert(views(out.image_urls@) =~= Seq::<Seq<char>>::empty());
        out
    }

    /// A copy of this record.
    pub fn copy(&self) -> (out: Self)
        ensures
            out@ == self@,
    {
        let mut image_urls: Vec<String> = Vec::new();
        let mut i: usize = 0;
        while i < self.image_urls.len()
            invariant
                i <= self.image_urls.len(),
                image_urls.len() == i,
                forall|k: int| 0 <= k < i ==> image_urls@[k]@ == self.image_urls@[k]@,
            decreases self.image_urls.len() - i,
        {
            image_urls.push(self.image_urls[i].clone());
            i += 1;
        }
        assert(views(image_urls@) =~= views(self.image_urls@));
        ProductData {
            product_name: copy_text(&self.product_name),
            brand: copy_text(&self.brand),
            price: match &self.price {
                Some(p) => Some(p.copy()),
                None => None,
            },
            image_urls,
            garment_type: copy_text(&self.garment_type),
            availability: copy_text(&self.availability),
        }
    }

    /// Whether the record has a price with an amount.
    pub fn is_complete_price(&self) -> (r: bool)
        ensures
            r == has_amount(self@),
    {
        match &self.price {
            Some(p) => p.amount.is_some(),
            None => false,
        }
    }

    pub fn is_complete(&self) -> (r: bool)
        ensures
            r == complete(self@),
    {
        self.product_name.is_some() && self.brand.is_some() && self.is_complete_price()
            && self.image_urls.len() > 0 && self.garment_type.is_some()
    }

    pub fn missing_fields(&self) -> (out: Vec<&'static str>)
        ensures
            str_views(out@) == missing(self@),
    {
        let mut out: Vec<&'static str> = Vec::new();
        let ghost p = self@;
        assert(str_views(out@) =~= Seq::<Seq<char>>::empty());
        if self.product_name.is_none() {
            out.push("product_name");
        }
        let ghost a = str_views(out@);
        assert(a =~= if p.product_name is None {
            seq!["product_name"@]
        } else {
            Seq::empty()
        });
        if self.brand.is_none() {
            out.push("brand");
            assert(str_views(out@) =~= a + seq!["brand"@]);
        }
        let ghost b = str_views(out@);
        if !self.is_complete_price() {
            out.push("price");
            assert(str_views(out@) =~= b + seq!["price"@]);
        }
        let ghost c = str_views(out@);
        if self.image_urls.len() == 0 {
            out.push("image_urls");
            assert(str_views(out@) =~= c + seq!["image_urls"@]);
        }
        let ghost d = str_views(out@);
        if self.garment_type.is_none() {
            out.push("garment_type");
            assert(str_views(out@) =~= d + seq!["garment_type"@]);
        }
        assert(str_views(out@) =~= missing(p));
        out
    }
}

} // verus!
