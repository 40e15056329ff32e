//! The normalized product payload submitted to the marketplace, and the
//! snapshot record that persists one tracked entry.

use vstd::prelude::*;
use crate::entities::attribute::Attribute;
use crate::entities::upload_result::{Status, UploadResult};

verus! {

/// One image reference of a product.
#[derive(Debug, PartialEq, Eq, Hash)]
pub struct ProductImage {
    pub url: String,
}

impl Clone for ProductImage {
    /// A cloned image reference equals the original.
    fn clone(&self) -> (r: Self)
        ensures
            r == *self,
    {
        ProductImage { url: self.url.clone() }
    }
}

/// The normalized product payload: stable keys, an ordered sequence of
/// attributes and an ordered sequence of image references.
#[derive(Debug, PartialEq, Eq, Hash)]
pub struct Product {
    pub sku: String,
    pub title: String,
    pub brand: String,
    pub category: String,
    pub description: String,
    pub attributes: Vec<Attribute>,
    pub images: Vec<ProductImage>,
}

impl Product {
    /// Two products carry the same data, field by field and element by
    /// element.
    pub open spec fn same_content(&self, other: &Product) -> bool {
        &&& self.sku == other.sku
        &&& self.title == other.title
        &&& self.brand == other.brand
        &&& self.category == other.category
        &&& self.description == other.description
        &&& self.attributes@ == other.attributes@
        &&& self.images@ == other.images@
    }

    pub fn sku(&self) -> (r: &String)
        ensures
            r == self.sku,
    {
        &self.sku
    }
}

/// Copies a vector of attributes element by element.
fn clone_attributes(v: &Vec<Attribute>) -> (r: Vec<Attribute>)
    ensures
        r@ == v@,
{
    let mut out: Vec<Attribute> = Vec::new();
    let mut i: usize = 0;
    while i < v.len()
        invariant
            i <= v.len(),
            out@.len() == i as int,
            forall|j: int| 0 <= j < i ==> out@[j] == v@[j],
        decreases v.len() - i,
    {
        out.push(v[i].clone());
        i += 1;
    }
    proof {
        assert(out@ =~= v@);
    }
    out
}

/// Copies a vector of image references element by element.
fn clone_images(v: &Vec<ProductImage>) -> (r: Vec<ProductImage>)
    ensures
        r@ == v@,
{
    let mut out: Vec<ProductImage> = Vec::new();
    let mut i: usize = 0;
    while i < v.len()
        invariant
            i <= v.len(),
            out@.len() == i as int,
            forall|j: int| 0 <= j < i ==> out@[j] == v@[j],
        decreases v.len() - i,
    {
        out.push(v[i].clone());
        i += 1;
    }
    proof {
        assert(out@ =~= v@);
    }
    out
}

impl Clone for Product {
    /// A cloned product carries the same data as the original.
    fn clone(&self) -> (r: Self)
        ensures
            r.same_content(self),
    {
        Product {
            sku: self.sku.clone(),
            title: self.title.clone(),
            brand: self.brand.clone(),
            category: self.category.clone(),
            description: self.description.clone(),
            attributes: clone_attributes(&self.attributes),
            images: clone_images(&self.images),
        }
    }
}

/// One persisted entry of the snapshot: the identity, the submission code,
/// the lifecycle state, the product body and, for terminal entries, the
/// recorded result.
#[derive(Debug)]
pub struct Record {
    pub id: u128,
    pub code: String,
    pub status: Status,
    pub product: Product,
    pub result: Option<UploadResult>,
}

impl Record {
    /// Two records carry the same data.
    pub open spec fn same_content(&self, other: &Record) -> bool {
        &&& self.id == other.id
        &&& self.code == other.code
        &&& self.status == other.status
        &&& self.product.same_content(&other.product)
        &&& match (self.result, other.result) {
            (Some(a), Some(b)) => a.same_content(&b),
            (None, None) => true,
            _ => false,
        }
    }

    pub fn sku(&self) -> (r: &String)
        ensures
            r == self.product.sku,
    {
        &self.product.sku
    }

    pub fn product(&self) -> (r: &Product)
        ensures
            r == self.product,
    {
        &self.product
    }
}

impl Clone for Record {
    /// A cloned record carries the same data as the original.
    fn clone(&self) -> (r: Self)
        ensures
            r.same_content(self),
    {
        Record {
            id: self.id,
            code: self.code.clone(),
            status: self.status,
            product: self.product.clone(),
            result: match &self.result {
                Some(u) => Some(u.clone()),
                None => None,
            },
        }
    }
}

} // verus!
