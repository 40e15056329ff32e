//! Product attributes: a (code, value) pair whose value is either a piece
//! of text or a boolean, plus the marketplace's description of a category
//! attribute.

use vstd::prelude::*;

verus! {

/// A category attribute as the marketplace describes it.
#[allow(non_snake_case)]
#[derive(Debug)]
pub struct KaspiCategoryAttribute {
    pub code: String,
    pub attribute_type: String,
    pub multiValued: bool,
    pub mandatory: bool,
}

/// The value of a product attribute: free text or a flag.
#[derive(Debug, PartialEq, Eq, Hash)]
pub enum AttributeValue {
    Text(String),
    Boolean(bool),
}

impl Clone for AttributeValue {
    /// A cloned value equals the original.
    fn clone(&self) -> (r: Self)
        ensures
            r == *self,
    {
        match self {
            AttributeValue::Text(s) => AttributeValue::Text(s.clone()),
            AttributeValue::Boolean(b) => AttributeValue::Boolean(*b),
        }
    }
}

/// One (code, value) pair of a product.
#[derive(Debug, PartialEq, Eq, Hash)]
pub struct Attribute {
    pub code: String,
    pub value: AttributeValue,
}

impl Clone for Attribute {
    /// A cloned attribute equals the original.
    fn clone(&self) -> (r: Self)
        ensures
            r == *self,
    {
        Attribute { code: self.code.clone(), value: self.value.clone() }
    }
}

} // verus!
