//! The content-derived identity of a product: a 128-bit name digest of the
//! product's canonical serialized form. Equal payloads always derive equal
//! identities; structurally different payloads collide only with the
//! negligible probability of a digest collision.

use vstd::prelude::*;
use crate::canonical::{canonical_form, canonical_json};
use crate::entities::product::Product;

verus! {

/// The 128-bit name digest of a character sequence. A digest depends on
/// its input alone, so the same sequence names the same identity in every
/// process.
pub uninterp spec fn identity_of(s: Seq<char>) -> u128;

/// Relies on `uuid::Uuid::new_v5` and `uuid::Uuid::as_u128`: a version-5
/// name UUID is a SHA-1 digest of the namespace and the name bytes alone,
/// read here as its 128-bit value.
#[verifier::external_body]
fn name_digest(s: &str) -> (r: u128)
    ensures
        r == identity_of(s@),
{
    uuid::Uuid::new_v5(&uuid::Uuid::NAMESPACE_URL, s.as_bytes()).as_u128()
}

/// The identity of a product: the digest of its canonical form.
pub open spec fn product_identity(p: Product) -> u128 {
    identity_of(canonical_form(p))
}

/// Derives the identity under which a product is tracked.
pub fn derive_identity(p: &Product) -> (r: u128)
    ensures
        r == product_identity(*p),
{
    let s = canonical_json(p);
    name_digest(s.as_str())
}

/// Two products that carry the same data canonicalize alike and therefore
/// derive the same identity, however many times it is derived.
pub proof fn lemma_identity_deterministic(p: Product, q: Product)
    requires
        p.same_content(&q),
    ensures
        product_identity(p) == product_identity(q),
{
    assert(canonical_form(p) == canonical_form(q));
}

} // verus!
