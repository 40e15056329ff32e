//! The lifecycle store: product bodies, submission codes, the three state
//! partitions and the terminal results, keyed everywhere by the
//! content-derived identity. Every tracked identity sits in at most one
//! state partition, a result exists only for a terminal identity, and
//! terminal states are never left.

use vstd::prelude::*;
use std::collections::HashMap;
use crate::entities::product::{Product, Record};
use crate::entities::upload_result::{Status, UploadResult};

verus! {

broadcast use vstd::std_specs::hash::group_hash_axioms, vstd::seq_lib::lemma_seq_contains_after_push;

/// The mathematical content of a store: one map per partition, plus the
/// order in which identities became known.
pub struct StoreView {
    pub products: Map<u128, Product>,
    pub results: Map<u128, UploadResult>,
    pub uploaded: Map<u128, String>,
    pub finished: Map<u128, String>,
    pub aborted: Map<u128, String>,
    pub order: Seq<u128>,
}

impl StoreView {
    /// An identity is known once any partition mentions it.
    pub open spec fn known(self, id: u128) -> bool {
        ||| self.products.contains_key(id)
        ||| self.uploaded.contains_key(id)
        ||| self.finished.contains_key(id)
        ||| self.aborted.contains_key(id)
    }

    /// The submission code and lifecycle state of an identity, read from
    /// the partitions in the fixed order uploaded, finished, aborted.
    pub open spec fn status_of(self, id: u128) -> Option<(String, Status)> {
        if self.uploaded.contains_key(id) {
            Some((self.uploaded[id], Status::UPLOADED))
        } else if self.finished.contains_key(id) {
            Some((self.finished[id], Status::FINISHED))
        } else if self.aborted.contains_key(id) {
            Some((self.aborted[id], Status::ABORTED))
        } else {
            None
        }
    }

    /// An identity is settled once it sits in a terminal partition.
    pub open spec fn is_terminal_at(self, id: u128) -> bool {
        self.finished.contains_key(id) || self.aborted.contains_key(id)
    }

    /// The store's invariant: the three state partitions are pairwise
    /// disjoint, a result exists only for a terminal identity, and the
    /// order sequence lists every known identity exactly once.
    pub open spec fn wf(self) -> bool {
        &&& self.uploaded.dom().disjoint(self.finished.dom())
        &&& self.uploaded.dom().disjoint(self.aborted.dom())
        &&& self.finished.dom().disjoint(self.aborted.dom())
        &&& forall|id: u128| #[trigger] self.results.contains_key(id) ==> self.is_terminal_at(id)
        &&& self.order.no_duplicates()
        &&& forall|id: u128| #[trigger] self.order.contains(id) <==> self.known(id)
    }

    /// Nothing about the store changed.
    pub open spec fn unchanged(self, post: StoreView) -> bool {
        post == self
    }

    /// The identities among the first `n` of the order sequence that are
    /// currently uploaded, oldest first.
    pub open spec fn uploaded_prefix(self, n: int) -> Seq<u128>
        decreases n,
    {
        if n <= 0 {
            Seq::empty()
        } else {
            let rest = self.uploaded_prefix(n - 1);
            if self.uploaded.contains_key(self.order[n - 1]) {
                rest.push(self.order[n - 1])
            } else {
                rest
            }
        }
    }

    /// The identities currently uploaded, oldest first.
    pub open spec fn uploaded_order(self) -> Seq<u128> {
        self.uploaded_prefix(self.order.len() as int)
    }

    /// The identities among the first `n` of the order sequence that have
    /// a recorded product, oldest first.
    pub open spec fn products_prefix(self, n: int) -> Seq<u128>
        decreases n,
    {
        if n <= 0 {
            Seq::empty()
        } else {
            let rest = self.products_prefix(n - 1);
            if self.products.contains_key(self.order[n - 1]) {
                rest.push(self.order[n - 1])
            } else {
                rest
            }
        }
    }

    /// The identities with a recorded product, oldest first.
    pub open spec fn products_order(self) -> Seq<u128> {
        self.products_prefix(self.order.len() as int)
    }

    /// The identities among the first `n` of the order sequence that have
    /// both a recorded product and a lifecycle state, oldest first. These
    /// are the entries a snapshot persists.
    pub open spec fn tracked_prefix(self, n: int) -> Seq<u128>
        decreases n,
    {
        if n <= 0 {
            Seq::empty()
        } else {
            let rest = self.tracked_prefix(n - 1);
            if self.products.contains_key(self.order[n - 1]) && self.status_of(self.order[n - 1]) is Some {
                rest.push(self.order[n - 1])
            } else {
                rest
            }
        }
    }

    /// The identities a snapshot persists, oldest first.
    pub open spec fn tracked_order(self) -> Seq<u128> {
        self.tracked_prefix(self.order.len() as int)
    }

    /// Once an identity is terminal its status never changes again:
    /// the state machine is monotonic.
    pub open spec fn terminal_preserved(self, post: StoreView) -> bool {
        forall|id: u128| #[trigger] self.is_terminal_at(id) ==> post.status_of(id) == self.status_of(id)
    }

    /// A record is faithfully held by the store: the product is recorded
    /// under its identity, the submission code and state match, and a
    /// result is recorded exactly when the record carries one.
    pub open spec fn entry_loaded(self, rec: Record) -> bool {
        &&& self.products.contains_key(rec.id)
        &&& self.products[rec.id].same_content(&rec.product)
        &&& self.status_of(rec.id) == Some((rec.code, rec.status))
        &&& match rec.result {
            Some(u) => self.results.contains_key(rec.id) && self.results[rec.id].same_content(&u),
            None => !self.results.contains_key(rec.id),
        }
    }

    /// The store holds nothing.
    pub open spec fn is_empty(self) -> bool {
        &&& self.products == Map::<u128, Product>::empty()
        &&& self.results == Map::<u128, UploadResult>::empty()
        &&& self.uploaded == Map::<u128, String>::empty()
        &&& self.finished == Map::<u128, String>::empty()
        &&& self.aborted == Map::<u128, String>::empty()
        &&& self.order == Seq::<u128>::empty()
    }
}

/// A snapshot is well formed when no identity appears twice and only
/// terminal records carry a result. A terminal record may lack one: the
/// process may have stopped between committing the transition and
/// fetching the diagnostics.
pub open spec fn snapshot_wf(rs: Seq<Record>) -> bool {
    &&& forall|i: int, j: int|
        0 <= i < j < rs.len() ==> (#[trigger] rs[i]).id != (#[trigger] rs[j]).id
    &&& forall|i: int| 0 <= i < rs.len() ==> ((#[trigger] rs[i]).result is Some ==> rs[i].status.is_terminal())
}

/// The identities of a snapshot, in snapshot order.
pub open spec fn record_ids(rs: Seq<Record>) -> Seq<u128> {
    rs.map_values(|r: Record| r.id)
}

/// Appending a fresh element keeps an order sequence duplicate-free.
proof fn lemma_order_push(s: Seq<u128>, x: u128)
    requires
        s.no_duplicates(),
        !s.contains(x),
    ensures
        s.push(x).no_duplicates(),
{
    assert forall|i: int, j: int| 0 <= i < j < s.push(x).len() implies s.push(x)[i] != s.push(x)[j] by {
        if j == s.len() {
            assert(s.push(x)[i] == s[i]);
            assert(s.contains(s[i]));
        }
    }
}

/// What the uploaded prefix holds: exactly the identities among the first
/// `n` of the order sequence that are uploaded.
proof fn lemma_uploaded_prefix_contains(v: StoreView, n: int, id: u128)
    requires
        0 <= n <= v.order.len(),
    ensures
        v.uploaded_prefix(n).contains(id) <==> exists|i: int|
            0 <= i < n && v.order[i] == id && v.uploaded.contains_key(id),
    decreases n,
{
    if n > 0 {
        lemma_uploaded_prefix_contains(v, n - 1, id);
        let rest = v.uploaded_prefix(n - 1);
        if v.uploaded.contains_key(v.order[n - 1]) {
            assert(v.uploaded_prefix(n) == rest.push(v.order[n - 1]));
        }
        if exists|i: int| 0 <= i < n && v.order[i] == id && v.uploaded.contains_key(id) {
            let i = choose|i: int| 0 <= i < n && v.order[i] == id && v.uploaded.contains_key(id);
            if i < n - 1 {
                assert(rest.contains(id));
            }
            assert(v.uploaded_prefix(n).contains(id));
        }
    }
}

/// The polling sweep is sound and complete: the uploaded order lists
/// exactly the identities currently in the uploaded partition.
pub proof fn lemma_uploaded_order_complete(v: StoreView)
    requires
        v.wf(),
    ensures
        forall|id: u128| #[trigger] v.uploaded_order().contains(id) <==> v.uploaded.contains_key(
            id,
        ),
{
    assert forall|id: u128| #[trigger] v.uploaded_order().contains(id) <==> v.uploaded.contains_key(
        id,
    ) by {
        lemma_uploaded_prefix_contains(v, v.order.len() as int, id);
        if v.uploaded.contains_key(id) {
            assert(v.known(id));
            assert(v.order.contains(id));
        }
    }
}

/// What the products prefix holds: exactly the identities among the first
/// `n` of the order sequence that have a recorded product.
proof fn lemma_products_prefix_contains(v: StoreView, n: int, id: u128)
    requires
        0 <= n <= v.order.len(),
    ensures
        v.products_prefix(n).contains(id) <==> exists|i: int|
            0 <= i < n && v.order[i] == id && v.products.contains_key(id),
    decreases n,
{
    if n > 0 {
        lemma_products_prefix_contains(v, n - 1, id);
        let rest = v.products_prefix(n - 1);
        if v.products.contains_key(v.order[n - 1]) {
            assert(v.products_prefix(n) == rest.push(v.order[n - 1]));
        }
        if exists|i: int| 0 <= i < n && v.order[i] == id && v.products.contains_key(id) {
            let i = choose|i: int| 0 <= i < n && v.order[i] == id && v.products.contains_key(id);
            if i < n - 1 {
                assert(rest.contains(id));
            }
            assert(v.products_prefix(n).contains(id));
        }
    }
}

/// The products view is sound and complete: the products order lists
/// exactly the identities with a recorded product.
pub proof fn lemma_products_order_complete(v: StoreView)
    requires
        v.wf(),
    ensures
        forall|id: u128| #[trigger] v.products_order().contains(id) <==> v.products.contains_key(
            id,
        ),
{
    assert forall|id: u128| #[trigger] v.products_order().contains(id) <==> v.products.contains_key(
        id,
    ) by {
        lemma_products_prefix_contains(v, v.order.len() as int, id);
        if v.products.contains_key(id) {
            assert(v.known(id));
            assert(v.order.contains(id));
        }
    }
}

/// What the tracked prefix holds: exactly the identities among the first
/// `n` of the order sequence that have both a product and a state.
proof fn lemma_tracked_prefix_contains(v: StoreView, n: int, id: u128)
    requires
        0 <= n <= v.order.len(),
    ensures
        v.tracked_prefix(n).contains(id) <==> exists|i: int|
            0 <= i < n && v.order[i] == id && v.products.contains_key(id) && v.status_of(id) is Some,
    decreases n,
{
    if n > 0 {
        lemma_tracked_prefix_contains(v, n - 1, id);
        let rest = v.tracked_prefix(n - 1);
        if v.products.contains_key(v.order[n - 1]) && v.status_of(v.order[n - 1]) is Some {
            assert(v.tracked_prefix(n) == rest.push(v.order[n - 1]));
        }
        if exists|i: int|
            0 <= i < n && v.order[i] == id && v.products.contains_key(id) && v.status_of(
                id,
            ) is Some {
            let i = choose|i: int|
                0 <= i < n && v.order[i] == id && v.products.contains_key(id) && v.status_of(
                    id,
                ) is Some;
            if i < n - 1 {
                assert(rest.contains(id));
            }
            assert(v.tracked_prefix(n).contains(id));
        }
    }
}

/// The tracked order never lists an identity twice.
proof fn lemma_tracked_prefix_no_dup(v: StoreView, n: int)
    requires
        0 <= n <= v.order.len(),
        v.order.no_duplicates(),
    ensures
        v.tracked_prefix(n).no_duplicates(),
    decreases n,
{
    if n > 0 {
        lemma_tracked_prefix_no_dup(v, n - 1);
        let rest = v.tracked_prefix(n - 1);
        let elt = v.order[n - 1];
        if v.products.contains_key(elt) && v.status_of(elt) is Some {
            lemma_tracked_prefix_contains(v, n - 1, elt);
            assert(!rest.contains(elt));
            lemma_order_push(rest, elt);
        }
    }
}

/// A snapshot is sound and complete: it persists exactly the identities
/// that have both a recorded product and a lifecycle state.
pub proof fn lemma_tracked_order_complete(v: StoreView)
    requires
        v.wf(),
    ensures
        forall|id: u128| #[trigger] v.tracked_order().contains(id) <==> v.products.contains_key(id)
            && v.status_of(id) is Some,
{
    assert forall|id: u128| #[trigger] v.tracked_order().contains(id) <==> v.products.contains_key(
        id,
    ) && v.status_of(id) is Some by {
        lemma_tracked_prefix_contains(v, v.order.len() as int, id);
        if v.products.contains_key(id) {
            assert(v.known(id));
            assert(v.order.contains(id));
        }
    }
}

/// A store that reports a terminal state for an identity holds it in a
/// terminal partition.
pub proof fn lemma_terminal_status(v: StoreView, id: u128)
    requires
        v.status_of(id) matches Some(p) && p.1.is_terminal(),
    ensures
        v.is_terminal_at(id),
{
}

/// Monotonicity composes: if one step keeps every terminal identity's
/// status and a second step does too, so does the chain.
pub proof fn lemma_terminal_preserved_trans(a: StoreView, b: StoreView, c: StoreView)
    requires
        a.wf(),
        a.terminal_preserved(b),
        b.terminal_preserved(c),
    ensures
        a.terminal_preserved(c),
{
    assert forall|id: u128| #[trigger] a.is_terminal_at(id) implies c.status_of(id) == a.status_of(
        id,
    ) by {
        assert(!a.uploaded.dom().contains(id));
        assert(a.status_of(id) matches Some(p) && p.1.is_terminal());
        assert(b.status_of(id) == a.status_of(id));
        lemma_terminal_status(b, id);
    }
}

/// A terminal state never reverts: once a store reports a terminal state
/// for an identity, any operation that preserves terminal identities
/// reports exactly the same code and state afterwards — in particular the
/// identity is never reported uploaded again.
pub proof fn lemma_terminal_never_reverts(pre: StoreView, post: StoreView, id: u128)
    requires
        pre.status_of(id) matches Some(p) && p.1.is_terminal(),
        pre.terminal_preserved(post),
    ensures
        post.status_of(id) == pre.status_of(id),
{
    lemma_terminal_status(pre, id);
}

/// The in-memory lifecycle store. All reads and writes go through the
/// methods below, which keep the invariant `self@.wf()`.
pub struct Store {
    products: HashMap<u128, Product>,
    results: HashMap<u128, UploadResult>,
    uploaded: HashMap<u128, String>,
    finished: HashMap<u128, String>,
    aborted: HashMap<u128, String>,
    order: Vec<u128>,
}

impl View for Store {
    type V = StoreView;

    closed spec fn view(&self) -> StoreView {
        StoreView {
            products: self.products@,
            results: self.results@,
            uploaded: self.uploaded@,
            finished: self.finished@,
            aborted: self.aborted@,
            order: self.order@,
        }
    }
}

impl Store {
    /// Creates an empty store.
    pub fn new() -> (s: Self)
        ensures
            s@.is_empty(),
            s@.wf(),
    {
        Store {
            products: HashMap::new(),
            results: HashMap::new(),
            uploaded: HashMap::new(),
            finished: HashMap::new(),
            aborted: HashMap::new(),
            order: Vec::new(),
        }
    }

    /// Records a product under an identity if none is recorded yet; on a
    /// duplicate the store is unchanged and a copy of the product already
    /// stored comes back.
    pub fn insert_product(&mut self, id: u128, product: Product) -> (r: Option<Product>)
        requires
            old(self)@.wf(),
        ensures
            final(self)@.wf(),
            old(self)@.terminal_preserved(final(self)@),
            old(self)@.products.contains_key(id) ==> {
                &&& old(self)@.unchanged(final(self)@)
                &&& r matches Some(prev) && prev.same_content(&old(self)@.products[id])
            },
            !old(self)@.products.contains_key(id) ==> {
                &&& r is None
                &&& final(self)@.products == old(self)@.products.insert(id, product)
                &&& final(self)@.results == old(self)@.results
                &&& final(self)@.uploaded == old(self)@.uploaded
                &&& final(self)@.finished == old(self)@.finished
                &&& final(self)@.aborted == old(self)@.aborted
                &&& final(self)@.order == if old(self)@.known(id) {
                    old(self)@.order
                } else {
                    old(self)@.order.push(id)
                }
            },
    {
        if let Some(prev) = self.products.get(&id) {
            return Some(prev.clone());
        }
        let known = self.uploaded.contains_key(&id) || self.finished.contains_key(&id)
            || self.aborted.contains_key(&id);
        self.products.insert(id, product);
        if !known {
            proof {
                lemma_order_push(self@.order, id);
            }
            self.order.push(id);
        }
        proof {
            assert(self@.products == old(self)@.products.insert(id, product));
            assert forall|y: u128| #[trigger] self@.results.contains_key(y) implies self@.is_terminal_at(y) by {
                assert(old(self)@.results.contains_key(y));
                assert(old(self)@.is_terminal_at(y));
            }
            assert forall|y: u128| self@.known(y) implies #[trigger] self@.order.contains(y) by {}
        }
        None
    }

    /// Records a submission code for an identity that has no lifecycle
    /// state yet; if the identity already has one, the store is unchanged
    /// and the code already recorded comes back.
    pub fn insert_upload(&mut self, id: u128, code: String) -> (r: Option<String>)
        requires
            old(self)@.wf(),
        ensures
            final(self)@.wf(),
            old(self)@.terminal_preserved(final(self)@),
            old(self)@.status_of(id) matches Some(p) ==> {
                &&& old(self)@.unchanged(final(self)@)
                &&& r == Some(p.0)
            },
            old(self)@.status_of(id) is None ==> {
                &&& r is None
                &&& final(self)@.uploaded == old(self)@.uploaded.insert(id, code)
                &&& final(self)@.products == old(self)@.products
                &&& final(self)@.results == old(self)@.results
                &&& final(self)@.finished == old(self)@.finished
                &&& final(self)@.aborted == old(self)@.aborted
                &&& final(self)@.order == if old(self)@.known(id) {
                    old(self)@.order
                } else {
                    old(self)@.order.push(id)
                }
            },
    {
        if let Some(c) = self.uploaded.get(&id) {
            return Some(c.clone());
        }
        if let Some(c) = self.finished.get(&id) {
            return Some(c.clone());
        }
        if let Some(c) = self.aborted.get(&id) {
            return Some(c.clone());
        }
        let known = self.products.contains_key(&id);
        self.uploaded.insert(id, code);
        if !known {
            proof {
                lemma_order_push(self@.order, id);
            }
            self.order.push(id);
        }
        proof {
            assert(self@.uploaded == old(self)@.uploaded.insert(id, code));
            assert(self@.results == old(self)@.results);
            assert(self@.finished == old(self)@.finished);
            assert(self@.aborted == old(self)@.aborted);
            assert(self@.uploaded.dom() =~= old(self)@.uploaded.dom().insert(id));
            assert(self@.uploaded.dom().disjoint(self@.finished.dom()));
            assert(self@.uploaded.dom().disjoint(self@.aborted.dom()));
            assert forall|y: u128| #[trigger] self@.results.contains_key(y) implies self@.is_terminal_at(y) by {
                assert(old(self)@.results.contains_key(y));
                assert(old(self)@.is_terminal_at(y));
            }
            assert forall|y: u128| #[trigger] self@.order.contains(y) implies self@.known(y) by {
                if !old(self)@.order.contains(y) {
                    assert(y == id);
                }
            }
            assert forall|y: u128| self@.known(y) implies #[trigger] self@.order.contains(y) by {
                if y != id {
                    assert(old(self)@.known(y));
                }
            }
        }
        None
    }

    /// Moves an identity out of the uploaded partition into the terminal
    /// partition named by `status`, keeping its submission code. Under the
    /// invariant the target partition cannot already hold the identity, so
    /// no previous value ever comes back.
    pub fn archive(&mut self, id: u128, status: Status) -> (r: Option<String>)
        requires
            old(self)@.wf(),
            old(self)@.uploaded.contains_key(id),
            status.is_terminal(),
        ensures
            final(self)@.wf(),
            old(self)@.terminal_preserved(final(self)@),
            r is None,
            final(self)@.uploaded == old(self)@.uploaded.remove(id),
            final(self)@.products == old(self)@.products,
            final(self)@.results == old(self)@.results,
            final(self)@.order == old(self)@.order,
            status == Status::FINISHED ==> {
                &&& final(self)@.finished == old(self)@.finished.insert(id, old(self)@.uploaded[id])
                &&& final(self)@.aborted == old(self)@.aborted
            },
            status == Status::ABORTED ==> {
                &&& final(self)@.aborted == old(self)@.aborted.insert(id, old(self)@.uploaded[id])
                &&& final(self)@.finished == old(self)@.finished
            },
            final(self)@.status_of(id) == Some((old(self)@.uploaded[id], status)),
    {
        let code = self.uploaded.remove(&id).unwrap();
        let r = if status == Status::FINISHED {
            self.finished.insert(id, code)
        } else {
            proof {
                assert(status == Status::ABORTED);
            }
            self.aborted.insert(id, code)
        };
        proof {
            assert(self@.uploaded == old(self)@.uploaded.remove(id));
            assert(self@.products == old(self)@.products);
            assert(self@.results == old(self)@.results);
            assert(self@.uploaded.dom() =~= old(self)@.uploaded.dom().remove(id));
            if status == Status::FINISHED {
                assert(self@.finished.dom() =~= old(self)@.finished.dom().insert(id));
            } else {
                assert(self@.aborted.dom() =~= old(self)@.aborted.dom().insert(id));
            }
            assert(self@.uploaded.dom().disjoint(self@.finished.dom()));
            assert(self@.uploaded.dom().disjoint(self@.aborted.dom()));
            assert(self@.finished.dom().disjoint(self@.aborted.dom()));
            assert forall|y: u128| #[trigger] self@.results.contains_key(y) implies self@.is_terminal_at(y) by {
                assert(old(self)@.results.contains_key(y));
                assert(old(self)@.is_terminal_at(y));
            }
            assert forall|y: u128| #[trigger] self@.order.contains(y) implies self@.known(y) by {
                assert(old(self)@.known(y));
            }
            assert forall|y: u128| self@.known(y) implies #[trigger] self@.order.contains(y) by {
                assert(old(self)@.known(y));
            }
            assert forall|y: u128| #[trigger] old(self)@.is_terminal_at(y) implies self@.status_of(y)
                == old(self)@.status_of(y) by {
                assert(y != id);
            }
        }
        r
    }

    /// Attaches the terminal result of an identity. The first result
    /// recorded wins: a second call leaves the store unchanged and returns
    /// a copy of the result already stored.
    pub fn insert_result(&mut self, id: u128, result: UploadResult) -> (r: Option<UploadResult>)
        requires
            old(self)@.wf(),
            old(self)@.is_terminal_at(id),
        ensures
            final(self)@.wf(),
            old(self)@.terminal_preserved(final(self)@),
            old(self)@.results.contains_key(id) ==> {
                &&& old(self)@.unchanged(final(self)@)
                &&& r matches Some(prev) && prev.same_content(&old(self)@.results[id])
            },
            !old(self)@.results.contains_key(id) ==> {
                &&& r is None
                &&& final(self)@.results == old(self)@.results.insert(id, result)
                &&& final(self)@.products == old(self)@.products
                &&& final(self)@.uploaded == old(self)@.uploaded
                &&& final(self)@.finished == old(self)@.finished
                &&& final(self)@.aborted == old(self)@.aborted
                &&& final(self)@.order == old(self)@.order
            },
    {
        if let Some(prev) = self.results.get(&id) {
            return Some(prev.clone());
        }
        self.results.insert(id, result);
        proof {
            assert(self@.results == old(self)@.results.insert(id, result));
            assert forall|y: u128| #[trigger] self@.results.contains_key(y) implies self@.is_terminal_at(y) by {
                if y != id {
                    assert(old(self)@.results.contains_key(y));
                }
                assert(old(self)@.is_terminal_at(y));
            }
            assert forall|y: u128| #[trigger] self@.order.contains(y) implies self@.known(y) by {
                assert(old(self)@.known(y));
            }
            assert forall|y: u128| self@.known(y) implies #[trigger] self@.order.contains(y) by {
                assert(old(self)@.known(y));
            }
        }
        None
    }

    /// Reads a copy of the product recorded under an identity.
    pub fn get_product(&self, id: u128) -> (r: Option<Product>)
        ensures
            self@.products.contains_key(id) ==> (r matches Some(p) && p.same_content(
                &self@.products[id],
            )),
            !self@.products.contains_key(id) ==> r is None,
    {
        match self.products.get(&id) {
            Some(p) => Some(p.clone()),
            None => None,
        }
    }

    /// Reads a copy of the result recorded under an identity.
    pub fn get_result(&self, id: u128) -> (r: Option<UploadResult>)
        ensures
            self@.results.contains_key(id) ==> (r matches Some(u) && u.same_content(
                &self@.results[id],
            )),
            !self@.results.contains_key(id) ==> r is None,
    {
        match self.results.get(&id) {
            Some(u) => Some(u.clone()),
            None => None,
        }
    }

    /// The number of identities currently uploaded.
    pub fn uploaded_len(&self) -> (r: usize)
        ensures
            r == self@.uploaded.len(),
    {
        self.uploaded.len()
    }

    /// The number of identities that finished.
    pub fn finished_len(&self) -> (r: usize)
        ensures
            r == self@.finished.len(),
    {
        self.finished.len()
    }

    /// The number of identities that were aborted.
    pub fn aborted_len(&self) -> (r: usize)
        ensures
            r == self@.aborted.len(),
    {
        self.aborted.len()
    }

    /// Loads a persisted snapshot into an empty store: every record's
    /// product, code and state land in the partition its persisted status
    /// names, and its result, where present, is recorded. Runs once at
    /// startup, before any traffic.
    pub fn fill(&mut self, records: Vec<Record>)
        requires
            old(self)@.wf(),
            old(self)@.is_empty(),
            snapshot_wf(records@),
        ensures
            final(self)@.wf(),
            final(self)@.order == record_ids(records@),
            forall|i: int| 0 <= i < records@.len() ==> final(self)@.entry_loaded(#[trigger] records@[i]),
    {
        proof {
            assert(record_ids(records@.take(0)) =~= Seq::<u128>::empty());
        }
        let mut i: usize = 0;
        while i < records.len()
            invariant
                self@.wf(),
                i <= records@.len(),
                snapshot_wf(records@),
                self@.order == record_ids(records@.take(i as int)),
                forall|j: int| 0 <= j < i ==> self@.entry_loaded(#[trigger] records@[j]),
                forall|j: int| i <= j < records@.len() ==> !self@.known((#[trigger] records@[j]).id),
            decreases records@.len() - i,
        {
            let rec = &records[i];
            let id = rec.id;
            let ghost head = self@;
            proof {
                assert(!head.known(id));
                assert(!head.order.contains(id));
                assert(!head.results.contains_key(id)) by {
                    if head.results.contains_key(id) {
                        assert(head.is_terminal_at(id));
                    }
                }
            }
            match rec.status {
                Status::UPLOADED => {
                    self.uploaded.insert(id, rec.code.clone());
                    proof {
                        assert(self@.status_of(id) == Some((rec.code, rec.status)));
                    }
                },
                Status::FINISHED => {
                    self.finished.insert(id, rec.code.clone());
                    proof {
                        assert(self@.status_of(id) == Some((rec.code, rec.status)));
                    }
                },
                Status::ABORTED => {
                    self.aborted.insert(id, rec.code.clone());
                    proof {
                        assert(self@.status_of(id) == Some((rec.code, rec.status)));
                    }
                },
            }
            proof {
                assert(self@.status_of(id) == Some((rec.code, rec.status)));
                assert(rec.status.is_terminal() ==> self@.is_terminal_at(id));
            }
            self.products.insert(id, rec.product.clone());
            match &rec.result {
                Some(u) => {
                    self.results.insert(id, u.clone());
                },
                None => {},
            }
            proof {
                lemma_order_push(self@.order, id);
            }
            self.order.push(id);
            proof {
                let v = self@;
                let recg = records@[i as int];
                assert(recg == *rec);
                assert(recg.result is Some ==> recg.status.is_terminal());
                assert(v.order == record_ids(records@.take(i + 1))) by {
                    assert(record_ids(records@.take(i + 1)) =~= record_ids(
                        records@.take(i as int),
                    ).push(id));
                }
                assert(v.status_of(id) == Some((recg.code, recg.status)));
                assert(v.products[id].same_content(&recg.product));
                match recg.result {
                    Some(u) => {
                        assert(v.results.contains_key(id));
                        assert(v.results[id].same_content(&u));
                    },
                    None => {
                        assert(v.results == head.results);
                        assert(!v.results.contains_key(id));
                    },
                }
                assert(v.entry_loaded(recg));
                assert forall|j: int| 0 <= j < i implies v.entry_loaded(#[trigger] records@[j]) by {
                    assert(records@[j].id != id);
                }
                assert forall|j: int| i + 1 <= j < records@.len() implies !v.known(
                    (#[trigger] records@[j]).id,
                ) by {
                    assert(records@[j].id != id);
                }
                assert(v.uploaded.dom().disjoint(v.finished.dom()));
                assert(v.uploaded.dom().disjoint(v.aborted.dom()));
                assert(v.finished.dom().disjoint(v.aborted.dom()));
                assert forall|y: u128| #[trigger] v.results.contains_key(y) implies v.is_terminal_at(y) by {
                    if y == id {
                        assert(recg.result is Some);
                        assert(recg.status.is_terminal());
                    } else {
                        assert(head.results.contains_key(y));
                        assert(head.is_terminal_at(y));
                    }
                }
                assert forall|y: u128| #[trigger] v.order.contains(y) implies v.known(y) by {}
                assert forall|y: u128| v.known(y) implies #[trigger] v.order.contains(y) by {}
            }
            i += 1;
        }
        proof {
            assert(records@.take(records@.len() as int) =~= records@);
        }
    }

    /// Produces the full set of current entries, joining product, code,
    /// state and result per identity, oldest first. Identities with a
    /// product but no lifecycle state yet are not part of a snapshot.
    pub fn snapshot_records(&self) -> (r: Vec<Record>)
        requires
            self@.wf(),
        ensures
            snapshot_wf(r@),
            ({
                let ids = self@.tracked_order();
                &&& r@.len() == ids.len()
                &&& forall|j: int|
                    0 <= j < ids.len() ==> self@.entry_loaded(#[trigger] r@[j]) && r@[j].id == ids[j]
            }),
    {
        let mut out: Vec<Record> = Vec::new();
        let mut i: usize = 0;
        while i < self.order.len()
            invariant
                i <= self@.order.len(),
                out@.len() == self@.tracked_prefix(i as int).len(),
                forall|j: int|
                    0 <= j < out@.len() ==> self@.entry_loaded(#[trigger] out@[j]) && out@[j].id
                        == self@.tracked_prefix(i as int)[j],
            decreases self@.order.len() - i,
        {
            let id = self.order[i];
            if let Some(p) = self.products.get(&id) {
                if let Some((code, status)) = self.get_status(id) {
                    let result = self.get_result(id);
                    out.push(Record {
                        id: id,
                        code: code,
                        status: status,
                        product: p.clone(),
                        result: result,
                    });
                }
            }
            proof {
                let pre = self@.tracked_prefix(i as int);
                let cur = self@.tracked_prefix(i + 1);
                if self@.products.contains_key(self@.order[i as int]) && self@.status_of(
                    self@.order[i as int],
                ) is Some {
                    assert(cur == pre.push(self@.order[i as int]));
                } else {
                    assert(cur == pre);
                }
            }
            i += 1;
        }
        proof {
            let ids = self@.tracked_order();
            lemma_tracked_prefix_no_dup(self@, self@.order.len() as int);
            assert forall|a: int, b: int| 0 <= a < b < out@.len() implies (#[trigger] out@[a]).id
                != (#[trigger] out@[b]).id by {
                assert(out@[a].id == ids[a]);
                assert(out@[b].id == ids[b]);
            }
            assert forall|j: int| 0 <= j < out@.len() implies ((#[trigger] out@[j]).result is Some
                ==> out@[j].status.is_terminal()) by {
                let rec = out@[j];
                assert(self@.entry_loaded(rec));
                if rec.result is Some {
                    assert(self@.results.contains_key(rec.id));
                    assert(self@.is_terminal_at(rec.id));
                    assert(!self@.uploaded.dom().contains(rec.id));
                    assert(self@.status_of(rec.id) matches Some(p) && p.1.is_terminal());
                }
            }
        }
        out
    }

    /// The identities currently uploaded, oldest first; these drive the
    /// periodic polling sweep.
    pub fn uploaded_ids(&self) -> (r: Vec<u128>)
        ensures
            r@ == self@.uploaded_order(),
    {
        let mut out: Vec<u128> = Vec::new();
        let mut i: usize = 0;
        while i < self.order.len()
            invariant
                i <= self@.order.len(),
                out@ == self@.uploaded_prefix(i as int),
            decreases self@.order.len() - i,
        {
            let id = self.order[i];
            if self.uploaded.contains_key(&id) {
                out.push(id);
            }
            i += 1;
        }
        out
    }

    /// A consistent copy of all recorded products with their identities,
    /// oldest first.
    pub fn products(&self) -> (r: Vec<(u128, Product)>)
        ensures
            ({
                let ids = self@.products_order();
                &&& r@.len() == ids.len()
                &&& forall|j: int|
                    0 <= j < ids.len() ==> (#[trigger] r@[j]).0 == ids[j] && r@[j].1.same_content(
                        &self@.products[ids[j]],
                    )
            }),
    {
        let mut out: Vec<(u128, Product)> = Vec::new();
        let mut i: usize = 0;
        while i < self.order.len()
            invariant
                i <= self@.order.len(),
                out@.len() == self@.products_prefix(i as int).len(),
                forall|j: int|
                    0 <= j < out@.len() ==> (#[trigger] out@[j]).0 == self@.products_prefix(i as int)[j]
                        && out@[j].1.same_content(&self@.products[self@.products_prefix(i as int)[j]]),
            decreases self@.order.len() - i,
        {
            let id = self.order[i];
            if let Some(p) = self.products.get(&id) {
                out.push((id, p.clone()));
            }
            proof {
                let pre = self@.products_prefix(i as int);
                let cur = self@.products_prefix(i + 1);
                if self@.products.contains_key(self@.order[i as int]) {
                    assert(cur == pre.push(self@.order[i as int]));
                } else {
                    assert(cur == pre);
                }
            }
            i += 1;
        }
        out
    }

    /// Reads the submission code and lifecycle state of an identity,
    /// checking the partitions in the order uploaded, finished, aborted.
    pub fn get_status(&self, id: u128) -> (r: Option<(String, Status)>)
        ensures
            r == self@.status_of(id),
    {
        if let Some(code) = self.uploaded.get(&id) {
            Some((code.clone(), Status::UPLOADED))
        } else if let Some(code) = self.finished.get(&id) {
            Some((code.clone(), Status::FINISHED))
        } else if let Some(code) = self.aborted.get(&id) {
            Some((code.clone(), Status::ABORTED))
        } else {
            None
        }
    }
}

} // verus!
