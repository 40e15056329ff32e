//! The lifecycle coordinator's decisions. Every step of the submit and
//! check protocols that reads or mutates the store is a function here with
//! an exact contract; the network calls between the steps stay outside and
//! hand their outcomes back in as plain values.
//!
//! Submit: derive the identity and register the product exclusively
//! (`submit_register`), send the payload to the gateway, then record the
//! returned code (`record_upload`).
//!
//! Check: read the cached state (`begin_check`); only for an uploaded
//! identity poll the gateway, interpret its answer (`interpret_poll`),
//! commit a terminal transition (`apply_poll`), fetch the diagnostic
//! result and record it (`record_result`).

use vstd::prelude::*;
use crate::entities::product::Product;
use crate::entities::upload_result::{Status, UploadResult};
use crate::identity::{derive_identity, product_identity};
use crate::store::Store;

verus! {

/// Everything that can go wrong in the submission lifecycle.
#[derive(Debug, PartialEq, Eq)]
pub enum CoordError {
    /// The identity already has a stored product; carries that product's
    /// sku. Not retried, surfaced to the caller.
    DuplicateProduct(String),
    /// The identity already has a lifecycle state; carries the code
    /// already recorded. Unreachable in correct operation.
    DuplicateUpload(String),
    /// A check was requested for an identity never submitted.
    UnknownIdentity,
    /// The gateway answered outside its protocol, timed out or failed;
    /// retried by the caller on a later check.
    Gateway,
    /// A second result arrived for an identity that already has one; the
    /// first result stays, the second is discarded.
    ResultConflict,
}

/// What a check should do next, decided from the cached state alone.
#[derive(Debug, PartialEq, Eq)]
pub enum CheckDecision {
    /// The identity is terminal: its code and state are authoritative, no
    /// network call is owed.
    Settled(String, Status),
    /// The identity is still uploaded: poll the gateway with this code.
    Poll(String),
}

/// The outcome of committing a poll answer.
#[derive(Debug, PartialEq, Eq)]
pub enum PollOutcome {
    /// The gateway still reports the job uploaded; nothing changed.
    StillUploaded,
    /// This call won the transition: the identity moved to the terminal
    /// state, and the result should now be fetched with this code.
    Archived(String, Status),
    /// A concurrent check committed first: the identity was already
    /// terminal. A non-fatal conflict; nothing changed.
    AlreadyTerminal(String, Status),
}

/// Registers a product under its content-derived identity, exclusively:
/// the first registration wins and returns the identity; a duplicate
/// leaves the store unchanged and surfaces the stored product's sku.
pub fn submit_register(store: &mut Store, product: Product) -> (r: Result<u128, CoordError>)
    requires
        old(store)@.wf(),
    ensures
        final(store)@.wf(),
        old(store)@.terminal_preserved(final(store)@),
        ({
            let id = product_identity(product);
            if old(store)@.products.contains_key(id) {
                &&& old(store)@.unchanged(final(store)@)
                &&& r matches Err(CoordError::DuplicateProduct(sku)) && sku == old(
                    store,
                )@.products[id].sku
            } else {
                &&& r == Ok::<u128, CoordError>(id)
                &&& final(store)@.products == old(store)@.products.insert(id, product)
                &&& final(store)@.results == old(store)@.results
                &&& final(store)@.uploaded == old(store)@.uploaded
                &&& final(store)@.finished == old(store)@.finished
                &&& final(store)@.aborted == old(store)@.aborted
            }
        }),
{
    let id = derive_identity(&product);
    match store.insert_product(id, product) {
        Some(prev) => Err(CoordError::DuplicateProduct(prev.sku)),
        None => Ok(id),
    }
}

/// Records the submission code the gateway returned for a freshly
/// registered identity. If the identity already has a lifecycle state the
/// store is unchanged and the code already recorded is surfaced; this is
/// unreachable when the submit protocol is followed.
pub fn record_upload(store: &mut Store, id: u128, code: String) -> (r: Result<(), CoordError>)
    requires
        old(store)@.wf(),
    ensures
        final(store)@.wf(),
        old(store)@.terminal_preserved(final(store)@),
        match old(store)@.status_of(id) {
            Some(p) => {
                &&& old(store)@.unchanged(final(store)@)
                &&& r matches Err(CoordError::DuplicateUpload(c)) && c == p.0
            },
            None => {
                &&& r == Ok::<(), CoordError>(())
                &&& final(store)@.uploaded == old(store)@.uploaded.insert(id, code)
                &&& final(store)@.products == old(store)@.products
                &&& final(store)@.results == old(store)@.results
                &&& final(store)@.finished == old(store)@.finished
                &&& final(store)@.aborted == old(store)@.aborted
            },
        },
{
    match store.insert_upload(id, code) {
        Some(c) => Err(CoordError::DuplicateUpload(c)),
        None => Ok(()),
    }
}

/// Decides a check from the cached state: an unknown identity fails, a
/// terminal identity is answered from the store without any network call,
/// and an uploaded identity asks for one poll with its code.
pub fn begin_check(store: &Store, id: u128) -> (r: Result<CheckDecision, CoordError>)
    ensures
        match store@.status_of(id) {
            None => r matches Err(CoordError::UnknownIdentity),
            Some(p) => if p.1 == Status::UPLOADED {
                r == Ok::<CheckDecision, CoordError>(CheckDecision::Poll(p.0))
            } else {
                r == Ok::<CheckDecision, CoordError>(CheckDecision::Settled(p.0, p.1))
            },
        },
{
    match store.get_status(id) {
        None => Err(CoordError::UnknownIdentity),
        Some((code, status)) => {
            if status == Status::UPLOADED {
                Ok(CheckDecision::Poll(code))
            } else {
                Ok(CheckDecision::Settled(code, status))
            }
        },
    }
}

/// Interprets the status label of a gateway response; any label outside
/// the three-state enum is a gateway protocol violation.
pub fn interpret_poll(label: &str) -> (r: Result<Status, CoordError>)
    ensures
        match crate::entities::upload_result::from_label_spec(label@) {
            Some(st) => r == Ok::<Status, CoordError>(st),
            None => r matches Err(CoordError::Gateway),
        },
{
    match Status::from_label(label) {
        Some(st) => Ok(st),
        None => Err(CoordError::Gateway),
    }
}

/// Commits what a poll reported. Exactly one caller can win the terminal
/// transition: if the identity is still uploaded and the gateway reported
/// a terminal state, it is archived atomically and the result should be
/// fetched; if a racing check archived it first, the call is a non-fatal
/// conflict and the store is untouched; a non-terminal report changes
/// nothing.
pub fn apply_poll(store: &mut Store, id: u128, polled: Status) -> (r: Result<
    PollOutcome,
    CoordError,
>)
    requires
        old(store)@.wf(),
    ensures
        final(store)@.wf(),
        old(store)@.terminal_preserved(final(store)@),
        match old(store)@.status_of(id) {
            None => {
                &&& old(store)@.unchanged(final(store)@)
                &&& r matches Err(CoordError::UnknownIdentity)
            },
            Some(p) => if p.1 != Status::UPLOADED {
                &&& old(store)@.unchanged(final(store)@)
                &&& r == Ok::<PollOutcome, CoordError>(PollOutcome::AlreadyTerminal(p.0, p.1))
            } else if polled == Status::UPLOADED {
                &&& old(store)@.unchanged(final(store)@)
                &&& r == Ok::<PollOutcome, CoordError>(PollOutcome::StillUploaded)
            } else {
                &&& r == Ok::<PollOutcome, CoordError>(PollOutcome::Archived(p.0, polled))
                &&& final(store)@.uploaded == old(store)@.uploaded.remove(id)
                &&& final(store)@.status_of(id) == Some((p.0, polled))
                &&& polled == Status::FINISHED ==> {
                    &&& final(store)@.finished == old(store)@.finished.insert(id, p.0)
                    &&& final(store)@.aborted == old(store)@.aborted
                }
                &&& polled == Status::ABORTED ==> {
                    &&& final(store)@.aborted == old(store)@.aborted.insert(id, p.0)
                    &&& final(store)@.finished == old(store)@.finished
                }
                &&& final(store)@.products == old(store)@.products
                &&& final(store)@.results == old(store)@.results
                &&& final(store)@.order == old(store)@.order
            },
        },
{
    match store.get_status(id) {
        None => Err(CoordError::UnknownIdentity),
        Some((code, status)) => {
            if status != Status::UPLOADED {
                Ok(PollOutcome::AlreadyTerminal(code, status))
            } else if polled == Status::UPLOADED {
                Ok(PollOutcome::StillUploaded)
            } else {
                store.archive(id, polled);
                Ok(PollOutcome::Archived(code, polled))
            }
        },
    }
}

/// Records the diagnostic result fetched for a terminal identity. The
/// first result wins; a later arrival is discarded as a conflict. A
/// result for an unknown identity is refused, and one for an identity
/// still uploaded is a gateway protocol violation.
pub fn record_result(store: &mut Store, id: u128, result: UploadResult) -> (r: Result<
    (),
    CoordError,
>)
    requires
        old(store)@.wf(),
    ensures
        final(store)@.wf(),
        old(store)@.terminal_preserved(final(store)@),
        match old(store)@.status_of(id) {
            None => {
                &&& old(store)@.unchanged(final(store)@)
                &&& r matches Err(CoordError::UnknownIdentity)
            },
            Some(p) => if p.1 == Status::UPLOADED {
                &&& old(store)@.unchanged(final(store)@)
                &&& r matches Err(CoordError::Gateway)
            } else if old(store)@.results.contains_key(id) {
                &&& old(store)@.unchanged(final(store)@)
                &&& r matches Err(CoordError::ResultConflict)
            } else {
                &&& r == Ok::<(), CoordError>(())
                &&& final(store)@.results == old(store)@.results.insert(id, result)
                &&& final(store)@.products == old(store)@.products
                &&& final(store)@.uploaded == old(store)@.uploaded
                &&& final(store)@.finished == old(store)@.finished
                &&& final(store)@.aborted == old(store)@.aborted
                &&& final(store)@.order == old(store)@.order
            },
        },
{
    match store.get_status(id) {
        None => Err(CoordError::UnknownIdentity),
        Some((_code, status)) => {
            if status == Status::UPLOADED {
                Err(CoordError::Gateway)
            } else {
                match store.insert_result(id, result) {
                    Some(_prev) => Err(CoordError::ResultConflict),
                    None => Ok(()),
                }
            }
        },
    }
}

} // verus!
