use kaspi_service::coordinator::{
    apply_poll, begin_check, interpret_poll, record_result, record_upload, submit_register,
    CheckDecision, CoordError, PollOutcome,
};
use kaspi_service::entities::attribute::{Attribute, AttributeValue};
use kaspi_service::entities::product::{Product, ProductImage};
use kaspi_service::entities::upload_result::{Status, UploadResult};
use kaspi_service::store::Store;

fn sample_product(sku: &str) -> Product {
    Product {
        sku: sku.to_string(),
        title: "Title".to_string(),
        brand: "ParikiAlmaty".to_string(),
        category: "Pariki".to_string(),
        description: "description".to_string(),
        attributes: vec![Attribute {
            code: "purpose".to_string(),
            value: AttributeValue::Text("zhenskiy".to_string()),
        }],
        images: vec![ProductImage { url: "https://example.example/a.jpg".to_string() }],
    }
}

#[test]
fn submit_records_code_and_uploaded_state() {
    let mut store = Store::new();
    let id = submit_register(&mut store, sample_product("A-1")).unwrap();
    assert_eq!(record_upload(&mut store, id, "C1".to_string()), Ok(()));
    assert_eq!(store.get_status(id).unwrap(), ("C1".to_string(), Status::UPLOADED));
}

#[test]
fn check_commits_finished_and_stores_result() {
    let mut store = Store::new();
    let id = submit_register(&mut store, sample_product("A-1")).unwrap();
    record_upload(&mut store, id, "C1".to_string()).unwrap();

    // The cached state asks for exactly one poll.
    assert_eq!(begin_check(&store, id), Ok(CheckDecision::Poll("C1".to_string())));

    let polled = interpret_poll("FINISHED").unwrap();
    let outcome = apply_poll(&mut store, id, polled).unwrap();
    assert_eq!(outcome, PollOutcome::Archived("C1".to_string(), Status::FINISHED));

    let result = UploadResult::new(0, 0, 0, 1, vec![]);
    assert_eq!(record_result(&mut store, id, result.clone()), Ok(()));
    assert_eq!(store.get_result(id).unwrap(), result);
    assert_eq!(store.get_status(id).unwrap(), ("C1".to_string(), Status::FINISHED));

    // A later check is answered from the store, with no further poll owed.
    assert_eq!(begin_check(&store, id), Ok(CheckDecision::Settled("C1".to_string(), Status::FINISHED)));
}

#[test]
fn duplicate_submit_is_rejected() {
    let mut store = Store::new();
    let id = submit_register(&mut store, sample_product("A-1")).unwrap();
    record_upload(&mut store, id, "C1".to_string()).unwrap();
    assert_eq!(store.products().len(), 1);

    let second = submit_register(&mut store, sample_product("A-1"));
    assert_eq!(second, Err(CoordError::DuplicateProduct("A-1".to_string())));
    assert_eq!(store.products().len(), 1);
}

#[test]
fn racing_checks_commit_exactly_once() {
    let mut store = Store::new();
    let id = submit_register(&mut store, sample_product("A-1")).unwrap();
    record_upload(&mut store, id, "C1".to_string()).unwrap();

    // Two racing checks both observed the identity uploaded and polled.
    assert_eq!(begin_check(&store, id), Ok(CheckDecision::Poll("C1".to_string())));
    assert_eq!(begin_check(&store, id), Ok(CheckDecision::Poll("C1".to_string())));

    // The first commit wins the transition ...
    let first = apply_poll(&mut store, id, Status::FINISHED).unwrap();
    assert_eq!(first, PollOutcome::Archived("C1".to_string(), Status::FINISHED));

    // ... the second observes the terminal state and changes nothing.
    let second = apply_poll(&mut store, id, Status::FINISHED).unwrap();
    assert_eq!(second, PollOutcome::AlreadyTerminal("C1".to_string(), Status::FINISHED));
    assert_eq!(store.finished_len(), 1);

    // Exactly one result is stored; the loser's copy is discarded.
    let winner = UploadResult::new(0, 0, 0, 1, vec!["ok".to_string()]);
    let loser = UploadResult::new(1, 0, 0, 1, vec!["late".to_string()]);
    assert_eq!(record_result(&mut store, id, winner.clone()), Ok(()));
    assert_eq!(record_result(&mut store, id, loser), Err(CoordError::ResultConflict));
    assert_eq!(store.get_result(id).unwrap(), winner);
}

#[test]
fn aborted_poll_is_committed() {
    let mut store = Store::new();
    let id = submit_register(&mut store, sample_product("A-1")).unwrap();
    record_upload(&mut store, id, "C1".to_string()).unwrap();
    let outcome = apply_poll(&mut store, id, Status::ABORTED).unwrap();
    assert_eq!(outcome, PollOutcome::Archived("C1".to_string(), Status::ABORTED));
    assert_eq!(store.get_status(id).unwrap(), ("C1".to_string(), Status::ABORTED));
}

#[test]
fn still_uploaded_poll_changes_nothing() {
    let mut store = Store::new();
    let id = submit_register(&mut store, sample_product("A-1")).unwrap();
    record_upload(&mut store, id, "C1".to_string()).unwrap();
    let outcome = apply_poll(&mut store, id, Status::UPLOADED).unwrap();
    assert_eq!(outcome, PollOutcome::StillUploaded);
    assert_eq!(store.get_status(id).unwrap(), ("C1".to_string(), Status::UPLOADED));
    assert_eq!(store.uploaded_len(), 1);
}

#[test]
fn unknown_identity_is_refused() {
    let mut store = Store::new();
    assert_eq!(begin_check(&store, 77), Err(CoordError::UnknownIdentity));
    assert_eq!(apply_poll(&mut store, 77, Status::FINISHED), Err(CoordError::UnknownIdentity));
    assert_eq!(
        record_result(&mut store, 77, UploadResult::new(0, 0, 0, 0, vec![])),
        Err(CoordError::UnknownIdentity)
    );
}

#[test]
fn duplicate_upload_is_surfaced() {
    let mut store = Store::new();
    let id = submit_register(&mut store, sample_product("A-1")).unwrap();
    record_upload(&mut store, id, "C1".to_string()).unwrap();
    assert_eq!(
        record_upload(&mut store, id, "C2".to_string()),
        Err(CoordError::DuplicateUpload("C1".to_string()))
    );
    assert_eq!(store.get_status(id).unwrap(), ("C1".to_string(), Status::UPLOADED));
}

#[test]
fn protocol_violations_are_gateway_errors() {
    assert_eq!(interpret_poll("PROCESSING"), Err(CoordError::Gateway));
    assert_eq!(interpret_poll(""), Err(CoordError::Gateway));
    assert_eq!(interpret_poll("uploaded"), Err(CoordError::Gateway));
    assert_eq!(interpret_poll("UPLOADED"), Ok(Status::UPLOADED));
    assert_eq!(interpret_poll("FINISHED"), Ok(Status::FINISHED));
    assert_eq!(interpret_poll("ABORTED"), Ok(Status::ABORTED));
}

#[test]
fn result_for_uploaded_identity_is_a_protocol_error() {
    let mut store = Store::new();
    let id = submit_register(&mut store, sample_product("A-1")).unwrap();
    record_upload(&mut store, id, "C1".to_string()).unwrap();
    assert_eq!(
        record_result(&mut store, id, UploadResult::new(0, 0, 0, 0, vec![])),
        Err(CoordError::Gateway)
    );
    assert!(store.get_result(id).is_none());
}

#[test]
fn status_labels_round_trip() {
    for status in [Status::UPLOADED, Status::FINISHED, Status::ABORTED] {
        assert_eq!(Status::from_label(status.label()), Some(status));
    }
    assert_eq!(Status::UPLOADED.label(), "UPLOADED");
    assert_eq!(Status::FINISHED.label(), "FINISHED");
    assert_eq!(Status::ABORTED.label(), "ABORTED");
    assert_eq!(Status::from_label("PENDING"), None);
}
