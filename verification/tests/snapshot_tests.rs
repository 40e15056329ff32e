use kaspi_service::coordinator::{apply_poll, record_result, record_upload, submit_register};
use kaspi_service::entities::attribute::{Attribute, AttributeValue};
use kaspi_service::entities::product::{Product, ProductImage, Record};
use kaspi_service::entities::upload_result::{Status, UploadResult, UploadStatus};
use kaspi_service::store::Store;

fn sample_product(sku: &str) -> Product {
    Product {
        sku: sku.to_string(),
        title: "Title".to_string(),
        brand: "ParikiAlmaty".to_string(),
        category: "Pariki".to_string(),
        description: "description".to_string(),
        attributes: vec![Attribute {
            code: "purpose".to_string(),
            value: AttributeValue::Boolean(true),
        }],
        images: vec![ProductImage { url: "https://example.example/a.jpg".to_string() }],
    }
}

#[test]
fn load_finished_snapshot() {
    let result = UploadResult::new(0, 0, 0, 1, vec![]);
    let record = Record {
        id: 41,
        code: "00101001".to_string(),
        status: Status::FINISHED,
        product: sample_product("A-1"),
        result: Some(result.clone()),
    };

    let mut store = Store::new();
    store.fill(vec![record]);

    // Status and result answer immediately from the store, with no
    // gateway interaction.
    assert_eq!(store.get_status(41).unwrap(), ("00101001".to_string(), Status::FINISHED));
    assert_eq!(store.get_result(41).unwrap(), result);
    assert_eq!(store.get_product(41).unwrap(), sample_product("A-1"));
    assert_eq!(store.finished_len(), 1);
    assert_eq!(store.uploaded_len(), 0);
}

#[test]
fn load_uploaded_snapshot_entry() {
    let record = Record {
        id: 42,
        code: "C42".to_string(),
        status: Status::UPLOADED,
        product: sample_product("A-2"),
        result: None,
    };
    let mut store = Store::new();
    store.fill(vec![record]);
    assert_eq!(store.get_status(42).unwrap(), ("C42".to_string(), Status::UPLOADED));
    assert!(store.get_result(42).is_none());
    assert_eq!(store.uploaded_ids(), vec![42]);
}

#[test]
fn snapshot_round_trip() {
    let mut store = Store::new();

    let finished = submit_register(&mut store, sample_product("A-1")).unwrap();
    record_upload(&mut store, finished, "C1".to_string()).unwrap();
    apply_poll(&mut store, finished, Status::FINISHED).unwrap();
    let result = UploadResult::new(0, 1, 0, 1, vec!["one warning".to_string()]);
    record_result(&mut store, finished, result.clone()).unwrap();

    let pending = submit_register(&mut store, sample_product("A-2")).unwrap();
    record_upload(&mut store, pending, "C2".to_string()).unwrap();

    let records = store.snapshot_records();
    assert_eq!(records.len(), 2);

    let mut restored = Store::new();
    restored.fill(records);

    assert_eq!(restored.get_status(finished).unwrap(), ("C1".to_string(), Status::FINISHED));
    assert_eq!(restored.get_result(finished).unwrap(), result);
    assert_eq!(restored.get_status(pending).unwrap(), ("C2".to_string(), Status::UPLOADED));
    assert!(restored.get_result(pending).is_none());
    assert_eq!(restored.get_product(finished).unwrap(), sample_product("A-1"));
    assert_eq!(restored.uploaded_ids(), vec![pending]);
}

#[test]
fn partial_submission_is_not_snapshotted() {
    let mut store = Store::new();
    // A product whose gateway submission failed has no code and no state;
    // a snapshot cannot join it and leaves it out.
    submit_register(&mut store, sample_product("A-3")).unwrap();
    assert!(store.snapshot_records().is_empty());
}

#[test]
fn upload_result() {
    let result_json: serde_json::Value = serde_json::from_str(
        r#"{
            "errors": 0,
            "warnings": 0,
            "skipped": 0,
            "total": 0,
            "result": [
                "$[0].images: the items in the array must be unique"
            ]
        }"#,
    )
    .unwrap();

    let result = UploadResult::new(
        0,
        0,
        0,
        0,
        vec!["$[0].images: the items in the array must be unique".to_string()],
    );

    assert_eq!(result_json["errors"].as_u64().unwrap() as usize, result.errors());
    assert_eq!(result_json["warnings"].as_u64().unwrap() as usize, result.warnings());
    assert_eq!(result_json["skipped"].as_u64().unwrap() as usize, result.skipped());
    assert_eq!(result_json["total"].as_u64().unwrap() as usize, result.total());
    let messages: Vec<String> = result_json["result"]
        .as_array()
        .unwrap()
        .iter()
        .map(|m| m.as_str().unwrap().to_string())
        .collect();
    assert_eq!(&messages, result.messages());
}

#[test]
fn upload_status_accessors() {
    let status = UploadStatus::new("C1".to_string(), Status::UPLOADED);
    assert_eq!(status.get_code(), "C1".to_string());
    assert_eq!(status.get_status(), Status::UPLOADED);
}

#[test]
fn category_label() {
    let category = kaspi_service::entities::category::KaspiCategory {
        code: "Pariki".to_string(),
        title: "Wigs".to_string(),
    };
    assert_eq!(category.label(), "Pariki(Wigs)");
}

#[test]
fn record_clone_keeps_content() {
    let record = Record {
        id: 7,
        code: "C7".to_string(),
        status: Status::FINISHED,
        product: sample_product("A-7"),
        result: Some(UploadResult::new(1, 2, 3, 4, vec!["m".to_string()])),
    };
    let copy = record.clone();
    assert_eq!(copy.id, record.id);
    assert_eq!(copy.code, record.code);
    assert_eq!(copy.status, record.status);
    assert_eq!(copy.product, record.product);
    assert_eq!(copy.result, record.result);
}

#[test]
fn terminal_record_without_result_loads() {
    // The process may stop between committing a terminal transition and
    // fetching the diagnostics; such an entry persists without a result
    // and must load again.
    let record = Record {
        id: 43,
        code: "C43".to_string(),
        status: Status::FINISHED,
        product: sample_product("A-4"),
        result: None,
    };
    let mut store = Store::new();
    store.fill(vec![record]);
    assert_eq!(store.get_status(43).unwrap(), ("C43".to_string(), Status::FINISHED));
    assert!(store.get_result(43).is_none());

    // A snapshot of that store reproduces the entry and loads again.
    let records = store.snapshot_records();
    assert_eq!(records.len(), 1);
    let mut restored = Store::new();
    restored.fill(records);
    assert_eq!(restored.get_status(43).unwrap(), ("C43".to_string(), Status::FINISHED));
    assert!(restored.get_result(43).is_none());
}
