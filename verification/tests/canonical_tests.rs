use kaspi_service::canonical::{attribute_json, canonical_json};
use kaspi_service::entities::attribute::{Attribute, AttributeValue};
use kaspi_service::entities::product::{Product, ProductImage};
use kaspi_service::identity::derive_identity;

fn sample_product() -> Product {
    Product {
        sku: "LACEFRONT-27".to_string(),
        title: "Title".to_string(),
        brand: "ParikiAlmaty".to_string(),
        category: "Pariki".to_string(),
        description: "description".to_string(),
        attributes: vec![Attribute {
            code: "Wigs and hairpieces*Harakteristiki.wigs and hairpieces*purpose".to_string(),
            value: AttributeValue::Text("zhenskiy".to_string()),
        }],
        images: vec![ProductImage {
            url: "https://old.pariki.kz/wp-content/uploads/2022/11/photo_5452090876806414405_y.jpg"
                .to_string(),
        }],
    }
}

#[test]
fn product_to_json() {
    let product = sample_product();
    let json: serde_json::Value = serde_json::from_str(&canonical_json(&product)).unwrap();
    let expected: serde_json::Value = serde_json::from_str(
        r#"{
            "sku": "LACEFRONT-27",
            "title": "Title",
            "brand": "ParikiAlmaty",
            "category": "Pariki",
            "description": "description",
            "attributes": [
                {
                    "code": "Wigs and hairpieces*Harakteristiki.wigs and hairpieces*purpose",
                    "value": "zhenskiy"
                }
            ],
            "images": [
                {
                    "url": "https://old.pariki.kz/wp-content/uploads/2022/11/photo_5452090876806414405_y.jpg"
                }
            ]
        }"#,
    )
    .unwrap();
    assert_eq!(json, expected);
}

#[test]
fn attribute_to_json() {
    let attribute = Attribute {
        code: String::from("Wigs and hairpieces*Harakteristiki.wigs and hairpieces*purpose"),
        value: AttributeValue::Text(String::from("zhenskiy")),
    };
    let json: serde_json::Value = serde_json::from_str(&attribute_json(&attribute)).unwrap();
    let expected: serde_json::Value = serde_json::from_str(
        r#"{
            "code": "Wigs and hairpieces*Harakteristiki.wigs and hairpieces*purpose",
            "value": "zhenskiy"
        }"#,
    )
    .unwrap();
    assert_eq!(json, expected);
}

#[test]
fn canonical_keys_are_alphabetical() {
    let product = Product {
        sku: "S".to_string(),
        title: "T".to_string(),
        brand: "B".to_string(),
        category: "C".to_string(),
        description: "D".to_string(),
        attributes: vec![
            Attribute { code: "a1".to_string(), value: AttributeValue::Text("v1".to_string()) },
            Attribute { code: "a2".to_string(), value: AttributeValue::Boolean(true) },
        ],
        images: vec![
            ProductImage { url: "u1".to_string() },
            ProductImage { url: "u2".to_string() },
        ],
    };
    let mut expected = String::new();
    expected.push_str("{\"attributes\":[{\"code\":\"a1\",\"value\":\"v1\"},{\"code\":\"a2\",\"value\":true}],");
    expected.push_str("\"brand\":\"B\",\"category\":\"C\",\"description\":\"D\",");
    expected.push_str("\"images\":[{\"url\":\"u1\"},{\"url\":\"u2\"}],\"sku\":\"S\",\"title\":\"T\"}");
    assert_eq!(canonical_json(&product), expected);
}

#[test]
fn canonical_escapes_strings() {
    let product = Product {
        sku: "quote\"backslash\\".to_string(),
        title: "line\nreturn\rtab\t".to_string(),
        brand: "bell\u{7}unit\u{1f}".to_string(),
        category: "back\u{8}feed\u{c}".to_string(),
        description: "plain".to_string(),
        attributes: vec![],
        images: vec![],
    };
    let rendered = canonical_json(&product);
    assert!(rendered.contains("\"sku\":\"quote\\\"backslash\\\\\""));
    assert!(rendered.contains("\"title\":\"line\\nreturn\\rtab\\t\""));
    assert!(rendered.contains("\"brand\":\"bell\\u0007unit\\u001f\""));
    assert!(rendered.contains("\"category\":\"back\\bfeed\\f\""));
    let parsed: serde_json::Value = serde_json::from_str(&rendered).unwrap();
    assert_eq!(parsed["sku"], serde_json::Value::String("quote\"backslash\\".to_string()));
    assert_eq!(parsed["title"], serde_json::Value::String("line\nreturn\rtab\t".to_string()));
    assert_eq!(parsed["brand"], serde_json::Value::String("bell\u{7}unit\u{1f}".to_string()));
    assert_eq!(parsed["category"], serde_json::Value::String("back\u{8}feed\u{c}".to_string()));
}

#[test]
fn canonical_empty_lists() {
    let product = Product {
        sku: "S".to_string(),
        title: "T".to_string(),
        brand: "B".to_string(),
        category: "C".to_string(),
        description: "".to_string(),
        attributes: vec![],
        images: vec![],
    };
    assert_eq!(
        canonical_json(&product),
        "{\"attributes\":[],\"brand\":\"B\",\"category\":\"C\",\"description\":\"\",\"images\":[],\"sku\":\"S\",\"title\":\"T\"}"
    );
}

#[test]
fn identity_is_deterministic() {
    let a = sample_product();
    let b = sample_product();
    assert_eq!(derive_identity(&a), derive_identity(&b));
    let mut c = sample_product();
    c.sku = "LACEFRONT-28".to_string();
    assert_ne!(derive_identity(&a), derive_identity(&c));
}

#[test]
fn identity_matches_name_digest_of_canonical_form() {
    let product = sample_product();
    let expected = uuid::Uuid::new_v5(
        &uuid::Uuid::NAMESPACE_URL,
        canonical_json(&product).as_bytes(),
    )
    .as_u128();
    assert_eq!(derive_identity(&product), expected);
}
