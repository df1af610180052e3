use two_key_core::error::ErrorCode;
use two_key_core::json::{parse_json, JsonValue};
use two_key_core::plan::Plan;

fn obj(text: &str) -> JsonValue {
    parse_json(text.as_bytes()).unwrap()
}

#[test]
fn plan_reads_camel_case_and_defaults() {
    let v = obj(r#"{"id":"42","productId":7.9,"name":"Pro","billingInterval":"monthly","basePrice":9.5,
        "currency":"EUR","featuresJson":{"features":["a",1,"b"]},"addonCode":"pro"}"#);
    let p = Plan::from_value(&v).ok().unwrap();
    assert_eq!(p.id, 42);
    assert_eq!(p.product_id, 7);
    assert_eq!(p.name, "Pro");
    assert_eq!(p.billing_interval, "monthly");
    assert_eq!(p.base_price.text, "9.5");
    assert_eq!(p.currency, "EUR");
    assert_eq!(p.features, vec!["a".to_string(), "b".to_string()]);
    assert!(p.features_json.is_some());
    assert_eq!(p.addon_code.as_deref(), Some("pro"));
    assert!(p.is_active);
    assert!(p.description.is_none());
}

#[test]
fn plan_requires_its_members() {
    let e = Plan::from_value(&obj(r#"{"billing_interval":"annual","base_price":1,"currency":"USD"}"#)).err().unwrap();
    assert_eq!(e.code, ErrorCode::InvalidResponse);
    assert_eq!(e.message, "plan.name required");
    let e = Plan::from_value(&obj(r#"{"name":"x","billing_interval":"annual","base_price":"1","currency":"USD"}"#))
        .err()
        .unwrap();
    assert_eq!(e.message, "plan.base_price required");
    let e = Plan::from_value(&obj("[1]")).err().unwrap();
    assert_eq!(e.message, "plan must be an object");
    let p = Plan::from_value(&obj(
        r#"{"id":-3,"name":"x","billing_interval":"annual","base_price":1,"currency":"USD","features":["f"],"is_active":false}"#,
    ))
    .ok()
    .unwrap();
    assert_eq!(p.id, -3);
    assert_eq!(p.features, vec!["f".to_string()]);
    assert!(!p.is_active);
}
