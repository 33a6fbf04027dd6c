use kube_snapshot::json::Json;
use kube_snapshot::kubernetes::ComponentKind;
use kube_snapshot::logs::{component_logs, search_logs};

fn record() -> Json {
    Json::Object(vec![
        ("name".to_string(), Json::Str("x".to_string())),
        ("count".to_string(), Json::Number(Some(12))),
        ("list".to_string(), Json::Array(vec![Json::Null, Json::Bool(true)])),
        ("name".to_string(), Json::Str("second".to_string())),
    ])
}

#[test]
fn member_lookup_takes_the_first() {
    let r = record();
    assert_eq!(r.text_at("name").map(|s| s.as_str()), Some("x"));
    assert_eq!(r.get("count").and_then(|v| v.as_u64()), Some(12));
    assert_eq!(r.get("missing").is_none(), true);
    assert_eq!(r.get("list").and_then(|v| v.as_array()).map(|a| a.len()), Some(2));
    assert!(r.text_at("count").is_none());
    assert!(Json::Null.get("name").is_none());
    assert!(Json::Number(None).as_u64().is_none());
    assert_eq!(Json::Str("s".to_string()).as_str().map(|s| s.as_str()), Some("s"));
}

#[test]
fn kind_names() {
    assert_eq!(ComponentKind::Pod.name(), "Pod");
    assert_eq!(ComponentKind::Deployment.name(), "Deployment");
    assert_eq!(ComponentKind::Service.name(), "Service");
    assert_eq!(ComponentKind::Component.name(), "Component");
}

#[test]
fn search_query_case_is_ignored() {
    let logs = component_logs("c", ComponentKind::Pod, "ns", "[INFO] Alpha\n[INFO] beta").unwrap();
    assert_eq!(search_logs(&logs, "ALPHA").len(), 1);
    assert_eq!(search_logs(&logs, "").len(), 2);
}
