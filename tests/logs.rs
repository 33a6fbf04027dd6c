use kube_snapshot::json::Json;
use kube_snapshot::kubernetes::ComponentKind;
use kube_snapshot::logs::{
    classify, component_logs, filter_logs_by_level, level_from_lowercase, level_priority,
    load_pod_logs, load_service_logs, parse_json_logs, parse_single_json_log,
    parse_single_text_log, parse_text_logs, search_logs, sort_newest_first, text_component_logs,
    LogEntry, LogLevel,
};

fn entry(ts: &str, level: LogLevel, msg: &str) -> LogEntry {
    LogEntry {
        timestamp: ts.to_string(),
        level,
        message: msg.to_string(),
        source: "app".to_string(),
    }
}

#[test]
fn level_names_in_any_case() {
    assert_eq!(LogLevel::from_str("ERROR"), LogLevel::Error);
    assert_eq!(LogLevel::from_str("Err"), LogLevel::Error);
    assert_eq!(LogLevel::from_str("FATAL"), LogLevel::Error);
    assert_eq!(LogLevel::from_str("W"), LogLevel::Warning);
    assert_eq!(LogLevel::from_str("Warning"), LogLevel::Warning);
    assert_eq!(LogLevel::from_str("information"), LogLevel::Info);
    assert_eq!(LogLevel::from_str("I"), LogLevel::Info);
    assert_eq!(LogLevel::from_str("DBG"), LogLevel::Debug);
    assert_eq!(LogLevel::from_str("d"), LogLevel::Debug);
    assert_eq!(LogLevel::from_str("trace"), LogLevel::Debug);
}

#[test]
fn level_keywords_inside_names() {
    assert_eq!(LogLevel::from_str("job-Failed-twice"), LogLevel::Error);
    assert_eq!(LogLevel::from_str("xwarnx"), LogLevel::Warning);
    assert_eq!(LogLevel::from_str("INFOS"), LogLevel::Info);
    assert_eq!(LogLevel::from_str("tracer"), LogLevel::Debug);
    assert_eq!(LogLevel::from_str("notice"), LogLevel::Info);
    assert_eq!(LogLevel::from_str(""), LogLevel::Info);
}

#[test]
fn level_from_lowercase_is_case_sensitive() {
    assert_eq!(level_from_lowercase("error"), LogLevel::Error);
    assert_eq!(level_from_lowercase("ERROR"), LogLevel::Info);
    assert_eq!(level_from_lowercase("dbg"), LogLevel::Debug);
}

#[test]
fn level_names_and_markers() {
    assert_eq!(LogLevel::Error.to_string(), "ERROR");
    assert_eq!(LogLevel::Warning.to_string(), "WARN");
    assert_eq!(LogLevel::Info.to_string(), "INFO");
    assert_eq!(LogLevel::Debug.to_string(), "DEBUG");
    assert_eq!(LogLevel::Error.color_code(), "\u{1f534}");
    assert_eq!(LogLevel::Debug.color_code(), "\u{26aa}");
    assert_eq!(level_priority(&LogLevel::Debug), 0);
    assert_eq!(level_priority(&LogLevel::Error), 3);
}

#[test]
fn bracketed_level_line() {
    let e = parse_single_text_log("[ERROR] plugin/foo: boom", 0);
    assert_eq!(e.level, LogLevel::Error);
    assert_eq!(e.message, "plugin/foo: boom");
    assert_eq!(e.source, "kubernetes");
    assert_eq!(e.timestamp, "line-1");
}

#[test]
fn bracketed_level_tag_at_the_end_keeps_the_line() {
    let e = parse_single_text_log("something happened [WARN]", 4);
    assert_eq!(e.level, LogLevel::Warning);
    assert_eq!(e.message, "something happened [WARN]");
    assert_eq!(e.timestamp, "line-5");
}

#[test]
fn bracketed_trace_is_debug() {
    let e = parse_single_text_log("x [TRACE]   details here  ", 9);
    assert_eq!(e.level, LogLevel::Debug);
    assert_eq!(e.message, "details here");
    assert_eq!(e.timestamp, "line-10");
}

#[test]
fn container_stderr_line() {
    let e = parse_single_text_log("2024-01-01T00:00:00Z stderr F something broke", 0);
    assert_eq!(e.level, LogLevel::Error);
    assert_eq!(e.message, "something broke");
    assert_eq!(e.source, "container");
    assert_eq!(e.timestamp, "2024-01-01T00:00:00Z");
}

#[test]
fn container_stdout_line() {
    let e = parse_single_text_log("2024-01-01T00:00:00.5Z stdout P all good here", 0);
    assert_eq!(e.level, LogLevel::Info);
    assert_eq!(e.message, "all good here");
    assert_eq!(e.timestamp, "2024-01-01T00:00:00.5Z");
}

#[test]
fn iso_timestamp_line() {
    let e = parse_single_text_log("2024-01-01T10:00:00Z WARNING: disk almost full", 7);
    assert_eq!(e.timestamp, "2024-01-01T10:00:00Z");
    assert_eq!(e.level, LogLevel::Warning);
    assert_eq!(e.message, "disk almost full");
    assert_eq!(e.source, "app");
}

#[test]
fn bracket_timestamp_line() {
    let e = parse_single_text_log("[2024-01-01 10:00:00] ERROR: Message here", 0);
    assert_eq!(e.timestamp, "2024-01-01 10:00:00");
    assert_eq!(e.level, LogLevel::Error);
    assert_eq!(e.message, "Message here");
    assert_eq!(e.source, "app");
}

#[test]
fn keyword_anywhere_in_line() {
    let e = parse_single_text_log("the request failed", 2);
    assert_eq!(e.level, LogLevel::Error);
    assert_eq!(e.message, "the request failed");
    assert_eq!(e.source, "raw");
    assert_eq!(e.timestamp, "line-3");
    let d = parse_single_text_log("a debug note", 0);
    assert_eq!(d.level, LogLevel::Debug);
}

#[test]
fn plain_line_falls_back_to_info() {
    let e = parse_single_text_log("hello world", 11);
    assert_eq!(e.level, LogLevel::Info);
    assert_eq!(e.message, "hello world");
    assert_eq!(e.source, "raw");
    assert_eq!(e.timestamp, "line-12");
}

#[test]
fn text_log_skips_blank_lines_but_counts_them() {
    let es = parse_text_logs("first line\n\n   \r\nthird error\r\nlast");
    assert_eq!(es.len(), 3);
    assert_eq!(es[0].timestamp, "line-1");
    assert_eq!(es[0].message, "first line");
    assert_eq!(es[1].timestamp, "line-4");
    assert_eq!(es[1].message, "third error");
    assert_eq!(es[1].level, LogLevel::Error);
    assert_eq!(es[2].timestamp, "line-5");
}

#[test]
fn empty_text_log() {
    assert!(parse_text_logs("").is_empty());
    assert!(parse_text_logs("\n\n").is_empty());
}

#[test]
fn json_object_log_round_trip() {
    let es = classify(r#"{"timestamp":"t1","level":"ERROR","message":"m1","source":"s1"}"#).unwrap();
    assert_eq!(es.len(), 1);
    assert_eq!(es[0].level, LogLevel::Error);
    assert_eq!(es[0].message, "m1");
    assert_eq!(es[0].source, "s1");
    assert_eq!(es[0].timestamp, "t1");
}

#[test]
fn json_array_log_with_aliases_and_defaults() {
    let es = classify(
        r#"[{"time":"t2","severity":"warn","msg":"m2","logger":"l2"},
            {"@timestamp":"t3","loglevel":"debug","text":"m3","component":"c3"},
            {"level": 5},
            7]"#,
    )
    .unwrap();
    assert_eq!(es.len(), 4);
    assert_eq!(es[0].timestamp, "t2");
    assert_eq!(es[0].level, LogLevel::Warning);
    assert_eq!(es[0].message, "m2");
    assert_eq!(es[0].source, "l2");
    assert_eq!(es[1].timestamp, "t3");
    assert_eq!(es[1].level, LogLevel::Debug);
    assert_eq!(es[1].message, "m3");
    assert_eq!(es[1].source, "c3");
    for e in &es[2..] {
        assert_eq!(e.timestamp, "unknown");
        assert_eq!(e.level, LogLevel::Info);
        assert_eq!(e.message, "No message");
        assert_eq!(e.source, "unknown");
    }
}

#[test]
fn json_scalar_is_not_a_log() {
    assert!(classify("42").is_err());
    assert!(classify("\"just text\"").is_err());
    assert!(parse_json_logs(&Json::Null).is_err());
}

#[test]
fn json_entry_from_built_record() {
    let rec = Json::Object(vec![
        ("msg".to_string(), Json::Str("from msg".to_string())),
        ("message".to_string(), Json::Number(Some(3))),
        ("level".to_string(), Json::Str("Error".to_string())),
    ]);
    let e = parse_single_json_log(&rec);
    assert_eq!(e.message, "from msg");
    assert_eq!(e.level, LogLevel::Error);
    let es = parse_json_logs(&Json::Array(vec![rec])).unwrap();
    assert_eq!(es.len(), 1);
}

#[test]
fn malformed_json_is_read_as_text() {
    let es = classify("{not json\nERROR here").unwrap();
    assert_eq!(es.len(), 2);
    assert_eq!(es[1].level, LogLevel::Error);
}

#[test]
fn newest_first_is_stable() {
    let es = vec![
        entry("b", LogLevel::Info, "1"),
        entry("c", LogLevel::Info, "2"),
        entry("a", LogLevel::Info, "3"),
        entry("b", LogLevel::Info, "4"),
        entry("c", LogLevel::Info, "5"),
    ];
    let sorted = sort_newest_first(es);
    let order: Vec<&str> = sorted.iter().map(|e| e.message.as_str()).collect();
    assert_eq!(order, vec!["2", "5", "1", "4", "3"]);
}

#[test]
fn component_logs_sorts_and_counts() {
    let content = "2024-01-01T00:00:01Z INFO: one\n2024-01-01T00:00:03Z ERROR: three\n2024-01-01T00:00:02Z WARN: two\n";
    let logs = component_logs("api", ComponentKind::Pod, "default", content).unwrap();
    assert_eq!(logs.total_entries, 3);
    assert_eq!(logs.component_name, "api");
    assert_eq!(logs.namespace, "default");
    assert_eq!(logs.component_type, ComponentKind::Pod);
    let msgs: Vec<&str> = logs.entries.iter().map(|e| e.message.as_str()).collect();
    assert_eq!(msgs, vec!["three", "two", "one"]);
    assert_eq!(logs.get_error_count(), 1);
    assert_eq!(logs.get_warning_count(), 1);
    assert_eq!(logs.get_recent_logs(2).len(), 2);
    assert_eq!(logs.get_recent_logs(10).len(), 3);
    assert_eq!(logs.get_recent_logs(1)[0].message, "three");
}

#[test]
fn pod_and_service_logs() {
    let pod = load_pod_logs("ns", "web-1", "[INFO] started").unwrap();
    assert_eq!(pod.component_type, ComponentKind::Pod);
    assert_eq!(pod.entries[0].message, "started");
    let svc = load_service_logs("ns", "front", r#"{"message":"hi"}"#).unwrap();
    assert_eq!(svc.component_type, ComponentKind::Service);
    assert_eq!(svc.entries[0].message, "hi");
    assert!(load_pod_logs("ns", "web-1", "true").is_err());
}

#[test]
fn text_only_component_logs() {
    let logs = text_component_logs("x", ComponentKind::Deployment, "ns", r#"{"message":"raw"}"#);
    assert_eq!(logs.total_entries, 1);
    assert_eq!(logs.entries[0].message, r#"{"message":"raw"}"#);
}

#[test]
fn filter_and_search() {
    let logs = component_logs(
        "c",
        ComponentKind::Component,
        "ns",
        "[DEBUG] d1\n[INFO] Alpha info\n[WARN] w1\n[ERROR] e1 ALPHA",
    )
    .unwrap();
    let warn_up = filter_logs_by_level(&logs, &LogLevel::Warning);
    assert_eq!(warn_up.len(), 2);
    assert!(warn_up.iter().all(|e| e.level == LogLevel::Warning || e.level == LogLevel::Error));
    assert_eq!(filter_logs_by_level(&logs, &LogLevel::Debug).len(), 4);
    let found = search_logs(&logs, "alpha");
    assert_eq!(found.len(), 2);
    assert_eq!(search_logs(&logs, "KUBERNETES").len(), 4);
    assert_eq!(search_logs(&logs, "zzz").len(), 0);
}

#[test]
fn one_object_log_file_gives_one_entry() {
    let logs = component_logs(
        "api",
        ComponentKind::Pod,
        "ns",
        r#"{"timestamp":"t1","level":"ERROR","message":"m1","source":"s1"}"#,
    )
    .unwrap();
    assert_eq!(logs.entries.len(), 1);
    assert_eq!(logs.total_entries, 1);
    assert_eq!(logs.entries[0].level, LogLevel::Error);
    assert_eq!(logs.entries[0].message, "m1");
    assert_eq!(logs.entries[0].source, "s1");
    assert_eq!(logs.entries[0].timestamp, "t1");
}
