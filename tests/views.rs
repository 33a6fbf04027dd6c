use kube_snapshot::details::{
    calculate_selectable_index, create_deployment_detail_lines, create_pod_detail_lines,
    determine_component_type, restarted, truncate_message, truncate_timestamp,
};
use kube_snapshot::error::AppError;
use kube_snapshot::kubernetes::{ComponentKind, DeploymentInfo, PodInfo};
use kube_snapshot::source::{
    candidate_paths, component_log_files, extension_of, is_log_file, owning_pod,
};

#[test]
fn candidate_paths_in_order() {
    let paths = candidate_paths("ns", "web", ComponentKind::Pod);
    assert_eq!(
        paths,
        vec![
            "ns/web/logs.txt",
            "ns/web/logs.txt",
            "ns/web/log.txt",
            "ns/logs/web.log",
            "ns/logs/web.txt",
            "ns/web-logs.txt",
            "ns/pod-web/logs.txt",
        ]
    );
    let svc = candidate_paths("ns", "front", ComponentKind::Service);
    assert_eq!(svc[0], "ns/services/front/logs.json");
    assert_eq!(svc[6], "ns/service-front/logs.txt");
    assert_eq!(candidate_paths("n", "d", ComponentKind::Deployment)[6], "n/deployment-d/logs.txt");
}

#[test]
fn marker_files() {
    assert_eq!(component_log_files(), vec!["logs.txt", "log.txt", "logs.json"]);
}

#[test]
fn extensions() {
    assert_eq!(extension_of("a.txt").as_deref(), Some("txt"));
    assert_eq!(extension_of("a.b.log").as_deref(), Some("log"));
    assert_eq!(extension_of(".txt"), None);
    assert_eq!(extension_of("noext"), None);
    assert_eq!(extension_of("trailing.").as_deref(), Some(""));
    assert!(is_log_file("out.log"));
    assert!(is_log_file("out.txt"));
    assert!(!is_log_file("out.json"));
    assert!(!is_log_file(".log"));
}

#[test]
fn owning_pod_by_prefix() {
    let dirs = vec!["db-0".to_string(), "api-7f9c-x2".to_string(), "api".to_string()];
    assert_eq!(owning_pod(&dirs, "api"), Some(1));
    assert_eq!(owning_pod(&dirs, "db"), Some(0));
    assert_eq!(owning_pod(&dirs, "cache"), None);
    assert_eq!(owning_pod(&vec![], "api"), None);
}

#[test]
fn selectable_index_of_rows() {
    let rows = vec![
        ("header".to_string(), false),
        ("a".to_string(), true),
        ("b".to_string(), true),
        ("".to_string(), false),
        ("header".to_string(), false),
        ("c".to_string(), true),
    ];
    assert_eq!(calculate_selectable_index(&rows, 1), 0);
    assert_eq!(calculate_selectable_index(&rows, 2), 1);
    assert_eq!(calculate_selectable_index(&rows, 5), 2);
    assert_eq!(calculate_selectable_index(&rows, 6), 0);
}

#[test]
fn component_type_by_name() {
    assert_eq!(determine_component_type("coredns-5d78c9869d-abcde"), "Pod");
    assert_eq!(determine_component_type("my-pod"), "Pod");
    assert_eq!(determine_component_type("web-deploy"), "Deployment");
    assert_eq!(determine_component_type("svc"), "Service");
    assert_eq!(determine_component_type("cert-manager"), "Manager");
    assert_eq!(determine_component_type("controller"), "Controller");
    assert_eq!(determine_component_type("operator"), "Operator");
    assert_eq!(determine_component_type("etcd"), "Component");
}

#[test]
fn shortened_fields() {
    assert_eq!(truncate_timestamp("2024-01-01T10:00:00.123456Z"), "2024-01-01 10:00:00");
    assert_eq!(truncate_timestamp("line-12"), "line-12");
    assert_eq!(truncate_timestamp("abcdefghijklmnopqrstuvwxyz"), "abcdefghijklmnopqrs");
    assert_eq!(truncate_message("short", 10), "short");
    assert_eq!(truncate_message("0123456789abc", 10), "0123456...");
    assert_eq!(truncate_message("ab", 2), "ab");
    assert_eq!(truncate_message("", 0), "");
}

#[test]
fn restart_counts() {
    assert!(restarted("3"));
    assert!(restarted("+3"));
    assert!(!restarted("0"));
    assert!(!restarted("-2"));
    assert!(!restarted("x"));
    assert!(!restarted(""));
    assert!(restarted("2147483647"));
    assert!(!restarted("2147483648"));
}

#[test]
fn pod_detail_lines() {
    let pod = PodInfo {
        name: "web".to_string(),
        status: "Pending".to_string(),
        ready: false,
        cpu_usage: Some("5m".to_string()),
        memory_usage: None,
        restart_count: Some("2".to_string()),
        image: Some("nginx".to_string()),
    };
    let lines = create_pod_detail_lines(&pod, "ns");
    assert_eq!(lines[2], "Name: web");
    assert_eq!(lines[3], "Namespace: ns");
    assert_eq!(lines[4], "Status: \u{1f534} Pending");
    assert_eq!(lines[5], "Ready: \u{274c} No");
    assert_eq!(lines[8], "CPU Usage: 5m");
    assert_eq!(lines[9], "Memory Usage: Not available");
    assert_eq!(lines[10], "Restart Count: \u{26a0}\u{fe0f} 2");
    assert_eq!(lines[13], "Image: nginx");
    assert_eq!(lines[16], "Overall Health: \u{1f534} Unhealthy");
    assert_eq!(lines[17], "Issue: Pod is not ready to serve traffic");
    assert_eq!(lines[18], "Issue: Pod status is 'Pending' instead of 'Running'");
    assert_eq!(lines.len(), 22);
    assert_eq!(lines[21], "Pod object loaded from namespace: ns");
}

#[test]
fn deployment_detail_lines() {
    let d = DeploymentInfo {
        name: "api".to_string(),
        ready_replicas: 2,
        desired_replicas: 3,
        strategy: Some("RollingUpdate".to_string()),
        image: Some("registry.io/team/api:v1.2".to_string()),
    };
    let lines = create_deployment_detail_lines(&d, "prod", "66.7");
    assert_eq!(lines[4], "Replicas: \u{1f534} 2/3");
    assert_eq!(lines[5], "Availability: 66.7%");
    assert_eq!(lines[8], "Update Strategy: RollingUpdate");
    assert_eq!(lines[11], "Image: registry.io/team/api:v1.2");
    assert_eq!(lines[12], "  Image Name: api");
    assert_eq!(lines[13], "  Tag: v1.2");
    assert_eq!(lines[16], "Overall Health: \u{1f534} Unhealthy");
    assert_eq!(lines[17], "Issue: Only 2/3 replicas are ready (partial outage)");
    let zero = DeploymentInfo { ready_replicas: 0, desired_replicas: 0, image: None, ..d };
    let lines = create_deployment_detail_lines(&zero, "prod", "");
    assert_eq!(lines[4], "Replicas: \u{26aa} 0/0");
    assert_eq!(lines[5], "Availability: N/A (scaled to 0)");
    assert_eq!(lines[11], "Image: Not available");
    assert_eq!(lines[14], "Overall Health: \u{26aa} Scaled to Zero");
}

#[test]
fn error_messages() {
    assert_eq!(AppError::Io("disk".to_string()).message(), "IO error: disk");
    assert_eq!(AppError::Parse("bad".to_string()).message(), "Parse error: bad");
    assert_eq!(AppError::NotFound("x".to_string()).message(), "Not found: x");
    assert_eq!(AppError::Terminated.message(), "exit");
}
