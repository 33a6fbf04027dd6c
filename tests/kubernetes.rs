use kube_snapshot::app::{App, Screen};
use kube_snapshot::kubernetes::{
    analyze_cluster, check_deployment, check_pod, list_namespaces, parse_deployments, parse_pods,
    ComponentKind, DeploymentInfo, IssueSeverity, NamespaceData, PodInfo,
};

fn pod(name: &str, status: &str, ready: bool) -> PodInfo {
    PodInfo {
        name: name.to_string(),
        status: status.to_string(),
        ready,
        cpu_usage: None,
        memory_usage: None,
        restart_count: None,
        image: None,
    }
}

fn deployment(name: &str, ready: u32, desired: u32) -> DeploymentInfo {
    DeploymentInfo {
        name: name.to_string(),
        ready_replicas: ready,
        desired_replicas: desired,
        strategy: None,
        image: None,
    }
}

fn data(name: &str, pods: Vec<PodInfo>, deployments: Vec<DeploymentInfo>) -> NamespaceData {
    NamespaceData { name: name.to_string(), pods, deployments }
}

const PODS: &str = r#"{"items":[
  {"metadata":{"name":"web-1"},"status":{"phase":"Running",
     "conditions":[{"type":"Initialized","status":"True"},{"type":"Ready","status":"True"}],
     "containerStatuses":[{"restartCount":4},{"restartCount":9}]},
   "usage":{"cpu":"10m","memory":"64Mi"},
   "spec":{"containers":[{"image":"nginx:1.25"},{"image":"sidecar"}]}},
  {"metadata":{"name":"web-2"},"status":{"phase":"Pending",
     "conditions":[{"type":"Ready","status":"False"},{"type":"Ready","status":"True"}]}},
  {"metadata":{"name":"web-3"},"status":{"phase":"Pending",
     "conditions":[{"type":"Ready","status":"False"},{"type":"Scheduled","status":"True"}]}},
  {"metadata":{"name":"web-4"},"status":{"phase":"Running","conditions":"none"}},
  {"metadata":{},"status":{"phase":"Running"}},
  {"metadata":{"name":"no-phase"},"status":{}}
]}"#;

#[test]
fn pods_from_snapshot_file() {
    let pods = parse_pods(PODS).unwrap();
    assert_eq!(pods.len(), 4);
    let p = &pods[0];
    assert_eq!(p.name, "web-1");
    assert_eq!(p.status, "Running");
    assert!(p.ready);
    assert_eq!(p.cpu_usage.as_deref(), Some("10m"));
    assert_eq!(p.memory_usage.as_deref(), Some("64Mi"));
    assert_eq!(p.restart_count.as_deref(), Some("4"));
    assert_eq!(p.image.as_deref(), Some("nginx:1.25"));
    let q = &pods[1];
    assert_eq!(q.name, "web-2");
    assert!(q.ready);
    assert_eq!(pods[2].name, "web-3");
    assert!(!pods[2].ready);
    assert!(!pods[3].ready);
    assert_eq!(q.restart_count, None);
    assert_eq!(q.image, None);
}

#[test]
fn pods_without_item_list() {
    assert!(parse_pods(r#"{"kind":"List"}"#).unwrap().is_empty());
    assert!(parse_pods(r#"{"items":{}}"#).unwrap().is_empty());
    assert!(parse_pods("{broken").is_err());
}

#[test]
fn deployments_from_snapshot_file() {
    let ds = parse_deployments(
        r#"{"items":[
          {"metadata":{"name":"api"},"status":{"readyReplicas":2},
           "spec":{"replicas":3,"strategy":{"type":"RollingUpdate"},
                   "template":{"spec":{"containers":[{"image":"repo/api:v2"}]}}}},
          {"metadata":{"name":"idle"},"spec":{"replicas":-1}},
          {"metadata":{"name":"huge"},"spec":{"replicas":4294967301}},
          {"status":{"readyReplicas":1}}
        ]}"#,
    )
    .unwrap();
    assert_eq!(ds.len(), 3);
    assert_eq!(ds[0].name, "api");
    assert_eq!(ds[0].ready_replicas, 2);
    assert_eq!(ds[0].desired_replicas, 3);
    assert_eq!(ds[0].strategy.as_deref(), Some("RollingUpdate"));
    assert_eq!(ds[0].image.as_deref(), Some("repo/api:v2"));
    assert_eq!(ds[1].ready_replicas, 0);
    assert_eq!(ds[1].desired_replicas, 0);
    assert_eq!(ds[2].desired_replicas, 5);
    assert!(parse_deployments("").is_err());
}

#[test]
fn deployment_issue_severities() {
    let critical = check_deployment("ns", &deployment("a", 0, 3)).unwrap();
    assert_eq!(critical.severity, IssueSeverity::Critical);
    assert_eq!(critical.component_type, ComponentKind::Deployment);
    assert_eq!(critical.description, "Deployment a has 0/3 replicas ready");
    let warning = check_deployment("ns", &deployment("a", 2, 3)).unwrap();
    assert_eq!(warning.severity, IssueSeverity::Warning);
    assert!(check_deployment("ns", &deployment("a", 3, 3)).is_none());
    let analysis = analyze_cluster(vec![data(
        "ns",
        vec![],
        vec![deployment("a", 0, 3), deployment("b", 2, 3), deployment("c", 3, 3)],
    )]);
    let issues = &analysis.namespaces[0].issues;
    assert_eq!(issues.len(), 2);
    assert_eq!(issues[0].severity, IssueSeverity::Critical);
    assert_eq!(issues[0].component, "a");
    assert_eq!(issues[1].severity, IssueSeverity::Warning);
    assert_eq!(issues[1].component, "b");
}

#[test]
fn pod_issues() {
    assert!(check_pod("ns", &pod("ok", "Running", true)).is_none());
    let i = check_pod("ns", &pod("p", "Pending", true)).unwrap();
    assert_eq!(i.severity, IssueSeverity::Warning);
    assert_eq!(i.namespace, "ns");
    assert_eq!(i.description, "Pod p is not ready or not running (status: Pending)");
    assert!(check_pod("ns", &pod("q", "Running", false)).is_some());
}

#[test]
fn analysis_orders_namespaces_and_sums() {
    let analysis = analyze_cluster(vec![
        data("zeta", vec![pod("z1", "Failed", false)], vec![deployment("zd", 1, 1)]),
        data("alpha", vec![pod("a1", "Running", true), pod("a2", "Running", true)], vec![]),
        data("mid", vec![], vec![deployment("md", 0, 2)]),
    ]);
    let names: Vec<&str> = analysis.namespaces.iter().map(|n| n.name.as_str()).collect();
    assert_eq!(names, vec!["alpha", "mid", "zeta"]);
    assert_eq!(analysis.total_pods, 3);
    assert_eq!(analysis.total_deployments, 2);
    assert_eq!(analysis.total_issues, 2);
    assert_eq!(analysis.namespaces[2].issues[0].component, "z1");
}

#[test]
fn empty_snapshot_analysis() {
    let analysis = analyze_cluster(vec![]);
    assert!(analysis.namespaces.is_empty());
    assert_eq!(analysis.total_pods, 0);
    assert_eq!(analysis.total_issues, 0);
}

#[test]
fn namespace_list_counts_and_selection() {
    let list = list_namespaces(vec![
        data("b", vec![pod("pa", "Running", true)], vec![]),
        data("a", vec![pod("pb", "Running", true), pod("pc", "Running", true)], vec![deployment("d", 1, 1)]),
        data("c", vec![], vec![]),
    ]);
    assert_eq!(list.len(), 3);
    assert_eq!(list[0].name, "a");
    assert_eq!(list[0].pod_count, 2);
    assert_eq!(list[0].deployment_count, 1);
    assert_eq!(list[1].name, "b");
    assert_eq!(list[1].pod_count, 1);
    assert_eq!(list[2].name, "c");
    assert_eq!(list[2].pod_count, 0);
    assert_eq!(list[2].deployment_count, 0);
    let mut app = App::new(list);
    app.current_screen = Screen::NamespaceList;
    assert_eq!(app.get_list_length(), 3);
}
