use kube_snapshot::app::{selectable_components, Action, App, Key, Screen};
use kube_snapshot::kubernetes::{
    analyze_cluster, ComponentKind, DeploymentInfo, NamespaceData, NamespaceInfo, PodInfo,
};
use kube_snapshot::logs::{component_logs, LogLevel};

fn pod(name: &str) -> PodInfo {
    PodInfo {
        name: name.to_string(),
        status: "Running".to_string(),
        ready: true,
        cpu_usage: None,
        memory_usage: None,
        restart_count: None,
        image: None,
    }
}

fn deployment(name: &str) -> DeploymentInfo {
    DeploymentInfo {
        name: name.to_string(),
        ready_replicas: 1,
        desired_replicas: 1,
        strategy: None,
        image: None,
    }
}

fn info(name: &str) -> NamespaceInfo {
    NamespaceInfo { name: name.to_string(), pod_count: 0, deployment_count: 0 }
}

fn analysed_app() -> App {
    let analysis = analyze_cluster(vec![
        NamespaceData { name: "b".to_string(), pods: vec![pod("b-pod")], deployments: vec![] },
        NamespaceData {
            name: "a".to_string(),
            pods: vec![pod("a-pod-1"), pod("a-pod-2")],
            deployments: vec![deployment("a-dep")],
        },
    ]);
    let mut app = App::new(vec![info("a"), info("b")]);
    app.show_cluster_analysis(analysis);
    app
}

#[test]
fn starts_at_main_menu() {
    let app = App::new(vec![]);
    assert_eq!(app.current_screen, Screen::MainMenu);
    assert_eq!(app.list_state, Some(0));
    assert_eq!(app.get_list_length(), 5);
    assert_eq!(app.get_main_menu_items().len(), 5);
}

#[test]
fn advance_and_retreat_cancel() {
    let mut app = App::new(vec![]);
    for start in 0..5 {
        app.list_state = Some(start);
        app.next();
        app.previous();
        assert_eq!(app.list_state, Some(start));
        app.previous();
        app.next();
        assert_eq!(app.list_state, Some(start));
    }
    app.list_state = Some(4);
    app.next();
    assert_eq!(app.list_state, Some(0));
    app.previous();
    assert_eq!(app.list_state, Some(4));
    app.list_state = Some(7);
    app.next();
    assert_eq!(app.list_state, Some(3));
}

#[test]
fn empty_list_keeps_selection() {
    let mut app = App::new(vec![]);
    app.current_screen = Screen::PodsList;
    app.list_state = None;
    app.next();
    assert_eq!(app.list_state, None);
    app.previous();
    assert_eq!(app.list_state, None);
    app.current_screen = Screen::NamespaceList;
    app.list_state = Some(0);
    app.next();
    assert_eq!(app.list_state, Some(0));
}

#[test]
fn toggle_filter_sets_and_clears() {
    let mut app = App::new(vec![]);
    app.logs_scroll_state = Some(5);
    app.toggle_log_filter(LogLevel::Error);
    assert_eq!(app.log_filter, Some(LogLevel::Error));
    assert_eq!(app.logs_scroll_state, Some(0));
    app.logs_scroll_state = Some(3);
    app.toggle_log_filter(LogLevel::Warning);
    assert_eq!(app.log_filter, Some(LogLevel::Warning));
    assert_eq!(app.logs_scroll_state, Some(0));
    app.logs_scroll_state = Some(2);
    app.toggle_log_filter(LogLevel::Warning);
    assert_eq!(app.log_filter, None);
    assert_eq!(app.logs_scroll_state, Some(0));
}

#[test]
fn back_from_component_details() {
    let mut app = App::new(vec![]);
    app.current_screen = Screen::ComponentDetails;
    app.selected_component = Some(("p".to_string(), ComponentKind::Pod));
    app.list_state = Some(2);
    app.back();
    assert_eq!(app.current_screen, Screen::PodsList);
    assert!(app.selected_component.is_none());
    assert_eq!(app.list_state, Some(0));

    app.current_screen = Screen::ComponentDetails;
    app.selected_component = Some(("d".to_string(), ComponentKind::Deployment));
    app.back();
    assert_eq!(app.current_screen, Screen::DeploymentsList);
    assert!(app.selected_component.is_none());

    app.current_screen = Screen::ComponentDetails;
    app.selected_component = Some(("c".to_string(), ComponentKind::Component));
    app.back();
    assert_eq!(app.current_screen, Screen::ClusterAnalysis);

    app.current_screen = Screen::ComponentDetails;
    app.selected_component = None;
    app.back();
    assert_eq!(app.current_screen, Screen::ClusterAnalysis);
}

#[test]
fn back_transition_table() {
    let mut app = App::new(vec![]);
    app.current_screen = Screen::Capybara;
    app.show_capybara = true;
    app.back();
    assert_eq!(app.current_screen, Screen::MainMenu);
    assert!(!app.show_capybara);
    app.current_screen = Screen::LogsViewer;
    app.log_filter = Some(LogLevel::Info);
    app.current_logs = Some(component_logs("c", ComponentKind::Pod, "ns", "x").unwrap());
    app.back();
    assert_eq!(app.current_screen, Screen::LogsList);
    assert!(app.current_logs.is_none());
    assert!(app.log_filter.is_none());
    app.back();
    assert_eq!(app.current_screen, Screen::NamespaceDetails);
    app.back();
    assert_eq!(app.current_screen, Screen::NamespaceList);
}

#[test]
fn main_menu_selection() {
    let mut app = App::new(vec![info("a")]);
    assert!(matches!(app.select(), Action::AnalyzeCluster));
    assert_eq!(app.current_screen, Screen::MainMenu);
    app.list_state = Some(1);
    assert!(matches!(app.select(), Action::Nothing));
    assert_eq!(app.current_screen, Screen::NamespaceList);
    assert_eq!(app.get_list_length(), 1);
    let mut app = App::new(vec![]);
    app.list_state = Some(2);
    app.select();
    assert_eq!(app.current_screen, Screen::Capybara);
    assert!(app.show_capybara);
    let mut app = App::new(vec![]);
    app.list_state = Some(3);
    assert!(matches!(app.select(), Action::Nothing));
    assert_eq!(app.current_screen, Screen::MainMenu);
    app.list_state = Some(4);
    assert!(matches!(app.select(), Action::Exit));
}

#[test]
fn namespace_flow() {
    let mut app = App::new(vec![info("a"), info("b")]);
    app.current_screen = Screen::NamespaceList;
    app.list_state = Some(1);
    match app.select() {
        Action::LoadNamespace(ns) => assert_eq!(ns, "b"),
        _ => panic!("expected a namespace load"),
    }
    app.open_namespace("b".to_string(), vec![pod("pa"), pod("pb")], vec![deployment("d1")]);
    assert_eq!(app.current_screen, Screen::NamespaceDetails);
    assert_eq!(app.get_list_length(), 3);
    let items = app.get_namespace_details_items();
    assert_eq!(items[0], "\u{1f4e6} View Pods (2)");
    assert_eq!(items[1], "\u{1f680} View Deployments (1)");
    app.list_state = Some(1);
    app.select();
    assert_eq!(app.current_screen, Screen::DeploymentsList);
    assert_eq!(app.list_state, Some(0));
    app.select();
    assert_eq!(app.current_screen, Screen::ComponentDetails);
    assert_eq!(app.selected_component, Some(("d1".to_string(), ComponentKind::Deployment)));
    app.back();
    assert_eq!(app.current_screen, Screen::DeploymentsList);
}

#[test]
fn analysis_rows_skip_headers() {
    let app = analysed_app();
    let rows = selectable_components(&app.cluster_analysis.as_ref().unwrap().namespaces);
    let names: Vec<&str> = rows.iter().map(|r| r.0.as_str()).collect();
    assert_eq!(names, vec!["a-pod-1", "a-pod-2", "a-dep", "b-pod"]);
    assert_eq!(app.get_list_length(), 4);
}

#[test]
fn analysis_selection_picks_component() {
    let mut app = analysed_app();
    assert_eq!(app.current_screen, Screen::ClusterAnalysis);
    app.list_state = Some(2);
    assert!(matches!(app.select(), Action::Nothing));
    assert_eq!(app.current_screen, Screen::ComponentDetails);
    assert_eq!(app.selected_component, Some(("a-dep".to_string(), ComponentKind::Deployment)));
    app.list_state = Some(9);
    app.current_screen = Screen::ClusterAnalysis;
    app.select();
    assert_eq!(app.current_screen, Screen::ClusterAnalysis);
}

#[test]
fn details_scroll_over_analysis() {
    let mut app = analysed_app();
    app.current_screen = Screen::ComponentDetails;
    app.details_scroll_state = Some(3);
    app.handle_key(Key::Down);
    assert_eq!(app.details_scroll_state, Some(0));
    app.handle_key(Key::Up);
    assert_eq!(app.details_scroll_state, Some(3));
}

#[test]
fn jump_to_logs_finds_namespace() {
    let mut app = analysed_app();
    app.current_screen = Screen::ComponentDetails;
    app.selected_component = Some(("b-pod".to_string(), ComponentKind::Pod));
    match app.handle_key(Key::Char('l')) {
        Action::LoadLogs { namespace, component } => {
            assert_eq!(namespace, "b");
            assert_eq!(component, "b-pod");
        }
        _ => panic!("expected a log load"),
    }
    app.selected_component = Some(("b-pod".to_string(), ComponentKind::Deployment));
    assert!(matches!(app.handle_key(Key::Char('l')), Action::Nothing));
}

#[test]
fn logs_list_flow() {
    let mut app = App::new(vec![info("ns")]);
    app.open_namespace("ns".to_string(), vec![], vec![]);
    app.list_state = Some(2);
    app.select();
    assert_eq!(app.current_screen, Screen::LogsList);
    app.set_log_components(vec!["one".to_string(), "two".to_string()]);
    assert_eq!(app.get_list_length(), 2);
    app.handle_key(Key::Down);
    let action = app.handle_key(Key::Enter);
    let (namespace, component) = match action {
        Action::LoadLogs { namespace, component } => (namespace, component),
        _ => panic!("expected a log load"),
    };
    assert_eq!(namespace, "ns");
    assert_eq!(component, "two");
    assert_eq!(app.current_screen, Screen::LogsList);
    let logs = component_logs(&component, ComponentKind::Pod, &namespace, "[ERROR] x\n[INFO] y").unwrap();
    app.show_logs(namespace, component, logs);
    assert_eq!(app.current_screen, Screen::LogsViewer);
    assert_eq!(app.selected_component, Some(("two".to_string(), ComponentKind::Component)));
    app.handle_key(Key::Down);
    assert_eq!(app.logs_scroll_state, Some(1));
    app.handle_key(Key::Down);
    assert_eq!(app.logs_scroll_state, Some(0));
}

#[test]
fn log_viewer_filter_keys() {
    let mut app = App::new(vec![]);
    app.current_screen = Screen::LogsViewer;
    app.handle_key(Key::Char('f'));
    assert_eq!(app.log_filter, Some(LogLevel::Error));
    app.handle_key(Key::Char('f'));
    assert_eq!(app.log_filter, Some(LogLevel::Warning));
    app.handle_key(Key::Char('f'));
    app.handle_key(Key::Char('f'));
    assert_eq!(app.log_filter, Some(LogLevel::Debug));
    app.handle_key(Key::Char('f'));
    assert_eq!(app.log_filter, None);
    app.handle_key(Key::Char('w'));
    assert_eq!(app.log_filter, Some(LogLevel::Warning));
    app.handle_key(Key::Char('w'));
    assert_eq!(app.log_filter, None);
    app.handle_key(Key::Char('d'));
    app.handle_key(Key::Char('a'));
    assert_eq!(app.log_filter, None);
    app.current_screen = Screen::MainMenu;
    app.handle_key(Key::Char('e'));
    assert_eq!(app.log_filter, None);
}

#[test]
fn quit_and_escape() {
    let mut app = App::new(vec![]);
    assert!(matches!(app.handle_key(Key::Char('q')), Action::Exit));
    assert!(matches!(app.handle_key(Key::Esc), Action::Exit));
    app.current_screen = Screen::NamespaceList;
    assert!(matches!(app.handle_key(Key::Esc), Action::Nothing));
    assert_eq!(app.current_screen, Screen::MainMenu);
    assert!(matches!(app.handle_key(Key::Other), Action::Nothing));
}
