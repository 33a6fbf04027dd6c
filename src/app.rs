//! The navigation state machine: views, selections, and the transitions between them.
//!
//! Work that needs the snapshot on disk is not done here: a transition that needs it
//! returns an [`Action`], and the caller completes it with the data it read.
use vstd::arithmetic::div_mod::{
    lemma_add_mod_noop, lemma_mod_add_multiples_vanish, lemma_mod_self_0, lemma_small_mod,
};
use vstd::prelude::*;

use crate::kubernetes::{
    by_name, counts_match, lemma_by_name_contains, lemma_by_name_len, lists_namespaces,
    ClusterAnalysis, ComponentKind, DeploymentInfo, NamespaceAnalysis, NamespaceData,
    NamespaceInfo, PodInfo,
};
use crate::logs::{ComponentLogs, LogLevel};
use crate::text::{decimal, decimal_text, same_text};

verus! {

/// The views of the viewer.
#[derive(Debug, Clone, Copy, PartialEq, Eq, Structural)]
pub enum Screen {
    MainMenu,
    NamespaceList,
    NamespaceDetails,
    ClusterAnalysis,
    ComponentDetails,
    LogsList,
    LogsViewer,
    Capybara,
    PodsList,
    DeploymentsList,
}

/// A key press, as far as the viewer tells keys apart.
#[derive(Debug, Clone, Copy, PartialEq, Eq, Structural)]
pub enum Key {
    Char(char),
    Esc,
    Up,
    Down,
    Enter,
    Other,
}

/// What the caller has to do after a transition.
#[derive(Debug, Clone)]
pub enum Action {
    /// Nothing: the transition, if any, is complete.
    Nothing,
    /// The user asked to leave.
    Exit,
    /// Analyze the whole snapshot and hand the result to `show_cluster_analysis`.
    AnalyzeCluster,
    /// Load the pods and deployments of the namespace and hand them to `open_namespace`.
    LoadNamespace(String),
    /// Load the logs of the component and hand them to `show_logs`; where they cannot be
    /// loaded, warn and leave the state as it is.
    LoadLogs { namespace: String, component: String },
}

/// The state of the viewer.
pub struct App {
    pub namespaces: Vec<NamespaceInfo>,
    pub current_screen: Screen,
    /// The selection in the current list.
    pub list_state: Option<usize>,
    /// The selected log entry in the log viewer.
    pub logs_scroll_state: Option<usize>,
    /// The selection that the details view scrolls.
    pub details_scroll_state: Option<usize>,
    pub selected_namespace: Option<String>,
    pub selected_component: Option<(String, ComponentKind)>,
    pub pods: Vec<PodInfo>,
    pub deployments: Vec<DeploymentInfo>,
    pub current_logs: Option<ComponentLogs>,
    pub cluster_analysis: Option<ClusterAnalysis>,
    pub log_filter: Option<LogLevel>,
    pub show_capybara: bool,
    /// The components of the selected namespace that have a log file, as last scanned.
    pub log_components: Vec<String>,
}

/// The selectable rows of one namespace in the analysis view: its pods, then its
/// deployments.
pub open spec fn namespace_rows(n: NamespaceAnalysis) -> Seq<(Seq<char>, ComponentKind)> {
    n.pods@.map_values(|p: PodInfo| (p.name@, ComponentKind::Pod)) + n.deployments@.map_values(
        |d: DeploymentInfo| (d.name@, ComponentKind::Deployment),
    )
}

/// The selectable rows of the analysis view, namespace by namespace. Headers and blank
/// separators are not among them.
pub open spec fn selectable_rows(s: Seq<NamespaceAnalysis>) -> Seq<(Seq<char>, ComponentKind)>
    decreases s.len(),
{
    if s.len() == 0 {
        seq![]
    } else {
        selectable_rows(s.drop_last()) + namespace_rows(s.last())
    }
}

/// The selection after `sel` in a list of `k` items.
pub open spec fn advance(sel: Option<usize>, k: nat) -> Option<usize> {
    if k == 0 {
        sel
    } else {
        match sel {
            Some(i) => Some(((i + 1) % (k as int)) as usize),
            None => Some(0),
        }
    }
}

/// The selection before `sel` in a list of `k` items.
pub open spec fn retreat(sel: Option<usize>, k: nat) -> Option<usize> {
    if k == 0 {
        sel
    } else {
        match sel {
            Some(i) => Some(((i + k - 1) % (k as int)) as usize),
            None => Some(0),
        }
    }
}

/// A component name with its kind, by its characters.
pub open spec fn row_view(c: (String, ComponentKind)) -> (Seq<char>, ComponentKind) {
    (c.0@, c.1)
}

/// The first namespace of the analysis that holds a component of that name and kind.
pub open spec fn owner_of(s: Seq<NamespaceAnalysis>, name: Seq<char>, kind: ComponentKind) -> Option<int>
    decreases s.len(),
{
    if s.len() == 0 {
        None
    } else if holds_component(s[0], name, kind) {
        Some(0)
    } else {
        match owner_of(s.drop_first(), name, kind) {
            Some(j) => Some(j + 1),
            None => None,
        }
    }
}

/// Whether a namespace holds a pod (for `Pod`) or a deployment (for `Deployment`) of that
/// name; never for other kinds.
pub open spec fn holds_component(n: NamespaceAnalysis, name: Seq<char>, kind: ComponentKind) -> bool {
    match kind {
        ComponentKind::Pod => exists|i: int| 0 <= i < n.pods@.len() && #[trigger] n.pods@[i].name@ == name,
        ComponentKind::Deployment => exists|i: int|
            0 <= i < n.deployments@.len() && #[trigger] n.deployments@[i].name@ == name,
        _ => false,
    }
}

/// The view a back transition leads to from `s`.
pub open spec fn back_target(s: Screen, component: Option<(String, ComponentKind)>) -> Screen {
    match s {
        Screen::NamespaceList | Screen::ClusterAnalysis | Screen::Capybara => Screen::MainMenu,
        Screen::NamespaceDetails => Screen::NamespaceList,
        Screen::PodsList | Screen::DeploymentsList => Screen::NamespaceDetails,
        Screen::ComponentDetails => match component {
            Some((_, ComponentKind::Pod)) => Screen::PodsList,
            Some((_, ComponentKind::Deployment)) => Screen::DeploymentsList,
            _ => Screen::ClusterAnalysis,
        },
        Screen::LogsList => Screen::NamespaceDetails,
        Screen::LogsViewer => Screen::LogsList,
        Screen::MainMenu => Screen::MainMenu,
    }
}

impl App {
    /// How many items of the current view can be selected.
    pub open spec fn list_len(self) -> nat {
        match self.current_screen {
            Screen::MainMenu => 5,
            Screen::NamespaceList => self.namespaces@.len(),
            Screen::NamespaceDetails => 3,
            Screen::PodsList => self.pods@.len(),
            Screen::DeploymentsList => self.deployments@.len(),
            Screen::ClusterAnalysis => match self.cluster_analysis {
                Some(a) => selectable_rows(a.namespaces@).len(),
                None => 0,
            },
            Screen::LogsList => if self.selected_namespace is Some {
                self.log_components@.len()
            } else {
                0
            },
            _ => 0,
        }
    }

    /// The state after moving the selection forward.
    pub open spec fn advanced(self) -> App {
        App { list_state: advance(self.list_state, self.list_len()), ..self }
    }

    /// The state after moving the selection backward.
    pub open spec fn retreated(self) -> App {
        App { list_state: retreat(self.list_state, self.list_len()), ..self }
    }

    /// The state after scrolling the log entries down.
    pub open spec fn logs_scrolled_down(self) -> App {
        match self.current_logs {
            Some(l) => App {
                logs_scroll_state: advance(self.logs_scroll_state, l.entries@.len()),
                ..self
            },
            None => self,
        }
    }

    /// The state after scrolling the log entries up.
    pub open spec fn logs_scrolled_up(self) -> App {
        match self.current_logs {
            Some(l) => App {
                logs_scroll_state: retreat(self.logs_scroll_state, l.entries@.len()),
                ..self
            },
            None => self,
        }
    }

    /// The state after scrolling the details down: over the components of the analysis.
    pub open spec fn details_scrolled_down(self) -> App {
        match self.cluster_analysis {
            Some(a) => App {
                details_scroll_state: advance(
                    self.details_scroll_state,
                    selectable_rows(a.namespaces@).len(),
                ),
                ..self
            },
            None => self,
        }
    }

    /// The state after scrolling the details up.
    pub open spec fn details_scrolled_up(self) -> App {
        match self.cluster_analysis {
            Some(a) => App {
                details_scroll_state: retreat(
                    self.details_scroll_state,
                    selectable_rows(a.namespaces@).len(),
                ),
                ..self
            },
            None => self,
        }
    }

    /// The state after toggling the log filter to `level`: cleared where it already was
    /// `level`, set to `level` otherwise; the log scroll goes back to the top.
    pub open spec fn toggled(self, level: LogLevel) -> App {
        App {
            log_filter: if self.log_filter == Some(level) {
                None
            } else {
                Some(level)
            },
            logs_scroll_state: Some(0),
            ..self
        }
    }

    /// The state after a back transition: the view of `back_target`, the state that the
    /// view left behind cleared, and all three selections at the top.
    pub open spec fn went_back(self) -> App {
        App {
            current_screen: back_target(self.current_screen, self.selected_component),
            show_capybara: match self.current_screen {
                Screen::NamespaceList | Screen::ClusterAnalysis | Screen::Capybara => false,
                _ => self.show_capybara,
            },
            selected_component: if self.current_screen == Screen::ComponentDetails {
                None
            } else {
                self.selected_component
            },
            current_logs: if self.current_screen == Screen::LogsViewer {
                None
            } else {
                self.current_logs
            },
            log_filter: if self.current_screen == Screen::LogsViewer {
                None
            } else {
                self.log_filter
            },
            list_state: Some(0),
            logs_scroll_state: Some(0),
            details_scroll_state: Some(0),
            ..self
        }
    }

    /// The state after entering the list view `s`, with the selection at the top.
    pub open spec fn entered(self, s: Screen) -> App {
        App { current_screen: s, list_state: Some(0), ..self }
    }

    /// The action of the jump-to-logs key: load the logs of the selected pod or
    /// deployment, from the first namespace of the analysis that holds it.
    pub open spec fn jump_action(self) -> Action {
        if self.current_screen != Screen::ComponentDetails {
            Action::Nothing
        } else {
            match (self.selected_component, self.cluster_analysis) {
                (Some((name, kind)), Some(a)) => match owner_of(a.namespaces@, name@, kind) {
                    Some(j) => Action::LoadLogs { namespace: a.namespaces@[j].name, component: name },
                    None => Action::Nothing,
                },
                _ => Action::Nothing,
            }
        }
    }

    /// The state after the filter-cycling key: all, errors, warnings, infos, debugs, all.
    pub open spec fn filter_cycled(self) -> App {
        match self.log_filter {
            None => self.toggled(LogLevel::Error),
            Some(LogLevel::Error) => self.toggled(LogLevel::Warning),
            Some(LogLevel::Warning) => self.toggled(LogLevel::Info),
            Some(LogLevel::Info) => self.toggled(LogLevel::Debug),
            Some(LogLevel::Debug) => App { log_filter: None, ..self },
        }
    }

    /// The state and the action after a key other than the select key.
    pub open spec fn key_outcome(self, key: Key) -> (App, Action) {
        let in_viewer = self.current_screen == Screen::LogsViewer;
        match key {
            Key::Char(c) => if c == 'q' {
                (self, Action::Exit)
            } else if c == 'l' {
                (self, self.jump_action())
            } else if !in_viewer {
                (self, Action::Nothing)
            } else if c == 'f' {
                (self.filter_cycled(), Action::Nothing)
            } else if c == 'e' {
                (self.toggled(LogLevel::Error), Action::Nothing)
            } else if c == 'w' {
                (self.toggled(LogLevel::Warning), Action::Nothing)
            } else if c == 'i' {
                (self.toggled(LogLevel::Info), Action::Nothing)
            } else if c == 'd' {
                (self.toggled(LogLevel::Debug), Action::Nothing)
            } else if c == 'a' {
                (App { log_filter: None, ..self }, Action::Nothing)
            } else {
                (self, Action::Nothing)
            },
            Key::Esc => if self.current_screen == Screen::MainMenu {
                (self, Action::Exit)
            } else {
                (self.went_back(), Action::Nothing)
            },
            Key::Down => (
                if in_viewer {
                    self.logs_scrolled_down()
                } else if self.current_screen == Screen::ComponentDetails {
                    self.details_scrolled_down()
                } else {
                    self.advanced()
                },
                Action::Nothing,
            ),
            Key::Up => (
                if in_viewer {
                    self.logs_scrolled_up()
                } else if self.current_screen == Screen::ComponentDetails {
                    self.details_scrolled_up()
                } else {
                    self.retreated()
                },
                Action::Nothing,
            ),
            Key::Enter | Key::Other => (self, Action::Nothing),
        }
    }

    /// Whether the select key picks a component row of the analysis view.
    pub open spec fn picks_row(self) -> bool {
        &&& self.current_screen == Screen::ClusterAnalysis
        &&& self.list_state matches Some(i)
        &&& self.cluster_analysis matches Some(a)
        &&& i < selectable_rows(a.namespaces@).len()
    }

    /// The row that the select key picks in the analysis view.
    pub open spec fn picked_row(self) -> (Seq<char>, ComponentKind) {
        selectable_rows(self.cluster_analysis.unwrap().namespaces@)[self.list_state.unwrap() as int]
    }

    /// The state and the action after the select key, where it picks no row of the
    /// analysis view (see `picks_row`).
    pub open spec fn selected(self) -> (App, Action) {
        match (self.current_screen, self.list_state) {
            (Screen::MainMenu, Some(0)) => (self, Action::AnalyzeCluster),
            (Screen::MainMenu, Some(1)) => (self.entered(Screen::NamespaceList), Action::Nothing),
            (Screen::MainMenu, Some(2)) => (
                App { current_screen: Screen::Capybara, show_capybara: true, ..self },
                Action::Nothing,
            ),
            (Screen::MainMenu, Some(4)) => (self, Action::Exit),
            (Screen::NamespaceList, Some(i)) => if i < self.namespaces@.len() {
                (self, Action::LoadNamespace(self.namespaces@[i as int].name))
            } else {
                (self, Action::Nothing)
            },
            (Screen::NamespaceDetails, Some(0)) => (self.entered(Screen::PodsList), Action::Nothing),
            (Screen::NamespaceDetails, Some(1)) => (
                self.entered(Screen::DeploymentsList),
                Action::Nothing,
            ),
            (Screen::NamespaceDetails, Some(2)) => (self.entered(Screen::LogsList), Action::Nothing),
            (Screen::PodsList, Some(i)) => if i < self.pods@.len() {
                (
                    App {
                        current_screen: Screen::ComponentDetails,
                        selected_component: Some((self.pods@[i as int].name, ComponentKind::Pod)),
                        ..self
                    },
                    Action::Nothing,
                )
            } else {
                (self, Action::Nothing)
            },
            (Screen::DeploymentsList, Some(i)) => if i < self.deployments@.len() {
                (
                    App {
                        current_screen: Screen::ComponentDetails,
                        selected_component: Some(
                            (self.deployments@[i as int].name, ComponentKind::Deployment),
                        ),
                        ..self
                    },
                    Action::Nothing,
                )
            } else {
                (self, Action::Nothing)
            },
            (Screen::LogsList, Some(i)) => match self.selected_namespace {
                Some(ns) => if i < self.log_components@.len() {
                    (
                        self,
                        Action::LoadLogs { namespace: ns, component: self.log_components@[i as int] },
                    )
                } else {
                    (self, Action::Nothing)
                },
                None => (self, Action::Nothing),
            },
            _ => (self, Action::Nothing),
        }
    }
}

/// The selection after `i` in a list of `k` items.
fn forward_index(i: usize, k: usize) -> (r: usize)
    requires
        k > 0,
    ensures
        r == (i + 1) % (k as int),
{
    let j = i % k;
    proof {
        lemma_add_mod_noop(i as int, 1, k as int);
        if k == 1 {
            assert((i + 1) % 1 == 0);
        } else {
            lemma_small_mod(1, k as nat);
            if j + 1 == k {
                lemma_mod_self_0(k as int);
            } else {
                lemma_small_mod((j + 1) as nat, k as nat);
            }
        }
    }
    if j + 1 == k {
        0
    } else {
        j + 1
    }
}

/// The selection before `i` in a list of `k` items.
fn backward_index(i: usize, k: usize) -> (r: usize)
    requires
        k > 0,
    ensures
        r == (i + k - 1) % (k as int),
{
    let j = i % k;
    proof {
        lemma_add_mod_noop(i as int, k - 1, k as int);
        lemma_small_mod((k - 1) as nat, k as nat);
        if j == 0 {
        } else {
            lemma_mod_add_multiples_vanish(j - 1, k as int);
            lemma_small_mod((j - 1) as nat, k as nat);
            assert(j + (k - 1) == k + (j - 1));
        }
    }
    if j == 0 {
        k - 1
    } else {
        j - 1
    }
}

/// The selection after `sel` in a list of `k` items.
fn advance_exec(sel: Option<usize>, k: usize) -> (r: Option<usize>)
    ensures
        r == advance(sel, k as nat),
{
    if k == 0 {
        return sel;
    }
    match sel {
        Some(i) => Some(forward_index(i, k)),
        None => Some(0),
    }
}

/// The selection before `sel` in a list of `k` items.
fn retreat_exec(sel: Option<usize>, k: usize) -> (r: Option<usize>)
    ensures
        r == retreat(sel, k as nat),
{
    if k == 0 {
        return sel;
    }
    match sel {
        Some(i) => Some(backward_index(i, k)),
        None => Some(0),
    }
}

/// The selectable rows of the analysis view, by name and kind.
pub fn selectable_components(namespaces: &Vec<NamespaceAnalysis>) -> (r: Vec<(String, ComponentKind)>)
    ensures
        r@.map_values(|c: (String, ComponentKind)| row_view(c)) == selectable_rows(namespaces@),
{
    let mut out: Vec<(String, ComponentKind)> = Vec::new();
    let mut i: usize = 0;
    while i < namespaces.len()
        invariant
            0 <= i <= namespaces@.len(),
            out@.map_values(|c: (String, ComponentKind)| row_view(c)) == selectable_rows(
                namespaces@.subrange(0, i as int),
            ),
        decreases namespaces@.len() - i,
    {
        let n = &namespaces[i];
        let ghost start = out@.map_values(|c: (String, ComponentKind)| row_view(c));
        let ghost pods_part = n.pods@.map_values(|p: PodInfo| (p.name@, ComponentKind::Pod));
        let mut j: usize = 0;
        while j < n.pods.len()
            invariant
                0 <= j <= n.pods@.len(),
                pods_part == n.pods@.map_values(|p: PodInfo| (p.name@, ComponentKind::Pod)),
                out@.map_values(|c: (String, ComponentKind)| row_view(c)) == start
                    + pods_part.subrange(0, j as int),
            decreases n.pods@.len() - j,
        {
            let ghost before = out@;
            out.push((n.pods[j].name.clone(), ComponentKind::Pod));
            assert(out@.map_values(|c: (String, ComponentKind)| row_view(c)) =~= before.map_values(
                |c: (String, ComponentKind)| row_view(c),
            ).push((n.pods@[j as int].name@, ComponentKind::Pod)));
            assert(pods_part.subrange(0, j + 1) =~= pods_part.subrange(0, j as int).push(
                pods_part[j as int],
            ));
            j = j + 1;
        }
        assert(pods_part.subrange(0, pods_part.len() as int) =~= pods_part);
        let ghost middle = out@.map_values(|c: (String, ComponentKind)| row_view(c));
        let ghost deps_part = n.deployments@.map_values(
            |d: DeploymentInfo| (d.name@, ComponentKind::Deployment),
        );
        let mut k: usize = 0;
        while k < n.deployments.len()
            invariant
                0 <= k <= n.deployments@.len(),
                deps_part == n.deployments@.map_values(
                    |d: DeploymentInfo| (d.name@, ComponentKind::Deployment),
                ),
                out@.map_values(|c: (String, ComponentKind)| row_view(c)) == middle
                    + deps_part.subrange(0, k as int),
            decreases n.deployments@.len() - k,
        {
            let ghost before = out@;
            out.push((n.deployments[k].name.clone(), ComponentKind::Deployment));
            assert(out@.map_values(|c: (String, ComponentKind)| row_view(c)) =~= before.map_values(
                |c: (String, ComponentKind)| row_view(c),
            ).push((n.deployments@[k as int].name@, ComponentKind::Deployment)));
            assert(deps_part.subrange(0, k + 1) =~= deps_part.subrange(0, k as int).push(
                deps_part[k as int],
            ));
            k = k + 1;
        }
        assert(deps_part.subrange(0, deps_part.len() as int) =~= deps_part);
        assert(namespaces@.subrange(0, i + 1).drop_last() =~= namespaces@.subrange(0, i as int));
        assert(out@.map_values(|c: (String, ComponentKind)| row_view(c)) =~= selectable_rows(
            namespaces@.subrange(0, i + 1),
        ));
        i = i + 1;
    }
    assert(namespaces@.subrange(0, namespaces@.len() as int) =~= namespaces@);
    out
}

/// Whether one of the pods is named `name`.
fn has_pod(pods: &Vec<PodInfo>, name: &str) -> (r: bool)
    ensures
        r == exists|i: int| 0 <= i < pods@.len() && #[trigger] pods@[i].name@ == name@,
{
    let mut i: usize = 0;
    while i < pods.len()
        invariant
            0 <= i <= pods@.len(),
            forall|j: int| 0 <= j < i ==> #[trigger] pods@[j].name@ != name@,
        decreases pods@.len() - i,
    {
        if same_text(pods[i].name.as_str(), name) {
            return true;
        }
        i = i + 1;
    }
    false
}

/// Whether one of the deployments is named `name`.
fn has_deployment(deployments: &Vec<DeploymentInfo>, name: &str) -> (r: bool)
    ensures
        r == exists|i: int| 0 <= i < deployments@.len() && #[trigger] deployments@[i].name@ == name@,
{
    let mut i: usize = 0;
    while i < deployments.len()
        invariant
            0 <= i <= deployments@.len(),
            forall|j: int| 0 <= j < i ==> #[trigger] deployments@[j].name@ != name@,
        decreases deployments@.len() - i,
    {
        if same_text(deployments[i].name.as_str(), name) {
            return true;
        }
        i = i + 1;
    }
    false
}

/// The first namespace of the analysis that holds the component.
pub fn find_owner(namespaces: &Vec<NamespaceAnalysis>, name: &str, kind: ComponentKind) -> (r: Option<usize>)
    ensures
        match r {
            Some(j) => owner_of(namespaces@, name@, kind) == Some(j as int) && j < namespaces@.len(),
            None => owner_of(namespaces@, name@, kind) is None,
        },
{
    let mut i: usize = 0;
    assert(namespaces@.subrange(0, namespaces@.len() as int) =~= namespaces@);
    while i < namespaces.len()
        invariant
            0 <= i <= namespaces@.len(),
            owner_of(namespaces@, name@, kind) == match owner_of(
                namespaces@.subrange(i as int, namespaces@.len() as int),
                name@,
                kind,
            ) {
                Some(j) => Some(j + i),
                None => None,
            },
        decreases namespaces@.len() - i,
    {
        let ghost rest = namespaces@.subrange(i as int, namespaces@.len() as int);
        assert(rest.drop_first() =~= namespaces@.subrange(i + 1, namespaces@.len() as int));
        assert(rest[0] == namespaces@[i as int]);
        let n = &namespaces[i];
        let holds = match kind {
            ComponentKind::Pod => has_pod(&n.pods, name),
            ComponentKind::Deployment => has_deployment(&n.deployments, name),
            _ => false,
        };
        if holds {
            return Some(i);
        }
        i = i + 1;
    }
    None
}

impl App {
    /// The viewer at the main menu, over the given namespace list.
    pub fn new(namespaces: Vec<NamespaceInfo>) -> (r: App)
        ensures
            r.namespaces == namespaces,
            r.current_screen == Screen::MainMenu,
            r.list_state == Some(0usize),
            r.logs_scroll_state == Some(0usize),
            r.details_scroll_state == Some(0usize),
            r.selected_namespace is None,
            r.selected_component is None,
            r.pods@.len() == 0,
            r.deployments@.len() == 0,
            r.current_logs is None,
            r.cluster_analysis is None,
            r.log_filter is None,
            !r.show_capybara,
            r.log_components@.len() == 0,
    {
        App {
            namespaces,
            current_screen: Screen::MainMenu,
            list_state: Some(0),
            logs_scroll_state: Some(0),
            details_scroll_state: Some(0),
            selected_namespace: None,
            selected_component: None,
            pods: Vec::new(),
            deployments: Vec::new(),
            current_logs: None,
            cluster_analysis: None,
            log_filter: None,
            show_capybara: false,
            log_components: Vec::new(),
        }
    }

    /// How many items of the current view can be selected.
    pub fn get_list_length(&self) -> (r: usize)
        ensures
            r == self.list_len(),
    {
        match self.current_screen {
            Screen::MainMenu => 5,
            Screen::NamespaceList => self.namespaces.len(),
            Screen::NamespaceDetails => 3,
            Screen::PodsList => self.pods.len(),
            Screen::DeploymentsList => self.deployments.len(),
            Screen::ClusterAnalysis => match &self.cluster_analysis {
                Some(a) => selectable_components(&a.namespaces).len(),
                None => 0,
            },
            Screen::LogsList => if self.selected_namespace.is_some() {
                self.log_components.len()
            } else {
                0
            },
            _ => 0,
        }
    }

    /// Moves the selection forward, wrapping around; nothing on an empty view.
    pub fn next(&mut self)
        ensures
            *final(self) == old(self).advanced(),
    {
        let len = self.get_list_length();
        self.list_state = advance_exec(self.list_state, len);
    }

    /// Moves the selection backward, wrapping around; nothing on an empty view.
    pub fn previous(&mut self)
        ensures
            *final(self) == old(self).retreated(),
    {
        let len = self.get_list_length();
        self.list_state = retreat_exec(self.list_state, len);
    }

    /// Moves the log selection down, wrapping around.
    pub fn scroll_logs_down(&mut self)
        ensures
            *final(self) == old(self).logs_scrolled_down(),
    {
        let len = match &self.current_logs {
            Some(logs) => logs.entries.len(),
            None => return ,
        };
        self.logs_scroll_state = advance_exec(self.logs_scroll_state, len);
    }

    /// Moves the log selection up, wrapping around.
    pub fn scroll_logs_up(&mut self)
        ensures
            *final(self) == old(self).logs_scrolled_up(),
    {
        let len = match &self.current_logs {
            Some(logs) => logs.entries.len(),
            None => return ,
        };
        self.logs_scroll_state = retreat_exec(self.logs_scroll_state, len);
    }

    /// Moves the details selection down, over the components of the analysis.
    pub fn scroll_details_down(&mut self)
        ensures
            *final(self) == old(self).details_scrolled_down(),
    {
        let len = match &self.cluster_analysis {
            Some(a) => selectable_components(&a.namespaces).len(),
            None => return ,
        };
        self.details_scroll_state = advance_exec(self.details_scroll_state, len);
    }

    /// Moves the details selection up, over the components of the analysis.
    pub fn scroll_details_up(&mut self)
        ensures
            *final(self) == old(self).details_scrolled_up(),
    {
        let len = match &self.cluster_analysis {
            Some(a) => selectable_components(&a.namespaces).len(),
            None => return ,
        };
        self.details_scroll_state = retreat_exec(self.details_scroll_state, len);
    }

    /// Shows only entries of `filter`, or all entries where that filter was already on;
    /// the log selection goes back to the top.
    pub fn toggle_log_filter(&mut self, filter: LogLevel)
        ensures
            *final(self) == old(self).toggled(filter),
    {
        if self.log_filter == Some(filter) {
            self.log_filter = None;
        } else {
            self.log_filter = Some(filter);
        }
        self.logs_scroll_state = Some(0);
    }

    /// Goes back to the view that leads to the current one.
    pub fn back(&mut self)
        ensures
            *final(self) == old(self).went_back(),
    {
        match self.current_screen {
            Screen::NamespaceList | Screen::ClusterAnalysis | Screen::Capybara => {
                self.current_screen = Screen::MainMenu;
                self.show_capybara = false;
            },
            Screen::NamespaceDetails => {
                self.current_screen = Screen::NamespaceList;
            },
            Screen::PodsList | Screen::DeploymentsList => {
                self.current_screen = Screen::NamespaceDetails;
            },
            Screen::ComponentDetails => {
                self.current_screen = match &self.selected_component {
                    Some((_, ComponentKind::Pod)) => Screen::PodsList,
                    Some((_, ComponentKind::Deployment)) => Screen::DeploymentsList,
                    _ => Screen::ClusterAnalysis,
                };
                self.selected_component = None;
            },
            Screen::LogsList => {
                self.current_screen = Screen::NamespaceDetails;
            },
            Screen::LogsViewer => {
                self.current_screen = Screen::LogsList;
                self.current_logs = None;
                self.log_filter = None;
            },
            Screen::MainMenu => {},
        }
        self.list_state = Some(0);
        self.logs_scroll_state = Some(0);
        self.details_scroll_state = Some(0);
    }

    fn enter(&mut self, s: Screen)
        ensures
            *final(self) == old(self).entered(s),
    {
        self.current_screen = s;
        self.list_state = Some(0);
    }

    /// Acts on the select key in the current view. Where the transition needs data from
    /// the snapshot, the state is left as it is and the action says what to load.
    pub fn select(&mut self) -> (r: Action)
        ensures
            old(self).picks_row() ==> {
                &&& final(self).selected_component matches Some(c)
                &&& row_view(c) == old(self).picked_row()
                &&& *final(self) == (App {
                    current_screen: Screen::ComponentDetails,
                    selected_component: final(self).selected_component,
                    ..*old(self)
                })
                &&& r is Nothing
            },
            !old(self).picks_row() ==> (*final(self), r) == old(self).selected(),
    {
        match (self.current_screen, self.list_state) {
            (Screen::MainMenu, Some(0)) => Action::AnalyzeCluster,
            (Screen::MainMenu, Some(1)) => {
                self.enter(Screen::NamespaceList);
                Action::Nothing
            },
            (Screen::MainMenu, Some(2)) => {
                self.current_screen = Screen::Capybara;
                self.show_capybara = true;
                Action::Nothing
            },
            (Screen::MainMenu, Some(4)) => Action::Exit,
            (Screen::NamespaceList, Some(i)) => if i < self.namespaces.len() {
                Action::LoadNamespace(self.namespaces[i].name.clone())
            } else {
                Action::Nothing
            },
            (Screen::NamespaceDetails, Some(0)) => {
                self.enter(Screen::PodsList);
                Action::Nothing
            },
            (Screen::NamespaceDetails, Some(1)) => {
                self.enter(Screen::DeploymentsList);
                Action::Nothing
            },
            (Screen::NamespaceDetails, Some(2)) => {
                self.enter(Screen::LogsList);
                Action::Nothing
            },
            (Screen::PodsList, Some(i)) => {
                if i < self.pods.len() {
                    self.selected_component = Some((self.pods[i].name.clone(), ComponentKind::Pod));
                    self.current_screen = Screen::ComponentDetails;
                }
                Action::Nothing
            },
            (Screen::DeploymentsList, Some(i)) => {
                if i < self.deployments.len() {
                    self.selected_component = Some(
                        (self.deployments[i].name.clone(), ComponentKind::Deployment),
                    );
                    self.current_screen = Screen::ComponentDetails;
                }
                Action::Nothing
            },
            (Screen::ClusterAnalysis, Some(i)) => {
                let picked = match &self.cluster_analysis {
                    Some(a) => {
                        let mut rows = selectable_components(&a.namespaces);
                        if i < rows.len() {
                            proof {
                                assert(row_view(rows@[i as int]) == selectable_rows(a.namespaces@)[i as int]);
                            }
                            Some(rows.swap_remove(i))
                        } else {
                            None
                        }
                    },
                    None => None,
                };
                if let Some(row) = picked {
                    self.selected_component = Some(row);
                    self.current_screen = Screen::ComponentDetails;
                }
                Action::Nothing
            },
            (Screen::LogsList, Some(i)) => match &self.selected_namespace {
                Some(ns) => if i < self.log_components.len() {
                    Action::LoadLogs { namespace: ns.clone(), component: self.log_components[i].clone() }
                } else {
                    Action::Nothing
                },
                None => Action::Nothing,
            },
            _ => Action::Nothing,
        }
    }

    /// The action of the jump-to-logs key.
    fn jump_to_logs(&self) -> (r: Action)
        ensures
            r == self.jump_action(),
    {
        if self.current_screen != Screen::ComponentDetails {
            return Action::Nothing;
        }
        match (&self.selected_component, &self.cluster_analysis) {
            (Some((name, kind)), Some(a)) => match find_owner(&a.namespaces, name.as_str(), *kind) {
                Some(j) => Action::LoadLogs {
                    namespace: a.namespaces[j].name.clone(),
                    component: name.clone(),
                },
                None => Action::Nothing,
            },
            _ => Action::Nothing,
        }
    }

    /// Acts on one key press.
    pub fn handle_key(&mut self, key: Key) -> (r: Action)
        ensures
            key == Key::Enter && old(self).picks_row() ==> {
                &&& final(self).selected_component matches Some(c)
                &&& row_view(c) == old(self).picked_row()
                &&& *final(self) == (App {
                    current_screen: Screen::ComponentDetails,
                    selected_component: final(self).selected_component,
                    ..*old(self)
                })
                &&& r is Nothing
            },
            key == Key::Enter && !old(self).picks_row() ==> (*final(self), r) == old(
                self,
            ).selected(),
            key != Key::Enter ==> (*final(self), r) == old(self).key_outcome(key),
    {
        let in_viewer = self.current_screen == Screen::LogsViewer;
        match key {
            Key::Enter => {
                assert(key == Key::Enter);
                self.select()
            },
            Key::Esc => {
                if self.current_screen == Screen::MainMenu {
                    return Action::Exit;
                }
                self.back();
                Action::Nothing
            },
            Key::Down => {
                if in_viewer {
                    self.scroll_logs_down();
                } else if self.current_screen == Screen::ComponentDetails {
                    self.scroll_details_down();
                } else {
                    self.next();
                }
                Action::Nothing
            },
            Key::Up => {
                if in_viewer {
                    self.scroll_logs_up();
                } else if self.current_screen == Screen::ComponentDetails {
                    self.scroll_details_up();
                } else {
                    self.previous();
                }
                Action::Nothing
            },
            Key::Char(c) => {
                if c == 'q' {
                    return Action::Exit;
                }
                if c == 'l' {
                    return self.jump_to_logs();
                }
                if in_viewer {
                    if c == 'f' {
                        match self.log_filter {
                            None => self.toggle_log_filter(LogLevel::Error),
                            Some(LogLevel::Error) => self.toggle_log_filter(LogLevel::Warning),
                            Some(LogLevel::Warning) => self.toggle_log_filter(LogLevel::Info),
                            Some(LogLevel::Info) => self.toggle_log_filter(LogLevel::Debug),
                            Some(LogLevel::Debug) => self.log_filter = None,
                        }
                    } else if c == 'e' {
                        self.toggle_log_filter(LogLevel::Error);
                    } else if c == 'w' {
                        self.toggle_log_filter(LogLevel::Warning);
                    } else if c == 'i' {
                        self.toggle_log_filter(LogLevel::Info);
                    } else if c == 'd' {
                        self.toggle_log_filter(LogLevel::Debug);
                    } else if c == 'a' {
                        self.log_filter = None;
                    }
                }
                Action::Nothing
            },
            Key::Other => Action::Nothing,
        }
    }

    /// Shows the analysis of the snapshot, selection at the top.
    pub fn show_cluster_analysis(&mut self, analysis: ClusterAnalysis)
        ensures
            *final(self) == (App {
                cluster_analysis: Some(analysis),
                current_screen: Screen::ClusterAnalysis,
                list_state: Some(0),
                ..*old(self)
            }),
    {
        self.cluster_analysis = Some(analysis);
        self.current_screen = Screen::ClusterAnalysis;
        self.list_state = Some(0);
    }

    /// Shows the actions for a namespace whose pods and deployments were just loaded.
    pub fn open_namespace(&mut self, namespace: String, pods: Vec<PodInfo>, deployments: Vec<DeploymentInfo>)
        ensures
            *final(self) == (App {
                selected_namespace: Some(namespace),
                pods,
                deployments,
                current_screen: Screen::NamespaceDetails,
                list_state: Some(0),
                ..*old(self)
            }),
    {
        self.selected_namespace = Some(namespace);
        self.pods = pods;
        self.deployments = deployments;
        self.current_screen = Screen::NamespaceDetails;
        self.list_state = Some(0);
    }

    /// Shows logs that were just loaded for `component` of `namespace`. Coming from the
    /// log list, the component becomes the selected one.
    pub fn show_logs(&mut self, namespace: String, component: String, logs: ComponentLogs)
        ensures
            *final(self) == (App {
                selected_namespace: Some(namespace),
                selected_component: if old(self).current_screen == Screen::LogsList {
                    Some((component, ComponentKind::Component))
                } else {
                    old(self).selected_component
                },
                current_logs: Some(logs),
                current_screen: Screen::LogsViewer,
                ..*old(self)
            }),
    {
        if self.current_screen == Screen::LogsList {
            self.selected_component = Some((component, ComponentKind::Component));
        }
        self.selected_namespace = Some(namespace);
        self.current_logs = Some(logs);
        self.current_screen = Screen::LogsViewer;
    }

    /// Replaces the scanned list of components with logs.
    pub fn set_log_components(&mut self, components: Vec<String>)
        ensures
            *final(self) == (App { log_components: components, ..*old(self) }),
    {
        self.log_components = components;
    }

    /// The entries of the main menu.
    pub fn get_main_menu_items(&self) -> (r: Vec<&'static str>)
        ensures
            r@.len() == 5,
            r@[0]@ == "\u{1f50d} Cluster Analysis"@,
            r@[1]@ == "\u{1f4c1} Browse Namespaces"@,
            r@[2]@ == "\u{1f439} Capybara Easter Egg"@,
            r@[3]@ == "\u{2753} Help"@,
            r@[4]@ == "\u{1f6aa} Exit"@,
    {
        vec![
            "\u{1f50d} Cluster Analysis",
            "\u{1f4c1} Browse Namespaces",
            "\u{1f439} Capybara Easter Egg",
            "\u{2753} Help",
            "\u{1f6aa} Exit",
        ]
    }

    /// The entries of the namespace actions, with the pod and deployment counts.
    pub fn get_namespace_details_items(&self) -> (r: Vec<String>)
        ensures
            r@.len() == 3,
            r@[0]@ == "\u{1f4e6} View Pods ("@ + decimal(self.pods@.len()) + ")"@,
            r@[1]@ == "\u{1f680} View Deployments ("@ + decimal(self.deployments@.len()) + ")"@,
            r@[2]@ == "\u{1f4cb} View Logs"@,
    {
        let mut pods = "\u{1f4e6} View Pods (".to_string();
        pods.append(decimal_text(self.pods.len() as u64).as_str());
        pods.append(")");
        let mut deployments = "\u{1f680} View Deployments (".to_string();
        deployments.append(decimal_text(self.deployments.len() as u64).as_str());
        deployments.append(")");
        vec![pods, deployments, "\u{1f4cb} View Logs".to_string()]
    }
}


/// Moving forward and then backward, or backward and then forward, through `k > 0`
/// items leads from `i` to `i` modulo `k`.
pub proof fn lemma_steps_cancel(i: usize, k: nat)
    requires
        k > 0,
    ensures
        ((((i + 1) % (k as int)) + k - 1) % (k as int)) == (i as int) % (k as int),
        ((((i + k - 1) % (k as int)) + 1) % (k as int)) == (i as int) % (k as int),
{
    let m = k as int;
    lemma_small_mod((k - 1) as nat, k);
    lemma_add_mod_noop(i + 1, k - 1, m);
    lemma_mod_add_multiples_vanish(i as int, m);
    assert(i + 1 + (k - 1) == m + i);
    if k == 1 {
        assert((i + k - 1) % m + 1 == 1 || (i + k - 1) % m + 1 != 1);
        assert(((((i + k - 1) % m) + 1) % m) == 0);
        assert((i as int) % m == 0);
    } else {
        lemma_small_mod(1, k);
        lemma_add_mod_noop(i + k - 1, 1, m);
        assert(i + k - 1 + 1 == m + i);
    }
}

/// Selecting forward then backward (or backward then forward) in a view of `k > 0`
/// selectable items comes back to the starting index modulo `k`; in a view with none,
/// both leave the selection as it is, `None` included. (`get_list_length` shows that a
/// view never has more than `usize::MAX` items.)
pub proof fn lemma_advance_retreat_inverse(app: App)
    ensures
        0 < app.list_len() <= usize::MAX && app.list_state is Some ==> {
            let i = app.list_state.unwrap();
            let back_to = App { list_state: Some(((i as int) % (app.list_len() as int)) as usize), ..app };
            &&& app.advanced().retreated() == back_to
            &&& app.retreated().advanced() == back_to
        },
        app.list_len() == 0 ==> app.advanced() == app && app.retreated() == app,
{
    if 0 < app.list_len() <= usize::MAX && app.list_state is Some {
        let i = app.list_state.unwrap();
        let k = app.list_len();
        lemma_steps_cancel(i, k);
        let f = app.advanced();
        assert(f.list_len() == k);
        assert(f.list_state == Some(((i + 1) % (k as int)) as usize));
        let b = app.retreated();
        assert(b.list_len() == k);
        assert(b.list_state == Some(((i + k - 1) % (k as int)) as usize));
    }
}

/// Toggling the log filter to the value it holds clears it; toggling it to another value
/// sets that value; either way the log selection goes back to the top.
pub proof fn lemma_toggle_filter(app: App, level: LogLevel)
    ensures
        app.log_filter == Some(level) ==> app.toggled(level).log_filter is None,
        app.log_filter != Some(level) ==> app.toggled(level).log_filter == Some(level),
        app.toggled(level).logs_scroll_state == Some(0usize),
{
}

/// Going back from the details of a component leads to the pod list for a pod, to the
/// deployment list for a deployment, and to the analysis view otherwise; no component is
/// selected afterwards.
pub proof fn lemma_back_from_details(app: App)
    requires
        app.current_screen == Screen::ComponentDetails,
    ensures
        app.went_back().current_screen == match app.selected_component {
            Some((_, ComponentKind::Pod)) => Screen::PodsList,
            Some((_, ComponentKind::Deployment)) => Screen::DeploymentsList,
            _ => Screen::ClusterAnalysis,
        },
        app.went_back().selected_component is None,
{
}

/// In the namespace list made from a snapshot, each namespace of the snapshot has an
/// entry with its own numbers of pods and deployments, each entry stands for a
/// namespace of the snapshot, and every namespace can be selected.
pub proof fn lemma_namespace_list_counts(data: Seq<NamespaceData>, app: App)
    requires
        lists_namespaces(data, app.namespaces@),
        app.current_screen == Screen::NamespaceList,
    ensures
        app.list_len() == data.len(),
        forall|j: int|
            #![trigger data[j]]
            0 <= j < data.len() ==> exists|i: int|
                #![trigger app.namespaces@[i]]
                0 <= i < app.namespaces@.len() && counts_match(app.namespaces@[i], data[j]),
        forall|i: int|
            #![trigger app.namespaces@[i]]
            0 <= i < app.namespaces@.len() ==> exists|j: int|
                #![trigger data[j]]
                0 <= j < data.len() && counts_match(app.namespaces@[i], data[j]),
{
    let sorted = by_name(data);
    lemma_by_name_len(data);
    assert forall|j: int| #![trigger data[j]] 0 <= j < data.len() implies exists|i: int|
        #![trigger app.namespaces@[i]]
        0 <= i < app.namespaces@.len() && counts_match(app.namespaces@[i], data[j]) by {
        lemma_by_name_contains(data, data[j]);
        assert(data.contains(data[j]));
        let i = choose|i: int| 0 <= i < sorted.len() && sorted[i] == data[j];
        assert(counts_match(app.namespaces@[i], sorted[i]));
    }
    assert forall|i: int| #![trigger app.namespaces@[i]] 0 <= i < app.namespaces@.len() implies exists|j: int|
        #![trigger data[j]]
        0 <= j < data.len() && counts_match(app.namespaces@[i], data[j]) by {
        lemma_by_name_contains(data, sorted[i]);
        assert(sorted.contains(sorted[i]));
        let j = choose|j: int| 0 <= j < data.len() && data[j] == sorted[i];
        assert(counts_match(app.namespaces@[i], sorted[i]));
    }
}

} // verus!
