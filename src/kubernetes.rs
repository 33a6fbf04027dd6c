//! Namespaces, pods and deployments of a snapshot, and the health findings drawn from them.
use vstd::prelude::*;

use crate::error::AppError;
use crate::json::{json_document, parse_json, Json};
use crate::text::{decimal, decimal_text, lex_lt, opt_text, same_text, text_less};

verus! {

/// The kind of a named workload unit.
#[derive(Debug, Clone, Copy, PartialEq, Eq, Structural)]
pub enum ComponentKind {
    Pod,
    Deployment,
    Service,
    /// A directory with logs whose kind is not known.
    Component,
}

impl ComponentKind {
    /// The kind's name, capitalized.
    pub fn name(&self) -> (r: &'static str)
        ensures
            r@ == kind_name(*self),
    {
        match self {
            ComponentKind::Pod => "Pod",
            ComponentKind::Deployment => "Deployment",
            ComponentKind::Service => "Service",
            ComponentKind::Component => "Component",
        }
    }
}

/// The capitalized name of a kind.
pub open spec fn kind_name(k: ComponentKind) -> Seq<char> {
    match k {
        ComponentKind::Pod => "Pod"@,
        ComponentKind::Deployment => "Deployment"@,
        ComponentKind::Service => "Service"@,
        ComponentKind::Component => "Component"@,
    }
}

/// A namespace as the namespace list shows it.
#[derive(Debug, Clone)]
pub struct NamespaceInfo {
    pub name: String,
    pub pod_count: usize,
    pub deployment_count: usize,
}

/// One pod of a snapshot.
#[derive(Debug, Clone)]
pub struct PodInfo {
    pub name: String,
    /// The phase, as reported.
    pub status: String,
    pub ready: bool,
    pub cpu_usage: Option<String>,
    pub memory_usage: Option<String>,
    /// The restart count of the first container, in decimal.
    pub restart_count: Option<String>,
    /// The image of the first container.
    pub image: Option<String>,
}

/// One deployment of a snapshot.
#[derive(Debug, Clone)]
pub struct DeploymentInfo {
    pub name: String,
    pub ready_replicas: u32,
    pub desired_replicas: u32,
    pub strategy: Option<String>,
    pub image: Option<String>,
}

/// How serious a finding is.
#[derive(Debug, Clone, Copy, PartialEq, Eq, Structural)]
pub enum IssueSeverity {
    Critical,
    Warning,
    Info,
}

/// A health finding about one component.
#[derive(Debug, Clone)]
pub struct ClusterIssue {
    pub severity: IssueSeverity,
    pub component: String,
    pub component_type: ComponentKind,
    pub namespace: String,
    pub description: String,
}

/// The analysis of one namespace.
#[derive(Debug, Clone)]
pub struct NamespaceAnalysis {
    pub name: String,
    pub pods: Vec<PodInfo>,
    pub deployments: Vec<DeploymentInfo>,
    pub issues: Vec<ClusterIssue>,
}

/// The analysis of a whole snapshot.
#[derive(Debug, Clone)]
pub struct ClusterAnalysis {
    /// One per namespace, by name.
    pub namespaces: Vec<NamespaceAnalysis>,
    pub total_pods: usize,
    pub total_deployments: usize,
    pub total_issues: usize,
}

/// What the snapshot holds for one namespace.
#[derive(Debug, Clone)]
pub struct NamespaceData {
    pub name: String,
    pub pods: Vec<PodInfo>,
    pub deployments: Vec<DeploymentInfo>,
}

/// The abstract content of a [`PodInfo`].
pub ghost struct PodView {
    pub name: Seq<char>,
    pub status: Seq<char>,
    pub ready: bool,
    pub cpu_usage: Option<Seq<char>>,
    pub memory_usage: Option<Seq<char>>,
    pub restart_count: Option<Seq<char>>,
    pub image: Option<Seq<char>>,
}

impl View for PodInfo {
    type V = PodView;

    open spec fn view(&self) -> PodView {
        PodView {
            name: self.name@,
            status: self.status@,
            ready: self.ready,
            cpu_usage: opt_text(self.cpu_usage),
            memory_usage: opt_text(self.memory_usage),
            restart_count: opt_text(self.restart_count),
            image: opt_text(self.image),
        }
    }
}

/// The abstract content of a [`DeploymentInfo`].
pub ghost struct DeploymentView {
    pub name: Seq<char>,
    pub ready_replicas: u32,
    pub desired_replicas: u32,
    pub strategy: Option<Seq<char>>,
    pub image: Option<Seq<char>>,
}

impl View for DeploymentInfo {
    type V = DeploymentView;

    open spec fn view(&self) -> DeploymentView {
        DeploymentView {
            name: self.name@,
            ready_replicas: self.ready_replicas,
            desired_replicas: self.desired_replicas,
            strategy: opt_text(self.strategy),
            image: opt_text(self.image),
        }
    }
}

/// The member `key` of an optional value.
pub open spec fn field_of(o: Option<Json>, key: Seq<char>) -> Option<Json> {
    match o {
        Some(v) => v.field(key),
        None => None,
    }
}

/// The string member `key` of an optional value.
pub open spec fn text_of_field(o: Option<Json>, key: Seq<char>) -> Option<Seq<char>> {
    match o {
        Some(v) => v.text_field(key),
        None => None,
    }
}

/// The first element of an optional array.
pub open spec fn first_of(o: Option<Json>) -> Option<Json> {
    match o {
        Some(v) => v.element(0),
        None => None,
    }
}

/// A condition of type `Ready` with the status `True`.
pub open spec fn ready_and_true(c: Json) -> bool {
    c.text_field("type"@) == Some("Ready"@) && c.text_field("status"@) == Some("True"@)
}

/// Some condition of the list is of type `Ready` with the status `True`.
pub open spec fn any_ready(cs: Seq<Json>) -> bool {
    exists|i: int| 0 <= i < cs.len() && ready_and_true(#[trigger] cs[i])
}

/// A pod is ready when any of its conditions of type `Ready` has the status `True`; it
/// is not ready without such a condition, or without a list of conditions.
pub open spec fn pod_ready(pod: Json) -> bool {
    match field_of(pod.field("status"@), "conditions"@) {
        Some(Json::Array(cs)) => any_ready(cs@),
        _ => false,
    }
}

/// The restart count of the pod's first container, in decimal.
pub open spec fn pod_restarts(pod: Json) -> Option<Seq<char>> {
    match field_of(first_of(field_of(pod.field("status"@), "containerStatuses"@)), "restartCount"@) {
        Some(Json::Number(Some(n))) => Some(decimal(n as nat)),
        _ => None,
    }
}

/// The pod that one record of `pods.json` describes; none without a name and a phase.
pub open spec fn pod_of(pod: Json) -> Option<PodView> {
    match (text_of_field(pod.field("metadata"@), "name"@), text_of_field(pod.field("status"@), "phase"@)) {
        (Some(name), Some(status)) => Some(
            PodView {
                name,
                status,
                ready: pod_ready(pod),
                cpu_usage: text_of_field(pod.field("usage"@), "cpu"@),
                memory_usage: text_of_field(pod.field("usage"@), "memory"@),
                restart_count: pod_restarts(pod),
                image: text_of_field(first_of(field_of(pod.field("spec"@), "containers"@)), "image"@),
            },
        ),
        _ => None,
    }
}

/// The pods of the records `items[..n]`, in order.
pub open spec fn pods_of(items: Seq<Json>) -> Seq<PodView>
    decreases items.len(),
{
    if items.len() == 0 {
        seq![]
    } else {
        let rest = pods_of(items.drop_last());
        match pod_of(items.last()) {
            Some(p) => rest.push(p),
            None => rest,
        }
    }
}

/// The records under `items` of a structured list; none where it is not an array.
pub open spec fn items_of(doc: Json) -> Seq<Json> {
    match doc.field("items"@) {
        Some(Json::Array(items)) => items@,
        _ => seq![],
    }
}

/// An unsigned member as a 32-bit count: 0 where absent, the low 32 bits otherwise.
pub open spec fn count_of(o: Option<Json>) -> u32 {
    match o {
        Some(Json::Number(Some(n))) => (n % 0x1_0000_0000) as u32,
        _ => 0,
    }
}

/// The deployment that one record of `deployments.json` describes; none without a name.
pub open spec fn deployment_of(d: Json) -> Option<DeploymentView> {
    match text_of_field(d.field("metadata"@), "name"@) {
        Some(name) => Some(
            DeploymentView {
                name,
                ready_replicas: count_of(field_of(d.field("status"@), "readyReplicas"@)),
                desired_replicas: count_of(field_of(d.field("spec"@), "replicas"@)),
                strategy: text_of_field(field_of(d.field("spec"@), "strategy"@), "type"@),
                image: text_of_field(
                    first_of(field_of(field_of(field_of(d.field("spec"@), "template"@), "spec"@), "containers"@)),
                    "image"@,
                ),
            },
        ),
        None => None,
    }
}

/// The deployments of the records `items`, in order.
pub open spec fn deployments_of(items: Seq<Json>) -> Seq<DeploymentView>
    decreases items.len(),
{
    if items.len() == 0 {
        seq![]
    } else {
        let rest = deployments_of(items.drop_last());
        match deployment_of(items.last()) {
            Some(d) => rest.push(d),
            None => rest,
        }
    }
}

fn field_opt<'a>(o: Option<&'a Json>, key: &str) -> (r: Option<&'a Json>)
    ensures
        match r {
            Some(v) => field_of(opt_json(o), key@) == Some(*v),
            None => field_of(opt_json(o), key@) is None,
        },
{
    match o {
        Some(v) => v.get(key),
        None => None,
    }
}

/// An optional reference, by its value.
pub open spec fn opt_json(o: Option<&Json>) -> Option<Json> {
    match o {
        Some(v) => Some(*v),
        None => None,
    }
}

fn text_opt(o: Option<&Json>, key: &str) -> (r: Option<String>)
    ensures
        opt_text(r) == text_of_field(opt_json(o), key@),
{
    match o {
        Some(v) => match v.text_at(key) {
            Some(t) => Some(t.clone()),
            None => None,
        },
        None => None,
    }
}

fn first_opt<'a>(o: Option<&'a Json>) -> (r: Option<&'a Json>)
    ensures
        match r {
            Some(v) => first_of(opt_json(o)) == Some(*v),
            None => first_of(opt_json(o)) is None,
        },
{
    match o {
        Some(v) => match v.as_array() {
            Some(a) => if a.len() > 0 {
                Some(&a[0])
            } else {
                None
            },
            None => None,
        },
        None => None,
    }
}

fn pod_ready_exec(pod: &Json) -> (r: bool)
    ensures
        r == pod_ready(*pod),
{
    let conditions = field_opt(pod.get("status"), "conditions");
    match conditions {
        Some(c) => match c.as_array() {
            Some(cs) => {
                let mut i: usize = 0;
                while i < cs.len()
                    invariant
                        0 <= i <= cs@.len(),
                        field_of(pod.field("status"@), "conditions"@) == Some(Json::Array(*cs)),
                        forall|j: int| 0 <= j < i ==> !ready_and_true(#[trigger] cs@[j]),
                    decreases cs@.len() - i,
                {
                    let cond = &cs[i];
                    let is_ready = match cond.text_at("type") {
                        Some(t) => same_text(t.as_str(), "Ready"),
                        None => false,
                    };
                    let is_true = match cond.text_at("status") {
                        Some(st) => same_text(st.as_str(), "True"),
                        None => false,
                    };
                    if is_ready && is_true {
                        assert(ready_and_true(cs@[i as int]));
                        assert(any_ready(cs@));
                        return true;
                    }
                    i = i + 1;
                }
                false
            },
            None => false,
        },
        None => false,
    }
}

/// The pod that one record of `pods.json` describes.
pub fn pod_from_json(pod: &Json) -> (r: Option<PodInfo>)
    ensures
        match r {
            Some(p) => pod_of(*pod) == Some(p@),
            None => pod_of(*pod) is None,
        },
{
    let name = text_opt(pod.get("metadata"), "name");
    let status = text_opt(pod.get("status"), "phase");
    match (name, status) {
        (Some(name), Some(status)) => {
            let restart_count = match field_opt(first_opt(field_opt(pod.get("status"), "containerStatuses")), "restartCount") {
                Some(v) => match v.as_u64() {
                    Some(n) => Some(decimal_text(n)),
                    None => None,
                },
                None => None,
            };
            Some(PodInfo {
                name,
                status,
                ready: pod_ready_exec(pod),
                cpu_usage: text_opt(pod.get("usage"), "cpu"),
                memory_usage: text_opt(pod.get("usage"), "memory"),
                restart_count,
                image: text_opt(first_opt(field_opt(pod.get("spec"), "containers")), "image"),
            })
        },
        _ => None,
    }
}

fn count_exec(o: Option<&Json>) -> (r: u32)
    ensures
        r == count_of(opt_json(o)),
{
    match o {
        Some(v) => match v.as_u64() {
            Some(n) => (n % 0x1_0000_0000) as u32,
            None => 0,
        },
        None => 0,
    }
}

/// The deployment that one record of `deployments.json` describes.
pub fn deployment_from_json(d: &Json) -> (r: Option<DeploymentInfo>)
    ensures
        match r {
            Some(x) => deployment_of(*d) == Some(x@),
            None => deployment_of(*d) is None,
        },
{
    match text_opt(d.get("metadata"), "name") {
        Some(name) => {
            let spec = d.get("spec");
            let containers = field_opt(field_opt(field_opt(spec, "template"), "spec"), "containers");
            Some(DeploymentInfo {
                name,
                ready_replicas: count_exec(field_opt(d.get("status"), "readyReplicas")),
                desired_replicas: count_exec(field_opt(spec, "replicas")),
                strategy: text_opt(field_opt(spec, "strategy"), "type"),
                image: text_opt(first_opt(containers), "image"),
            })
        },
        None => None,
    }
}

/// The records under `items` of a structured list, if they form an array.
fn items_exec(doc: &Json) -> (r: Option<&Vec<Json>>)
    ensures
        match r {
            Some(a) => items_of(*doc) == a@,
            None => items_of(*doc) == Seq::<Json>::empty(),
        },
{
    match doc.get("items") {
        Some(v) => v.as_array(),
        None => None,
    }
}

/// The pods that a parsed `pods.json` describes, in order.
pub fn pods_from_json(doc: &Json) -> (r: Vec<PodInfo>)
    ensures
        r@.map_values(|p: PodInfo| p@) == pods_of(items_of(*doc)),
{
    let mut out: Vec<PodInfo> = Vec::new();
    match items_exec(doc) {
        Some(items) => {
            let mut i: usize = 0;
            while i < items.len()
                invariant
                    0 <= i <= items@.len(),
                    items_of(*doc) == items@,
                    out@.map_values(|p: PodInfo| p@) == pods_of(items@.subrange(0, i as int)),
                decreases items@.len() - i,
            {
                assert(items@.subrange(0, i + 1).drop_last() =~= items@.subrange(0, i as int));
                let ghost before = out@;
                match pod_from_json(&items[i]) {
                    Some(p) => {
                        out.push(p);
                        assert(out@.map_values(|p: PodInfo| p@) =~= before.map_values(|p: PodInfo| p@).push(p@));
                    },
                    None => {},
                }
                i = i + 1;
            }
            assert(items@.subrange(0, items@.len() as int) =~= items@);
        },
        None => {
            assert(out@.map_values(|p: PodInfo| p@) =~= Seq::<PodView>::empty());
        },
    }
    out
}

/// The deployments that a parsed `deployments.json` describes, in order.
pub fn deployments_from_json(doc: &Json) -> (r: Vec<DeploymentInfo>)
    ensures
        r@.map_values(|d: DeploymentInfo| d@) == deployments_of(items_of(*doc)),
{
    let mut out: Vec<DeploymentInfo> = Vec::new();
    match items_exec(doc) {
        Some(items) => {
            let mut i: usize = 0;
            while i < items.len()
                invariant
                    0 <= i <= items@.len(),
                    items_of(*doc) == items@,
                    out@.map_values(|d: DeploymentInfo| d@) == deployments_of(items@.subrange(0, i as int)),
                decreases items@.len() - i,
            {
                assert(items@.subrange(0, i + 1).drop_last() =~= items@.subrange(0, i as int));
                let ghost before = out@;
                match deployment_from_json(&items[i]) {
                    Some(d) => {
                        out.push(d);
                        assert(out@.map_values(|d: DeploymentInfo| d@) =~= before.map_values(|d: DeploymentInfo| d@).push(d@));
                    },
                    None => {},
                }
                i = i + 1;
            }
            assert(items@.subrange(0, items@.len() as int) =~= items@);
        },
        None => {
            assert(out@.map_values(|d: DeploymentInfo| d@) =~= Seq::<DeploymentView>::empty());
        },
    }
    out
}

/// The pods of the text of a `pods.json`; an error where serde_json refuses the text.
pub fn parse_pods(content: &str) -> (r: Result<Vec<PodInfo>, AppError>)
    ensures
        match r {
            Ok(ps) => json_document(content@) matches Some(doc) && ps@.map_values(|p: PodInfo| p@)
                == pods_of(items_of(doc)),
            Err(e) => json_document(content@) is None && e is Parse,
        },
{
    match parse_json(content) {
        Some(doc) => Ok(pods_from_json(&doc)),
        None => Err(AppError::Parse("malformed pods.json".to_string())),
    }
}

/// The deployments of the text of a `deployments.json`; an error where serde_json
/// refuses the text.
pub fn parse_deployments(content: &str) -> (r: Result<Vec<DeploymentInfo>, AppError>)
    ensures
        match r {
            Ok(ds) => json_document(content@) matches Some(doc) && ds@.map_values(|d: DeploymentInfo| d@)
                == deployments_of(items_of(doc)),
            Err(e) => json_document(content@) is None && e is Parse,
        },
{
    match parse_json(content) {
        Some(doc) => Ok(deployments_from_json(&doc)),
        None => Err(AppError::Parse("malformed deployments.json".to_string())),
    }
}

/// `x` placed in front of the first namespace of `s` whose name does not come before its
/// own.
pub open spec fn insert_by_name(x: NamespaceData, s: Seq<NamespaceData>) -> Seq<NamespaceData>
    decreases s.len(),
{
    if s.len() == 0 {
        seq![x]
    } else if !lex_lt(s[0].name@, x.name@) {
        seq![x] + s
    } else {
        seq![s[0]] + insert_by_name(x, s.drop_first())
    }
}

/// The namespaces ordered by name (lexicographically); equal names keep their order.
pub open spec fn by_name(s: Seq<NamespaceData>) -> Seq<NamespaceData>
    decreases s.len(),
{
    if s.len() == 0 {
        s
    } else {
        insert_by_name(s[0], by_name(s.drop_first()))
    }
}

/// Inserting in front of the first namespace whose name does not come before `x`'s is
/// what `insert_by_name` does.
proof fn lemma_insert_by_name_at(x: NamespaceData, s: Seq<NamespaceData>, p: int)
    requires
        0 <= p <= s.len(),
        forall|j: int| 0 <= j < p ==> lex_lt(#[trigger] s[j].name@, x.name@),
        p < s.len() ==> !lex_lt(s[p].name@, x.name@),
    ensures
        insert_by_name(x, s) == s.insert(p, x),
    decreases p,
{
    if p == 0 {
        assert(s.insert(0, x) =~= seq![x] + s);
    } else {
        let t = s.drop_first();
        assert forall|j: int| 0 <= j < p - 1 implies lex_lt(#[trigger] t[j].name@, x.name@) by {
            assert(t[j] == s[j + 1]);
        }
        lemma_insert_by_name_at(x, t, p - 1);
        assert(s.insert(p, x) =~= seq![s[0]] + t.insert(p - 1, x));
    }
}

/// The namespaces ordered by name, as `by_name` says.
pub fn sort_by_name(data: Vec<NamespaceData>) -> (r: Vec<NamespaceData>)
    ensures
        r@ == by_name(data@),
{
    let ghost s = data@;
    let ghost n = data@.len();
    let mut rest = data;
    let mut out: Vec<NamespaceData> = Vec::new();
    assert(s.subrange(n as int, n as int) =~= Seq::<NamespaceData>::empty());
    while rest.len() > 0
        invariant
            rest@.len() <= n,
            n == s.len(),
            rest@ == s.subrange(0, rest@.len() as int),
            out@ == by_name(s.subrange(rest@.len() as int, n as int)),
        decreases rest@.len(),
    {
        let ghost k = rest@.len();
        let x = rest.pop().unwrap();
        let mut p: usize = 0;
        while p < out.len() && text_less(out[p].name.as_str(), x.name.as_str())
            invariant
                0 <= p <= out@.len(),
                forall|j: int| 0 <= j < p ==> lex_lt(#[trigger] out@[j].name@, x.name@),
            decreases out@.len() - p,
        {
            p = p + 1;
        }
        proof {
            lemma_insert_by_name_at(x, out@, p as int);
            let t = s.subrange(k - 1, n as int);
            assert(t.drop_first() =~= s.subrange(k as int, n as int));
            assert(t[0] == x);
        }
        out.insert(p, x);
    }
    assert(s.subrange(0, n as int) =~= s);
    out
}

/// The list entry `info` describes the namespace `d`: same name, as many pods and as
/// many deployments.
pub open spec fn counts_match(info: NamespaceInfo, d: NamespaceData) -> bool {
    &&& info.name@ == d.name@
    &&& info.pod_count == d.pods@.len()
    &&& info.deployment_count == d.deployments@.len()
}

/// `list` is the namespace list of `data`: one entry per namespace, ordered by name.
pub open spec fn lists_namespaces(data: Seq<NamespaceData>, list: Seq<NamespaceInfo>) -> bool {
    &&& list.len() == data.len()
    &&& forall|i: int| 0 <= i < list.len() ==> counts_match(#[trigger] list[i], by_name(data)[i])
}

/// The namespace list: one entry per namespace, by name, with its pod and deployment
/// counts.
pub fn list_namespaces(data: Vec<NamespaceData>) -> (r: Vec<NamespaceInfo>)
    ensures
        lists_namespaces(data@, r@),
{
    let ghost s = data@;
    let sorted = sort_by_name(data);
    proof {
        lemma_by_name_len(s);
    }
    let mut out: Vec<NamespaceInfo> = Vec::new();
    let mut i: usize = 0;
    while i < sorted.len()
        invariant
            0 <= i <= sorted@.len(),
            sorted@ == by_name(s),
            out@.len() == i,
            forall|j: int|
                0 <= j < i ==> {
                    let d = #[trigger] sorted@[j];
                    &&& out@[j].name@ == d.name@
                    &&& out@[j].pod_count == d.pods@.len()
                    &&& out@[j].deployment_count == d.deployments@.len()
                },
        decreases sorted@.len() - i,
    {
        let d = &sorted[i];
        out.push(
            NamespaceInfo {
                name: d.name.clone(),
                pod_count: d.pods.len(),
                deployment_count: d.deployments.len(),
            },
        );
        i = i + 1;
    }
    out
}

/// An element of `seq![a] + s` is `a` or an element of `s`.
proof fn lemma_cons_contains<A>(a: A, s: Seq<A>, y: A)
    ensures
        (seq![a] + s).contains(y) <==> (y == a || s.contains(y)),
{
    let c = seq![a] + s;
    if y == a {
        assert(c[0] == y);
    }
    if s.contains(y) {
        let i = choose|i: int| 0 <= i < s.len() && s[i] == y;
        assert(c[i + 1] == y);
    }
    if c.contains(y) {
        let k = choose|k: int| 0 <= k < c.len() && c[k] == y;
        if k > 0 {
            assert(s[k - 1] == y);
        }
    }
}

/// Inserting by name adds `x` to the elements and nothing else.
proof fn lemma_insert_by_name_contains(x: NamespaceData, s: Seq<NamespaceData>, y: NamespaceData)
    ensures
        insert_by_name(x, s).contains(y) <==> (y == x || s.contains(y)),
    decreases s.len(),
{
    if s.len() == 0 {
        lemma_cons_contains(x, s, y);
    } else {
        let t = s.drop_first();
        assert(s =~= seq![s[0]] + t);
        lemma_cons_contains(s[0], t, y);
        if !lex_lt(s[0].name@, x.name@) {
            lemma_cons_contains(x, s, y);
        } else {
            lemma_insert_by_name_contains(x, t, y);
            lemma_cons_contains(s[0], insert_by_name(x, t), y);
        }
    }
}

/// Ordering by name keeps the same elements.
pub proof fn lemma_by_name_contains(s: Seq<NamespaceData>, y: NamespaceData)
    ensures
        by_name(s).contains(y) <==> s.contains(y),
    decreases s.len(),
{
    if s.len() > 0 {
        let t = s.drop_first();
        assert(s =~= seq![s[0]] + t);
        lemma_cons_contains(s[0], t, y);
        lemma_by_name_contains(t, y);
        lemma_insert_by_name_contains(s[0], by_name(t), y);
    }
}

/// Inserting keeps every element and adds one.
proof fn lemma_insert_by_name_len(x: NamespaceData, s: Seq<NamespaceData>)
    ensures
        insert_by_name(x, s).len() == s.len() + 1,
    decreases s.len(),
{
    if s.len() > 0 {
        lemma_insert_by_name_len(x, s.drop_first());
    }
}

/// Ordering by name keeps the number of namespaces.
pub proof fn lemma_by_name_len(s: Seq<NamespaceData>)
    ensures
        by_name(s).len() == s.len(),
    decreases s.len(),
{
    if s.len() > 0 {
        lemma_by_name_len(s.drop_first());
        lemma_insert_by_name_len(s[0], by_name(s.drop_first()));
    }
}

/// The abstract content of a [`ClusterIssue`].
pub ghost struct IssueView {
    pub severity: IssueSeverity,
    pub component: Seq<char>,
    pub component_type: ComponentKind,
    pub namespace: Seq<char>,
    pub description: Seq<char>,
}

impl View for ClusterIssue {
    type V = IssueView;

    open spec fn view(&self) -> IssueView {
        IssueView {
            severity: self.severity,
            component: self.component@,
            component_type: self.component_type,
            namespace: self.namespace@,
            description: self.description@,
        }
    }
}

/// A pod is healthy when it is ready and running.
pub open spec fn pod_healthy(p: PodInfo) -> bool {
    p.ready && p.status@ == "Running"@
}

/// The finding about a pod of namespace `ns`: a warning unless it is healthy.
pub open spec fn pod_issue(ns: Seq<char>, p: PodInfo) -> Option<IssueView> {
    if !pod_healthy(p) {
        Some(
            IssueView {
                severity: IssueSeverity::Warning,
                component: p.name@,
                component_type: ComponentKind::Pod,
                namespace: ns,
                description: "Pod "@ + p.name@ + " is not ready or not running (status: "@
                    + p.status@ + ")"@,
            },
        )
    } else {
        None
    }
}

/// The finding about a deployment of namespace `ns`: none when all desired replicas are
/// ready; critical when none is ready; a warning otherwise.
pub open spec fn deployment_issue(ns: Seq<char>, d: DeploymentInfo) -> Option<IssueView> {
    if d.ready_replicas != d.desired_replicas {
        Some(
            IssueView {
                severity: if d.ready_replicas == 0 {
                    IssueSeverity::Critical
                } else {
                    IssueSeverity::Warning
                },
                component: d.name@,
                component_type: ComponentKind::Deployment,
                namespace: ns,
                description: "Deployment "@ + d.name@ + " has "@ + decimal(d.ready_replicas as nat)
                    + "/"@ + decimal(d.desired_replicas as nat) + " replicas ready"@,
            },
        )
    } else {
        None
    }
}

/// The findings about the pods `ps`, in order.
pub open spec fn pod_issues(ns: Seq<char>, ps: Seq<PodInfo>) -> Seq<IssueView>
    decreases ps.len(),
{
    if ps.len() == 0 {
        seq![]
    } else {
        let rest = pod_issues(ns, ps.drop_last());
        match pod_issue(ns, ps.last()) {
            Some(i) => rest.push(i),
            None => rest,
        }
    }
}

/// The findings about the deployments `ds`, in order.
pub open spec fn deployment_issues(ns: Seq<char>, ds: Seq<DeploymentInfo>) -> Seq<IssueView>
    decreases ds.len(),
{
    if ds.len() == 0 {
        seq![]
    } else {
        let rest = deployment_issues(ns, ds.drop_last());
        match deployment_issue(ns, ds.last()) {
            Some(i) => rest.push(i),
            None => rest,
        }
    }
}

/// The finding about one pod, if any.
pub fn check_pod(namespace: &str, pod: &PodInfo) -> (r: Option<ClusterIssue>)
    ensures
        match r {
            Some(i) => pod_issue(namespace@, *pod) == Some(i@),
            None => pod_issue(namespace@, *pod) is None,
        },
{
    if !pod.ready || !same_text(pod.status.as_str(), "Running") {
        let mut description = "Pod ".to_string();
        description.append(pod.name.as_str());
        description.append(" is not ready or not running (status: ");
        description.append(pod.status.as_str());
        description.append(")");
        Some(
            ClusterIssue {
                severity: IssueSeverity::Warning,
                component: pod.name.clone(),
                component_type: ComponentKind::Pod,
                namespace: namespace.to_string(),
                description,
            },
        )
    } else {
        None
    }
}

/// The finding about one deployment, if any.
pub fn check_deployment(namespace: &str, d: &DeploymentInfo) -> (r: Option<ClusterIssue>)
    ensures
        match r {
            Some(i) => deployment_issue(namespace@, *d) == Some(i@),
            None => deployment_issue(namespace@, *d) is None,
        },
{
    if d.ready_replicas != d.desired_replicas {
        let severity = if d.ready_replicas == 0 {
            IssueSeverity::Critical
        } else {
            IssueSeverity::Warning
        };
        let mut description = "Deployment ".to_string();
        description.append(d.name.as_str());
        description.append(" has ");
        description.append(decimal_text(d.ready_replicas as u64).as_str());
        description.append("/");
        description.append(decimal_text(d.desired_replicas as u64).as_str());
        description.append(" replicas ready");
        Some(
            ClusterIssue {
                severity,
                component: d.name.clone(),
                component_type: ComponentKind::Deployment,
                namespace: namespace.to_string(),
                description,
            },
        )
    } else {
        None
    }
}

/// The findings about a namespace: its pods' first, then its deployments'.
pub fn namespace_issues(namespace: &str, pods: &Vec<PodInfo>, deployments: &Vec<DeploymentInfo>) -> (r: Vec<ClusterIssue>)
    ensures
        r@.map_values(|i: ClusterIssue| i@) == pod_issues(namespace@, pods@) + deployment_issues(
            namespace@,
            deployments@,
        ),
{
    let mut out: Vec<ClusterIssue> = Vec::new();
    let mut i: usize = 0;
    while i < pods.len()
        invariant
            0 <= i <= pods@.len(),
            out@.map_values(|i: ClusterIssue| i@) == pod_issues(namespace@, pods@.subrange(0, i as int)),
        decreases pods@.len() - i,
    {
        assert(pods@.subrange(0, i + 1).drop_last() =~= pods@.subrange(0, i as int));
        let ghost before = out@;
        if let Some(issue) = check_pod(namespace, &pods[i]) {
            out.push(issue);
            assert(out@.map_values(|i: ClusterIssue| i@) =~= before.map_values(|i: ClusterIssue| i@).push(issue@));
        }
        i = i + 1;
    }
    assert(pods@.subrange(0, pods@.len() as int) =~= pods@);
    let ghost pod_part = out@.map_values(|i: ClusterIssue| i@);
    let mut j: usize = 0;
    assert(pod_part + deployment_issues(namespace@, deployments@.subrange(0, 0)) =~= pod_part);
    while j < deployments.len()
        invariant
            0 <= j <= deployments@.len(),
            out@.map_values(|i: ClusterIssue| i@) == pod_part + deployment_issues(
                namespace@,
                deployments@.subrange(0, j as int),
            ),
        decreases deployments@.len() - j,
    {
        assert(deployments@.subrange(0, j + 1).drop_last() =~= deployments@.subrange(0, j as int));
        let ghost before = out@;
        if let Some(issue) = check_deployment(namespace, &deployments[j]) {
            out.push(issue);
            assert(out@.map_values(|i: ClusterIssue| i@) =~= before.map_values(|i: ClusterIssue| i@).push(issue@));
        }
        j = j + 1;
    }
    assert(deployments@.subrange(0, deployments@.len() as int) =~= deployments@);
    out
}

/// `x`, or the largest `usize` where it is larger.
pub open spec fn capped(x: int) -> int {
    if x > usize::MAX {
        usize::MAX as int
    } else {
        x
    }
}

/// How many pods the namespaces hold together.
pub open spec fn sum_pods(s: Seq<NamespaceAnalysis>) -> int
    decreases s.len(),
{
    if s.len() == 0 {
        0
    } else {
        sum_pods(s.drop_last()) + s.last().pods@.len()
    }
}

/// How many deployments the namespaces hold together.
pub open spec fn sum_deployments(s: Seq<NamespaceAnalysis>) -> int
    decreases s.len(),
{
    if s.len() == 0 {
        0
    } else {
        sum_deployments(s.drop_last()) + s.last().deployments@.len()
    }
}

/// How many findings the namespaces hold together.
pub open spec fn sum_issues(s: Seq<NamespaceAnalysis>) -> int
    decreases s.len(),
{
    if s.len() == 0 {
        0
    } else {
        sum_issues(s.drop_last()) + s.last().issues@.len()
    }
}

/// The analysis of one namespace: its data and the findings about it.
pub open spec fn analysis_of(a: NamespaceAnalysis, d: NamespaceData) -> bool {
    &&& a.name == d.name
    &&& a.pods == d.pods
    &&& a.deployments == d.deployments
    &&& a.issues@.map_values(|i: ClusterIssue| i@) == pod_issues(d.name@, d.pods@)
        + deployment_issues(d.name@, d.deployments@)
}

/// The analysis of a snapshot: one entry per namespace, by name, with the findings
/// about each, and the totals over all namespaces (capped at the largest `usize`).
pub fn analyze_cluster(data: Vec<NamespaceData>) -> (r: ClusterAnalysis)
    ensures
        r.namespaces@.len() == data@.len(),
        forall|i: int|
            0 <= i < r.namespaces@.len() ==> analysis_of(
                #[trigger] r.namespaces@[i],
                by_name(data@)[i],
            ),
        r.total_pods == capped(sum_pods(r.namespaces@)),
        r.total_deployments == capped(sum_deployments(r.namespaces@)),
        r.total_issues == capped(sum_issues(r.namespaces@)),
{
    let ghost s = data@;
    proof {
        lemma_by_name_len(s);
    }
    let sorted = sort_by_name(data);
    let ghost t = sorted@;
    let mut rest = sorted;
    let mut out: Vec<NamespaceAnalysis> = Vec::new();
    while rest.len() > 0
        invariant
            t == by_name(s),
            t.len() == s.len(),
            rest@.len() <= t.len(),
            rest@ == t.subrange(0, rest@.len() as int),
            out@.len() == t.len() - rest@.len(),
            forall|j: int|
                0 <= j < out@.len() ==> analysis_of(
                    #[trigger] out@[j],
                    t[rest@.len() + j],
                ),
        decreases rest@.len(),
    {
        let ghost k = rest@.len();
        let d = rest.pop().unwrap();
        let issues = namespace_issues(d.name.as_str(), &d.pods, &d.deployments);
        let ghost before = out@;
        out.insert(0, NamespaceAnalysis { name: d.name, pods: d.pods, deployments: d.deployments, issues });
        assert forall|j: int| 0 <= j < out@.len() implies analysis_of(
            #[trigger] out@[j],
            t[rest@.len() + j],
        ) by {
            if j > 0 {
                assert(out@[j] == before[j - 1]);
            }
        }
    }
    let mut total_pods: usize = 0;
    let mut total_deployments: usize = 0;
    let mut total_issues: usize = 0;
    let mut i: usize = 0;
    while i < out.len()
        invariant
            0 <= i <= out@.len(),
            total_pods == capped(sum_pods(out@.subrange(0, i as int))),
            total_deployments == capped(sum_deployments(out@.subrange(0, i as int))),
            total_issues == capped(sum_issues(out@.subrange(0, i as int))),
        decreases out@.len() - i,
    {
        let ghost sub = out@.subrange(0, i + 1);
        assert(sub.drop_last() =~= out@.subrange(0, i as int));
        proof {
            lemma_sums_nonneg(out@.subrange(0, i as int));
        }
        total_pods = total_pods.saturating_add(out[i].pods.len());
        total_deployments = total_deployments.saturating_add(out[i].deployments.len());
        total_issues = total_issues.saturating_add(out[i].issues.len());
        i = i + 1;
    }
    assert(out@.subrange(0, out@.len() as int) =~= out@);
    ClusterAnalysis { namespaces: out, total_pods, total_deployments, total_issues }
}

/// The totals are never negative.
proof fn lemma_sums_nonneg(s: Seq<NamespaceAnalysis>)
    ensures
        sum_pods(s) >= 0,
        sum_deployments(s) >= 0,
        sum_issues(s) >= 0,
    decreases s.len(),
{
    if s.len() > 0 {
        lemma_sums_nonneg(s.drop_last());
    }
}

} // verus!
