//! Texts that the views show: component details, shortened log fields, and the mapping
//! from display rows to selectable rows.
use vstd::prelude::*;

use crate::kubernetes::{DeploymentInfo, PodInfo};
use crate::text::{
    chars_of, concat, contains, contains_exec, decimal, decimal_text, find, find_exec, same_text,
    single, text_of,
};

verus! {

/// How many of the first `t` rows are selectable.
pub open spec fn selectable_before(rows: Seq<bool>, t: int) -> nat
    decreases t,
{
    if t <= 0 || t > rows.len() {
        0
    } else {
        selectable_before(rows, t - 1) + if rows[t - 1] {
            1nat
        } else {
            0nat
        }
    }
}

/// The selectable index of display row `target`: how many selectable rows come before
/// it; 0 for a row past the end.
pub fn calculate_selectable_index(display_items: &Vec<(String, bool)>, target_display_index: usize) -> (r: usize)
    ensures
        r == if target_display_index < display_items@.len() {
            selectable_before(display_items@.map_values(|d: (String, bool)| d.1), target_display_index as int)
        } else {
            0
        },
{
    let ghost rows = display_items@.map_values(|d: (String, bool)| d.1);
    let mut count: usize = 0;
    let mut i: usize = 0;
    while i < display_items.len()
        invariant
            0 <= i <= display_items@.len(),
            rows == display_items@.map_values(|d: (String, bool)| d.1),
            count == selectable_before(rows, i as int),
            count <= i,
            i <= target_display_index || target_display_index >= display_items@.len(),
        decreases display_items@.len() - i,
    {
        if i == target_display_index {
            return count;
        }
        if display_items[i].1 {
            count = count + 1;
        }
        i = i + 1;
    }
    0
}

/// How many times `c` occurs in `s`.
pub open spec fn count_of(s: Seq<char>, c: char) -> nat
    decreases s.len(),
{
    if s.len() == 0 {
        0
    } else {
        count_of(s.drop_last(), c) + if s.last() == c {
            1nat
        } else {
            0nat
        }
    }
}

/// The kind that a log directory's name suggests.
pub open spec fn kind_by_name(n: Seq<char>) -> Seq<char> {
    if contains(n, "pod"@) || (contains(n, "-"@) && count_of(n, '-') >= 2) {
        "Pod"@
    } else if contains(n, "deploy"@) {
        "Deployment"@
    } else if contains(n, "service"@) || contains(n, "svc"@) {
        "Service"@
    } else if contains(n, "manager"@) {
        "Manager"@
    } else if contains(n, "controller"@) {
        "Controller"@
    } else if contains(n, "operator"@) {
        "Operator"@
    } else {
        "Component"@
    }
}

fn count_char(s: &Vec<char>, c: char) -> (r: usize)
    ensures
        r == count_of(s@, c),
{
    let mut n: usize = 0;
    let mut i: usize = 0;
    while i < s.len()
        invariant
            0 <= i <= s@.len(),
            n == count_of(s@.subrange(0, i as int), c),
            n <= i,
        decreases s@.len() - i,
    {
        assert(s@.subrange(0, i + 1).drop_last() =~= s@.subrange(0, i as int));
        if s[i] == c {
            n = n + 1;
        }
        i = i + 1;
    }
    assert(s@.subrange(0, s@.len() as int) =~= s@);
    n
}

/// The kind that a log directory's name suggests.
pub fn determine_component_type(component_name: &str) -> (r: &'static str)
    ensures
        r@ == kind_by_name(component_name@),
{
    let n = chars_of(component_name);
    if contains_exec(&n, "pod") || (contains_exec(&n, "-") && count_char(&n, '-') >= 2) {
        "Pod"
    } else if contains_exec(&n, "deploy") {
        "Deployment"
    } else if contains_exec(&n, "service") || contains_exec(&n, "svc") {
        "Service"
    } else if contains_exec(&n, "manager") {
        "Manager"
    } else if contains_exec(&n, "controller") {
        "Controller"
    } else if contains_exec(&n, "operator") {
        "Operator"
    } else {
        "Component"
    }
}

/// The smaller of two integers.
pub open spec fn min(a: int, b: int) -> int {
    if a < b {
        a
    } else {
        b
    }
}

/// A timestamp shortened for a log line: up to 19 characters are kept; a longer one is
/// cut to its date (10 characters) and the 8 characters after its first `T`, or else to
/// its first 19 characters.
pub open spec fn short_timestamp(t: Seq<char>) -> Seq<char> {
    if t.len() > 19 {
        match find(t, "T"@) {
            Some(p) => t.subrange(0, 10) + " "@ + t.subrange(p + 1, min(p + 9, t.len() as int)),
            None => t.subrange(0, 19),
        }
    } else {
        t
    }
}

/// A timestamp shortened for a log line.
pub fn truncate_timestamp(timestamp: &str) -> (r: String)
    ensures
        r@ == short_timestamp(timestamp@),
{
    proof {
        reveal_with_fuel(Seq::fold_left, 4);
    }
    let t = chars_of(timestamp);
    let len = t.len();
    if len > 19 {
        match find_exec(&t, &single('T')) {
            Some(p) => {
                proof {
                    assert("T"@ =~= seq!['T']) by {
                        reveal_strlit("T");
                    }
                }
                let end = if len - p > 9 {
                    p + 9
                } else {
                    len
                };
                let date = text_of(&t, 0, 10);
                let time = text_of(&t, p + 1, end);
                concat(&[date.as_str(), " ", time.as_str()])
            },
            None => {
                proof {
                    assert("T"@ =~= seq!['T']) by {
                        reveal_strlit("T");
                    }
                }
                text_of(&t, 0, 19)
            },
        }
    } else {
        timestamp.to_string()
    }
}

/// A message shortened to at most `max` characters, the last three of them `...`.
pub open spec fn short_message(m: Seq<char>, max: int) -> Seq<char> {
    if m.len() > max {
        m.subrange(0, max - 3) + "..."@
    } else {
        m
    }
}

/// A message shortened for a log line.
pub fn truncate_message(message: &str, max_len: usize) -> (r: String)
    requires
        max_len >= 3 || message@.len() <= max_len,
    ensures
        r@ == short_message(message@, max_len as int),
{
    proof {
        reveal_with_fuel(Seq::fold_left, 3);
    }
    let m = chars_of(message);
    if m.len() > max_len {
        let head = text_of(&m, 0, max_len - 3);
        concat(&[head.as_str(), "..."])
    } else {
        message.to_string()
    }
}

/// Whether `c` is an ASCII digit.
pub open spec fn is_digit(c: char) -> bool {
    48 <= c as u32 <= 57
}

/// The number that a sequence of digits spells.
pub open spec fn digits_value(d: Seq<char>) -> int
    decreases d.len(),
{
    if d.len() == 0 {
        0
    } else {
        digits_value(d.drop_last()) * 10 + (d.last() as u32 - 48)
    }
}

/// A number's text without its leading `+`, if any.
pub open spec fn unsigned_part(s: Seq<char>) -> Seq<char> {
    if s.len() > 0 && s[0] == '+' {
        s.drop_first()
    } else {
        s
    }
}

/// Whether `i32::from_str` reads `s` as a number above zero: an optional `+`, then
/// digits whose value is at most `i32::MAX`, and above zero.
pub open spec fn positive_i32(s: Seq<char>) -> bool {
    let d = unsigned_part(s);
    &&& d.len() > 0
    &&& forall|i: int| 0 <= i < d.len() ==> is_digit(#[trigger] d[i])
    &&& 0 < digits_value(d) <= i32::MAX
}

proof fn lemma_digits_nonneg(d: Seq<char>)
    requires
        forall|i: int| 0 <= i < d.len() ==> is_digit(#[trigger] d[i]),
    ensures
        digits_value(d) >= 0,
    decreases d.len(),
{
    if d.len() > 0 {
        lemma_digits_nonneg(d.drop_last());
        assert(is_digit(d[d.len() - 1]));
    }
}

/// Whether a restart count reads as a number above zero.
pub fn restarted(count: &str) -> (r: bool)
    ensures
        r == positive_i32(count@),
{
    let s = chars_of(count);
    let len = s.len();
    let start: usize = if len > 0 && s[0] == '+' {
        1
    } else {
        0
    };
    let ghost d = s@.subrange(start as int, len as int);
    assert(d =~= unsigned_part(s@));
    if start == len {
        return false;
    }
    let cap: u64 = 0x8000_0000;
    let mut v: u64 = 0;
    let mut i = start;
    while i < len
        invariant
            start <= i <= len,
            len == s@.len(),
            cap == 0x8000_0000,
            d == s@.subrange(start as int, len as int),
            s@ == count@,
            d == unsigned_part(count@),
            forall|j: int| start <= j < i ==> is_digit(#[trigger] s@[j]),
            v == min(digits_value(s@.subrange(start as int, i as int)), cap as int),
            v <= cap,
        decreases len - i,
    {
        let c = s[i];
        if !((c as u32) >= 48 && (c as u32) <= 57) {
            assert(d[i - start] == c);
            assert(!is_digit(d[i - start]));
            return false;
        }
        let ghost prefix = s@.subrange(start as int, i as int);
        let ghost next = s@.subrange(start as int, i + 1);
        assert(next.drop_last() =~= prefix);
        assert(next.last() == c);
        proof {
            assert forall|j: int| 0 <= j < prefix.len() implies is_digit(#[trigger] prefix[j]) by {
                assert(prefix[j] == s@[start + j]);
            }
            lemma_digits_nonneg(prefix);
        }
        let digit = (c as u32 - 48) as u64;
        assert(v * 10 <= cap * 10) by (nonlinear_arith)
            requires
                v <= cap,
        ;
        let w = v * 10 + digit;
        assert(digits_value(next) == digits_value(prefix) * 10 + digit);
        assert(w == min(digits_value(next), cap as int) || w > cap) by (nonlinear_arith)
            requires
                v == min(digits_value(prefix), cap as int),
                w == v * 10 + digit,
                digits_value(next) == digits_value(prefix) * 10 + digit,
                digits_value(prefix) >= 0,
                0 <= digit <= 9,
        ;
        assert(w >= cap ==> digits_value(next) >= cap) by (nonlinear_arith)
            requires
                v == min(digits_value(prefix), cap as int),
                w == v * 10 + digit,
                digits_value(next) == digits_value(prefix) * 10 + digit,
                digits_value(prefix) >= 0,
                0 <= digit <= 9,
        ;
        v = if w > cap {
            cap
        } else {
            w
        };
        i = i + 1;
    }
    assert forall|j: int| 0 <= j < d.len() implies is_digit(#[trigger] d[j]) by {
        assert(d[j] == s@[start + j]);
    }
    v > 0 && v <= 0x7fff_ffff
}

/// `text` when `c` holds, else `other`.
pub open spec fn pick(c: bool, text: Seq<char>, other: Seq<char>) -> Seq<char> {
    if c {
        text
    } else {
        other
    }
}

/// The line for an optional field: its value, or that it is not available.
pub open spec fn field_line(label: Seq<char>, v: Option<Seq<char>>) -> Seq<char> {
    match v {
        Some(t) => label + ": "@ + t,
        None => label + ": Not available"@,
    }
}

/// The lines of the details of a pod found in namespace `ns`.
pub open spec fn pod_detail_lines(p: PodInfo, ns: Seq<char>) -> Seq<Seq<char>> {
    let healthy = p.status@ == "Running"@ && p.ready;
    seq![
        "\u{1f4e6} POD INFORMATION"@,
        ""@,
        "Name: "@ + p.name@,
        "Namespace: "@ + ns,
        "Status: "@ + pick(healthy, "\u{1f7e2}"@, "\u{1f534}"@) + " "@ + p.status@,
        "Ready: "@ + pick(p.ready, "\u{2705} Yes"@, "\u{274c} No"@),
        ""@,
        "\u{1f527} RESOURCE INFORMATION"@,
        field_line("CPU Usage"@, p@.cpu_usage),
        field_line("Memory Usage"@, p@.memory_usage),
        match p.restart_count {
            Some(c) => "Restart Count: "@ + pick(positive_i32(c@), "\u{26a0}\u{fe0f}"@, "\u{2705}"@)
                + " "@ + c@,
            None => "Restart Count: Not available"@,
        },
        ""@,
        "\u{1f4e6} CONTAINER INFORMATION"@,
        field_line("Image"@, p@.image),
        ""@,
        "\u{2764}\u{fe0f} HEALTH STATUS"@,
    ] + if healthy {
        seq![
            "Overall Health: \u{1f7e2} Healthy"@,
            "Status: Pod is running and ready to serve traffic"@,
        ]
    } else {
        seq!["Overall Health: \u{1f534} Unhealthy"@] + (if !p.ready {
            seq!["Issue: Pod is not ready to serve traffic"@]
        } else {
            seq![]
        }) + (if p.status@ != "Running"@ {
            seq!["Issue: Pod status is '"@ + p.status@ + "' instead of 'Running'"@]
        } else {
            seq![]
        })
    } + seq![""@, "\u{1f50d} DEBUG INFORMATION"@, "Pod object loaded from namespace: "@ + ns]
}

/// Lines, by their characters.
pub open spec fn lines_view(v: Seq<String>) -> Seq<Seq<char>> {
    v.map_values(|s: String| s@)
}

fn optional_line(label: &str, v: &Option<String>) -> (r: String)
    ensures
        r@ == field_line(label@, crate::text::opt_text(*v)),
{
    proof {
        reveal_with_fuel(Seq::fold_left, 4);
    }
    match v {
        Some(t) => concat(&[label, ": ", t.as_str()]),
        None => concat(&[label, ": Not available"]),
    }
}

fn push_line(lines: &mut Vec<String>, line: String)
    ensures
        lines_view(final(lines)@) == lines_view(old(lines)@).push(line@),
{
    lines.push(line);
    assert(lines_view(final(lines)@) =~= lines_view(old(lines)@).push(line@));
}

/// The lines of the details of a pod found in `namespace`.
pub fn create_pod_detail_lines(pod: &PodInfo, namespace: &str) -> (r: Vec<String>)
    ensures
        lines_view(r@) == pod_detail_lines(*pod, namespace@),
{
    proof {
        reveal_with_fuel(Seq::fold_left, 5);
    }
    let running = same_text(pod.status.as_str(), "Running");
    let healthy = running && pod.ready;
    let mut lines: Vec<String> = Vec::new();
    push_line(&mut lines, "\u{1f4e6} POD INFORMATION".to_string());
    push_line(&mut lines, "".to_string());
    push_line(&mut lines, concat(&["Name: ", pod.name.as_str()]));
    push_line(&mut lines, concat(&["Namespace: ", namespace]));
    let icon = if healthy {
        "\u{1f7e2}"
    } else {
        "\u{1f534}"
    };
    push_line(&mut lines, concat(&["Status: ", icon, " ", pod.status.as_str()]));
    let ready = if pod.ready {
        "\u{2705} Yes"
    } else {
        "\u{274c} No"
    };
    push_line(&mut lines, concat(&["Ready: ", ready]));
    push_line(&mut lines, "".to_string());
    push_line(&mut lines, "\u{1f527} RESOURCE INFORMATION".to_string());
    push_line(&mut lines, optional_line("CPU Usage", &pod.cpu_usage));
    push_line(&mut lines, optional_line("Memory Usage", &pod.memory_usage));
    let restart_line = match &pod.restart_count {
        Some(c) => {
            let icon = if restarted(c.as_str()) {
                "\u{26a0}\u{fe0f}"
            } else {
                "\u{2705}"
            };
            concat(&["Restart Count: ", icon, " ", c.as_str()])
        },
        None => "Restart Count: Not available".to_string(),
    };
    push_line(&mut lines, restart_line);
    push_line(&mut lines, "".to_string());
    push_line(&mut lines, "\u{1f4e6} CONTAINER INFORMATION".to_string());
    push_line(&mut lines, optional_line("Image", &pod.image));
    push_line(&mut lines, "".to_string());
    push_line(&mut lines, "\u{2764}\u{fe0f} HEALTH STATUS".to_string());
    let ghost head = lines_view(lines@);
    if healthy {
        push_line(&mut lines, "Overall Health: \u{1f7e2} Healthy".to_string());
        push_line(&mut lines, "Status: Pod is running and ready to serve traffic".to_string());
    } else {
        push_line(&mut lines, "Overall Health: \u{1f534} Unhealthy".to_string());
        if !pod.ready {
            push_line(&mut lines, "Issue: Pod is not ready to serve traffic".to_string());
        }
        if !running {
            push_line(
                &mut lines,
                concat(&["Issue: Pod status is '", pod.status.as_str(), "' instead of 'Running'"]),
            );
        }
    }
    let ghost health = lines_view(lines@).subrange(head.len() as int, lines@.len() as int);
    assert(lines_view(lines@) =~= head + health);
    push_line(&mut lines, "".to_string());
    push_line(&mut lines, "\u{1f50d} DEBUG INFORMATION".to_string());
    push_line(&mut lines, concat(&["Pod object loaded from namespace: ", namespace]));
    assert(lines_view(lines@) =~= pod_detail_lines(*pod, namespace@));
    lines
}

/// The position of the last `c` among the first `n` characters of `s`.
pub open spec fn last_index(s: Seq<char>, c: char, n: int) -> Option<int>
    decreases n,
{
    if n <= 0 || n > s.len() {
        None
    } else if s[n - 1] == c {
        Some(n - 1)
    } else {
        last_index(s, c, n - 1)
    }
}

/// The name and tag lines of an image reference that has a registry or repository part:
/// what follows its last `/`, cut at its first `:`.
pub open spec fn image_parts(image: Seq<char>) -> Seq<Seq<char>> {
    match last_index(image, '/', image.len() as int) {
        Some(slash) => {
            let name_tag = image.subrange(slash + 1, image.len() as int);
            match find(name_tag, ":"@) {
                Some(colon) => seq![
                    "  Image Name: "@ + name_tag.subrange(0, colon),
                    "  Tag: "@ + name_tag.subrange(colon + 1, name_tag.len() as int),
                ],
                None => seq![],
            }
        },
        None => seq![],
    }
}

/// The decimal counts `ready/desired` of a deployment.
pub open spec fn replica_counts(d: DeploymentInfo) -> Seq<char> {
    decimal(d.ready_replicas as nat) + "/"@ + decimal(d.desired_replicas as nat)
}

/// The first lines of the details of a deployment: identity, replicas, availability,
/// strategy and image.
pub open spec fn deployment_head(d: DeploymentInfo, ns: Seq<char>, percent: Seq<char>) -> Seq<Seq<char>> {
    let all_ready = d.ready_replicas == d.desired_replicas && d.desired_replicas > 0;
    let scaled_to_zero = d.desired_replicas == 0;
    seq![
        "\u{1f680} DEPLOYMENT INFORMATION"@,
        ""@,
        "Name: "@ + d.name@,
        "Namespace: "@ + ns,
        "Replicas: "@ + (if all_ready {
            "\u{1f7e2}"@
        } else if scaled_to_zero {
            "\u{26aa}"@
        } else {
            "\u{1f534}"@
        }) + " "@ + replica_counts(d),
        if scaled_to_zero {
            "Availability: N/A (scaled to 0)"@
        } else {
            "Availability: "@ + percent + "%"@
        },
        ""@,
        "\u{1f4cb} DEPLOYMENT STRATEGY"@,
        field_line("Update Strategy"@, d@.strategy),
        ""@,
        "\u{1f4e6} CONTAINER IMAGE"@,
        field_line("Image"@, d@.image),
    ]
}

/// The health lines of the details of a deployment.
pub open spec fn deployment_health(d: DeploymentInfo, ns: Seq<char>) -> Seq<Seq<char>> {
    let all_ready = d.ready_replicas == d.desired_replicas && d.desired_replicas > 0;
    seq![""@, "\u{2764}\u{fe0f} HEALTH STATUS"@] + (if all_ready {
        seq![
            "Overall Health: \u{1f7e2} Healthy"@,
            "Status: All replicas are ready and available"@,
        ]
    } else if d.desired_replicas == 0 {
        seq![
            "Overall Health: \u{26aa} Scaled to Zero"@,
            "Status: Deployment is intentionally scaled to 0 replicas"@,
        ]
    } else {
        seq![
            "Overall Health: \u{1f534} Unhealthy"@,
            if d.ready_replicas == 0 {
                "Issue: No replicas are ready (complete outage)"@
            } else {
                "Issue: Only "@ + replica_counts(d) + " replicas are ready (partial outage)"@
            },
        ]
    }) + seq![
        ""@,
        "\u{1f50d} DEBUG INFORMATION"@,
        "Deployment object loaded from namespace: "@ + ns,
    ]
}

/// The lines of the details of a deployment found in namespace `ns`; `percent` is the
/// share of ready replicas in percent, written with one decimal.
pub open spec fn deployment_detail_lines(d: DeploymentInfo, ns: Seq<char>, percent: Seq<char>) -> Seq<Seq<char>> {
    deployment_head(d, ns, percent) + match d@.image {
        Some(image) => image_parts(image),
        None => seq![],
    } + deployment_health(d, ns)
}


/// The name and tag lines of an image reference.
fn image_part_lines(image: &str) -> (r: Vec<String>)
    ensures
        lines_view(r@) == image_parts(image@),
{
    proof {
        reveal_with_fuel(Seq::fold_left, 3);
    }
    let cs = chars_of(image);
    let len = cs.len();
    let mut n = len;
    while n > 0 && cs[n - 1] != '/'
        invariant
            n <= cs@.len(),
            len == cs@.len(),
            cs@ == image@,
            last_index(image@, '/', image@.len() as int) == last_index(image@, '/', n as int),
        decreases n,
    {
        n = n - 1;
    }
    let mut out: Vec<String> = Vec::new();
    if n == 0 {
        assert(lines_view(out@) =~= Seq::<Seq<char>>::empty());
        return out;
    }
    let name_tag = crate::text::sub_chars(&cs, n, len);
    match find_exec(&name_tag, &single(':')) {
        Some(colon) => {
            proof {
                assert(":"@ =~= seq![':']) by {
                    reveal_strlit(":");
                }
            }
            let name = text_of(&name_tag, 0, colon);
            let tag = text_of(&name_tag, colon + 1, name_tag.len());
            push_line(&mut out, concat(&["  Image Name: ", name.as_str()]));
            push_line(&mut out, concat(&["  Tag: ", tag.as_str()]));
            assert(lines_view(out@) =~= image_parts(image@));
        },
        None => {
            proof {
                assert(":"@ =~= seq![':']) by {
                    reveal_strlit(":");
                }
            }
            assert(lines_view(out@) =~= image_parts(image@));
        },
    }
    out
}

/// Appends `more` to `lines`.
fn append_lines(lines: &mut Vec<String>, more: &Vec<String>)
    ensures
        lines_view(final(lines)@) == lines_view(old(lines)@) + lines_view(more@),
{
    let mut k: usize = 0;
    while k < more.len()
        invariant
            0 <= k <= more@.len(),
            lines_view(lines@) == lines_view(old(lines)@) + lines_view(more@).subrange(0, k as int),
        decreases more@.len() - k,
    {
        push_line(lines, more[k].clone());
        assert(lines_view(more@).subrange(0, k + 1) =~= lines_view(more@).subrange(0, k as int).push(
            more@[k as int]@,
        ));
        k = k + 1;
    }
    assert(lines_view(more@).subrange(0, more@.len() as int) =~= lines_view(more@));
}

/// The health lines of the details of a deployment.
fn health_lines(d: &DeploymentInfo, namespace: &str, ready: &String, desired: &String) -> (r: Vec<String>)
    requires
        ready@ == decimal(d.ready_replicas as nat),
        desired@ == decimal(d.desired_replicas as nat),
    ensures
        lines_view(r@) == deployment_health(*d, namespace@),
{
    proof {
        reveal_with_fuel(Seq::fold_left, 7);
    }
    let mut lines: Vec<String> = Vec::new();
    push_line(&mut lines, "".to_string());
    push_line(&mut lines, "\u{2764}\u{fe0f} HEALTH STATUS".to_string());
    if d.ready_replicas == d.desired_replicas && d.desired_replicas > 0 {
        push_line(&mut lines, "Overall Health: \u{1f7e2} Healthy".to_string());
        push_line(&mut lines, "Status: All replicas are ready and available".to_string());
    } else if d.desired_replicas == 0 {
        push_line(&mut lines, "Overall Health: \u{26aa} Scaled to Zero".to_string());
        push_line(&mut lines, "Status: Deployment is intentionally scaled to 0 replicas".to_string());
    } else {
        push_line(&mut lines, "Overall Health: \u{1f534} Unhealthy".to_string());
        if d.ready_replicas == 0 {
            push_line(&mut lines, "Issue: No replicas are ready (complete outage)".to_string());
        } else {
            let line = concat(&["Issue: Only ", ready.as_str(), "/", desired.as_str(), " replicas are ready (partial outage)"]);
            assert(line@ == "Issue: Only "@ + replica_counts(*d) + " replicas are ready (partial outage)"@);
            push_line(&mut lines, line);
        }
    }
    push_line(&mut lines, "".to_string());
    push_line(&mut lines, "\u{1f50d} DEBUG INFORMATION".to_string());
    push_line(&mut lines, concat(&["Deployment object loaded from namespace: ", namespace]));
    let ghost h = deployment_health(*d, namespace@);
    assert(lines_view(lines@).len() == h.len());
    assert(lines_view(lines@)[3] == h[3]);
    assert(lines_view(lines@) =~= h);
    lines
}

/// The lines of the details of a deployment found in `namespace`. `percent` is the share
/// of ready replicas in percent with one decimal, which the caller formats.
pub fn create_deployment_detail_lines(deployment: &DeploymentInfo, namespace: &str, percent: &str) -> (r: Vec<String>)
    ensures
        lines_view(r@) == deployment_detail_lines(*deployment, namespace@, percent@),
{
    proof {
        reveal_with_fuel(Seq::fold_left, 8);
    }
    let d = deployment;
    let all_ready = d.ready_replicas == d.desired_replicas && d.desired_replicas > 0;
    let scaled_to_zero = d.desired_replicas == 0;
    let ready = decimal_text(d.ready_replicas as u64);
    let desired = decimal_text(d.desired_replicas as u64);
    let mut lines: Vec<String> = Vec::new();
    push_line(&mut lines, "\u{1f680} DEPLOYMENT INFORMATION".to_string());
    push_line(&mut lines, "".to_string());
    push_line(&mut lines, concat(&["Name: ", d.name.as_str()]));
    push_line(&mut lines, concat(&["Namespace: ", namespace]));
    let icon = if all_ready {
        "\u{1f7e2}"
    } else if scaled_to_zero {
        "\u{26aa}"
    } else {
        "\u{1f534}"
    };
    let replicas = concat(&["Replicas: ", icon, " ", ready.as_str(), "/", desired.as_str()]);
    assert(replicas@ =~= "Replicas: "@ + icon@ + " "@ + replica_counts(*deployment));
    push_line(&mut lines, replicas);
    if scaled_to_zero {
        push_line(&mut lines, "Availability: N/A (scaled to 0)".to_string());
    } else {
        push_line(&mut lines, concat(&["Availability: ", percent, "%"]));
    }
    push_line(&mut lines, "".to_string());
    push_line(&mut lines, "\u{1f4cb} DEPLOYMENT STRATEGY".to_string());
    push_line(&mut lines, optional_line("Update Strategy", &d.strategy));
    push_line(&mut lines, "".to_string());
    push_line(&mut lines, "\u{1f4e6} CONTAINER IMAGE".to_string());
    push_line(&mut lines, optional_line("Image", &d.image));
    let ghost head = lines_view(lines@);
    let ghost dh = deployment_head(*deployment, namespace@, percent@);
    assert(head[4] == dh[4]);
    assert(head[5] == dh[5]);
    assert(head =~= dh);
    let extra = match &d.image {
        Some(image) => image_part_lines(image.as_str()),
        None => Vec::new(),
    };
    assert(lines_view(extra@) =~= match d@.image {
        Some(image) => image_parts(image),
        None => Seq::<Seq<char>>::empty(),
    });
    append_lines(&mut lines, &extra);
    let health = health_lines(d, namespace, &ready, &desired);
    append_lines(&mut lines, &health);
    assert(lines_view(lines@) =~= deployment_detail_lines(*deployment, namespace@, percent@));
    lines
}

} // verus!
