//! Where the logs of a component may be found in a snapshot, as paths relative to the
//! snapshot root.
use vstd::prelude::*;

use crate::kubernetes::ComponentKind;
use crate::text::{chars_of, concat, same_text, text_of};

verus! {

/// The lowercase name of a kind, as it appears in directory names.
pub open spec fn kind_dir(k: ComponentKind) -> Seq<char> {
    match k {
        ComponentKind::Pod => "pod"@,
        ComponentKind::Deployment => "deployment"@,
        ComponentKind::Service => "service"@,
        ComponentKind::Component => "component"@,
    }
}

/// The paths where the logs of component `c` of namespace `ns` may be, in the order
/// they are tried: the conventional place for its kind, its own directory
/// (`logs.txt`, `log.txt`), a shared `logs` directory (`.log`, `.txt`), a
/// `<name>-logs.txt` file, and a `<kind>-<name>` directory.
pub open spec fn candidates(ns: Seq<char>, c: Seq<char>, k: ComponentKind) -> Seq<Seq<char>> {
    let own = ns + "/"@ + c;
    seq![
        if k == ComponentKind::Service {
            ns + "/services/"@ + c + "/logs.json"@
        } else {
            own + "/logs.txt"@
        },
        own + "/logs.txt"@,
        own + "/log.txt"@,
        ns + "/logs/"@ + c + ".log"@,
        ns + "/logs/"@ + c + ".txt"@,
        own + "-logs.txt"@,
        ns + "/"@ + kind_dir(k) + "-"@ + c + "/logs.txt"@,
    ]
}

/// The file names that mark a directory as a component with logs.
pub open spec fn marker_files() -> Seq<Seq<char>> {
    seq!["logs.txt"@, "log.txt"@, "logs.json"@]
}

/// The part of a file name after its last dot, where that dot is not the first character.
pub open spec fn extension(name: Seq<char>) -> Option<Seq<char>> {
    match last_dot(name, name.len() as int) {
        Some(d) => if d > 0 {
            Some(name.subrange(d + 1, name.len() as int))
        } else {
            None
        },
        None => None,
    }
}

/// The position of the last dot among the first `n` characters of `name`.
pub open spec fn last_dot(name: Seq<char>, n: int) -> Option<int>
    decreases n,
{
    if n <= 0 || n > name.len() {
        None
    } else if name[n - 1] == '.' {
        Some(n - 1)
    } else {
        last_dot(name, n - 1)
    }
}

/// The first of `dirs` whose name starts with `prefix`.
pub open spec fn first_with_prefix(dirs: Seq<Seq<char>>, prefix: Seq<char>, from: int) -> Option<int>
    decreases dirs.len() - from,
{
    if from < 0 || from >= dirs.len() {
        None
    } else if prefix.len() <= dirs[from].len() && dirs[from].subrange(0, prefix.len() as int)
        == prefix {
        Some(from)
    } else {
        first_with_prefix(dirs, prefix, from + 1)
    }
}

/// Texts, by their characters.
pub open spec fn texts(v: Seq<String>) -> Seq<Seq<char>> {
    v.map_values(|s: String| s@)
}

/// The relative paths where the logs of a component may be, in the order they are tried.
pub fn candidate_paths(namespace: &str, component: &str, kind: ComponentKind) -> (r: Vec<String>)
    ensures
        texts(r@) == candidates(namespace@, component@, kind),
{
    let kind_name = match kind {
        ComponentKind::Pod => "pod",
        ComponentKind::Deployment => "deployment",
        ComponentKind::Service => "service",
        ComponentKind::Component => "component",
    };
    let first = if kind == ComponentKind::Service {
        concat(&[namespace, "/services/", component, "/logs.json"])
    } else {
        concat(&[namespace, "/", component, "/logs.txt"])
    };
    let r = vec![
        first,
        concat(&[namespace, "/", component, "/logs.txt"]),
        concat(&[namespace, "/", component, "/log.txt"]),
        concat(&[namespace, "/logs/", component, ".log"]),
        concat(&[namespace, "/logs/", component, ".txt"]),
        concat(&[namespace, "/", component, "-logs.txt"]),
        concat(&[namespace, "/", kind_name, "-", component, "/logs.txt"]),
    ];
    proof {
        reveal_with_fuel(Seq::fold_left, 7);
        assert(texts(r@) =~= candidates(namespace@, component@, kind));
    }
    r
}

/// The file names that mark a directory as a component with logs.
pub fn component_log_files() -> (r: Vec<&'static str>)
    ensures
        r@.map_values(|s: &str| s@) == marker_files(),
{
    let r = vec!["logs.txt", "log.txt", "logs.json"];
    assert(r@.map_values(|s: &str| s@) =~= marker_files());
    r
}

/// The extension of a file name: what follows its last dot, where that dot is not the
/// name's first character.
pub fn extension_of(name: &str) -> (r: Option<String>)
    ensures
        match r {
            Some(e) => extension(name@) == Some(e@),
            None => extension(name@) is None,
        },
{
    let cs = chars_of(name);
    let mut n = cs.len();
    while n > 0 && cs[n - 1] != '.'
        invariant
            n <= cs@.len(),
            cs@ == name@,
            last_dot(name@, name@.len() as int) == last_dot(name@, n as int),
        decreases n,
    {
        n = n - 1;
    }
    if n > 1 {
        Some(text_of(&cs, n, cs.len()))
    } else {
        None
    }
}

/// Whether a file found in a component's directory is read as a text log: its extension
/// is `txt` or `log`.
pub fn is_log_file(name: &str) -> (r: bool)
    ensures
        r == (extension(name@) == Some("txt"@) || extension(name@) == Some("log"@)),
{
    match extension_of(name) {
        Some(e) => same_text(e.as_str(), "txt") || same_text(e.as_str(), "log"),
        None => false,
    }
}

/// The first directory whose name starts with the deployment's name: a pod that the
/// deployment owns.
pub fn owning_pod(dirs: &Vec<String>, deployment: &str) -> (r: Option<usize>)
    ensures
        match r {
            Some(i) => first_with_prefix(texts(dirs@), deployment@, 0) == Some(i as int),
            None => first_with_prefix(texts(dirs@), deployment@, 0) is None,
        },
{
    let p = chars_of(deployment);
    let mut i: usize = 0;
    while i < dirs.len()
        invariant
            0 <= i <= dirs@.len(),
            p@ == deployment@,
            first_with_prefix(texts(dirs@), deployment@, 0) == first_with_prefix(
                texts(dirs@),
                deployment@,
                i as int,
            ),
        decreases dirs@.len() - i,
    {
        let d = chars_of(dirs[i].as_str());
        assert(texts(dirs@)[i as int] == d@);
        if p.len() <= d.len() {
            let mut k: usize = 0;
            while k < p.len() && d[k] == p[k]
                invariant
                    0 <= k <= p@.len() <= d@.len(),
                    forall|j: int| 0 <= j < k ==> d@[j] == p@[j],
                decreases p@.len() - k,
            {
                k = k + 1;
            }
            if k == p.len() {
                assert(d@.subrange(0, p@.len() as int) =~= p@);
                return Some(i);
            }
            assert(d@.subrange(0, p@.len() as int)[k as int] != p@[k as int]);
        }
        i = i + 1;
    }
    None
}

} // verus!
