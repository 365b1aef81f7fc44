//! Lazily loaded directory tree model.
use vstd::prelude::*;

use crate::paths::{file_name, file_name_of};
use crate::text::{copy_str, str_eq};

verus! {

pub struct Node {
    pub path: String,
    pub name: String,
    pub is_dir: bool,
    pub expanded: bool,
    /// `None` = not yet scanned (lazy). `Some` = children loaded.
    pub children: Option<Vec<Node>>,
}

/// A visible (flattened) tree row, for rendering and selection.
pub struct VisibleRow {
    pub path: String,
    pub name: String,
    pub is_dir: bool,
    pub expanded: bool,
    pub depth: usize,
}

pub struct FileTree {
    pub root: String,
    pub children: Option<Vec<Node>>,
    /// Selected index among the visible rows.
    pub selected: usize,
}

// ----- the abstract tree -----

/// A node as a mathematical value.
pub ghost struct NodeV {
    pub path: Seq<char>,
    pub name: Seq<char>,
    pub is_dir: bool,
    pub expanded: bool,
    pub children: Option<Seq<NodeV>>,
}

/// A visible row as a mathematical value.
pub ghost struct RowV {
    pub path: Seq<char>,
    pub name: Seq<char>,
    pub is_dir: bool,
    pub expanded: bool,
    pub depth: nat,
}

pub open spec fn view_nodes(nodes: Seq<Node>) -> Seq<NodeV>
    decreases nodes,
{
    if nodes.len() == 0 {
        Seq::empty()
    } else {
        view_nodes(nodes.drop_last()).push(view_node(nodes.last()))
    }
}

pub open spec fn view_node(n: Node) -> NodeV
    decreases n,
{
    NodeV {
        path: n.path@,
        name: n.name@,
        is_dir: n.is_dir,
        expanded: n.expanded,
        children: match n.children {
            Some(c) => Some(view_nodes(c@)),
            None => None,
        },
    }
}

pub open spec fn view_opt(c: Option<Vec<Node>>) -> Option<Seq<NodeV>> {
    match c {
        Some(v) => Some(view_nodes(v@)),
        None => None,
    }
}

pub open spec fn row_view(r: VisibleRow) -> RowV {
    RowV { path: r.path@, name: r.name@, is_dir: r.is_dir, expanded: r.expanded, depth: r.depth as nat }
}

pub open spec fn rows_view(rs: Seq<VisibleRow>) -> Seq<RowV> {
    rs.map_values(|r: VisibleRow| row_view(r))
}

/// The first node (in pre-order) whose path is `target`.
pub open spec fn find_v(ns: Seq<NodeV>, target: Seq<char>) -> Option<NodeV>
    decreases ns,
{
    if ns.len() == 0 {
        None
    } else {
        let n = ns[0];
        if n.path == target {
            Some(n)
        } else {
            match n.children {
                Some(c) => {
                    proof {
                        assert(decreases_to!(ns => ns[0]));
                    }
                    match find_v(c, target) {
                        Some(x) => Some(x),
                        None => find_v(ns.drop_first(), target),
                    }
                },
                None => find_v(ns.drop_first(), target),
            }
        }
    }
}

/// The forest with the first node whose path is `target` replaced by `f(node)`.
pub open spec fn upd_v(ns: Seq<NodeV>, target: Seq<char>, f: spec_fn(NodeV) -> NodeV) -> Seq<NodeV>
    decreases ns,
{
    if ns.len() == 0 {
        ns
    } else {
        let n = ns[0];
        if n.path == target {
            seq![f(n)] + ns.drop_first()
        } else {
            match n.children {
                Some(c) => {
                    proof {
                        assert(decreases_to!(ns => ns[0]));
                    }
                    if find_v(c, target) is Some {
                        seq![NodeV { children: Some(upd_v(c, target, f)), ..n }] + ns.drop_first()
                    } else {
                        seq![n] + upd_v(ns.drop_first(), target, f)
                    }
                },
                None => seq![n] + upd_v(ns.drop_first(), target, f),
            }
        }
    }
}

pub open spec fn inc(d: nat) -> nat {
    if d + 1 <= usize::MAX { d + 1 } else { d }
}

/// The rows shown for a forest at `depth`: each node, then (when it is an
/// expanded, loaded directory) its children one level deeper.
pub open spec fn flatten_v(ns: Seq<NodeV>, depth: nat) -> Seq<RowV>
    decreases ns,
{
    if ns.len() == 0 {
        Seq::empty()
    } else {
        let n = ns[0];
        let row = RowV { path: n.path, name: n.name, is_dir: n.is_dir, expanded: n.expanded, depth };
        let below = if n.is_dir && n.expanded && n.children is Some {
            proof {
                assert(decreases_to!(ns => ns[0]));
            }
            flatten_v(n.children.unwrap(), inc(depth))
        } else {
            Seq::empty()
        };
        seq![row] + below + flatten_v(ns.drop_first(), depth)
    }
}

/// Previously loaded nodes by path; a later node wins over an earlier one.
pub open spec fn by_path(ns: Seq<NodeV>) -> Map<Seq<char>, NodeV>
    decreases ns.len(),
{
    if ns.len() == 0 {
        Map::empty()
    } else {
        by_path(ns.drop_last()).insert(ns.last().path, ns.last())
    }
}

/// A freshly scanned, collapsed, not yet loaded node.
pub open spec fn new_node_v(p: Seq<char>, is_dir: bool) -> NodeV {
    NodeV {
        path: p,
        name: match file_name_of(p) {
            Some(n) => n,
            None => p,
        },
        is_dir,
        expanded: false,
        children: None,
    }
}

/// The children after a scan listed `entries`: a previous node of the same
/// path and kind is carried over (with its expansion and loaded children),
/// everything else is new.
pub open spec fn build_v(entries: Seq<(Seq<char>, bool)>, prev: Map<Seq<char>, NodeV>) -> Seq<NodeV>
    decreases entries.len(),
{
    if entries.len() == 0 {
        Seq::empty()
    } else {
        let (p, d) = entries[0];
        let n = if prev.contains_key(p) && prev[p].is_dir == d { prev[p] } else { new_node_v(p, d) };
        seq![n] + build_v(entries.drop_first(), prev.remove(p))
    }
}

pub open spec fn set_expanded_fn(v: bool) -> spec_fn(NodeV) -> NodeV {
    |n: NodeV| NodeV { expanded: v, ..n }
}

pub open spec fn rescan_fn(entries: Seq<(Seq<char>, bool)>) -> spec_fn(NodeV) -> NodeV {
    |n: NodeV|
        NodeV {
            children: Some(
                build_v(
                    entries,
                    by_path(
                        match n.children {
                            Some(c) => c,
                            None => Seq::empty(),
                        },
                    ),
                ),
            ),
            expanded: true,
            ..n
        }
}

pub open spec fn entries_view(es: Seq<(String, bool)>) -> Seq<(Seq<char>, bool)> {
    es.map_values(|e: (String, bool)| (e.0@, e.1))
}

pub open spec fn or_empty(c: Option<Seq<NodeV>>) -> Seq<NodeV> {
    match c {
        Some(s) => s,
        None => Seq::empty(),
    }
}

// ----- lemmas -----

pub proof fn lemma_view_nodes(nodes: Seq<Node>)
    ensures
        view_nodes(nodes).len() == nodes.len(),
        forall|i: int| 0 <= i < nodes.len() ==> #[trigger] view_nodes(nodes)[i] == view_node(nodes[i]),
    decreases nodes.len(),
{
    if nodes.len() > 0 {
        lemma_view_nodes(nodes.drop_last());
    }
}

proof fn lemma_view_nodes_skip(nodes: Seq<Node>, i: int)
    requires
        0 <= i < nodes.len(),
    ensures
        view_nodes(nodes).skip(i)[0] == view_node(nodes[i]),
        view_nodes(nodes).skip(i).drop_first() == view_nodes(nodes).skip(i + 1),
        view_nodes(nodes).skip(i).len() == nodes.len() - i,
{
    lemma_view_nodes(nodes);
    assert(view_nodes(nodes).skip(i).drop_first() =~= view_nodes(nodes).skip(i + 1));
}

proof fn lemma_view_nodes_ext(a: Seq<Node>, b: Seq<Node>)
    requires
        a.len() == b.len(),
        forall|i: int| 0 <= i < a.len() ==> view_node(a[i]) == view_node(b[i]),
    ensures
        view_nodes(a) == view_nodes(b),
{
    lemma_view_nodes(a);
    lemma_view_nodes(b);
    assert(view_nodes(a) =~= view_nodes(b));
}

proof fn lemma_view_nodes_push(a: Seq<Node>, n: Node)
    ensures
        view_nodes(a.push(n)) == view_nodes(a).push(view_node(n)),
{
    assert(a.push(n).drop_last() =~= a);
}

proof fn lemma_by_path_push(ns: Seq<NodeV>, n: NodeV)
    ensures
        by_path(ns.push(n)) == by_path(ns).insert(n.path, n),
{
    assert(ns.push(n).drop_last() =~= ns);
}

// ----- executable code -----

impl Node {
    /// A collapsed, not yet scanned node; its name is the path's file name.
    fn new(path: String, is_dir: bool) -> (n: Node)
        ensures
            view_node(n) == new_node_v(path@, is_dir),
    {
        let name = match file_name(path.as_str()) {
            Some(n) => n,
            None => copy_str(path.as_str()),
        };
        Node { path, name, is_dir, expanded: false, children: None }
    }
}

/// Finds the first node (pre-order) with path `target`.
fn find_in<'a>(nodes: &'a Vec<Node>, target: &str) -> (r: Option<&'a Node>)
    ensures
        match r {
            Some(x) => find_v(view_nodes(nodes@), target@) == Some(view_node(*x)),
            None => find_v(view_nodes(nodes@), target@) is None,
        },
    decreases nodes,
{
    let ghost vs = view_nodes(nodes@);
    proof {
        lemma_view_nodes(nodes@);
        assert(vs.skip(0) == vs);
    }
    let mut i: usize = 0;
    while i < nodes.len()
        invariant
            i <= nodes.len(),
            vs == view_nodes(nodes@),
            vs.len() == nodes.len(),
            find_v(vs, target@) == find_v(vs.skip(i as int), target@),
        decreases nodes.len() - i,
    {
        let n = &nodes[i];
        proof {
            lemma_view_nodes_skip(nodes@, i as int);
        }
        if str_eq(n.path.as_str(), target) {
            return Some(n);
        }
        match &n.children {
            Some(c) => {
                assert(decreases_to!(nodes => nodes@[i as int]));
                match find_in(c, target) {
                    Some(x) => {
                        return Some(x);
                    },
                    None => {},
                }
            },
            None => {},
        }
        i += 1;
    }
    proof {
        assert(vs.skip(i as int).len() == 0);
    }
    None
}

/// Sets `expanded` on the first node with path `target`, if any.
fn set_expanded_in(nodes: &mut Vec<Node>, target: &str, value: bool) -> (found: bool)
    ensures
        view_nodes(final(nodes)@) == upd_v(view_nodes(old(nodes)@), target@, set_expanded_fn(value)),
        found == find_v(view_nodes(old(nodes)@), target@) is Some,
    decreases old(nodes)@,
{
    let ghost vs = view_nodes(nodes@);
    let ghost f = set_expanded_fn(value);
    proof {
        lemma_view_nodes(nodes@);
        assert(vs.skip(0) == vs);
        assert(vs.take(0) + upd_v(vs.skip(0), target@, f) =~= upd_v(vs, target@, f));
    }
    let mut i: usize = 0;
    while i < nodes.len()
        invariant
            i <= nodes.len(),
            vs == view_nodes(old(nodes)@),
            f == set_expanded_fn(value),
            vs.len() == nodes.len(),
            nodes@.len() == old(nodes)@.len(),
            forall|j: int| i <= j < nodes.len() ==> nodes@[j] == old(nodes)@[j],
            view_nodes(nodes@) == vs,
            find_v(vs, target@) == find_v(vs.skip(i as int), target@),
            upd_v(vs, target@, f) == vs.take(i as int) + upd_v(vs.skip(i as int), target@, f),
        decreases nodes.len() - i,
    {
        proof {
            lemma_view_nodes_skip(old(nodes)@, i as int);
            lemma_view_nodes(old(nodes)@);
        }
        let ghost rest = vs.skip(i as int);
        if str_eq(nodes[i].path.as_str(), target) {
            let ghost before = nodes@;
            let mut n = nodes.remove(i);
            n.expanded = value;
            nodes.insert(i, n);
            proof {
                assert(upd_v(rest, target@, f) == seq![f(rest[0])] + rest.drop_first());
                let old_v = view_node(before[i as int]);
                assert(f(old_v) == NodeV { expanded: value, ..old_v });
                assert(n.children == before[i as int].children);
                assert(view_node(n) == NodeV { expanded: value, ..old_v });
                assert(rest[0] == old_v);
                let after = nodes@;
                lemma_view_nodes(after);
                lemma_view_nodes(before);
                let rhs = vs.take(i as int) + (seq![f(rest[0])] + rest.drop_first());
                assert forall|j: int| 0 <= j < after.len() implies view_nodes(after)[j] == rhs[j] by {
                    if j < i {
                        assert(after[j] == before[j]);
                    } else if j > i {
                        assert(after[j] == before[j]);
                        assert(rest.drop_first()[j - i - 1] == vs[j]);
                    }
                }
                assert(view_nodes(after) =~= rhs);
            }
            return true;
        }
        let has_children = nodes[i].children.is_some();
        if has_children {
            let ghost before = nodes@;
            proof {
                lemma_view_nodes(before);
            }
            let mut n = nodes.remove(i);
            let mut c = n.children.take().unwrap();
            proof {
                assert(decreases_to!(old(nodes)@ => old(nodes)@[i as int]));
                assert(c == old(nodes)@[i as int].children.unwrap());
            }
            let hit = set_expanded_in(&mut c, target, value);
            n.children = Some(c);
            nodes.insert(i, n);
            if hit {
                proof {
                    let cv = view_nodes(old(nodes)@[i as int].children.unwrap()@);
                    assert(rest[0].children == Some(cv));
                    assert(upd_v(rest, target@, f) == seq![NodeV { children: Some(upd_v(cv, target@, f)), ..rest[0] }] + rest.drop_first());
                    let after = nodes@;
                    lemma_view_nodes(after);
                    assert(view_nodes(after) =~= vs.take(i as int) + upd_v(rest, target@, f));
                }
                return true;
            }
            proof {
                let cv = view_nodes(old(nodes)@[i as int].children.unwrap()@);
                lemma_upd_absent(cv, target@, f);
                lemma_view_nodes(nodes@);
                assert forall|j: int| 0 <= j < nodes@.len() implies view_node(nodes@[j]) == view_node(
                    before[j],
                ) by {
                    if j == i {
                        assert(view_node(nodes@[j]).children == view_node(before[j]).children);
                    }
                }
                lemma_view_nodes_ext(nodes@, before);
            }
        }
        proof {
            assert(rest.drop_first() == vs.skip(i + 1));
            assert(vs.take(i + 1) == vs.take(i as int).push(rest[0]));
            assert(upd_v(rest, target@, f) == seq![rest[0]] + upd_v(rest.drop_first(), target@, f));
        }
        i += 1;
    }
    proof {
        assert(vs.skip(i as int).len() == 0);
        assert(vs.take(i as int) == vs);
    }
    false
}

proof fn lemma_upd_absent(ns: Seq<NodeV>, target: Seq<char>, f: spec_fn(NodeV) -> NodeV)
    requires
        find_v(ns, target) is None,
    ensures
        upd_v(ns, target, f) == ns,
    decreases ns,
{
    if ns.len() > 0 {
        assert(decreases_to!(ns => ns[0]));
        lemma_upd_absent(ns.drop_first(), target, f);
        assert(seq![ns[0]] + ns.drop_first() =~= ns);
    }
}

/// Re-lists the first node with path `target` (if any): it becomes expanded and
/// its children are rebuilt from `entries`, keeping surviving subdirectories.
fn rescan_in(nodes: &mut Vec<Node>, target: &str, entries: &Vec<(String, bool)>) -> (found: bool)
    ensures
        view_nodes(final(nodes)@) == upd_v(view_nodes(old(nodes)@), target@, rescan_fn(entries_view(entries@))),
        found == find_v(view_nodes(old(nodes)@), target@) is Some,
    decreases old(nodes)@,
{
    let ghost vs = view_nodes(nodes@);
    let ghost f = rescan_fn(entries_view(entries@));
    proof {
        lemma_view_nodes(nodes@);
        assert(vs.skip(0) == vs);
        assert(vs.take(0) + upd_v(vs.skip(0), target@, f) =~= upd_v(vs, target@, f));
    }
    let mut i: usize = 0;
    while i < nodes.len()
        invariant
            i <= nodes.len(),
            vs == view_nodes(old(nodes)@),
            f == rescan_fn(entries_view(entries@)),
            vs.len() == nodes.len(),
            nodes@.len() == old(nodes)@.len(),
            forall|j: int| i <= j < nodes.len() ==> nodes@[j] == old(nodes)@[j],
            view_nodes(nodes@) == vs,
            find_v(vs, target@) == find_v(vs.skip(i as int), target@),
            upd_v(vs, target@, f) == vs.take(i as int) + upd_v(vs.skip(i as int), target@, f),
        decreases nodes.len() - i,
    {
        proof {
            lemma_view_nodes_skip(old(nodes)@, i as int);
            lemma_view_nodes(old(nodes)@);
        }
        let ghost rest = vs.skip(i as int);
        if str_eq(nodes[i].path.as_str(), target) {
            let ghost before = nodes@;
            let mut n = nodes.remove(i);
            let prev = match n.children.take() {
                Some(c) => c,
                None => Vec::new(),
            };
            proof {
                lemma_view_nodes(before);
                assert(view_opt(before[i as int].children) == Some(view_nodes(prev@)) || (before[i as int].children is None && view_nodes(prev@) == Seq::<NodeV>::empty()));
            }
            let kids = build(entries, prev);
            n.children = Some(kids);
            n.expanded = true;
            nodes.insert(i, n);
            proof {
                assert(upd_v(rest, target@, f) == seq![f(rest[0])] + rest.drop_first());
                let old_v = view_node(before[i as int]);
                assert(or_empty(old_v.children) == view_nodes(prev@));
                assert(f(old_v) == NodeV { children: Some(build_v(entries_view(entries@), by_path(or_empty(old_v.children)))), expanded: true, ..old_v });
                assert(view_node(n) == f(old_v));
                assert(rest[0] == old_v);
                let after = nodes@;
                lemma_view_nodes(after);
                lemma_view_nodes(before);
                let rhs = vs.take(i as int) + (seq![f(rest[0])] + rest.drop_first());
                assert forall|j: int| 0 <= j < after.len() implies view_nodes(after)[j] == rhs[j] by {
                    if j < i {
                        assert(after[j] == before[j]);
                    } else if j > i {
                        assert(after[j] == before[j]);
                        assert(rest.drop_first()[j - i - 1] == vs[j]);
                    }
                }
                assert(view_nodes(after) =~= rhs);
            }
            return true;
        }
        let has_children = nodes[i].children.is_some();
        if has_children {
            let ghost before = nodes@;
            proof {
                lemma_view_nodes(before);
            }
            let mut n = nodes.remove(i);
            let mut c = n.children.take().unwrap();
            proof {
                assert(decreases_to!(old(nodes)@ => old(nodes)@[i as int]));
                assert(c == old(nodes)@[i as int].children.unwrap());
            }
            let hit = rescan_in(&mut c, target, entries);
            n.children = Some(c);
            nodes.insert(i, n);
            if hit {
                proof {
                    let cv = view_nodes(old(nodes)@[i as int].children.unwrap()@);
                    assert(rest[0].children == Some(cv));
                    assert(upd_v(rest, target@, f) == seq![NodeV { children: Some(upd_v(cv, target@, f)), ..rest[0] }] + rest.drop_first());
                    let after = nodes@;
                    lemma_view_nodes(after);
                    assert(view_nodes(after) =~= vs.take(i as int) + upd_v(rest, target@, f));
                }
                return true;
            }
            proof {
                let cv = view_nodes(old(nodes)@[i as int].children.unwrap()@);
                lemma_upd_absent(cv, target@, f);
                lemma_view_nodes(nodes@);
                assert forall|j: int| 0 <= j < nodes@.len() implies view_node(nodes@[j]) == view_node(
                    before[j],
                ) by {
                    if j == i {
                        assert(view_node(nodes@[j]).children == view_node(before[j]).children);
                    }
                }
                lemma_view_nodes_ext(nodes@, before);
            }
        }
        proof {
            assert(rest.drop_first() == vs.skip(i + 1));
            assert(vs.take(i + 1) == vs.take(i as int).push(rest[0]));
            assert(upd_v(rest, target@, f) == seq![rest[0]] + upd_v(rest.drop_first(), target@, f));
        }
        i += 1;
    }
    proof {
        assert(vs.skip(i as int).len() == 0);
        assert(vs.take(i as int) == vs);
    }
    false
}


pub open spec fn map_get(m: Map<Seq<char>, NodeV>, k: Seq<char>) -> Option<NodeV> {
    if m.contains_key(k) { Some(m[k]) } else { None }
}

/// Takes every node with path `p` out of `pool`, returning the last of them.
fn take_last(pool: &mut Vec<Node>, p: &str) -> (r: Option<Node>)
    ensures
        by_path(view_nodes(final(pool)@)) == by_path(view_nodes(old(pool)@)).remove(p@),
        match r {
            Some(x) => map_get(by_path(view_nodes(old(pool)@)), p@) == Some(view_node(x)),
            None => map_get(by_path(view_nodes(old(pool)@)), p@) is None,
        },
{
    let ghost orig = old(pool)@;
    let mut keep: Vec<Node> = Vec::new();
    let mut found: Option<Node> = None;
    let n = pool.len();
    proof {
        assert(orig.take(0) =~= Seq::<Node>::empty());
        assert(by_path(view_nodes(Seq::<Node>::empty())) =~= Map::<Seq<char>, NodeV>::empty().remove(p@));
    }
    let mut i: usize = 0;
    while i < n
        invariant
            n == orig.len(),
            i <= n,
            pool@ == orig.skip(i as int),
            by_path(view_nodes(keep@)) == by_path(view_nodes(orig.take(i as int))).remove(p@),
            match found {
                Some(x) => map_get(by_path(view_nodes(orig.take(i as int))), p@) == Some(view_node(x)),
                None => map_get(by_path(view_nodes(orig.take(i as int))), p@) is None,
            },
        decreases n - i,
    {
        let x = pool.remove(0);
        proof {
            assert(pool@ == orig.skip(i + 1));
            assert(orig.take(i + 1) == orig.take(i as int).push(x));
            lemma_view_nodes_push(orig.take(i as int), x);
            lemma_by_path_push(view_nodes(orig.take(i as int)), view_node(x));
        }
        if str_eq(x.path.as_str(), p) {
            found = Some(x);
            proof {
                let m = by_path(view_nodes(orig.take(i as int)));
                assert(m.insert(p@, view_node(x)).remove(p@) =~= m.remove(p@));
            }
        } else {
            let ghost xv = view_node(x);
            proof {
                lemma_view_nodes_push(keep@, x);
                lemma_by_path_push(view_nodes(keep@), xv);
                let m = by_path(view_nodes(orig.take(i as int)));
                assert(m.remove(p@).insert(xv.path, xv) =~= m.insert(xv.path, xv).remove(p@));
            }
            keep.push(x);
        }
        i += 1;
    }
    proof {
        assert(orig.take(n as int) == orig);
    }
    *pool = keep;
    found
}

/// The children for a scan that listed `entries`, reusing nodes from `prev`.
fn build(entries: &Vec<(String, bool)>, prev: Vec<Node>) -> (r: Vec<Node>)
    ensures
        view_nodes(r@) == build_v(entries_view(entries@), by_path(view_nodes(prev@))),
{
    let ghost ev = entries_view(entries@);
    let mut pool = prev;
    let mut out: Vec<Node> = Vec::new();
    let n = entries.len();
    proof {
        assert(ev.skip(0) == ev);
        assert(view_nodes(out@) + build_v(ev, by_path(view_nodes(pool@))) =~= build_v(ev, by_path(view_nodes(prev@))));
    }
    for i in 0..n
        invariant
            n == entries@.len(),
            ev == entries_view(entries@),
            ev.len() == n,
            view_nodes(out@) + build_v(ev.skip(i as int), by_path(view_nodes(pool@)))
                == build_v(ev, by_path(view_nodes(prev@))),
    {
        let ghost m = by_path(view_nodes(pool@));
        let ghost rest = ev.skip(i as int);
        proof {
            assert(rest[0] == (entries@[i as int].0@, entries@[i as int].1));
            assert(rest.drop_first() == ev.skip(i + 1));
        }
        let d = entries[i].1;
        let taken = take_last(&mut pool, entries[i].0.as_str());
        let node = match taken {
            Some(old) => {
                if old.is_dir == d {
                    old
                } else {
                    Node::new(copy_str(entries[i].0.as_str()), d)
                }
            },
            None => Node::new(copy_str(entries[i].0.as_str()), d),
        };
        proof {
            let (pp, dd) = rest[0];
            let chosen = if m.contains_key(pp) && m[pp].is_dir == dd { m[pp] } else { new_node_v(pp, dd) };
            assert(view_node(node) == chosen);
            assert(build_v(rest, m) == seq![chosen] + build_v(rest.drop_first(), m.remove(pp)));
            lemma_view_nodes_push(out@, node);
            assert(view_nodes(out@.push(node)) + build_v(ev.skip(i + 1), m.remove(pp)) =~= view_nodes(out@) + build_v(rest, m));
        }
        out.push(node);
    }
    proof {
        assert(ev.skip(n as int) =~= Seq::<(Seq<char>, bool)>::empty());
        assert(view_nodes(out@) + Seq::<NodeV>::empty() == view_nodes(out@));
    }
    out
}

proof fn lemma_rows_view_push(rs: Seq<VisibleRow>, r: VisibleRow)
    ensures
        rows_view(rs.push(r)) == rows_view(rs).push(row_view(r)),
{
    assert(rows_view(rs.push(r)) =~= rows_view(rs).push(row_view(r)));
}

/// Appends the visible rows of `nodes` (at `depth`) to `rows`.
fn flatten_into(nodes: &Vec<Node>, depth: usize, rows: &mut Vec<VisibleRow>)
    ensures
        rows_view(final(rows)@) == rows_view(old(rows)@) + flatten_v(view_nodes(nodes@), depth as nat),
    decreases nodes,
{
    let ghost vs = view_nodes(nodes@);
    proof {
        lemma_view_nodes(nodes@);
        assert(vs.skip(0) == vs);
        assert(rows_view(rows@) + flatten_v(vs.skip(0), depth as nat) == rows_view(old(rows)@) + flatten_v(vs, depth as nat));
    }
    let n = nodes.len();
    for i in 0..n
        invariant
            n == nodes@.len(),
            vs == view_nodes(nodes@),
            vs.len() == n,
            rows_view(rows@) + flatten_v(vs.skip(i as int), depth as nat) == rows_view(old(rows)@) + flatten_v(vs, depth as nat),
    {
        let nd = &nodes[i];
        let ghost rest = vs.skip(i as int);
        proof {
            lemma_view_nodes_skip(nodes@, i as int);
        }
        let ghost nv = rest[0];
        let row = VisibleRow {
            path: copy_str(nd.path.as_str()),
            name: copy_str(nd.name.as_str()),
            is_dir: nd.is_dir,
            expanded: nd.expanded,
            depth,
        };
        let ghost r0 = rows@;
        proof {
            lemma_rows_view_push(r0, row);
        }
        rows.push(row);
        let ghost r1 = rows@;
        if nd.is_dir && nd.expanded {
            match &nd.children {
                Some(c) => {
                    assert(decreases_to!(nodes => nodes@[i as int]));
                    let d2 = if depth < usize::MAX { depth + 1 } else { depth };
                    flatten_into(c, d2, rows);
                },
                None => {},
            }
        }
        proof {
            let rv = RowV { path: nv.path, name: nv.name, is_dir: nv.is_dir, expanded: nv.expanded, depth: depth as nat };
            assert(row_view(row) == rv);
            let below = if nv.is_dir && nv.expanded && nv.children is Some {
                flatten_v(nv.children.unwrap(), inc(depth as nat))
            } else {
                Seq::empty()
            };
            assert(flatten_v(rest, depth as nat) == seq![rv] + below + flatten_v(rest.drop_first(), depth as nat));
            assert(rows_view(rows@) == rows_view(r0).push(rv) + below);
            assert(rest.drop_first() == vs.skip(i + 1));
            assert(rows_view(rows@) + flatten_v(vs.skip(i + 1), depth as nat) =~= rows_view(r0) + flatten_v(rest, depth as nat));
        }
    }
    proof {
        assert(vs.skip(n as int) =~= Seq::<NodeV>::empty());
        assert(rows_view(rows@) + Seq::<RowV>::empty() == rows_view(rows@));
    }
}

/// The tree's top-level forest as a mathematical value.
pub open spec fn top(t: &FileTree) -> Seq<NodeV> {
    or_empty(view_opt(t.children))
}

impl FileTree {
    pub fn new(root: String) -> (t: FileTree)
        ensures
            t.root == root,
            t.children is None,
            t.selected == 0,
    {
        FileTree { root, children: None, selected: 0 }
    }

    /// Places the scanned entries under `dir`. A rescan preserves the expansion
    /// state and loaded children of subdirectories that still exist.
    pub fn set_children(&mut self, dir: &str, entries: Vec<(String, bool)>)
        ensures
            final(self).root == old(self).root,
            final(self).selected == old(self).selected,
            dir@ == old(self).root@ ==> view_opt(final(self).children) == Some(
                build_v(entries_view(entries@), by_path(top(&*old(self)))),
            ),
            dir@ != old(self).root@ ==> view_opt(final(self).children) == match view_opt(old(self).children) {
                Some(c) => Some(upd_v(c, dir@, rescan_fn(entries_view(entries@)))),
                None => None,
            },
    {
        if str_eq(dir, self.root.as_str()) {
            let prev = match self.children.take() {
                Some(c) => c,
                None => Vec::new(),
            };
            self.children = Some(build(&entries, prev));
        } else {
            match self.children.take() {
                Some(mut c) => {
                    rescan_in(&mut c, dir, &entries);
                    self.children = Some(c);
                },
                None => {},
            }
        }
    }

    fn find_node(&self, target: &str) -> (r: Option<&Node>)
        ensures
            match r {
                Some(x) => find_v(top(self), target@) == Some(view_node(*x)),
                None => find_v(top(self), target@) is None,
            },
    {
        match &self.children {
            Some(c) => find_in(c, target),
            None => None,
        }
    }

    pub fn is_expanded(&self, path: &str) -> (b: bool)
        ensures
            b == (find_v(top(self), path@) matches Some(n) && n.expanded),
    {
        match self.find_node(path) {
            Some(n) => n.expanded,
            None => false,
        }
    }

    pub fn is_loaded(&self, path: &str) -> (b: bool)
        ensures
            b == (find_v(top(self), path@) matches Some(n) && n.children is Some),
    {
        match self.find_node(path) {
            Some(n) => n.children.is_some(),
            None => false,
        }
    }

    fn set_expanded(&mut self, path: &str, value: bool)
        ensures
            final(self).root == old(self).root,
            final(self).selected == old(self).selected,
            view_opt(final(self).children) == match view_opt(old(self).children) {
                Some(c) => Some(upd_v(c, path@, set_expanded_fn(value))),
                None => None,
            },
    {
        match self.children.take() {
            Some(mut c) => {
                set_expanded_in(&mut c, path, value);
                self.children = Some(c);
            },
            None => {},
        }
    }

    pub fn collapse(&mut self, path: &str)
        ensures
            final(self).root == old(self).root,
            final(self).selected == old(self).selected,
            view_opt(final(self).children) == match view_opt(old(self).children) {
                Some(c) => Some(upd_v(c, path@, set_expanded_fn(false))),
                None => None,
            },
    {
        self.set_expanded(path, false);
    }

    pub fn expand(&mut self, path: &str)
        ensures
            final(self).root == old(self).root,
            final(self).selected == old(self).selected,
            view_opt(final(self).children) == match view_opt(old(self).children) {
                Some(c) => Some(upd_v(c, path@, set_expanded_fn(true))),
                None => None,
            },
    {
        self.set_expanded(path, true);
    }

    /// Flattens the tree into visible rows.
    pub fn visible_rows(&self) -> (rows: Vec<VisibleRow>)
        ensures
            rows_view(rows@) == flatten_v(top(self), 0),
    {
        let mut rows: Vec<VisibleRow> = Vec::new();
        match &self.children {
            Some(c) => {
                flatten_into(c, 0, &mut rows);
                assert(rows_view(Seq::<VisibleRow>::empty()) =~= Seq::<RowV>::empty());
            },
            None => {
                assert(rows_view(rows@) =~= Seq::<RowV>::empty());
            },
        }
        rows
    }
}

// ----- laws -----

proof fn lemma_build_len(entries: Seq<(Seq<char>, bool)>, prev: Map<Seq<char>, NodeV>)
    ensures
        build_v(entries, prev).len() == entries.len(),
    decreases entries.len(),
{
    if entries.len() > 0 {
        lemma_build_len(entries.drop_first(), prev.remove(entries[0].0));
    }
}

/// A rescan lists exactly the scanned entries, in order, each with its kind.
pub proof fn law_rescan_lists_entries(entries: Seq<(Seq<char>, bool)>, prev: Map<Seq<char>, NodeV>)
    requires
        forall|q: Seq<char>| #[trigger] prev.contains_key(q) ==> prev[q].path == q,
    ensures
        build_v(entries, prev).len() == entries.len(),
        forall|k: int|
            0 <= k < entries.len() ==> (#[trigger] build_v(entries, prev)[k]).path == entries[k].0
                && build_v(entries, prev)[k].is_dir == entries[k].1,
    decreases entries.len(),
{
    if entries.len() > 0 {
        let (p, d) = entries[0];
        law_rescan_lists_entries(entries.drop_first(), prev.remove(p));
        let r = build_v(entries, prev);
        assert(r == seq![r[0]] + build_v(entries.drop_first(), prev.remove(p)));
        assert forall|k: int| 0 <= k < entries.len() implies (#[trigger] r[k]).path == entries[k].0
            && r[k].is_dir == entries[k].1 by {
            if k > 0 {
                assert(r[k] == build_v(entries.drop_first(), prev.remove(p))[k - 1]);
            }
        }
    }
}

/// A rescan keeps a subdirectory (or file) that is listed again with the same
/// kind exactly as it was: its expansion state and its loaded children survive.
pub proof fn law_rescan_keeps_surviving_nodes(
    entries: Seq<(Seq<char>, bool)>,
    prev: Map<Seq<char>, NodeV>,
    k: int,
)
    requires
        0 <= k < entries.len(),
        forall|j: int| 0 <= j < k ==> entries[j].0 != entries[k].0,
        prev.contains_key(entries[k].0),
        prev[entries[k].0].is_dir == entries[k].1,
    ensures
        build_v(entries, prev)[k] == prev[entries[k].0],
    decreases entries.len(),
{
    let (p, d) = entries[0];
    let r = build_v(entries, prev);
    assert(r == seq![r[0]] + build_v(entries.drop_first(), prev.remove(p)));
    if k > 0 {
        assert(entries[0].0 != entries[k].0);
        assert(entries.drop_first()[k - 1] == entries[k]);
        lemma_build_len(entries.drop_first(), prev.remove(p));
        law_rescan_keeps_surviving_nodes(entries.drop_first(), prev.remove(p), k - 1);
        assert(r[k] == build_v(entries.drop_first(), prev.remove(p))[k - 1]);
    }
}

/// Previously loaded nodes are found under their own paths.
pub proof fn lemma_by_path_keys(ns: Seq<NodeV>)
    ensures
        forall|q: Seq<char>| #[trigger] by_path(ns).contains_key(q) ==> by_path(ns)[q].path == q,
    decreases ns.len(),
{
    if ns.len() > 0 {
        lemma_by_path_keys(ns.drop_last());
    }
}

proof fn lemma_find_upd(ns: Seq<NodeV>, t: Seq<char>, f: spec_fn(NodeV) -> NodeV)
    requires
        find_v(ns, t) is Some,
        forall|n: NodeV| #[trigger] f(n).path == n.path,
    ensures
        find_v(upd_v(ns, t, f), t) == Some(f(find_v(ns, t).unwrap())),
    decreases ns,
{
    let n = ns[0];
    let u = upd_v(ns, t, f);
    if n.path == t {
        assert(u[0] == f(n));
    } else {
        match n.children {
            Some(c) => {
                assert(decreases_to!(ns => ns[0]));
                if find_v(c, t) is Some {
                    lemma_find_upd(c, t, f);
                    assert(u[0] == NodeV { children: Some(upd_v(c, t, f)), ..n });
                    assert(u.drop_first() == ns.drop_first());
                } else {
                    lemma_find_upd(ns.drop_first(), t, f);
                    assert(u[0] == n);
                    assert(u.drop_first() =~= upd_v(ns.drop_first(), t, f));
                }
            },
            None => {
                lemma_find_upd(ns.drop_first(), t, f);
                assert(u[0] == n);
                assert(u.drop_first() =~= upd_v(ns.drop_first(), t, f));
            },
        }
    }
}

/// After `expand`/`collapse` of a path in the tree, that path reads back as
/// expanded/collapsed.
pub proof fn law_set_expanded_reads_back(ns: Seq<NodeV>, t: Seq<char>, v: bool)
    requires
        find_v(ns, t) is Some,
    ensures
        find_v(upd_v(ns, t, set_expanded_fn(v)), t) matches Some(n) && n.expanded == v,
{
    let f = set_expanded_fn(v);
    assert forall|n: NodeV| #[trigger] f(n).path == n.path by {}
    lemma_find_upd(ns, t, f);
}

/// Rescanning a directory in the tree leaves it expanded and loaded, with the
/// scanned entries as its children.
pub proof fn law_rescan_expands_and_loads(ns: Seq<NodeV>, t: Seq<char>, entries: Seq<(Seq<char>, bool)>)
    requires
        find_v(ns, t) is Some,
    ensures
        find_v(upd_v(ns, t, rescan_fn(entries)), t) matches Some(n) && n.expanded && n.children
            == Some(build_v(entries, by_path(or_empty(find_v(ns, t).unwrap().children)))),
{
    let f = rescan_fn(entries);
    assert forall|n: NodeV| #[trigger] f(n).path == n.path by {}
    lemma_find_upd(ns, t, f);
}
} // verus!
