//! Whether a node's reachable closure holds an unconstrained schema.

use vstd::prelude::*;
use crate::model::{child_of, ExtraProps, SchemaGraph, SchemaModel, strs, clone_strs, clone_str};

verus! {

/// The walk from node `i`, with the names already met on the current path
/// and at most `depth` nodes deep: true when it meets a node without a
/// `type`, or a map that allows any extra property. A named node already on
/// the path ends its branch with false; so does running out of depth.
pub open spec fn any_from(g: Seq<SchemaModel>, i: int, path: Seq<Seq<char>>, depth: nat) -> bool
    decreases depth, 0int,
{
    if depth == 0 || !(0 <= i < g.len()) {
        false
    } else if g[i].data_type is None {
        true
    } else if on_path(g[i].name, path) {
        false
    } else {
        let deeper = extend_path(path, g[i].name);
        let d = (depth - 1) as nat;
        ||| props_any(g, g[i].properties, g[i].properties.len() as int, deeper, d)
        ||| match g[i].items {
            Some(j) => any_from(g, j as int, deeper, d),
            None => false,
        }
        ||| match g[i].extra_props {
            Some(ExtraProps::Allowed(b)) => b,
            Some(ExtraProps::Node(j)) => any_from(g, j as int, deeper, d),
            None => false,
        }
    }
}

/// The walk succeeds from one of the first `k` property nodes of `ps`.
pub open spec fn props_any(
    g: Seq<SchemaModel>,
    ps: Seq<(Seq<char>, usize)>,
    k: int,
    path: Seq<Seq<char>>,
    depth: nat,
) -> bool
    decreases depth, k,
{
    if k <= 0 || k > ps.len() {
        false
    } else {
        props_any(g, ps, k - 1, path, depth) || any_from(g, ps[k - 1].1 as int, path, depth)
    }
}

proof fn lemma_props_any_grows(
    g: Seq<SchemaModel>,
    ps: Seq<(Seq<char>, usize)>,
    k: int,
    k2: int,
    path: Seq<Seq<char>>,
    depth: nat,
)
    requires
        0 <= k <= k2 <= ps.len(),
        props_any(g, ps, k, path, depth),
    ensures
        props_any(g, ps, k2, path, depth),
    decreases k2 - k,
{
    if k < k2 {
        lemma_props_any_grows(g, ps, k, k2 - 1, path, depth);
    }
}

/// A named node whose name is already on the path.
pub open spec fn on_path(name: Option<Seq<char>>, path: Seq<Seq<char>>) -> bool {
    match name {
        Some(s) => path.contains(s),
        None => false,
    }
}

/// The path with the node's name, if any, appended.
pub open spec fn extend_path(path: Seq<Seq<char>>, name: Option<Seq<char>>) -> Seq<Seq<char>> {
    match name {
        Some(s) => path.push(s),
        None => path,
    }
}

/// The walk from node `i` with an empty path, as deep as the graph has nodes.
pub open spec fn contains_any_spec(g: Seq<SchemaModel>, i: int) -> bool {
    any_from(g, i, Seq::empty(), g.len())
}

fn path_holds(path: &Vec<String>, s: &String) -> (r: bool)
    ensures
        r == strs(path@).contains(s@),
{
    let mut k: usize = 0;
    while k < path.len()
        invariant
            k <= path.len(),
            forall|j: int| 0 <= j < k ==> strs(path@)[j] != s@,
        decreases path.len() - k,
    {
        if path[k] == *s {
            assert(strs(path@)[k as int] == s@);
            return true;
        }
        k += 1;
    }
    false
}

fn any_walk(g: &SchemaGraph, i: usize, path: &Vec<String>, depth: usize) -> (r: bool)
    requires
        g.wf(),
    ensures
        r == any_from(g@, i as int, strs(path@), depth as nat),
    decreases depth,
{
    if depth == 0 || i >= g.len() {
        return false;
    }
    let n = g.get(i);
    if n.data_type.is_none() {
        return true;
    }
    let mut deeper = clone_strs(path);
    match &n.name {
        Some(s) => {
            if path_holds(path, s) {
                return false;
            }
            deeper.push(clone_str(s));
            assert(strs(deeper@) =~= strs(path@).push(s@));
        },
        None => {},
    }
    let ghost deeper_view = strs(deeper@);
    let ghost m = g@[i as int];
    assert(m.data_type is Some);
    assert(!on_path(m.name, strs(path@)));
    assert(deeper_view == extend_path(strs(path@), m.name));
    assert(m.properties.len() == n.properties.len());
    let mut k: usize = 0;
    while k < n.properties.len()
        invariant
            g.wf(),
            n@ == m,
            m == g@[i as int],
            i < g@.len(),
            depth > 0,
            k <= n.properties.len(),
            strs(deeper@) == deeper_view,
            m.data_type is Some,
            !on_path(m.name, strs(path@)),
            deeper_view == extend_path(strs(path@), m.name),
            !props_any(g@, m.properties, k as int, deeper_view, (depth - 1) as nat),
        decreases n.properties.len() - k,
    {
        let c = n.properties[k].1;
        assert(m.properties[k as int].1 == c);
        if any_walk(g, c, &deeper, depth - 1) {
            assert(props_any(g@, m.properties, k + 1, deeper_view, (depth - 1) as nat));
            proof {
                lemma_props_any_grows(g@, m.properties, k + 1, m.properties.len() as int, deeper_view, (depth - 1) as nat);
            }
            return true;
        }
        k += 1;
    }
    if let Some(j) = n.items {
        if any_walk(g, j, &deeper, depth - 1) {
            return true;
        }
    }
    match n.extra_props {
        Some(ExtraProps::Allowed(b)) => b,
        Some(ExtraProps::Node(j)) => any_walk(g, j, &deeper, depth - 1),
        None => false,
    }
}

/// Whether the closure of node `i` holds an unconstrained schema.
pub fn contains_any(g: &SchemaGraph, i: usize) -> (r: bool)
    requires
        g.wf(),
    ensures
        r == contains_any_spec(g@, i as int),
{
    let path: Vec<String> = Vec::new();
    assert(strs(path@) =~= Seq::<Seq<char>>::empty());
    any_walk(g, i, &path, g.len())
}


proof fn lemma_props_none(
    g: Seq<SchemaModel>,
    ps: Seq<(Seq<char>, usize)>,
    k: int,
    path: Seq<Seq<char>>,
    depth: nat,
)
    requires
        k <= ps.len(),
        forall|j: int| 0 <= j < k ==> !#[trigger] any_from(g, ps[j].1 as int, path, depth),
    ensures
        !props_any(g, ps, k, path, depth),
    decreases k,
{
    if k > 0 {
        assert(!any_from(g, ps[k - 1].1 as int, path, depth));
        lemma_props_none(g, ps, k - 1, path, depth);
    }
}

/// A node that has a `type` and nothing nested.
pub open spec fn is_primitive_leaf(n: SchemaModel) -> bool {
    &&& n.data_type is Some
    &&& n.items is None
    &&& n.extra_props is None
    &&& n.properties.len() == 0
}

/// A node without a `type` is unconstrained.
pub proof fn lemma_untyped_is_any(g: Seq<SchemaModel>, i: int)
    requires
        0 <= i < g.len(),
        g[i].data_type is None,
    ensures
        contains_any_spec(g, i),
{
}

/// A typed node whose properties are all primitive leaves, with no items and
/// no open map, holds nothing unconstrained.
pub proof fn lemma_primitive_properties_not_any(g: Seq<SchemaModel>, i: int)
    requires
        0 <= i < g.len(),
        g[i].data_type is Some,
        g[i].items is None,
        g[i].extra_props is None,
        forall|k: int|
            0 <= k < g[i].properties.len() ==> 0 <= #[trigger] g[i].properties[k].1 < g.len()
                && is_primitive_leaf(g[g[i].properties[k].1 as int]),
    ensures
        !contains_any_spec(g, i),
{
    let deeper = extend_path(Seq::empty(), g[i].name);
    let d = (g.len() - 1) as nat;
    let ps = g[i].properties;
    assert forall|j: int| 0 <= j < ps.len() implies !#[trigger] any_from(g, ps[j].1 as int, deeper, d) by {
        let c = ps[j].1 as int;
        assert(is_primitive_leaf(g[c]));
        if d > 0 && !on_path(g[c].name, deeper) {
            lemma_props_none(g, g[c].properties, 0, extend_path(deeper, g[c].name), (d - 1) as nat);
        }
    }
    lemma_props_none(g, ps, ps.len() as int, deeper, d);
}

/// A named node whose nested nodes all carry its own name (it refers only to
/// itself) ends the walk on the cycle: it holds nothing unconstrained, and the
/// walk ends.
pub proof fn lemma_self_reference_not_any(g: Seq<SchemaModel>, i: int, s: Seq<char>)
    requires
        0 <= i < g.len(),
        g[i].data_type is Some,
        g[i].name == Some(s),
        g[i].extra_props != Some(ExtraProps::Allowed(true)),
        forall|c: int| child_of(g[i], c) && 0 <= c < g.len() ==> g[c].name == Some(s)
            && (#[trigger] g[c]).data_type is Some,
    ensures
        !contains_any_spec(g, i),
{
    let deeper = seq![s];
    assert(extend_path(Seq::empty(), g[i].name) =~= deeper);
    assert(deeper.contains(s)) by {
        assert(deeper[0] == s);
    }
    let d = (g.len() - 1) as nat;
    let ps = g[i].properties;
    assert forall|j: int| 0 <= j < ps.len() implies !#[trigger] any_from(g, ps[j].1 as int, deeper, d) by {
        let c = ps[j].1 as int;
        assert(child_of(g[i], c));
        if 0 <= c < g.len() {
            assert(g[c].name == Some(s));
        }
    }
    lemma_props_none(g, ps, ps.len() as int, deeper, d);
    if let Some(j) = g[i].items {
        assert(child_of(g[i], j as int));
        if (j as int) < g.len() {
            assert(g[j as int].name == Some(s));
        }
        assert(!any_from(g, j as int, deeper, d));
    }
    if let Some(ExtraProps::Node(j)) = g[i].extra_props {
        assert(child_of(g[i], j as int));
        if (j as int) < g.len() {
            assert(g[j as int].name == Some(s));
        }
        assert(!any_from(g, j as int, deeper, d));
    }
}

} // verus!
