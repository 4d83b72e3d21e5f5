//! The resolver: names the definitions and marks the nodes that lie on a cycle.

use vstd::prelude::*;
use crate::model::{child_of, graph_wf, handles_below, props, clone_str, ExtraProps, SchemaGraph, SchemaModel};
use crate::escape::{escape, escape_name};

verus! {

/// `t` is reached from `s` in at most `r + 1` steps along nested handles.
pub open spec fn reach_within(g: Seq<SchemaModel>, s: int, t: int, r: nat) -> bool
    decreases r, 0int,
{
    if r == 0 {
        0 <= s < g.len() && child_of(g[s], t)
    } else {
        reach_within(g, s, t, (r - 1) as nat) || step_upto(g, s, t, (r - 1) as nat, g.len() as int)
    }
}

/// `t` is a child of one of the nodes `0 .. c` that are reached within `r` steps.
pub open spec fn step_upto(g: Seq<SchemaModel>, s: int, t: int, r: nat, c: int) -> bool
    decreases r, c,
{
    if c <= 0 || c > g.len() {
        false
    } else {
        step_upto(g, s, t, r, c - 1) || (reach_within(g, s, c - 1, r) && child_of(g[c - 1], t))
    }
}

/// Node `i` is reached from itself: some path leads from it back to it. A
/// path that repeats no node is never longer than the graph, so the bound
/// loses none.
pub open spec fn on_cycle(g: Seq<SchemaModel>, i: int) -> bool {
    reach_within(g, i, i, g.len())
}

/// Marks every direct child of node `c`, leaving the other marks as they were.
fn mark_children(g: &SchemaGraph, c: usize, marks: &mut Vec<bool>)
    requires
        g.wf(),
        c < g@.len(),
        old(marks)@.len() == g@.len(),
    ensures
        final(marks)@.len() == g@.len(),
        forall|t: int| 0 <= t < g@.len() ==> final(marks)@[t] == (old(marks)@[t] || child_of(g@[c as int], t)),
{
    let n = g.get(c);
    let ghost m = g@[c as int];
    assert(handles_below(m, g@.len()));
    if let Some(j) = n.items {
        marks.set(j, true);
    }
    if let Some(ExtraProps::Node(j)) = n.extra_props {
        marks.set(j, true);
    }
    let mut k: usize = 0;
    assert forall|t: int| 0 <= t < g@.len() implies marks@[t] == (old(marks)@[t]
        || (m.items matches Some(j) && j as int == t)
        || (m.extra_props matches Some(ExtraProps::Node(j)) && j as int == t)
        || exists|q: int| 0 <= q < 0 && #[trigger] m.properties[q].1 == t) by {
        if (m.items matches Some(j) && j as int == t) {
            assert(marks@[t]);
        }
        if (m.extra_props matches Some(ExtraProps::Node(j)) && j as int == t) {
            assert(marks@[t]);
        }
    }
    while k < n.properties.len()
        invariant
            n@ == m,
            handles_below(m, g@.len()),
            k <= m.properties.len(),
            marks@.len() == g@.len(),
            forall|t: int| 0 <= t < g@.len() ==> marks@[t] == (old(marks)@[t]
                || (m.items matches Some(j) && j as int == t)
                || (m.extra_props matches Some(ExtraProps::Node(j)) && j as int == t)
                || exists|q: int| 0 <= q < k && #[trigger] m.properties[q].1 == t),
        decreases n.properties.len() - k,
    {
        let j = n.properties[k].1;
        assert(m.properties[k as int].1 == j);
        marks.set(j, true);
        k += 1;
        assert forall|t: int| 0 <= t < g@.len() implies marks@[t] == (old(marks)@[t]
            || (m.items matches Some(j) && j as int == t)
            || (m.extra_props matches Some(ExtraProps::Node(j)) && j as int == t)
            || exists|q: int| 0 <= q < k && #[trigger] m.properties[q].1 == t) by {
            if t == j as int {
                assert(m.properties[k - 1].1 == t);
            }
        }
    }
    assert forall|t: int| 0 <= t < g@.len() implies marks@[t] == (old(marks)@[t] || child_of(m, t)) by {
        if (m.items matches Some(j) && j as int == t) || (m.extra_props matches Some(ExtraProps::Node(j)) && j as int == t) {
        }
    }
}

/// One more step: what was marked, and every child of a marked node.
fn step(g: &SchemaGraph, s: usize, old_marks: &Vec<bool>, r: Ghost<nat>) -> (marks: Vec<bool>)
    requires
        g.wf(),
        old_marks@.len() == g@.len(),
        forall|t: int| 0 <= t < g@.len() ==> old_marks@[t] == reach_within(g@, s as int, t, r@),
    ensures
        marks@.len() == g@.len(),
        forall|t: int| 0 <= t < g@.len() ==> marks@[t] == reach_within(g@, s as int, t, r@ + 1),
{
    let n = g.len();
    let mut marks = old_marks.clone();
    assert(marks@ =~= old_marks@);
    let mut c: usize = 0;
    while c < n
        invariant
            g.wf(),
            n == g@.len(),
            c <= n,
            marks@.len() == n,
            old_marks@.len() == n,
            forall|t: int| 0 <= t < g@.len() ==> old_marks@[t] == reach_within(g@, s as int, t, r@),
            forall|t: int| 0 <= t < n ==> marks@[t] == (old_marks@[t] || step_upto(g@, s as int, t, r@, c as int)),
        decreases n - c,
    {
        let ghost before = marks@;
        if old_marks[c] {
            mark_children(g, c, &mut marks);
        }
        assert(old_marks@[c as int] == reach_within(g@, s as int, c as int, r@));
        c += 1;
    }
    assert forall|t: int| 0 <= t < n implies marks@[t] == reach_within(g@, s as int, t, r@ + 1) by {
        assert(reach_within(g@, s as int, t, r@ + 1) == (reach_within(g@, s as int, t, r@) || step_upto(g@, s as int, t, r@, n as int)));
    }
    marks
}

/// Whether node `s` lies on a cycle.
fn cyclic_at(g: &SchemaGraph, s: usize) -> (r: bool)
    requires
        g.wf(),
        s < g@.len(),
    ensures
        r == on_cycle(g@, s as int),
{
    let n = g.len();
    let mut marks: Vec<bool> = Vec::new();
    let mut k: usize = 0;
    while k < n
        invariant
            k <= n,
            n == g@.len(),
            marks@.len() == k,
            forall|t: int| 0 <= t < k ==> !marks@[t],
        decreases n - k,
    {
        marks.push(false);
        k += 1;
    }
    mark_children(g, s, &mut marks);
    let mut r: usize = 0;
    while r < n
        invariant
            g.wf(),
            s < n,
            n == g@.len(),
            r <= n,
            marks@.len() == n,
            forall|t: int| 0 <= t < n ==> marks@[t] == reach_within(g@, s as int, t, r as nat),
        decreases n - r,
    {
        marks = step(g, s, &marks, Ghost(r as nat));
        r += 1;
    }
    marks[s]
}


/// Why a resolution was refused. Indices are positions in the list of roots.
#[derive(Clone, Copy, Debug, PartialEq, Eq, Structural)]
pub enum ResolveError {
    /// The root at this position names no node of the graph.
    MissingNode(usize),
    /// Two roots on distinct nodes whose names escape to the same reference path.
    NameCollision(usize, usize),
}

/// Root `k` names no node of `g`.
pub open spec fn missing_root(g: Seq<SchemaModel>, rs: Seq<(Seq<char>, usize)>, k: int) -> bool {
    0 <= k < rs.len() && rs[k].1 >= g.len()
}

/// Roots `a` and `b` name distinct nodes under the same escaped name.
pub open spec fn name_collision(rs: Seq<(Seq<char>, usize)>, a: int, b: int) -> bool {
    0 <= a < b < rs.len() && rs[a].1 != rs[b].1 && escape(rs[a].0) == escape(rs[b].0)
}

/// The name of node `i` once the first `k` roots are named in order: the last
/// of them that names it wins, and `d` stands where none does.
pub open spec fn name_after(rs: Seq<(Seq<char>, usize)>, i: int, k: int, d: Option<Seq<char>>) -> Option<Seq<char>>
    decreases k,
{
    if k <= 0 || k > rs.len() {
        d
    } else if rs[k - 1].1 as int == i {
        Some(rs[k - 1].0)
    } else {
        name_after(rs, i, k - 1, d)
    }
}

/// `g1` is `g0` resolved under the roots `rs`: each node carries its root
/// name and its cycle flag, and nothing else changes.
pub open spec fn resolved(g0: Seq<SchemaModel>, rs: Seq<(Seq<char>, usize)>, g1: Seq<SchemaModel>) -> bool {
    &&& g1.len() == g0.len()
    &&& forall|i: int|
        0 <= i < g0.len() ==> #[trigger] g1[i] == (SchemaModel {
            name: name_after(rs, i, rs.len() as int, g0[i].name),
            cyclic: on_cycle(g0, i),
            ..g0[i]
        })
}

/// Resolves the graph under the named roots `roots`, in their order: checks
/// that each names a node and that no two distinct nodes share an escaped
/// name, then names every root node and sets every node's cycle flag. On an
/// error the graph is left as it was.
pub fn resolve(g: &mut SchemaGraph, roots: &Vec<(String, usize)>) -> (r: Result<(), ResolveError>)
    requires
        old(g).wf(),
    ensures
        final(g).wf(),
        r is Ok <==> (forall|k: int| !missing_root(old(g)@, props(roots@), k)) && (forall|a: int, b: int|
            !name_collision(props(roots@), a, b)),
        r is Ok ==> resolved(old(g)@, props(roots@), final(g)@),
        r matches Err(ResolveError::MissingNode(k)) ==> missing_root(old(g)@, props(roots@), k as int),
        r matches Err(ResolveError::NameCollision(a, b)) ==> name_collision(props(roots@), a as int, b as int),
        r is Err ==> final(g)@ == old(g)@,
{
    let ghost rs = props(roots@);
    let ghost g0 = g@;
    let n = g.len();
    let mut k: usize = 0;
    while k < roots.len()
        invariant
            rs == props(roots@),
            n == g0.len(),
            g@ == g0,
            graph_wf(g0),
            k <= roots.len(),
            forall|q: int| q < k ==> !#[trigger] missing_root(g0, rs, q),
        decreases roots.len() - k,
    {
        assert(rs[k as int].1 == roots@[k as int].1);
        if roots[k].1 >= n {
            assert(missing_root(g0, rs, k as int));
            return Err(ResolveError::MissingNode(k));
        }
        k += 1;
    }
    let mut escaped: Vec<String> = Vec::new();
    k = 0;
    while k < roots.len()
        invariant
            rs == props(roots@),
            g@ == g0,
            graph_wf(g0),
            forall|q: int| !#[trigger] missing_root(g0, rs, q),
            k <= roots.len(),
            escaped@.len() == k,
            forall|q: int| 0 <= q < k ==> (#[trigger] escaped@[q])@ == escape(rs[q].0),
        decreases roots.len() - k,
    {
        assert(rs[k as int].0 == roots@[k as int].0@);
        escaped.push(escape_name(roots[k].0.as_str()));
        k += 1;
    }
    let mut a: usize = 0;
    while a < roots.len()
        invariant
            rs == props(roots@),
            g@ == g0,
            graph_wf(g0),
            forall|q: int| !#[trigger] missing_root(g0, rs, q),
            a <= roots.len(),
            escaped@.len() == roots.len(),
            forall|q: int| 0 <= q < roots.len() ==> (#[trigger] escaped@[q])@ == escape(rs[q].0),
            forall|x: int, y: int| 0 <= x < a ==> !#[trigger] name_collision(rs, x, y),
        decreases roots.len() - a,
    {
        let mut b: usize = a + 1;
        while b < roots.len()
            invariant
                rs == props(roots@),
                g@ == g0,
                graph_wf(g0),
                forall|q: int| !#[trigger] missing_root(g0, rs, q),
                a < b <= roots.len(),
                escaped@.len() == roots.len(),
                forall|q: int| 0 <= q < roots.len() ==> (#[trigger] escaped@[q])@ == escape(rs[q].0),
                forall|x: int, y: int| 0 <= x < a ==> !#[trigger] name_collision(rs, x, y),
                forall|y: int| y < b ==> !#[trigger] name_collision(rs, a as int, y),
            decreases roots.len() - b,
        {
            assert(rs[a as int].1 == roots@[a as int].1 && rs[b as int].1 == roots@[b as int].1);
            if roots[a].1 != roots[b].1 && escaped[a] == escaped[b] {
                assert(name_collision(rs, a as int, b as int));
                return Err(ResolveError::NameCollision(a, b));
            }
            b += 1;
        }
        a += 1;
    }
    let mut flags: Vec<bool> = Vec::new();
    let mut i: usize = 0;
    while i < n
        invariant
            g.wf(),
            g@ == g0,
            graph_wf(g0),
            rs == props(roots@),
            forall|q: int| !#[trigger] missing_root(g0, rs, q),
            forall|x: int, y: int| !#[trigger] name_collision(rs, x, y),
            n == g0.len(),
            i <= n,
            flags@.len() == i,
            forall|q: int| 0 <= q < i ==> flags@[q] == on_cycle(g0, q),
        decreases n - i,
    {
        flags.push(cyclic_at(g, i));
        i += 1;
    }
    k = 0;
    while k < roots.len()
        invariant
            rs == props(roots@),
            n == g0.len(),
            g@.len() == n,
            k <= roots.len(),
            graph_wf(g0),
            flags@.len() == n,
            forall|q: int| 0 <= q < n ==> flags@[q] == on_cycle(g0, q),
            forall|q: int| !#[trigger] missing_root(g0, rs, q),
            forall|x: int, y: int| !#[trigger] name_collision(rs, x, y),

            forall|j: int|
                0 <= j < n ==> #[trigger] g@[j] == (SchemaModel {
                    name: name_after(rs, j, k as int, g0[j].name),
                    ..g0[j]
                }),
        decreases roots.len() - k,
    {
        assert(rs[k as int].1 == roots@[k as int].1 && rs[k as int].0 == roots@[k as int].0@);
        assert(!missing_root(g0, rs, k as int));
        g.set_name(roots[k].1, clone_str(&roots[k].0));
        k += 1;
    }
    i = 0;
    while i < n
        invariant
            rs == props(roots@),
            n == g0.len(),
            g@.len() == n,
            i <= n,
            graph_wf(g0),
            forall|q: int| !#[trigger] missing_root(g0, rs, q),
            forall|x: int, y: int| !#[trigger] name_collision(rs, x, y),
            flags@.len() == n,
            forall|q: int| 0 <= q < n ==> flags@[q] == on_cycle(g0, q),
            forall|j: int|
                0 <= j < n ==> #[trigger] g@[j] == (SchemaModel {
                    name: name_after(rs, j, rs.len() as int, g0[j].name),
                    cyclic: if j < i { on_cycle(g0, j) } else { g0[j].cyclic },
                    ..g0[j]
                }),
        decreases n - i,
    {
        g.set_cyclic(i, flags[i]);
        i += 1;
    }
    assert forall|j: int| 0 <= j < g@.len() implies handles_below(#[trigger] g@[j], g@.len()) by {
        assert(handles_below(g0[j], g0.len()));
    }
    Ok(())
}

proof fn lemma_name_after_settles(rs: Seq<(Seq<char>, usize)>, i: int, k: int, d: Option<Seq<char>>)
    ensures
        name_after(rs, i, k, name_after(rs, i, k, d)) == name_after(rs, i, k, d),
    decreases k,
{
    if k > 0 && k <= rs.len() && rs[k - 1].1 as int != i {
        lemma_name_after_settles(rs, i, k - 1, d);
    }
}

/// Two graphs whose nodes have the same nested handles.
pub open spec fn same_edges(g0: Seq<SchemaModel>, g1: Seq<SchemaModel>) -> bool {
    &&& g0.len() == g1.len()
    &&& forall|i: int|
        0 <= i < g0.len() ==> (#[trigger] g1[i]).items == g0[i].items && g1[i].extra_props
            == g0[i].extra_props && g1[i].properties == g0[i].properties
}

proof fn lemma_reach_same(g0: Seq<SchemaModel>, g1: Seq<SchemaModel>, s: int, t: int, r: nat)
    requires
        same_edges(g0, g1),
    ensures
        reach_within(g0, s, t, r) == reach_within(g1, s, t, r),
    decreases r, 0int,
{
    if r == 0 {
        if 0 <= s < g0.len() {
            assert(g1[s].properties == g0[s].properties);
        }
    } else {
        lemma_reach_same(g0, g1, s, t, (r - 1) as nat);
        lemma_step_same(g0, g1, s, t, (r - 1) as nat, g0.len() as int);
    }
}

proof fn lemma_step_same(g0: Seq<SchemaModel>, g1: Seq<SchemaModel>, s: int, t: int, r: nat, c: int)
    requires
        same_edges(g0, g1),
    ensures
        step_upto(g0, s, t, r, c) == step_upto(g1, s, t, r, c),
    decreases r, c,
{
    if c > 0 && c <= g0.len() {
        lemma_step_same(g0, g1, s, t, r, c - 1);
        lemma_reach_same(g0, g1, s, c - 1, r);
        assert(g1[c - 1].properties == g0[c - 1].properties);
    }
}

/// Resolving an already resolved graph again under the same roots changes
/// no name and no cycle flag.
pub proof fn lemma_resolve_idempotent(
    g0: Seq<SchemaModel>,
    rs: Seq<(Seq<char>, usize)>,
    g1: Seq<SchemaModel>,
    g2: Seq<SchemaModel>,
)
    requires
        resolved(g0, rs, g1),
        resolved(g1, rs, g2),
    ensures
        g2.len() == g1.len(),
        forall|i: int| 0 <= i < g1.len() ==> #[trigger] g2[i].name == g1[i].name && g2[i].cyclic == g1[i].cyclic,
{
    assert(same_edges(g0, g1)) by {
        assert forall|i: int| 0 <= i < g0.len() implies (#[trigger] g1[i]).items == g0[i].items && g1[i].extra_props
            == g0[i].extra_props && g1[i].properties == g0[i].properties by {
            assert(g1[i] == (SchemaModel {
                name: name_after(rs, i, rs.len() as int, g0[i].name),
                cyclic: on_cycle(g0, i),
                ..g0[i]
            }));
        }
    }
    assert forall|i: int| 0 <= i < g1.len() implies #[trigger] g2[i].name == g1[i].name && g2[i].cyclic
        == g1[i].cyclic by {
        assert(g1[i] == (SchemaModel {
            name: name_after(rs, i, rs.len() as int, g0[i].name),
            cyclic: on_cycle(g0, i),
            ..g0[i]
        }));
        assert(g2[i] == (SchemaModel {
            name: name_after(rs, i, rs.len() as int, g1[i].name),
            cyclic: on_cycle(g1, i),
            ..g1[i]
        }));
        lemma_name_after_settles(rs, i, rs.len() as int, g0[i].name);
        lemma_reach_same(g0, g1, i, i, g0.len());
    }
}

} // verus!
