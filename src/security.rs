//! Security scheme descriptors, and the rule by which a child declaration
//! adds its scopes to its parent's scheme.

use vstd::prelude::*;
use crate::model::{opt_str, clone_str, clone_opt_str};

verus! {

/// A named authentication or authorization scheme.
#[derive(Debug)]
pub struct SecurityScheme {
    pub type_: String,
    pub name: Option<String>,
    pub in_: Option<String>,
    pub flow: Option<String>,
    pub auth_url: Option<String>,
    pub token_url: Option<String>,
    pub description: Option<String>,
    pub scopes: Vec<(String, String)>,
}

/// The mathematical value of a [`SecurityScheme`]; scopes as a map from name to description.
pub struct SchemeModel {
    pub type_: Seq<char>,
    pub name: Option<Seq<char>>,
    pub in_: Option<Seq<char>>,
    pub flow: Option<Seq<char>>,
    pub auth_url: Option<Seq<char>>,
    pub token_url: Option<Seq<char>>,
    pub description: Option<Seq<char>>,
    pub scopes: Map<Seq<char>, Seq<char>>,
}

/// The map that a list of scopes stands for; a later entry wins.
pub open spec fn scope_map(s: Seq<(String, String)>) -> Map<Seq<char>, Seq<char>>
    decreases s.len(),
{
    if s.len() == 0 {
        Map::empty()
    } else {
        scope_map(s.drop_last()).insert(s.last().0@, s.last().1@)
    }
}

/// No two scopes share a name.
pub open spec fn keys_unique(s: Seq<(String, String)>) -> bool {
    forall|i: int, j: int| 0 <= i < j < s.len() ==> #[trigger] s[i].0@ != #[trigger] s[j].0@
}

impl View for SecurityScheme {
    type V = SchemeModel;

    open spec fn view(&self) -> SchemeModel {
        SchemeModel {
            type_: self.type_@,
            name: opt_str(self.name),
            in_: opt_str(self.in_),
            flow: opt_str(self.flow),
            auth_url: opt_str(self.auth_url),
            token_url: opt_str(self.token_url),
            description: opt_str(self.description),
            scopes: scope_map(self.scopes@),
        }
    }
}

/// A declaration of a security scheme: either a root, with a scheme type and
/// the fields of that type, or a child that names a parent declaration and
/// supplies scopes only.
#[derive(Debug)]
pub struct SecurityDecl {
    /// The name of the declaring type; a child names its parent by it.
    pub ident: String,
    pub alias: Option<String>,
    pub scheme_type: Option<String>,
    pub parent: Option<String>,
    pub name: Option<String>,
    pub in_: Option<String>,
    pub flow: Option<String>,
    pub auth_url: Option<String>,
    pub token_url: Option<String>,
    pub description: Option<String>,
    pub scopes: Vec<(String, String)>,
}

/// Why a declaration could not be built. Indices are positions in the list of declarations.
#[derive(Clone, Copy, Debug, PartialEq, Eq, Structural)]
pub enum SecurityError {
    /// The declaration has neither a scheme type nor a parent.
    Unspecified(usize),
    /// The declaration has both a scheme type and a parent.
    Ambiguous(usize),
    /// The declaration names a parent that no declaration defines.
    UnknownParent(usize),
    /// Following parents from the declaration comes back to a declaration already met.
    CyclicParent(usize),
}

/// The first declaration whose `ident` is `name`, from position `k` on; -1 if none.
pub open spec fn find_decl(ds: Seq<SecurityDecl>, name: Seq<char>, k: int) -> int
    decreases ds.len() - k,
{
    if k < 0 || k >= ds.len() {
        -1
    } else if ds[k].ident@ == name {
        k
    } else {
        find_decl(ds, name, k + 1)
    }
}

/// The scheme of a root declaration, under its alias (else its scheme type),
/// with the scopes it declares.
pub open spec fn root_scheme(d: SecurityDecl) -> (Seq<char>, SchemeModel) {
    let t = d.scheme_type->Some_0@;
    (
        match d.alias {
            Some(a) => a@,
            None => t,
        },
        SchemeModel {
            type_: t,
            name: opt_str(d.name),
            in_: opt_str(d.in_),
            flow: opt_str(d.flow),
            auth_url: opt_str(d.auth_url),
            token_url: opt_str(d.token_url),
            description: opt_str(d.description),
            scopes: scope_map(d.scopes@),
        },
    )
}

/// What building declaration `k` gives, following at most `fuel` parents.
pub open spec fn built(ds: Seq<SecurityDecl>, k: int, fuel: nat) -> Result<(Seq<char>, SchemeModel), SecurityError>
    decreases fuel,
{
    let d = ds[k];
    if d.scheme_type is None && d.parent is None {
        Err(SecurityError::Unspecified(k as usize))
    } else if d.scheme_type is Some && d.parent is Some {
        Err(SecurityError::Ambiguous(k as usize))
    } else if d.scheme_type is Some {
        Ok(root_scheme(d))
    } else if find_decl(ds, d.parent->Some_0@, 0) < 0 {
        Err(SecurityError::UnknownParent(k as usize))
    } else if fuel == 0 {
        Err(SecurityError::CyclicParent(k as usize))
    } else {
        match built(ds, find_decl(ds, d.parent->Some_0@, 0), (fuel - 1) as nat) {
            Err(e) => Err(e),
            Ok((n, s)) => Ok((n, SchemeModel { scopes: s.scopes.union_prefer_right(scope_map(d.scopes@)), ..s })),
        }
    }
}

/// A child declaration takes its parent's scheme and name whole, but for the
/// scopes, which are the parent's with its own laid over them: it never
/// redefines the type, the flow or the URLs.
pub proof fn lemma_child_keeps_parent(ds: Seq<SecurityDecl>, k: int, fuel: nat)
    requires
        0 <= k < ds.len(),
        ds[k].scheme_type is None,
        ds[k].parent is Some,
        built(ds, k, fuel + 1) is Ok,
    ensures
        ({
            let p = find_decl(ds, ds[k].parent->Some_0@, 0);
            let (pn, ps) = built(ds, p, fuel)->Ok_0;
            let (cn, cs) = built(ds, k, fuel + 1)->Ok_0;
            &&& 0 <= p < ds.len()
            &&& built(ds, p, fuel) is Ok
            &&& cn == pn
            &&& cs == (SchemeModel { scopes: ps.scopes.union_prefer_right(scope_map(ds[k].scopes@)), ..ps })
        }),
{
    lemma_find_decl_range(ds, ds[k].parent->Some_0@, 0);
}

proof fn lemma_find_decl_range(ds: Seq<SecurityDecl>, name: Seq<char>, k: int)
    ensures
        find_decl(ds, name, k) == -1 || (k <= find_decl(ds, name, k) < ds.len()),
    decreases ds.len() - k,
{
    if 0 <= k < ds.len() && ds[k].ident@ != name {
        lemma_find_decl_range(ds, name, k + 1);
    }
}

/// What building declaration `k` of `ds` gives.
pub open spec fn build_spec(ds: Seq<SecurityDecl>, k: int) -> Result<(Seq<char>, SchemeModel), SecurityError> {
    built(ds, k, ds.len())
}

pub open spec fn result_view(r: Result<(String, SecurityScheme), SecurityError>) -> Result<(Seq<char>, SchemeModel), SecurityError> {
    match r {
        Ok((n, s)) => Ok((n@, s@)),
        Err(e) => Err(e),
    }
}

proof fn lemma_update_scope(s: Seq<(String, String)>, j: int, p: (String, String))
    requires
        keys_unique(s),
        0 <= j < s.len(),
        s[j].0@ == p.0@,
    ensures
        scope_map(s.update(j, p)) == scope_map(s).insert(p.0@, p.1@),
        keys_unique(s.update(j, p)),
    decreases s.len(),
{
    let u = s.update(j, p);
    if j == s.len() - 1 {
        assert(u.drop_last() =~= s.drop_last());
        assert(scope_map(u) =~= scope_map(s).insert(p.0@, p.1@));
    } else {
        let s1 = s.drop_last();
        assert(u.drop_last() =~= s1.update(j, p));
        assert(keys_unique(s1));
        lemma_update_scope(s1, j, p);
        assert(s[j].0@ != s.last().0@);
        assert(scope_map(u) =~= scope_map(s).insert(p.0@, p.1@));
    }
    assert forall|a: int, b: int| 0 <= a < b < u.len() implies #[trigger] u[a].0@ != #[trigger] u[b].0@ by {
        assert(s[a].0@ != s[b].0@);
    }
}

/// Adds scope `p`, replacing the scope of the same name if there is one.
fn put_scope(s: &mut Vec<(String, String)>, p: (String, String))
    requires
        keys_unique(old(s)@),
    ensures
        keys_unique(final(s)@),
        scope_map(final(s)@) == scope_map(old(s)@).insert(p.0@, p.1@),
{
    let mut j: usize = 0;
    while j < s.len()
        invariant
            j <= s.len(),
            s@ == old(s)@,
            keys_unique(s@),
            forall|q: int| 0 <= q < j ==> (#[trigger] s@[q]).0@ != p.0@,
        decreases s.len() - j,
    {
        if s[j].0 == p.0 {
            proof {
                lemma_update_scope(s@, j as int, p);
            }
            s.set(j, p);
            return;
        }
        j += 1;
    }
    let ghost before = s@;
    s.push(p);
    assert(s@.drop_last() =~= before);
    assert(scope_map(s@) == scope_map(before).insert(p.0@, p.1@));
    assert forall|a: int, b: int| 0 <= a < b < s@.len() implies #[trigger] s@[a].0@ != #[trigger] s@[b].0@ by {
        if b < before.len() {
            assert(before[a].0@ != before[b].0@);
        }
    }
}

/// Lays the scopes `add` over `s`: a scope of `add` replaces one of the same name.
fn overlay_scopes(s: &mut Vec<(String, String)>, add: &Vec<(String, String)>)
    requires
        keys_unique(old(s)@),
    ensures
        keys_unique(final(s)@),
        scope_map(final(s)@) == scope_map(old(s)@).union_prefer_right(scope_map(add@)),
{
    let ghost base = scope_map(s@);
    let mut i: usize = 0;
    while i < add.len()
        invariant
            i <= add.len(),
            keys_unique(s@),
            base == scope_map(old(s)@),
            scope_map(s@) == base.union_prefer_right(scope_map(add@.subrange(0, i as int))),
        decreases add.len() - i,
    {
        let c = (clone_str(&add[i].0), clone_str(&add[i].1));
        put_scope(s, c);
        i += 1;
        assert(add@.subrange(0, i as int).drop_last() =~= add@.subrange(0, i - 1));
        assert(scope_map(s@) =~= base.union_prefer_right(scope_map(add@.subrange(0, i as int))));
    }
    assert(add@.subrange(0, i as int) =~= add@);
}

fn clone_scheme(s: &SecurityScheme) -> (r: SecurityScheme)
    requires
        keys_unique(s.scopes@),
    ensures
        r@ == s@,
        keys_unique(r.scopes@),
{
    let mut scopes: Vec<(String, String)> = Vec::new();
    let mut i: usize = 0;
    while i < s.scopes.len()
        invariant
            i <= s.scopes.len(),
            keys_unique(s.scopes@),
            scopes@.len() == i,
            forall|q: int| 0 <= q < i ==> (#[trigger] scopes@[q]).0@ == s.scopes@[q].0@ && scopes@[q].1@ == s.scopes@[q].1@,
        decreases s.scopes.len() - i,
    {
        scopes.push((clone_str(&s.scopes[i].0), clone_str(&s.scopes[i].1)));
        i += 1;
    }
    proof {
        lemma_scope_map_same(scopes@, s.scopes@);
    }
    assert forall|a: int, b: int| 0 <= a < b < scopes@.len() implies #[trigger] scopes@[a].0@ != #[trigger] scopes@[b].0@ by {
        assert(s.scopes@[a].0@ != s.scopes@[b].0@);
    }
    SecurityScheme {
        type_: clone_str(&s.type_),
        name: clone_opt_str(&s.name),
        in_: clone_opt_str(&s.in_),
        flow: clone_opt_str(&s.flow),
        auth_url: clone_opt_str(&s.auth_url),
        token_url: clone_opt_str(&s.token_url),
        description: clone_opt_str(&s.description),
        scopes,
    }
}

proof fn lemma_scope_map_same(a: Seq<(String, String)>, b: Seq<(String, String)>)
    requires
        a.len() == b.len(),
        forall|q: int| 0 <= q < a.len() ==> (#[trigger] a[q]).0@ == b[q].0@ && a[q].1@ == b[q].1@,
    ensures
        scope_map(a) == scope_map(b),
    decreases a.len(),
{
    if a.len() > 0 {
        lemma_scope_map_same(a.drop_last(), b.drop_last());
    }
}

/// The first declaration whose `ident` is `name`.
fn find(ds: &Vec<SecurityDecl>, name: &String) -> (r: Option<usize>)
    ensures
        match r {
            Some(k) => find_decl(ds@, name@, 0) == k as int && k < ds@.len(),
            None => find_decl(ds@, name@, 0) < 0,
        },
{
    let mut k: usize = 0;
    while k < ds.len()
        invariant
            k <= ds.len(),
            find_decl(ds@, name@, 0) == find_decl(ds@, name@, k as int),
        decreases ds.len() - k,
    {
        if ds[k].ident == *name {
            return Some(k);
        }
        k += 1;
    }
    None
}

fn build_at(ds: &Vec<SecurityDecl>, k: usize, fuel: usize) -> (r: Result<(String, SecurityScheme), SecurityError>)
    requires
        k < ds@.len(),
    ensures
        result_view(r) == built(ds@, k as int, fuel as nat),
        r matches Ok((_, s)) ==> keys_unique(s.scopes@),
    decreases fuel,
{
    let d = &ds[k];
    match (&d.scheme_type, &d.parent) {
        (None, None) => Err(SecurityError::Unspecified(k)),
        (Some(_), Some(_)) => Err(SecurityError::Ambiguous(k)),
        (Some(t), None) => {
            let alias = match &d.alias {
                Some(a) => clone_str(a),
                None => clone_str(t),
            };
            let mut scopes: Vec<(String, String)> = Vec::new();
            overlay_scopes(&mut scopes, &d.scopes);
            assert(scope_map(scopes@) =~= scope_map(d.scopes@));
            let s = SecurityScheme {
                type_: clone_str(t),
                name: clone_opt_str(&d.name),
                in_: clone_opt_str(&d.in_),
                flow: clone_opt_str(&d.flow),
                auth_url: clone_opt_str(&d.auth_url),
                token_url: clone_opt_str(&d.token_url),
                description: clone_opt_str(&d.description),
                scopes,
            };
            Ok((alias, s))
        },
        (None, Some(p)) => {
            match find(ds, p) {
                None => Err(SecurityError::UnknownParent(k)),
                Some(pk) => {
                    if fuel == 0 {
                        return Err(SecurityError::CyclicParent(k));
                    }
                    match build_at(ds, pk, fuel - 1) {
                        Err(e) => Err(e),
                        Ok((n, parent)) => {
                            let mut s = clone_scheme(&parent);
                            overlay_scopes(&mut s.scopes, &d.scopes);
                            assert(s@ == (SchemeModel {
                                scopes: parent@.scopes.union_prefer_right(scope_map(d.scopes@)),
                                ..parent@
                            }));
                            Ok((n, s))
                        },
                    }
                },
            }
        },
    }
}

/// Builds declaration `k`: a root gives its own scheme under its alias (else
/// its scheme type); a child gives its parent's scheme, under the parent's
/// name, with its own scopes added over the parent's. A declaration with
/// neither a type nor a parent, or with both, is refused, as is one whose
/// parent is not declared or whose parents lead round in a circle.
pub fn build_scheme(ds: &Vec<SecurityDecl>, k: usize) -> (r: Result<(String, SecurityScheme), SecurityError>)
    requires
        k < ds@.len(),
    ensures
        result_view(r) == build_spec(ds@, k as int),
{
    build_at(ds, k, ds.len())
}

} // verus!
