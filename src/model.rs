//! Schema nodes and the arena that holds them.

use vstd::prelude::*;

verus! {

/// The `type` of a schema node.
#[derive(Clone, Copy, Debug, PartialEq, Eq, Structural)]
pub enum DataType {
    Null,
    Boolean,
    Integer,
    Number,
    String,
    Array,
    Object,
    File,
}

/// The `format` that refines a node's `type`.
#[derive(Clone, Copy, Debug, PartialEq, Eq, Structural)]
pub enum DataTypeFormat {
    Int32,
    Int64,
    Float,
    Double,
    Byte,
    Binary,
    Date,
    DateTime,
    Password,
    Url,
    Uuid,
    Ip,
    IpV4,
    IpV6,
    Other,
}

/// The `additionalProperties` of a map node: a flag, or the node that every value follows.
#[derive(Clone, Copy, Debug, PartialEq, Eq, Structural)]
pub enum ExtraProps {
    Allowed(bool),
    Node(usize),
}

/// One schema node. Nested nodes are handles (indices) into a [`SchemaGraph`].
/// Numeric bounds are kept as exact integers.
#[derive(Debug)]
pub struct Schema {
    pub description: Option<String>,
    pub reference: Option<String>,
    pub data_type: Option<DataType>,
    pub format: Option<DataTypeFormat>,
    pub maximum: Option<u128>,
    pub minimum: Option<i128>,
    pub items: Option<usize>,
    pub extra_props: Option<ExtraProps>,
    pub properties: Vec<(String, usize)>,
    pub required: Vec<String>,
    pub enum_variants: Vec<String>,
    pub cyclic: bool,
    pub name: Option<String>,
}

/// The mathematical value of a [`Schema`].
pub struct SchemaModel {
    pub description: Option<Seq<char>>,
    pub reference: Option<Seq<char>>,
    pub data_type: Option<DataType>,
    pub format: Option<DataTypeFormat>,
    pub maximum: Option<u128>,
    pub minimum: Option<i128>,
    pub items: Option<usize>,
    pub extra_props: Option<ExtraProps>,
    pub properties: Seq<(Seq<char>, usize)>,
    pub required: Seq<Seq<char>>,
    pub enum_variants: Seq<Seq<char>>,
    pub cyclic: bool,
    pub name: Option<Seq<char>>,
}

pub open spec fn opt_str(o: Option<String>) -> Option<Seq<char>> {
    match o {
        Some(s) => Some(s@),
        None => None,
    }
}

pub open spec fn strs(v: Seq<String>) -> Seq<Seq<char>> {
    v.map_values(|s: String| s@)
}

pub open spec fn props(v: Seq<(String, usize)>) -> Seq<(Seq<char>, usize)> {
    v.map_values(|p: (String, usize)| (p.0@, p.1))
}

impl View for Schema {
    type V = SchemaModel;

    open spec fn view(&self) -> SchemaModel {
        SchemaModel {
            description: opt_str(self.description),
            reference: opt_str(self.reference),
            data_type: self.data_type,
            format: self.format,
            maximum: self.maximum,
            minimum: self.minimum,
            items: self.items,
            extra_props: self.extra_props,
            properties: props(self.properties@),
            required: strs(self.required@),
            enum_variants: strs(self.enum_variants@),
            cyclic: self.cyclic,
            name: opt_str(self.name),
        }
    }
}

/// The node with every field absent: an unconstrained schema.
pub open spec fn empty_model() -> SchemaModel {
    SchemaModel {
        description: None,
        reference: None,
        data_type: None,
        format: None,
        maximum: None,
        minimum: None,
        items: None,
        extra_props: None,
        properties: Seq::empty(),
        required: Seq::empty(),
        enum_variants: Seq::empty(),
        cyclic: false,
        name: None,
    }
}

/// Every handle that `n` holds is below `len`.
pub open spec fn handles_below(n: SchemaModel, len: nat) -> bool {
    &&& (n.items matches Some(j) ==> j < len)
    &&& (n.extra_props matches Some(ExtraProps::Node(j)) ==> j < len)
    &&& forall|k: int| 0 <= k < n.properties.len() ==> #[trigger] n.properties[k].1 < len
}

/// `c` is a direct child of `n`: through `properties`, `items` or a nested `additionalProperties`.
pub open spec fn child_of(n: SchemaModel, c: int) -> bool {
    ||| n.items matches Some(j) && j as int == c
    ||| n.extra_props matches Some(ExtraProps::Node(j)) && j as int == c
    ||| exists|k: int| 0 <= k < n.properties.len() && #[trigger] n.properties[k].1 == c
}

pub fn clone_str(s: &String) -> (r: String)
    ensures
        r@ == s@,
{
    s.clone()
}

pub fn clone_opt_str(o: &Option<String>) -> (r: Option<String>)
    ensures
        opt_str(r) == opt_str(*o),
{
    match o {
        Some(s) => Some(s.clone()),
        None => None,
    }
}

pub fn clone_strs(v: &Vec<String>) -> (r: Vec<String>)
    ensures
        strs(r@) == strs(v@),
{
    let mut r: Vec<String> = Vec::new();
    let mut i: usize = 0;
    while i < v.len()
        invariant
            i <= v.len(),
            strs(r@) == strs(v@.subrange(0, i as int)),
        decreases v.len() - i,
    {
        let ghost prev = r@;
        let c = v[i].clone();
        r.push(c);
        assert(strs(r@) =~= strs(prev).push(v@[i as int]@));
        assert(strs(v@.subrange(0, i + 1)) =~= strs(v@.subrange(0, i as int)).push(v@[i as int]@));
        i += 1;
    }
    assert(v@.subrange(0, i as int) =~= v@);
    r
}

pub fn clone_props(v: &Vec<(String, usize)>) -> (r: Vec<(String, usize)>)
    ensures
        props(r@) == props(v@),
{
    let mut r: Vec<(String, usize)> = Vec::new();
    let mut i: usize = 0;
    while i < v.len()
        invariant
            i <= v.len(),
            props(r@) == props(v@.subrange(0, i as int)),
        decreases v.len() - i,
    {
        let ghost prev = r@;
        let c = v[i].0.clone();
        r.push((c, v[i].1));
        assert(props(r@) =~= props(prev).push((v@[i as int].0@, v@[i as int].1)));
        assert(props(v@.subrange(0, i + 1)) =~= props(v@.subrange(0, i as int)).push((v@[i as int].0@, v@[i as int].1)));
        i += 1;
    }
    assert(v@.subrange(0, i as int) =~= v@);
    r
}

impl Schema {
    /// A node with every field absent.
    pub fn new() -> (r: Schema)
        ensures
            r@ == empty_model(),
    {
        let r = Schema {
            description: None,
            reference: None,
            data_type: None,
            format: None,
            maximum: None,
            minimum: None,
            items: None,
            extra_props: None,
            properties: Vec::new(),
            required: Vec::new(),
            enum_variants: Vec::new(),
            cyclic: false,
            name: None,
        };
        assert(r@.properties =~= Seq::empty());
        assert(r@.required =~= Seq::empty());
        assert(r@.enum_variants =~= Seq::empty());
        r
    }

    /// A copy of this node that shares its nested handles.
    pub fn copy(&self) -> (r: Schema)
        ensures
            r@ == self@,
    {
        Schema {
            description: clone_opt_str(&self.description),
            reference: clone_opt_str(&self.reference),
            data_type: self.data_type,
            format: self.format,
            maximum: self.maximum,
            minimum: self.minimum,
            items: self.items,
            extra_props: self.extra_props,
            properties: clone_props(&self.properties),
            required: clone_strs(&self.required),
            enum_variants: clone_strs(&self.enum_variants),
            cyclic: self.cyclic,
            name: clone_opt_str(&self.name),
        }
    }
}

/// The arena of schema nodes; a handle is an index into it.
pub struct SchemaGraph {
    pub nodes: Vec<Schema>,
}

pub open spec fn nodes_view(v: Seq<Schema>) -> Seq<SchemaModel> {
    v.map_values(|n: Schema| n@)
}

/// Every handle in every node names a node of the graph.
pub open spec fn graph_wf(g: Seq<SchemaModel>) -> bool {
    forall|i: int| 0 <= i < g.len() ==> handles_below(#[trigger] g[i], g.len())
}

impl View for SchemaGraph {
    type V = Seq<SchemaModel>;

    open spec fn view(&self) -> Seq<SchemaModel> {
        nodes_view(self.nodes@)
    }
}

impl SchemaGraph {
    pub open spec fn wf(&self) -> bool {
        graph_wf(self@)
    }

    pub fn new() -> (r: SchemaGraph)
        ensures
            r@ == Seq::<SchemaModel>::empty(),
            r.wf(),
    {
        let r = SchemaGraph { nodes: Vec::new() };
        assert(r@ =~= Seq::<SchemaModel>::empty());
        r
    }

    pub fn len(&self) -> (r: usize)
        ensures
            r == self@.len(),
    {
        self.nodes.len()
    }

    pub fn get(&self, i: usize) -> (r: &Schema)
        requires
            i < self@.len(),
        ensures
            r@ == self@[i as int],
    {
        &self.nodes[i]
    }

    /// Adds a node whose handles all name existing nodes, and returns its handle.
    pub fn add(&mut self, n: Schema) -> (r: usize)
        requires
            old(self).wf(),
            handles_below(n@, old(self)@.len()),
        ensures
            final(self)@ == old(self)@.push(n@),
            r == old(self)@.len(),
            final(self).wf(),
    {
        let r = self.nodes.len();
        self.nodes.push(n);
        assert(self@ =~= old(self)@.push(n@));
        r
    }

    /// Replaces the node under handle `i`.
    pub fn set(&mut self, i: usize, n: Schema)
        requires
            i < old(self)@.len(),
        ensures
            final(self)@ == old(self)@.update(i as int, n@),
    {
        self.nodes.set(i, n);
        assert(self@ =~= old(self)@.update(i as int, n@));
    }
    /// Sets the name of the node under handle `i`; nothing else changes.
    pub fn set_name(&mut self, i: usize, name: String)
        requires
            i < old(self)@.len(),
        ensures
            final(self)@ == old(self)@.update(i as int, (SchemaModel { name: Some(name@), ..old(self)@[i as int] })),
    {
        let mut n = self.nodes[i].copy();
        n.name = Some(name);
        self.set(i, n);
    }

    /// Sets the cyclic flag of the node under handle `i`; nothing else changes.
    pub fn set_cyclic(&mut self, i: usize, cyclic: bool)
        requires
            i < old(self)@.len(),
        ensures
            final(self)@ == old(self)@.update(i as int, (SchemaModel { cyclic: cyclic, ..old(self)@[i as int] })),
    {
        let mut n = self.nodes[i].copy();
        n.cyclic = cyclic;
        self.set(i, n);
    }
}

} // verus!
