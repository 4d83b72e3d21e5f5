//! Type descriptors and the rules that map each to a schema node.

use vstd::prelude::*;
use crate::model::{DataType, ExtraProps, Schema, SchemaGraph, SchemaModel, empty_model, graph_wf, handles_below, opt_str, clone_opt_str};
use crate::typed::{TypedData, type_table, min_table, max_table};
use crate::escape::{reference_path, reference_path_of};

verus! {

/// Homogeneous collections, all written as arrays.
#[derive(Clone, Copy, Debug, PartialEq, Eq, Structural)]
pub enum CollectionKind {
    Vec,
    HashSet,
    LinkedList,
    VecDeque,
    BTreeSet,
    BinaryHeap,
}

/// Maps, written as objects whose values follow one schema.
#[derive(Clone, Copy, Debug, PartialEq, Eq, Structural)]
pub enum MapKind {
    HashMap,
    BTreeMap,
}

/// A type declared by a collaborator: its registered name, its description,
/// and the node that holds its raw schema.
#[derive(Debug)]
pub struct Declared {
    pub name: Option<String>,
    pub description: String,
    pub node: usize,
}

/// A native type, described at run time, whose schema is to be derived.
#[derive(Debug)]
pub enum TypeDesc {
    Unit,
    JsonValue,
    YamlValue,
    Typed(TypedData),
    Optional(Box<TypeDesc>),
    Result(Box<TypeDesc>),
    Cow(Box<TypeDesc>),
    Slice(Box<TypeDesc>),
    FixedArray(Box<TypeDesc>, usize),
    Collection(CollectionKind, Box<TypeDesc>),
    MapOf(MapKind, Box<TypeDesc>),
    Declared(Declared),
}

/// The registered name of a type.
pub open spec fn name_of(t: TypeDesc) -> Option<Seq<char>>
    decreases t,
{
    match t {
        TypeDesc::Optional(x) => name_of(*x),
        TypeDesc::Result(x) => name_of(*x),
        TypeDesc::Cow(x) => name_of(*x),
        TypeDesc::Declared(d) => opt_str(d.name),
        _ => None,
    }
}

/// The description of a type: empty but for declared types.
pub open spec fn description_of(t: TypeDesc) -> Seq<char> {
    match t {
        TypeDesc::Declared(d) => d.description@,
        _ => Seq::empty(),
    }
}

/// Whether a value of the type must be present: all but optionals.
pub open spec fn required_of(t: TypeDesc) -> bool {
    !(t is Optional)
}

/// Every declared type within `t` names a node of `g`.
pub open spec fn decls_in(g: Seq<SchemaModel>, t: TypeDesc) -> bool
    decreases t,
{
    match t {
        TypeDesc::Optional(x) => decls_in(g, *x),
        TypeDesc::Result(x) => decls_in(g, *x),
        TypeDesc::Cow(x) => decls_in(g, *x),
        TypeDesc::Slice(x) => decls_in(g, *x),
        TypeDesc::FixedArray(x, _) => decls_in(g, *x),
        TypeDesc::Collection(_, x) => decls_in(g, *x),
        TypeDesc::MapOf(_, x) => decls_in(g, *x),
        TypeDesc::Declared(d) => d.node < g.len(),
        _ => true,
    }
}

/// `a` and `b` agree on every field but `description` and `reference`.
pub open spec fn same_core(a: SchemaModel, b: SchemaModel) -> bool {
    &&& a.data_type == b.data_type
    &&& a.format == b.format
    &&& a.maximum == b.maximum
    &&& a.minimum == b.minimum
    &&& a.items == b.items
    &&& a.extra_props == b.extra_props
    &&& a.properties == b.properties
    &&& a.required == b.required
    &&& a.enum_variants == b.enum_variants
    &&& a.cyclic == b.cyclic
    &&& a.name == b.name
}

/// The raw node of a primitive type.
pub open spec fn typed_model(p: TypedData) -> SchemaModel {
    SchemaModel {
        data_type: Some(type_table(p).0),
        format: type_table(p).1,
        maximum: max_table(p),
        minimum: min_table(p),
        ..empty_model()
    }
}

/// A node that is `data_type` and nothing more but for one nested handle.
pub open spec fn wrapper_model(dt: DataType, items: Option<usize>, extra: Option<ExtraProps>) -> SchemaModel {
    SchemaModel { data_type: Some(dt), items: items, extra_props: extra, ..empty_model() }
}

/// The `$ref` of the raw schema of `t`.
pub open spec fn raw_ref(g: Seq<SchemaModel>, t: TypeDesc) -> Option<Seq<char>>
    decreases t,
{
    match t {
        TypeDesc::Optional(x) => raw_ref(g, *x),
        TypeDesc::Result(x) => raw_ref(g, *x),
        TypeDesc::Cow(x) => raw_ref(g, *x),
        TypeDesc::Declared(d) => g[d.node as int].reference,
        _ => None,
    }
}

/// The `description` of the raw schema of `t`.
pub open spec fn raw_desc(g: Seq<SchemaModel>, t: TypeDesc) -> Option<Seq<char>>
    decreases t,
{
    match t {
        TypeDesc::Optional(x) => raw_desc(g, *x),
        TypeDesc::Result(x) => raw_desc(g, *x),
        TypeDesc::Cow(x) => raw_desc(g, *x),
        TypeDesc::Declared(d) => g[d.node as int].description,
        _ => None,
    }
}

/// The `$ref` that the schema-with-reference of `t` carries, where `n` is its raw node.
pub open spec fn ref_with_name(g: Seq<SchemaModel>, n: SchemaModel, t: TypeDesc) -> Option<Seq<char>> {
    match name_of(t) {
        Some(s) => Some(reference_path_of(s)),
        None => match n.name {
            Some(s) => Some(reference_path_of(s)),
            None => raw_ref(g, t),
        },
    }
}

/// The `description` that the schema-with-reference of `t` carries.
pub open spec fn desc_with_ref(g: Seq<SchemaModel>, t: TypeDesc) -> Option<Seq<char>> {
    if description_of(t).len() > 0 {
        Some(description_of(t))
    } else {
        raw_desc(g, t)
    }
}

/// `n` is, but for `description` and `reference`, the raw schema of `t` in `g`.
pub open spec fn raw_core(g: Seq<SchemaModel>, n: SchemaModel, t: TypeDesc) -> bool
    decreases t,
{
    match t {
        TypeDesc::Unit => same_core(n, empty_model()),
        TypeDesc::JsonValue => same_core(n, empty_model()),
        TypeDesc::YamlValue => same_core(n, empty_model()),
        TypeDesc::Typed(p) => same_core(n, typed_model(p)),
        TypeDesc::Optional(x) => raw_core(g, n, *x),
        TypeDesc::Result(x) => raw_core(g, n, *x),
        TypeDesc::Cow(x) => raw_core(g, n, *x),
        TypeDesc::Slice(x) => n.items matches Some(j) && same_core(
            n,
            wrapper_model(DataType::Array, Some(j), None),
        ) && j < g.len() && raw_core(g, g[j as int], *x) && g[j as int].reference == ref_with_name(
            g,
            g[j as int],
            *x,
        ) && g[j as int].description == desc_with_ref(g, *x),
        TypeDesc::FixedArray(x, _) => n.items matches Some(j) && same_core(
            n,
            wrapper_model(DataType::Array, Some(j), None),
        ) && j < g.len() && raw_core(g, g[j as int], *x) && g[j as int].reference == ref_with_name(
            g,
            g[j as int],
            *x,
        ) && g[j as int].description == desc_with_ref(g, *x),
        TypeDesc::Collection(_, x) => n.items matches Some(j) && same_core(
            n,
            wrapper_model(DataType::Array, Some(j), None),
        ) && j < g.len() && raw_core(g, g[j as int], *x) && g[j as int].reference == ref_with_name(
            g,
            g[j as int],
            *x,
        ) && g[j as int].description == desc_with_ref(g, *x),
        TypeDesc::MapOf(_, x) => n.extra_props matches Some(ExtraProps::Node(j)) && same_core(
            n,
            wrapper_model(DataType::Object, None, Some(ExtraProps::Node(j))),
        ) && j < g.len() && raw_core(g, g[j as int], *x) && g[j as int].reference == ref_with_name(
            g,
            g[j as int],
            *x,
        ) && g[j as int].description == desc_with_ref(g, *x),
        TypeDesc::Declared(d) => d.node < g.len() && same_core(n, g[d.node as int]),
    }
}

/// `n` is the raw schema of `t` in `g`.
pub open spec fn raw_ok(g: Seq<SchemaModel>, n: SchemaModel, t: TypeDesc) -> bool {
    &&& raw_core(g, n, t)
    &&& n.reference == raw_ref(g, t)
    &&& n.description == raw_desc(g, t)
}

/// The node under handle `j` is the schema-with-reference of `t`.
pub open spec fn with_ref_ok(g: Seq<SchemaModel>, j: int, t: TypeDesc) -> bool {
    &&& 0 <= j < g.len()
    &&& raw_core(g, g[j], t)
    &&& g[j].reference == ref_with_name(g, g[j], t)
    &&& g[j].description == desc_with_ref(g, t)
}

/// `g2` keeps every node of `g1` under its handle.
pub open spec fn extends(g1: Seq<SchemaModel>, g2: Seq<SchemaModel>) -> bool {
    g1.len() <= g2.len() && forall|i: int| 0 <= i < g1.len() ==> #[trigger] g2[i] == g1[i]
}

proof fn lemma_extends_raw(g1: Seq<SchemaModel>, g2: Seq<SchemaModel>, n: SchemaModel, t: TypeDesc)
    requires
        extends(g1, g2),
        decls_in(g1, t),
    ensures
        raw_core(g1, n, t) ==> raw_core(g2, n, t),
        raw_ref(g1, t) == raw_ref(g2, t),
        raw_desc(g1, t) == raw_desc(g2, t),
        decls_in(g2, t),
    decreases t,
{
    match t {
        TypeDesc::Optional(x) => lemma_extends_raw(g1, g2, n, *x),
        TypeDesc::Result(x) => lemma_extends_raw(g1, g2, n, *x),
        TypeDesc::Cow(x) => lemma_extends_raw(g1, g2, n, *x),
        TypeDesc::Slice(x) => {
            if raw_core(g1, n, t) {
                let j = n.items->Some_0;
                lemma_extends_raw(g1, g2, g1[j as int], *x);
            } else {
                lemma_extends_raw(g1, g2, n, *x);
            }
        },
        TypeDesc::FixedArray(x, _) => {
            if raw_core(g1, n, t) {
                let j = n.items->Some_0;
                lemma_extends_raw(g1, g2, g1[j as int], *x);
            } else {
                lemma_extends_raw(g1, g2, n, *x);
            }
        },
        TypeDesc::Collection(_, x) => {
            if raw_core(g1, n, t) {
                let j = n.items->Some_0;
                lemma_extends_raw(g1, g2, g1[j as int], *x);
            } else {
                lemma_extends_raw(g1, g2, n, *x);
            }
        },
        TypeDesc::MapOf(_, x) => {
            if raw_core(g1, n, t) {
                let j = match n.extra_props {
                    Some(ExtraProps::Node(j)) => j,
                    _ => 0,
                };
                lemma_extends_raw(g1, g2, g1[j as int], *x);
            } else {
                lemma_extends_raw(g1, g2, n, *x);
            }
        },
        _ => {},
    }
}

/// A schema-with-reference stays one as the graph grows.
pub proof fn lemma_extends_with_ref(g1: Seq<SchemaModel>, g2: Seq<SchemaModel>, j: int, t: TypeDesc)
    requires
        extends(g1, g2),
        decls_in(g1, t),
        with_ref_ok(g1, j, t),
    ensures
        with_ref_ok(g2, j, t),
{
    lemma_extends_raw(g1, g2, g1[j], t);
}

/// Every declared type within `t` still names a node once the graph grows.
pub proof fn lemma_extends_decls(g1: Seq<SchemaModel>, g2: Seq<SchemaModel>, t: TypeDesc)
    requires
        extends(g1, g2),
        decls_in(g1, t),
    ensures
        decls_in(g2, t),
{
    lemma_extends_raw(g1, g2, empty_model(), t);
}

proof fn lemma_same_core(g: Seq<SchemaModel>, a: SchemaModel, b: SchemaModel, t: TypeDesc)
    requires
        same_core(a, b),
        raw_core(g, a, t),
    ensures
        raw_core(g, b, t),
    decreases t,
{
    match t {
        TypeDesc::Optional(x) => lemma_same_core(g, a, b, *x),
        TypeDesc::Result(x) => lemma_same_core(g, a, b, *x),
        TypeDesc::Cow(x) => lemma_same_core(g, a, b, *x),
        _ => {},
    }
}

proof fn lemma_raw_handles(g: Seq<SchemaModel>, n: SchemaModel, t: TypeDesc)
    requires
        graph_wf(g),
        raw_core(g, n, t),
    ensures
        handles_below(n, g.len()),
    decreases t,
{
    match t {
        TypeDesc::Optional(x) => lemma_raw_handles(g, n, *x),
        TypeDesc::Result(x) => lemma_raw_handles(g, n, *x),
        TypeDesc::Cow(x) => lemma_raw_handles(g, n, *x),
        TypeDesc::Declared(d) => {
            assert(handles_below(g[d.node as int], g.len()));
        },
        _ => {},
    }
}

impl TypeDesc {
    /// The registered name of the type, if it has one.
    pub fn name(&self) -> (r: Option<String>)
        ensures
            opt_str(r) == name_of(*self),
        decreases self,
    {
        match self {
            TypeDesc::Optional(x) => x.name(),
            TypeDesc::Result(x) => x.name(),
            TypeDesc::Cow(x) => x.name(),
            TypeDesc::Declared(d) => clone_opt_str(&d.name),
            _ => None,
        }
    }

    /// The description of the type; empty when it has none.
    pub fn description(&self) -> (r: String)
        ensures
            r@ == description_of(*self),
    {
        match self {
            TypeDesc::Declared(d) => d.description.clone(),
            _ => String::new(),
        }
    }

    /// Whether a value of the type must be present.
    pub fn required(&self) -> (r: bool)
        ensures
            r == required_of(*self),
    {
        match self {
            TypeDesc::Optional(_) => false,
            _ => true,
        }
    }

    /// The raw schema of the type. Nested schemas are added to `g`; nothing
    /// already in `g` changes.
    pub fn raw_schema(&self, g: &mut SchemaGraph) -> (r: Schema)
        requires
            old(g).wf(),
            decls_in(old(g)@, *self),
        ensures
            final(g).wf(),
            extends(old(g)@, final(g)@),
            raw_ok(final(g)@, r@, *self),
            handles_below(r@, final(g)@.len()),
        decreases self, 0nat,
    {
        let r = match self {
            TypeDesc::Unit | TypeDesc::JsonValue | TypeDesc::YamlValue => Schema::new(),
            TypeDesc::Typed(p) => {
                let mut n = Schema::new();
                n.data_type = Some(p.data_type());
                n.format = p.format();
                n.maximum = p.max();
                n.minimum = p.min();
                n
            },
            TypeDesc::Optional(x) => x.raw_schema(g),
            TypeDesc::Result(x) => x.raw_schema(g),
            TypeDesc::Cow(x) => x.raw_schema(g),
            TypeDesc::Slice(x) => array_of(x, g),
            TypeDesc::FixedArray(x, _) => array_of(x, g),
            TypeDesc::Collection(_, x) => array_of(x, g),
            TypeDesc::MapOf(_, x) => {
                let j = x.schema_with_ref(g);
                let mut n = Schema::new();
                n.data_type = Some(DataType::Object);
                n.extra_props = Some(ExtraProps::Node(j));
                n
            },
            TypeDesc::Declared(d) => g.get(d.node).copy(),
        };
        proof {
            lemma_raw_handles(g@, r@, *self);
        }
        r
    }

    /// The schema to use where the type is referred to: the raw schema with
    /// `$ref` set from the registered name (else from the name the raw schema
    /// carries), and the description stamped when it is not empty. The node is
    /// added to `g` and its handle returned.
    pub fn schema_with_ref(&self, g: &mut SchemaGraph) -> (r: usize)
        requires
            old(g).wf(),
            decls_in(old(g)@, *self),
        ensures
            final(g).wf(),
            extends(old(g)@, final(g)@),
            with_ref_ok(final(g)@, r as int, *self),
            r == final(g)@.len() - 1,
        decreases self, 1nat,
    {
        let ghost gs = g@;
        let mut n = self.raw_schema(g);
        let ghost n0 = n@;
        proof {
            lemma_extends_raw(gs, g@, n0, *self);
        }
        match self.name() {
            Some(s) => {
                n.reference = Some(reference_path(s.as_str()));
            },
            None => {
                match &n.name {
                    Some(s) => {
                        n.reference = Some(reference_path(s.as_str()));
                    },
                    None => {},
                }
            },
        }
        let desc = self.description();
        if desc.as_str().unicode_len() > 0 {
            n.description = Some(desc);
        }
        let ghost g0 = g@;
        assert(same_core(n@, n0));
        assert(handles_below(n@, g@.len()));
        let r = g.add(n);
        proof {
            lemma_extends_raw(g0, g@, n@, *self);
            lemma_same_core(g0, n0, n@, *self);
            lemma_extends_raw(g0, g@, n@, *self);
        }
        r
    }
}

/// The array node whose items follow the schema-with-reference of `x`.
fn array_of(x: &TypeDesc, g: &mut SchemaGraph) -> (r: Schema)
    requires
        old(g).wf(),
        decls_in(old(g)@, *x),
    ensures
        final(g).wf(),
        extends(old(g)@, final(g)@),
        r@.items matches Some(j) && r@ == wrapper_model(DataType::Array, Some(j), None) && with_ref_ok(final(g)@, j as int, *x),
    decreases x, 2nat,
{
    let j = x.schema_with_ref(g);
    let mut n = Schema::new();
    n.data_type = Some(DataType::Array);
    n.items = Some(j);
    n
}


/// An optional passes its inner type through: it is never required, and its
/// name and raw schema are exactly those of the inner type.
pub proof fn lemma_optional_passes_through(g: Seq<SchemaModel>, n: SchemaModel, t: TypeDesc)
    ensures
        !required_of(TypeDesc::Optional(Box::new(t))),
        name_of(TypeDesc::Optional(Box::new(t))) == name_of(t),
        raw_ok(g, n, TypeDesc::Optional(Box::new(t))) == raw_ok(g, n, t),
{
}

/// Every primitive type maps to the `(type, format)` pair of its row of the
/// table, with the bounds of its row.
pub proof fn lemma_primitive_row(g: Seq<SchemaModel>, n: SchemaModel, p: TypedData)
    requires
        raw_ok(g, n, TypeDesc::Typed(p)),
    ensures
        n.data_type == Some(type_table(p).0),
        n.format == type_table(p).1,
        n.minimum == min_table(p),
        n.maximum == max_table(p),
        n.items is None && n.extra_props is None && n.properties.len() == 0,
        n.reference is None && n.description is None,
{
}

/// `c` is a fixed-size array, a slice or a homogeneous collection of `t`.
pub open spec fn is_sequence_of(c: TypeDesc, t: TypeDesc) -> bool {
    match c {
        TypeDesc::Slice(x) => *x == t,
        TypeDesc::FixedArray(x, _) => *x == t,
        TypeDesc::Collection(_, x) => *x == t,
        _ => false,
    }
}

/// The raw schema of any homogeneous collection of `t` is an array whose
/// items are the schema-with-reference of `t`.
pub proof fn lemma_sequence_is_array(g: Seq<SchemaModel>, n: SchemaModel, c: TypeDesc, t: TypeDesc)
    requires
        is_sequence_of(c, t),
        raw_ok(g, n, c),
    ensures
        n.data_type == Some(DataType::Array),
        n.items matches Some(j) && with_ref_ok(g, j as int, t),
{
}


/// What a type reports of itself for the schema document: its registered
/// name, its description, whether it is required, its raw schema and its
/// schema-with-reference.
pub trait Apiv2Schema {
    /// The registered name, as a value.
    spec fn name_spec(&self) -> Option<Seq<char>>;

    /// The description, as a value.
    spec fn description_spec(&self) -> Seq<char>;

    /// Whether a value of the type must be present.
    spec fn required_spec(&self) -> bool;

    /// What the type needs of the graph before its schema can be built.
    spec fn fits(&self, g: Seq<SchemaModel>) -> bool;

    /// `n` is the raw schema of the type in `g`.
    spec fn is_raw_schema(&self, g: Seq<SchemaModel>, n: SchemaModel) -> bool;

    /// The node under handle `j` of `g` is the schema-with-reference of the type.
    spec fn is_schema_with_ref(&self, g: Seq<SchemaModel>, j: int) -> bool;

    fn name(&self) -> (r: Option<String>)
        ensures
            opt_str(r) == self.name_spec(),
    ;

    fn description(&self) -> (r: String)
        ensures
            r@ == self.description_spec(),
    ;

    fn required(&self) -> (r: bool)
        ensures
            r == self.required_spec(),
    ;

    fn raw_schema(&self, g: &mut SchemaGraph) -> (r: Schema)
        requires
            old(g).wf(),
            self.fits(old(g)@),
        ensures
            final(g).wf(),
            extends(old(g)@, final(g)@),
            self.is_raw_schema(final(g)@, r@),
            handles_below(r@, final(g)@.len()),
    ;

    fn schema_with_ref(&self, g: &mut SchemaGraph) -> (r: usize)
        requires
            old(g).wf(),
            self.fits(old(g)@),
        ensures
            final(g).wf(),
            extends(old(g)@, final(g)@),
            self.is_schema_with_ref(final(g)@, r as int),
            r == final(g)@.len() - 1,
    ;
}

impl Apiv2Schema for TypeDesc {
    open spec fn name_spec(&self) -> Option<Seq<char>> {
        name_of(*self)
    }

    open spec fn description_spec(&self) -> Seq<char> {
        description_of(*self)
    }

    open spec fn required_spec(&self) -> bool {
        required_of(*self)
    }

    open spec fn fits(&self, g: Seq<SchemaModel>) -> bool {
        decls_in(g, *self)
    }

    open spec fn is_raw_schema(&self, g: Seq<SchemaModel>, n: SchemaModel) -> bool {
        raw_ok(g, n, *self)
    }

    open spec fn is_schema_with_ref(&self, g: Seq<SchemaModel>, j: int) -> bool {
        with_ref_ok(g, j, *self)
    }

    fn name(&self) -> (r: Option<String>) {
        TypeDesc::name(self)
    }

    fn description(&self) -> (r: String) {
        TypeDesc::description(self)
    }

    fn required(&self) -> (r: bool) {
        TypeDesc::required(self)
    }

    fn raw_schema(&self, g: &mut SchemaGraph) -> (r: Schema) {
        TypeDesc::raw_schema(self, g)
    }

    fn schema_with_ref(&self, g: &mut SchemaGraph) -> (r: usize) {
        TypeDesc::schema_with_ref(self, g)
    }
}

} // verus!
