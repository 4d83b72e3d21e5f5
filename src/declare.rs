//! Schemas of declared structures and enumerations, built from their fields
//! and variants in the way a declaration's collaborator builds them.

use vstd::prelude::*;
use crate::model::{clone_str, handles_below, DataType, Schema, SchemaGraph, SchemaModel, empty_model};
use crate::mapper::{TypeDesc, decls_in, extends, lemma_extends_with_ref, lemma_extends_decls, required_of, with_ref_ok};

verus! {

/// The names of the fields that must be present, in field order.
pub open spec fn required_names(fields: Seq<(String, TypeDesc)>) -> Seq<Seq<char>>
    decreases fields.len(),
{
    if fields.len() == 0 {
        Seq::empty()
    } else if required_of(fields.last().1) {
        required_names(fields.drop_last()).push(fields.last().0@)
    } else {
        required_names(fields.drop_last())
    }
}

/// The names of the variants that carry no data, in variant order.
pub open spec fn unit_variant_names(variants: Seq<(String, bool)>) -> Seq<Seq<char>>
    decreases variants.len(),
{
    if variants.len() == 0 {
        Seq::empty()
    } else if !variants.last().1 {
        unit_variant_names(variants.drop_last()).push(variants.last().0@)
    } else {
        unit_variant_names(variants.drop_last())
    }
}

/// The raw schema of a structure with the named `fields`: an object with one
/// property per field, each the schema-with-reference of the field's type,
/// and every field that is not optional listed as required.
pub fn struct_schema(g: &mut SchemaGraph, fields: &Vec<(String, TypeDesc)>) -> (r: Schema)
    requires
        old(g).wf(),
        forall|k: int| 0 <= k < fields@.len() ==> decls_in(old(g)@, #[trigger] fields@[k].1),
    ensures
        final(g).wf(),
        extends(old(g)@, final(g)@),
        handles_below(r@, final(g)@.len()),
        r@.data_type == Some(DataType::Object),
        r@.properties.len() == fields@.len(),
        forall|k: int|
            0 <= k < fields@.len() ==> (#[trigger] r@.properties[k]).0 == fields@[k].0@ && with_ref_ok(
                final(g)@,
                r@.properties[k].1 as int,
                fields@[k].1,
            ),
        r@.required == required_names(fields@),
        r@ == (SchemaModel {
            data_type: Some(DataType::Object),
            properties: r@.properties,
            required: r@.required,
            ..empty_model()
        }),
{
    let ghost g0 = g@;
    let mut r = Schema::new();
    r.data_type = Some(DataType::Object);
    let mut k: usize = 0;
    while k < fields.len()
        invariant
            g.wf(),
            extends(g0, g@),
            k <= fields@.len(),
            forall|q: int| 0 <= q < fields@.len() ==> decls_in(g0, #[trigger] fields@[q].1),
            handles_below(r@, g@.len()),
            r@.properties.len() == k,
            forall|q: int|
                0 <= q < k ==> (#[trigger] r@.properties[q]).0 == fields@[q].0@ && with_ref_ok(
                    g@,
                    r@.properties[q].1 as int,
                    fields@[q].1,
                ),
            r@.required == required_names(fields@.subrange(0, k as int)),
            r@ == (SchemaModel {
                data_type: Some(DataType::Object),
                properties: r@.properties,
                required: r@.required,
                ..empty_model()
            }),
        decreases fields.len() - k,
    {
        let ghost g1 = g@;
        let ghost r1 = r@;
        proof {
            lemma_extends_decls(g0, g1, fields@[k as int].1);
        }
        let j = fields[k].1.schema_with_ref(g);
        proof {
            assert forall|q: int| 0 <= q < k implies with_ref_ok(g@, r1.properties[q].1 as int, fields@[q].1) by {
                lemma_extends_decls(g0, g1, fields@[q].1);
                lemma_extends_with_ref(g1, g@, r1.properties[q].1 as int, fields@[q].1);
            }
        }
        let name = clone_str(&fields[k].0);
        r.properties.push((name, j));
        if fields[k].1.required() {
            r.required.push(clone_str(&fields[k].0));
        }
        proof {
            assert(r@.properties =~= r1.properties.push((fields@[k as int].0@, j)));
            assert(fields@.subrange(0, k + 1).drop_last() =~= fields@.subrange(0, k as int));
            if required_of(fields@[k as int].1) {
                assert(r@.required =~= r1.required.push(fields@[k as int].0@));
            } else {
                assert(r@.required =~= r1.required);
            }
        }
        k += 1;
    }
    assert(fields@.subrange(0, k as int) =~= fields@);
    r
}

/// The raw schema of an enumeration: a string whose values are the names of
/// the variants that carry no data; a variant that carries data
/// (`variants[k].1`) is left out.
pub fn enum_schema(variants: &Vec<(String, bool)>) -> (r: Schema)
    ensures
        r@ == (SchemaModel {
            data_type: Some(DataType::String),
            enum_variants: unit_variant_names(variants@),
            ..empty_model()
        }),
{
    let mut r = Schema::new();
    r.data_type = Some(DataType::String);
    let mut k: usize = 0;
    while k < variants.len()
        invariant
            k <= variants@.len(),
            r@ == (SchemaModel {
                data_type: Some(DataType::String),
                enum_variants: unit_variant_names(variants@.subrange(0, k as int)),
                ..empty_model()
            }),
        decreases variants.len() - k,
    {
        let ghost r1 = r@;
        if !variants[k].1 {
            r.enum_variants.push(clone_str(&variants[k].0));
            assert(r@.enum_variants =~= r1.enum_variants.push(variants@[k as int].0@));
        }
        assert(variants@.subrange(0, k + 1).drop_last() =~= variants@.subrange(0, k as int));
        k += 1;
    }
    assert(variants@.subrange(0, k as int) =~= variants@);
    r
}

} // verus!
