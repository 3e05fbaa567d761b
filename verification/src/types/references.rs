use crate::types::enums::{lemma_enum_variants, variants_view, Type, TypeModel, VariantModel};
use crate::types::structs::{fields_view, FieldModel};
use crate::types::type_ident::{idents_view, IdentModel, TypeIdent};
use vstd::prelude::*;

verus! {

/// The identifiers of the types that a shape is made of, in the order in
/// which the shape names them: the items of a tuple, the element of a list
/// or a set, key and value of a map, the inner type of a container, the
/// types of the fields of a struct, and what the payloads of the variants
/// of an enum are made of.
pub open spec fn type_refs(t: TypeModel) -> Seq<IdentModel>
    decreases t,
{
    match t {
        TypeModel::Primitive(_) => Seq::empty(),
        TypeModel::String => Seq::empty(),
        TypeModel::Unit => Seq::empty(),
        TypeModel::Tuple(items) => items,
        TypeModel::List(_, item) => seq![item],
        TypeModel::SetOf(_, item) => seq![item],
        TypeModel::MapOf(_, key, value) => seq![key, value],
        TypeModel::Container(_, inner) => seq![inner],
        TypeModel::Struct(s) => field_refs(s.fields),
        TypeModel::Enum(e) => variant_refs(e.variants, e.variants.len()),
    }
}

/// The types of the fields.
pub open spec fn field_refs(fields: Seq<FieldModel>) -> Seq<IdentModel> {
    fields.map_values(|f: FieldModel| f.ty)
}

/// What the payloads of the first `n` variants are made of.
pub open spec fn variant_refs(variants: Seq<VariantModel>, n: nat) -> Seq<IdentModel>
    decreases variants, n,
{
    if n == 0 || n > variants.len() {
        Seq::empty()
    } else {
        variant_refs(variants, (n - 1) as nat) + type_refs(variants[n - 1].ty)
    }
}

impl Type {
    /// The identifiers of the types that the shape is made of.
    pub fn references(&self) -> (r: Vec<TypeIdent>)
        ensures
            idents_view(r@) == type_refs(self@),
        decreases self,
    {
        match self {
            Type::Primitive(_) | Type::String | Type::Unit => {
                let r: Vec<TypeIdent> = Vec::new();
                assert(idents_view(r@) =~= type_refs(self@));
                r
            },
            Type::Tuple(items) => {
                let mut r: Vec<TypeIdent> = Vec::new();
                let mut i: usize = 0;
                while i < items.len()
                    invariant
                        i <= items.len(),
                        idents_view(r@) == idents_view(items@).take(i as int),
                    decreases items.len() - i,
                {
                    let ghost before = idents_view(r@);
                    r.push(items[i].clone());
                    assert(idents_view(r@) =~= before.push(items[i as int]@));
                    assert(idents_view(r@) =~= idents_view(items@).take(i + 1));
                    i += 1;
                }
                assert(idents_view(items@).take(items@.len() as int) =~= idents_view(items@));
                r
            },
            Type::List(_, item) | Type::SetOf(_, item) | Type::Container(_, item) => {
                let r = vec![item.clone()];
                assert(idents_view(r@) =~= type_refs(self@));
                r
            },
            Type::MapOf(_, key, value) => {
                let r = vec![key.clone(), value.clone()];
                assert(idents_view(r@) =~= type_refs(self@));
                r
            },
            Type::Struct(s) => {
                let mut r: Vec<TypeIdent> = Vec::new();
                let mut i: usize = 0;
                while i < s.fields.len()
                    invariant
                        i <= s.fields.len(),
                        idents_view(r@) == field_refs(fields_view(s.fields@)).take(i as int),
                    decreases s.fields.len() - i,
                {
                    let ghost before = idents_view(r@);
                    r.push(s.fields[i].ty.clone());
                    assert(idents_view(r@) =~= before.push(s.fields[i as int].ty@));
                    assert(idents_view(r@) =~= field_refs(fields_view(s.fields@)).take(i + 1));
                    i += 1;
                }
                assert(field_refs(fields_view(s.fields@)).take(s.fields@.len() as int)
                    =~= field_refs(fields_view(s.fields@)));
                r
            },
            Type::Enum(e) => {
                proof {
                    lemma_enum_variants(*e);
                }
                let mut r: Vec<TypeIdent> = Vec::new();
                let mut i: usize = 0;
                while i < e.variants.len()
                    invariant
                        i <= e.variants.len(),
                        decreases_to!(*self => *e),
                        e@.variants == variants_view(e.variants@),
                        idents_view(r@) == variant_refs(e@.variants, i as nat),
                    decreases e.variants.len() - i,
                {
                    proof {
                        assert(decreases_to!(e.variants => e.variants[i as int]));
                    }
                    let mut more = e.variants[i].ty.references();
                    let ghost before = idents_view(r@);
                    let ghost added = idents_view(more@);
                    r.append(&mut more);
                    assert(idents_view(r@) =~= before + added);
                    i += 1;
                }
                r
            },
        }
    }
}

} // verus!
