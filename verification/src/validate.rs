//! What has to hold of the collected types before bindings can be
//! generated from them.
use crate::errors::{GenerationError, ProblemModel};
use crate::functions::{FunctionList, FunctionModel};
use crate::types::enums::{
    lemma_enum_variants, variants_view, Enum, Type, TypeModel, Variant, VariantModel,
};
use crate::types::references::type_refs;
use crate::types::structs::{fields_view, Field, FieldModel, Struct};
use crate::types::type_ident::{idents_view, IdentModel, TypeIdent};
use crate::types::type_map::TypeMap;
use vstd::prelude::*;

verus! {

/// The first of `refs` that is not registered in `types`.
pub open spec fn first_missing(
    refs: Seq<IdentModel>,
    types: Map<IdentModel, TypeModel>,
) -> Option<IdentModel>
    decreases refs.len(),
{
    if refs.len() == 0 {
        None
    } else if !types.contains_key(refs[0]) {
        Some(refs[0])
    } else {
        first_missing(refs.skip(1), types)
    }
}

/// Whether the field may be as it is: a field that is merged into the
/// struct that holds it has a struct or a map as its type.
pub open spec fn flatten_is_legal(field: FieldModel, types: Map<IdentModel, TypeModel>) -> bool {
    field.attrs.flatten ==> types.contains_key(field.ty) && (types[field.ty] is Struct
        || types[field.ty] is MapOf)
}

/// The name of the first of `fields` that may not be as it is.
pub open spec fn first_illegal_field(
    fields: Seq<FieldModel>,
    types: Map<IdentModel, TypeModel>,
) -> Option<Seq<char>>
    decreases fields.len(),
{
    if fields.len() == 0 {
        None
    } else if !flatten_is_legal(fields[0], types) {
        Some(fields[0].name)
    } else {
        first_illegal_field(fields.skip(1), types)
    }
}

/// Whether the variant may be as it is: its payload is a unit, a tuple, or
/// a struct whose fields may be as they are.
pub open spec fn variant_is_legal(variant: VariantModel, types: Map<IdentModel, TypeModel>) -> bool {
    match variant.ty {
        TypeModel::Unit => true,
        TypeModel::Tuple(_) => true,
        TypeModel::Struct(s) => first_illegal_field(s.fields, types) is None,
        _ => false,
    }
}

/// The name of the first of `variants` that may not be as it is.
pub open spec fn first_illegal_variant(
    variants: Seq<VariantModel>,
    types: Map<IdentModel, TypeModel>,
) -> Option<Seq<char>>
    decreases variants.len(),
{
    if variants.len() == 0 {
        None
    } else if !variant_is_legal(variants[0], types) {
        Some(variants[0].name)
    } else {
        first_illegal_variant(variants.skip(1), types)
    }
}

/// What is wrong with the type `ident` of the shape `ty`, if anything: a
/// type that it names and that is not registered, before a member that
/// may not be as it is.
pub open spec fn problem_of(
    ident: IdentModel,
    ty: TypeModel,
    types: Map<IdentModel, TypeModel>,
) -> Option<ProblemModel> {
    match first_missing(type_refs(ty), types) {
        Some(missing) => Some(ProblemModel::Unresolved(missing)),
        None => {
            let member = match ty {
                TypeModel::Struct(s) => first_illegal_field(s.fields, types),
                TypeModel::Enum(e) => first_illegal_variant(e.variants, types),
                _ => None,
            };
            match member {
                Some(member) => Some(ProblemModel::Malformed { ty: ident, member }),
                None => None,
            }
        },
    }
}

/// What is wrong with the first of the types `order` with which something
/// is wrong.
pub open spec fn first_problem(
    order: Seq<IdentModel>,
    types: Map<IdentModel, TypeModel>,
) -> Option<ProblemModel>
    decreases order.len(),
{
    if order.len() == 0 {
        None
    } else {
        match problem_of(order[0], types[order[0]], types) {
            Some(problem) => Some(problem),
            None => first_problem(order.skip(1), types),
        }
    }
}

/// The first of `refs` that is not registered in `types`.
fn find_missing(refs: &Vec<TypeIdent>, types: &TypeMap) -> (r: Option<TypeIdent>)
    ensures
        match r {
            Some(ident) => first_missing(idents_view(refs@), types@) == Some(ident@),
            None => first_missing(idents_view(refs@), types@) is None,
        },
{
    let ghost all = idents_view(refs@);
    assert(all.skip(0) =~= all);
    let mut i: usize = 0;
    while i < refs.len()
        invariant
            i <= refs.len(),
            all == idents_view(refs@),
            first_missing(all.skip(i as int), types@) == first_missing(all, types@),
        decreases refs.len() - i,
    {
        assert(all.skip(i as int)[0] == refs[i as int]@);
        assert(all.skip(i as int).skip(1) =~= all.skip(i + 1));
        if !types.contains_key(&refs[i]) {
            return Some(refs[i].clone());
        }
        i += 1;
    }
    None
}

/// The name of the first of `fields` that may not be as it is.
fn find_illegal_field(fields: &Vec<Field>, types: &TypeMap) -> (r: Option<String>)
    ensures
        match r {
            Some(name) => first_illegal_field(fields_view(fields@), types@) == Some(name@),
            None => first_illegal_field(fields_view(fields@), types@) is None,
        },
{
    let ghost all = fields_view(fields@);
    assert(all.skip(0) =~= all);
    let mut i: usize = 0;
    while i < fields.len()
        invariant
            i <= fields.len(),
            all == fields_view(fields@),
            first_illegal_field(all.skip(i as int), types@) == first_illegal_field(all, types@),
        decreases fields.len() - i,
    {
        assert(all.skip(i as int)[0] == fields[i as int]@);
        assert(all.skip(i as int).skip(1) =~= all.skip(i + 1));
        if fields[i].attrs.flatten {
            let legal = match types.get(&fields[i].ty) {
                Some(Type::Struct(_)) => true,
                Some(Type::MapOf(_, _, _)) => true,
                _ => false,
            };
            if !legal {
                return Some(fields[i].name.clone());
            }
        }
        i += 1;
    }
    None
}

/// The name of the first of `variants` that may not be as it is.
fn find_illegal_variant(variants: &Vec<Variant>, types: &TypeMap) -> (r: Option<String>)
    ensures
        match r {
            Some(name) => first_illegal_variant(variants_view(variants@), types@) == Some(name@),
            None => first_illegal_variant(variants_view(variants@), types@) is None,
        },
{
    let ghost all = variants_view(variants@);
    assert(all.skip(0) =~= all);
    let mut i: usize = 0;
    while i < variants.len()
        invariant
            i <= variants.len(),
            all == variants_view(variants@),
            first_illegal_variant(all.skip(i as int), types@) == first_illegal_variant(
                all,
                types@,
            ),
        decreases variants.len() - i,
    {
        assert(all.skip(i as int)[0] == variants[i as int]@);
        assert(all.skip(i as int).skip(1) =~= all.skip(i + 1));
        let legal = match &variants[i].ty {
            Type::Unit => true,
            Type::Tuple(_) => true,
            Type::Struct(s) => find_illegal_field(&s.fields, types).is_none(),
            _ => false,
        };
        if !legal {
            return Some(variants[i].name.clone());
        }
        i += 1;
    }
    None
}

/// What is wrong with the type `ident` of the shape `ty`, if anything.
pub fn check_type(ident: &TypeIdent, ty: &Type, types: &TypeMap) -> (r: Result<
    (),
    GenerationError,
>)
    ensures
        match r {
            Ok(()) => problem_of(ident@, ty@, types@) is None,
            Err(e) => problem_of(ident@, ty@, types@) == Some(e@),
        },
{
    let refs = ty.references();
    match find_missing(&refs, types) {
        Some(missing) => {
            return Err(GenerationError::UnresolvedType(missing));
        },
        None => {},
    }
    let member = match ty {
        Type::Struct(s) => find_illegal_field(&s.fields, types),
        Type::Enum(e) => {
            proof {
                lemma_enum_variants(*e);
            }
            find_illegal_variant(&e.variants, types)
        },
        _ => None,
    };
    match member {
        Some(member) => Err(GenerationError::MalformedAttributes { ty: ident.clone(), member }),
        None => Ok(()),
    }
}

/// Checks the collected types: every type that one of them names is
/// registered, a field is merged into its struct only if its type is a
/// struct or a map, and the payload of a variant is a unit, a tuple or a
/// struct. The error is that of the first type, in the order of the
/// identifiers, of which this does not hold.
pub fn validate(types: &TypeMap) -> (r: Result<(), GenerationError>)
    ensures
        match r {
            Ok(()) => first_problem(types.idents(), types@) is None,
            Err(e) => first_problem(types.idents(), types@) == Some(e@),
        },
{
    let ghost order = types.idents();
    let n = types.len();
    assert(order.skip(0) =~= order);
    let mut i: usize = 0;
    while i < n
        invariant
            i <= n,
            n == types.idents().len(),
            order == types.idents(),
            first_problem(order.skip(i as int), types@) == first_problem(order, types@),
        decreases n - i,
    {
        assert(order.skip(i as int)[0] == order[i as int]);
        assert(order.skip(i as int).skip(1) =~= order.skip(i + 1));
        match check_type(types.ident_at(i), types.type_at(i), types) {
            Ok(()) => {},
            Err(e) => {
                return Err(e);
            },
        }
        i += 1;
    }
    Ok(())
}

/// The first type that one of `functions` names, in their order, and that
/// is not registered in `types`.
pub open spec fn first_unresolved(
    functions: Seq<FunctionModel>,
    types: Map<IdentModel, TypeModel>,
) -> Option<IdentModel>
    decreases functions.len(),
{
    if functions.len() == 0 {
        None
    } else {
        match functions[0].first_unresolved(types) {
            Some(missing) => Some(missing),
            None => first_unresolved(functions.skip(1), types),
        }
    }
}

/// Checks the functions of one direction against the collected types: the
/// types of their arguments and results have to be registered. The error
/// names the first type, in the order of the functions and of their
/// signatures, that is not.
pub fn check_functions(functions: &FunctionList, types: &TypeMap) -> (r: Result<
    (),
    GenerationError,
>)
    ensures
        match r {
            Ok(()) => first_unresolved(functions@, types@) is None,
            Err(e) => e matches GenerationError::UnresolvedType(ident) && first_unresolved(
                functions@,
                types@,
            ) == Some(ident@),
        },
{
    let ghost all = functions@;
    let n = functions.len();
    assert(all.skip(0) =~= all);
    let mut i: usize = 0;
    while i < n
        invariant
            i <= n,
            n == functions@.len(),
            all == functions@,
            first_unresolved(all.skip(i as int), types@) == first_unresolved(all, types@),
        decreases n - i,
    {
        assert(all.skip(i as int)[0] == all[i as int]);
        assert(all.skip(i as int).skip(1) =~= all.skip(i + 1));
        match functions.function_at(i).passing(types) {
            Ok(_) => {},
            Err(e) => {
                return Err(e);
            },
        }
        i += 1;
    }
    Ok(())
}

/// Types that pass the check are complete and well formed: each of them
/// names registered types only and has members that may be as they are.
pub proof fn lemma_no_problem(
    order: Seq<IdentModel>,
    types: Map<IdentModel, TypeModel>,
    i: int,
)
    requires
        first_problem(order, types) is None,
        0 <= i < order.len(),
    ensures
        problem_of(order[i], types[order[i]], types) is None,
        forall|j: int|
            0 <= j < type_refs(types[order[i]]).len() ==> types.contains_key(
                #[trigger] type_refs(types[order[i]])[j],
            ),
    decreases i,
{
    if i > 0 {
        assert(order.skip(1)[i - 1] == order[i]);
        lemma_no_problem(order.skip(1), types, i - 1);
    } else {
        lemma_none_missing(type_refs(types[order[0]]), types);
    }
}

/// Where none of `refs` is missing, each of them is registered.
pub proof fn lemma_none_missing(refs: Seq<IdentModel>, types: Map<IdentModel, TypeModel>)
    requires
        first_missing(refs, types) is None,
    ensures
        forall|j: int| 0 <= j < refs.len() ==> types.contains_key(#[trigger] refs[j]),
    decreases refs.len(),
{
    if refs.len() > 0 {
        lemma_none_missing(refs.skip(1), types);
        assert forall|j: int| 0 <= j < refs.len() implies types.contains_key(
            #[trigger] refs[j],
        ) by {
            if j > 0 {
                assert(refs.skip(1)[j - 1] == refs[j]);
            }
        }
    }
}

} // verus!
