//! What a type has to tell about itself to take part in a protocol.
use crate::casing::Casing;
use crate::errors::FPGuestError;
use crate::types::enums::{
    lemma_enum_variants, variants_view, Enum, EnumModel, EnumOptions, EnumOptionsModel, Type,
    TypeModel, Variant, VariantAttrs, VariantAttrsModel, VariantModel,
};
use crate::types::native_modules::NativeModules;
use crate::types::structs::{
    fields_view, Field, FieldAttrs, FieldAttrsModel, FieldModel, Struct, StructModel, StructOptions,
    StructOptionsModel,
};
use crate::types::type_ident::{idents_view, plain_ident, strings_view, IdentModel, TypeIdent};
use crate::types::type_map::{register_model, TypeMap};
use std::collections::{BTreeMap, BTreeSet, HashMap, HashSet};
use std::rc::Rc;
use vstd::prelude::*;

verus! {

/// A type that can cross the boundary between host and guest.
pub trait Serializable: 'static {
    /// The identifier of the type as defined in the protocol.
    spec fn spec_ident() -> IdentModel;

    /// The shape of the type.
    spec fn spec_ty() -> TypeModel;

    /// The type and every type that it depends on, each with its shape.
    spec fn spec_types() -> Map<IdentModel, TypeModel>;

    /// There are finitely many types to register, and the type itself is
    /// among them, with its shape.
    proof fn lemma_spec_types()
        ensures
            Self::spec_types().dom().finite(),
            Self::spec_types().contains_key(Self::spec_ident()),
            Self::spec_types()[Self::spec_ident()] == Self::spec_ty(),
    ;

    /// The identifier of the type as defined in the protocol.
    fn ident() -> (r: TypeIdent)
        ensures
            r@ == Self::spec_ident(),
    ;

    /// The type definition.
    fn ty() -> (r: Type)
        ensures
            r@ == Self::spec_ty(),
    ;

    /// Whether this type is a primitive.
    fn is_primitive() -> (r: bool)
        default_ensures
            !r,
    {
        false
    }

    /// Collects the `Type` of this type and its dependencies: registers each
    /// of them that `types` does not hold yet.
    ///
    /// A type that holds itself, in a list say, registers itself and that
    /// list by `TypeMap::register`, and does not ask the list to collect its
    /// types, which would lead back to the type.
    fn collect_types(types: &mut TypeMap)
        ensures
            final(types)@ == Self::spec_types().union_prefer_right(old(types)@),
    ;
}

/// The map `types` after `T` and the types that it depends on were
/// registered in it.
pub open spec fn collect_model<T: Serializable>(types: Map<IdentModel, TypeModel>) -> Map<
    IdentModel,
    TypeModel,
> {
    T::spec_types().union_prefer_right(types)
}

/// Registering a type a second time changes nothing: however often a type
/// is registered, the map holds one entry for it.
pub proof fn lemma_collect_twice<T: Serializable>(types: Map<IdentModel, TypeModel>)
    ensures
        collect_model::<T>(collect_model::<T>(types)) == collect_model::<T>(types),
        collect_model::<T>(collect_model::<T>(types)).len() == collect_model::<T>(types).len(),
{
    assert(collect_model::<T>(collect_model::<T>(types)) =~= collect_model::<T>(types));
}

/// The first registration of an identifier stays: registering a type
/// changes no entry that the map holds already.
pub proof fn lemma_collect_keeps<T: Serializable>(
    types: Map<IdentModel, TypeModel>,
    ident: IdentModel,
)
    requires
        types.contains_key(ident),
    ensures
        collect_model::<T>(types).contains_key(ident),
        collect_model::<T>(types)[ident] == types[ident],
{
}

/// After its registration a type is in the map, with its own shape unless
/// the identifier was registered before, and a finite map stays finite.
pub proof fn lemma_collect_registers<T: Serializable>(types: Map<IdentModel, TypeModel>)
    ensures
        collect_model::<T>(types).contains_key(T::spec_ident()),
        !types.contains_key(T::spec_ident()) ==> collect_model::<T>(types)[T::spec_ident()]
            == T::spec_ty(),
        types.dom().finite() ==> collect_model::<T>(types).dom().finite(),
{
    T::lemma_spec_types();
    if types.dom().finite() {
        lemma_union_finite(T::spec_types(), types);
    }
}

/// A map that holds a type and all that it depends on is left as it is by
/// registering the type.
pub proof fn lemma_collect_nothing_new<T: Serializable>(types: Map<IdentModel, TypeModel>)
    requires
        T::spec_types().dom().subset_of(types.dom()),
    ensures
        collect_model::<T>(types) == types,
{
    assert(collect_model::<T>(types) =~= types);
}

/// Two instances of a generic type have the same identifier only if their
/// arguments have: each instance is a type of its own.
pub proof fn lemma_instances_differ(name: Seq<char>, first: IdentModel, second: IdentModel)
    ensures
        ident_of1(name, first) == ident_of1(name, second) <==> first == second,
{
    if ident_of1(name, first) == ident_of1(name, second) {
        assert(ident_of1(name, first).generic_args[0] == ident_of1(name, second).generic_args[0]);
    }
}

/// The identifier of a generic type with one argument.
pub open spec fn ident_of1(name: Seq<char>, arg: IdentModel) -> IdentModel {
    IdentModel { name, generic_args: seq![arg] }
}

/// The identifier of a generic type with two arguments.
pub open spec fn ident_of2(name: Seq<char>, first: IdentModel, second: IdentModel) -> IdentModel {
    IdentModel { name, generic_args: seq![first, second] }
}

/// The union of two finite maps is finite.
pub proof fn lemma_union_finite(a: Map<IdentModel, TypeModel>, b: Map<IdentModel, TypeModel>)
    requires
        a.dom().finite(),
        b.dom().finite(),
    ensures
        a.union_prefer_right(b).dom().finite(),
{
    assert(a.union_prefer_right(b).dom() =~= a.dom().union(b.dom()));
}

/// Registering a type by itself is the union with the map that holds it
/// alone, where what was registered before stays.
pub proof fn lemma_register_is_union(
    types: Map<IdentModel, TypeModel>,
    ident: IdentModel,
    ty: TypeModel,
)
    ensures
        register_model(types, ident, ty) == map![ident => ty].union_prefer_right(types),
{
    assert(register_model(types, ident, ty) =~= map![ident => ty].union_prefer_right(types));
}

impl<T> Serializable for Box<T> where T: Serializable {
    open spec fn spec_ident() -> IdentModel {
        ident_of1("Box"@, T::spec_ident())
    }

    open spec fn spec_ty() -> TypeModel {
        TypeModel::Container("Box"@, T::spec_ident())
    }

    open spec fn spec_types() -> Map<IdentModel, TypeModel> {
        T::spec_types().insert(Self::spec_ident(), Self::spec_ty())
    }

    proof fn lemma_spec_types() {
        T::lemma_spec_types();
    }

    fn ident() -> (r: TypeIdent) {
        let generic_args = vec![T::ident()];
        assert(idents_view(generic_args@) =~= seq![T::spec_ident()]);
        TypeIdent::new("Box".to_owned(), generic_args)
    }

    fn ty() -> (r: Type) {
        Type::Container("Box".to_owned(), T::ident())
    }

    fn collect_types(types: &mut TypeMap) {
        types.register(Self::ident(), Self::ty());
        T::collect_types(types);
        assert(types@ =~= Self::spec_types().union_prefer_right(old(types)@));
    }
}

impl<K, V> Serializable for BTreeMap<K, V> where K: Serializable, V: Serializable {
    open spec fn spec_ident() -> IdentModel {
        ident_of2("BTreeMap"@, K::spec_ident(), V::spec_ident())
    }

    open spec fn spec_ty() -> TypeModel {
        TypeModel::MapOf("BTreeMap"@, K::spec_ident(), V::spec_ident())
    }

    open spec fn spec_types() -> Map<IdentModel, TypeModel> {
        V::spec_types().union_prefer_right(
            K::spec_types().insert(Self::spec_ident(), Self::spec_ty()),
        )
    }

    proof fn lemma_spec_types() {
        K::lemma_spec_types();
        V::lemma_spec_types();
        lemma_union_finite(
            V::spec_types(),
            K::spec_types().insert(Self::spec_ident(), Self::spec_ty()),
        );
    }

    fn ident() -> (r: TypeIdent) {
        let generic_args = vec![K::ident(), V::ident()];
        assert(idents_view(generic_args@) =~= seq![K::spec_ident(), V::spec_ident()]);
        TypeIdent::new("BTreeMap".to_owned(), generic_args)
    }

    fn ty() -> (r: Type) {
        Type::MapOf("BTreeMap".to_owned(), K::ident(), V::ident())
    }

    fn collect_types(types: &mut TypeMap) {
        types.register(Self::ident(), Self::ty());
        K::collect_types(types);
        V::collect_types(types);
        assert(types@ =~= Self::spec_types().union_prefer_right(old(types)@));
    }
}

impl<T> Serializable for BTreeSet<T> where T: Serializable {
    open spec fn spec_ident() -> IdentModel {
        ident_of1("BTreeSet"@, T::spec_ident())
    }

    open spec fn spec_ty() -> TypeModel {
        TypeModel::SetOf("BTreeSet"@, T::spec_ident())
    }

    open spec fn spec_types() -> Map<IdentModel, TypeModel> {
        T::spec_types().insert(Self::spec_ident(), Self::spec_ty())
    }

    proof fn lemma_spec_types() {
        T::lemma_spec_types();
    }

    fn ident() -> (r: TypeIdent) {
        let generic_args = vec![T::ident()];
        assert(idents_view(generic_args@) =~= seq![T::spec_ident()]);
        TypeIdent::new("BTreeSet".to_owned(), generic_args)
    }

    fn ty() -> (r: Type) {
        Type::SetOf("BTreeSet".to_owned(), T::ident())
    }

    fn collect_types(types: &mut TypeMap) {
        types.register(Self::ident(), Self::ty());
        T::collect_types(types);
        assert(types@ =~= Self::spec_types().union_prefer_right(old(types)@));
    }
}

impl<K, V> Serializable for HashMap<K, V> where K: Serializable, V: Serializable {
    open spec fn spec_ident() -> IdentModel {
        ident_of2("HashMap"@, K::spec_ident(), V::spec_ident())
    }

    open spec fn spec_ty() -> TypeModel {
        TypeModel::MapOf("HashMap"@, K::spec_ident(), V::spec_ident())
    }

    open spec fn spec_types() -> Map<IdentModel, TypeModel> {
        V::spec_types().union_prefer_right(
            K::spec_types().insert(Self::spec_ident(), Self::spec_ty()),
        )
    }

    proof fn lemma_spec_types() {
        K::lemma_spec_types();
        V::lemma_spec_types();
        lemma_union_finite(
            V::spec_types(),
            K::spec_types().insert(Self::spec_ident(), Self::spec_ty()),
        );
    }

    fn ident() -> (r: TypeIdent) {
        let generic_args = vec![K::ident(), V::ident()];
        assert(idents_view(generic_args@) =~= seq![K::spec_ident(), V::spec_ident()]);
        TypeIdent::new("HashMap".to_owned(), generic_args)
    }

    fn ty() -> (r: Type) {
        Type::MapOf("HashMap".to_owned(), K::ident(), V::ident())
    }

    fn collect_types(types: &mut TypeMap) {
        types.register(Self::ident(), Self::ty());
        K::collect_types(types);
        V::collect_types(types);
        assert(types@ =~= Self::spec_types().union_prefer_right(old(types)@));
    }
}

impl<T> Serializable for HashSet<T> where T: Serializable {
    open spec fn spec_ident() -> IdentModel {
        ident_of1("HashSet"@, T::spec_ident())
    }

    open spec fn spec_ty() -> TypeModel {
        TypeModel::SetOf("HashSet"@, T::spec_ident())
    }

    open spec fn spec_types() -> Map<IdentModel, TypeModel> {
        T::spec_types().insert(Self::spec_ident(), Self::spec_ty())
    }

    proof fn lemma_spec_types() {
        T::lemma_spec_types();
    }

    fn ident() -> (r: TypeIdent) {
        let generic_args = vec![T::ident()];
        assert(idents_view(generic_args@) =~= seq![T::spec_ident()]);
        TypeIdent::new("HashSet".to_owned(), generic_args)
    }

    fn ty() -> (r: Type) {
        Type::SetOf("HashSet".to_owned(), T::ident())
    }

    fn collect_types(types: &mut TypeMap) {
        types.register(Self::ident(), Self::ty());
        T::collect_types(types);
        assert(types@ =~= Self::spec_types().union_prefer_right(old(types)@));
    }
}

impl<T> Serializable for Option<T> where T: Serializable {
    open spec fn spec_ident() -> IdentModel {
        ident_of1("Option"@, T::spec_ident())
    }

    open spec fn spec_ty() -> TypeModel {
        TypeModel::Container("Option"@, T::spec_ident())
    }

    open spec fn spec_types() -> Map<IdentModel, TypeModel> {
        T::spec_types().insert(Self::spec_ident(), Self::spec_ty())
    }

    proof fn lemma_spec_types() {
        T::lemma_spec_types();
    }

    fn ident() -> (r: TypeIdent) {
        let generic_args = vec![T::ident()];
        assert(idents_view(generic_args@) =~= seq![T::spec_ident()]);
        TypeIdent::new("Option".to_owned(), generic_args)
    }

    fn ty() -> (r: Type) {
        Type::Container("Option".to_owned(), T::ident())
    }

    fn collect_types(types: &mut TypeMap) {
        types.register(Self::ident(), Self::ty());
        T::collect_types(types);
        assert(types@ =~= Self::spec_types().union_prefer_right(old(types)@));
    }
}

impl<T> Serializable for Rc<T> where T: Serializable {
    open spec fn spec_ident() -> IdentModel {
        ident_of1("Rc"@, T::spec_ident())
    }

    open spec fn spec_ty() -> TypeModel {
        TypeModel::Container("Rc"@, T::spec_ident())
    }

    open spec fn spec_types() -> Map<IdentModel, TypeModel> {
        T::spec_types().insert(Self::spec_ident(), Self::spec_ty())
    }

    proof fn lemma_spec_types() {
        T::lemma_spec_types();
    }

    fn ident() -> (r: TypeIdent) {
        let generic_args = vec![T::ident()];
        assert(idents_view(generic_args@) =~= seq![T::spec_ident()]);
        TypeIdent::new("Rc".to_owned(), generic_args)
    }

    fn ty() -> (r: Type) {
        Type::Container("Rc".to_owned(), T::ident())
    }

    fn collect_types(types: &mut TypeMap) {
        types.register(Self::ident(), Self::ty());
        T::collect_types(types);
        assert(types@ =~= Self::spec_types().union_prefer_right(old(types)@));
    }
}

impl<T, E> Serializable for Result<T, E> where T: Serializable, E: Serializable {
    open spec fn spec_ident() -> IdentModel {
        ident_of2("Result"@, T::spec_ident(), E::spec_ident())
    }

    open spec fn spec_ty() -> TypeModel {
        TypeModel::Enum(
            EnumModel {
                ident: Self::spec_ident(),
                variants: seq![
                    VariantModel {
                        name: "Ok"@,
                        ty: TypeModel::Tuple(seq![T::spec_ident()]),
                        doc_lines: seq![" Represents a succesful result."@],
                        attrs: VariantAttrsModel { field_casing: Casing::Original, rename: None },
                    },
                    VariantModel {
                        name: "Err"@,
                        ty: TypeModel::Tuple(seq![E::spec_ident()]),
                        doc_lines: seq![" Represents an error."@],
                        attrs: VariantAttrsModel { field_casing: Casing::Original, rename: None },
                    },
                ],
                doc_lines: seq![
                    " A result that can be either successful (`Ok)` or represent an error (`Err`)."@,
                ],
                options: EnumOptionsModel {
                    variant_casing: Casing::Original,
                    content_prop_name: None,
                    tag_prop_name: None,
                    untagged: false,
                    native_modules: Map::empty(),
                },
            },
        )
    }

    open spec fn spec_types() -> Map<IdentModel, TypeModel> {
        E::spec_types().union_prefer_right(
            T::spec_types().insert(Self::spec_ident(), Self::spec_ty()),
        )
    }

    proof fn lemma_spec_types() {
        T::lemma_spec_types();
        E::lemma_spec_types();
        lemma_union_finite(
            E::spec_types(),
            T::spec_types().insert(Self::spec_ident(), Self::spec_ty()),
        );
    }

    fn ident() -> (r: TypeIdent) {
        let generic_args = vec![T::ident(), E::ident()];
        assert(idents_view(generic_args@) =~= seq![T::spec_ident(), E::spec_ident()]);
        TypeIdent::new("Result".to_owned(), generic_args)
    }

    fn ty() -> (r: Type) {
        let ok_items = vec![T::ident()];
        let ok_docs = vec![" Represents a succesful result.".to_owned()];
        let err_items = vec![E::ident()];
        let err_docs = vec![" Represents an error.".to_owned()];
        let doc_lines = vec![
            " A result that can be either successful (`Ok)` or represent an error (`Err`).".to_owned(),
        ];
        proof {
            assert(idents_view(ok_items@) =~= seq![T::spec_ident()]);
            assert(idents_view(err_items@) =~= seq![E::spec_ident()]);
            assert(strings_view(ok_docs@) =~= seq![" Represents a succesful result."@]);
            assert(strings_view(err_docs@) =~= seq![" Represents an error."@]);
            assert(strings_view(doc_lines@) =~= seq![
                " A result that can be either successful (`Ok)` or represent an error (`Err`)."@,
            ]);
        }
        let variants = vec![
            Variant {
                name: "Ok".to_owned(),
                ty: Type::Tuple(ok_items),
                doc_lines: ok_docs,
                attrs: VariantAttrs::default(),
            },
            Variant {
                name: "Err".to_owned(),
                ty: Type::Tuple(err_items),
                doc_lines: err_docs,
                attrs: VariantAttrs::default(),
            },
        ];
        let e = Enum { ident: Self::ident(), variants, doc_lines, options: EnumOptions::default() };
        proof {
            lemma_enum_variants(e);
            assert(variants_view(e.variants@) =~= Self::spec_ty()->Enum_0.variants);
        }
        Type::Enum(e)
    }

    fn collect_types(types: &mut TypeMap) {
        types.register(Self::ident(), Self::ty());
        T::collect_types(types);
        E::collect_types(types);
        assert(types@ =~= Self::spec_types().union_prefer_right(old(types)@));
    }
}

impl Serializable for String {
    open spec fn spec_ident() -> IdentModel {
        plain_ident("String"@)
    }

    open spec fn spec_ty() -> TypeModel {
        TypeModel::String
    }

    open spec fn spec_types() -> Map<IdentModel, TypeModel> {
        map![Self::spec_ident() => Self::spec_ty()]
    }

    proof fn lemma_spec_types() {
    }

    fn ident() -> (r: TypeIdent) {
        TypeIdent::from("String")
    }

    fn ty() -> (r: Type) {
        Type::String
    }

    fn collect_types(types: &mut TypeMap) {
        types.register(Self::ident(), Self::ty());
        proof {
            lemma_register_is_union(old(types)@, Self::spec_ident(), Self::spec_ty());
        }
    }
}

impl<T> Serializable for Vec<T> where T: Serializable {
    open spec fn spec_ident() -> IdentModel {
        ident_of1("Vec"@, T::spec_ident())
    }

    open spec fn spec_ty() -> TypeModel {
        TypeModel::List("Vec"@, T::spec_ident())
    }

    open spec fn spec_types() -> Map<IdentModel, TypeModel> {
        T::spec_types().insert(Self::spec_ident(), Self::spec_ty())
    }

    proof fn lemma_spec_types() {
        T::lemma_spec_types();
    }

    fn ident() -> (r: TypeIdent) {
        let generic_args = vec![T::ident()];
        assert(idents_view(generic_args@) =~= seq![T::spec_ident()]);
        TypeIdent::new("Vec".to_owned(), generic_args)
    }

    fn ty() -> (r: Type) {
        Type::List("Vec".to_owned(), T::ident())
    }

    fn collect_types(types: &mut TypeMap) {
        types.register(Self::ident(), Self::ty());
        T::collect_types(types);
        assert(types@ =~= Self::spec_types().union_prefer_right(old(types)@));
    }
}

impl Serializable for FPGuestError {
    open spec fn spec_ident() -> IdentModel {
        plain_ident("FPGuestError"@)
    }

    open spec fn spec_ty() -> TypeModel {
        TypeModel::Enum(
            EnumModel {
                ident: Self::spec_ident(),
                variants: seq![
                    VariantModel {
                        name: "SerdeError"@,
                        ty: TypeModel::Struct(
                            StructModel {
                                ident: plain_ident("SerdeError"@),
                                fields: seq![
                                    FieldModel {
                                        name: "path"@,
                                        ty: String::spec_ident(),
                                        doc_lines: seq![
                                            "Path to the failed field that failed to serde"@,
                                        ],
                                        attrs: FieldAttrsModel { rename: None, flatten: false },
                                    },
                                    FieldModel {
                                        name: "message"@,
                                        ty: String::spec_ident(),
                                        doc_lines: seq![],
                                        attrs: FieldAttrsModel { rename: None, flatten: false },
                                    },
                                ],
                                doc_lines: seq![],
                                options: StructOptionsModel {
                                    field_casing: Casing::SnakeCase,
                                    native_modules: Map::empty(),
                                },
                            },
                        ),
                        doc_lines: seq![
                            "Deserialization of data failed, possible mismatch between guest and runtime protocol version"@,
                        ],
                        attrs: VariantAttrsModel { field_casing: Casing::Original, rename: None },
                    },
                    VariantModel {
                        name: "InvalidFatPtr"@,
                        ty: TypeModel::Unit,
                        doc_lines: seq!["Received an invalid `FatPtr`"@],
                        attrs: VariantAttrsModel { field_casing: Casing::Original, rename: None },
                    },
                ],
                doc_lines: seq![],
                options: EnumOptionsModel {
                    variant_casing: Casing::SnakeCase,
                    content_prop_name: None,
                    tag_prop_name: Some("type"@),
                    untagged: false,
                    native_modules: map![
                        "rust_wasmer_runtime"@ => "fp_bindgen_support::common::errors"@,
                        "rust_plugin"@ => "fp_bindgen_support::common::errors"@,
                    ],
                },
            },
        )
    }

    open spec fn spec_types() -> Map<IdentModel, TypeModel> {
        map![Self::spec_ident() => Self::spec_ty()]
    }

    proof fn lemma_spec_types() {
    }

    fn ident() -> (r: TypeIdent) {
        let generic_args: Vec<TypeIdent> = vec![];
        assert(idents_view(generic_args@) =~= Seq::<IdentModel>::empty());
        TypeIdent::new("FPGuestError".to_owned(), generic_args)
    }

    fn ty() -> (r: Type) {
        let path_docs = vec!["Path to the failed field that failed to serde".to_owned()];
        let fields = vec![
            Field {
                name: "path".to_owned(),
                ty: String::ident(),
                doc_lines: path_docs,
                attrs: FieldAttrs::default(),
            },
            Field {
                name: "message".to_owned(),
                ty: String::ident(),
                doc_lines: vec![],
                attrs: FieldAttrs::default(),
            },
        ];
        let serde_error = Struct {
            ident: TypeIdent::from("SerdeError"),
            fields,
            doc_lines: vec![],
            options: StructOptions { field_casing: Casing::SnakeCase, ..StructOptions::default() },
        };
        let serde_docs = vec![
            "Deserialization of data failed, possible mismatch between guest and runtime protocol version".to_owned(),
        ];
        let invalid_docs = vec!["Received an invalid `FatPtr`".to_owned()];
        let variants = vec![
            Variant {
                name: "SerdeError".to_owned(),
                ty: Type::Struct(serde_error),
                doc_lines: serde_docs,
                attrs: VariantAttrs::default(),
            },
            Variant {
                name: "InvalidFatPtr".to_owned(),
                ty: Type::Unit,
                doc_lines: invalid_docs,
                attrs: VariantAttrs::default(),
            },
        ];
        let mut native_modules = NativeModules::new();
        native_modules.insert(
            "rust_wasmer_runtime".to_owned(),
            "fp_bindgen_support::common::errors".to_owned(),
        );
        native_modules.insert(
            "rust_plugin".to_owned(),
            "fp_bindgen_support::common::errors".to_owned(),
        );
        let e = Enum {
            ident: Self::ident(),
            variants,
            doc_lines: vec![],
            options: EnumOptions {
                variant_casing: Casing::SnakeCase,
                content_prop_name: None,
                tag_prop_name: Some("type".to_owned()),
                untagged: false,
                native_modules,
            },
        };
        proof {
            let model = Self::spec_ty()->Enum_0;
            let serde_model = model.variants[0].ty->Struct_0;
            assert(strings_view(path_docs@) =~= serde_model.fields[0].doc_lines);
            assert(strings_view(serde_error.fields[1].doc_lines@) =~= Seq::<Seq<char>>::empty());
            assert(fields_view(serde_error.fields@) =~= serde_model.fields);
            assert(strings_view(serde_error.doc_lines@) =~= serde_model.doc_lines);
            assert(strings_view(serde_docs@) =~= model.variants[0].doc_lines);
            assert(strings_view(invalid_docs@) =~= model.variants[1].doc_lines);
            assert(strings_view(e.doc_lines@) =~= model.doc_lines);
            assert(e.options.native_modules@ =~= model.options.native_modules);
            lemma_enum_variants(e);
            assert(variants_view(e.variants@) =~= model.variants);
        }
        Type::Enum(e)
    }

    fn collect_types(types: &mut TypeMap) {
        types.register(Self::ident(), Self::ty());
        proof {
            lemma_register_is_union(old(types)@, Self::spec_ident(), Self::spec_ty());
        }
    }
}

} // verus!
