use fp_bindgen::casing::Casing;
use fp_bindgen::errors::FPGuestError;
use fp_bindgen::primitives::{Float32, Float64};
use fp_bindgen::serializable::Serializable;
use fp_bindgen::types::{
    Enum, EnumOptions, Field, FieldAttrs, NativeModules, Primitive, Struct, StructOptions, Type,
    TypeIdent, TypeMap, Variant, VariantAttrs,
};
use std::collections::{BTreeMap, BTreeSet, HashMap, HashSet};
use std::rc::Rc;

fn ident(name: &str, generic_args: Vec<TypeIdent>) -> TypeIdent {
    TypeIdent::new(name.to_owned(), generic_args)
}

fn registered<T: Serializable>() -> TypeMap {
    let mut types = TypeMap::new();
    T::collect_types(&mut types);
    types
}

fn idents_of(types: &TypeMap) -> Vec<TypeIdent> {
    (0..types.len()).map(|i| types.ident_at(i).clone()).collect()
}

#[test]
fn string_is_a_type_without_arguments() {
    assert_eq!(String::ident(), TypeIdent::from("String"));
    assert_eq!(String::ty(), Type::String);
    assert!(!String::is_primitive());
}

#[test]
fn primitives_say_that_they_are() {
    assert!(bool::is_primitive());
    assert!(i8::is_primitive());
    assert!(i16::is_primitive());
    assert!(i32::is_primitive());
    assert!(i64::is_primitive());
    assert!(u8::is_primitive());
    assert!(u16::is_primitive());
    assert!(u32::is_primitive());
    assert!(u64::is_primitive());
    assert!(!Vec::<u8>::is_primitive());
    assert!(!Option::<u8>::is_primitive());
    assert!(!FPGuestError::is_primitive());
}

#[test]
fn primitives_have_their_own_names_and_shapes() {
    assert_eq!(bool::ident(), TypeIdent::from("bool"));
    assert_eq!(bool::ty(), Type::Primitive(Primitive::Bool));
    assert_eq!(i8::ident(), TypeIdent::from("i8"));
    assert_eq!(i8::ty(), Type::Primitive(Primitive::I8));
    assert_eq!(i16::ident(), TypeIdent::from("i16"));
    assert_eq!(i16::ty(), Type::Primitive(Primitive::I16));
    assert_eq!(i32::ident(), TypeIdent::from("i32"));
    assert_eq!(i32::ty(), Type::Primitive(Primitive::I32));
    assert_eq!(i64::ident(), TypeIdent::from("i64"));
    assert_eq!(i64::ty(), Type::Primitive(Primitive::I64));
    assert_eq!(u8::ident(), TypeIdent::from("u8"));
    assert_eq!(u8::ty(), Type::Primitive(Primitive::U8));
    assert_eq!(u16::ident(), TypeIdent::from("u16"));
    assert_eq!(u16::ty(), Type::Primitive(Primitive::U16));
    assert_eq!(u32::ident(), TypeIdent::from("u32"));
    assert_eq!(u32::ty(), Type::Primitive(Primitive::U32));
    assert_eq!(u64::ident(), TypeIdent::from("u64"));
    assert_eq!(u64::ty(), Type::Primitive(Primitive::U64));
}

#[test]
fn floating_point_primitives_are_named_by_their_stand_ins() {
    assert_eq!(Float32::ident(), TypeIdent::from("f32"));
    assert_eq!(Float32::ty(), Type::Primitive(Primitive::F32));
    assert!(Float32::is_primitive());
    assert_eq!(Float64::ident(), TypeIdent::from("f64"));
    assert_eq!(Float64::ty(), Type::Primitive(Primitive::F64));
    assert!(Float64::is_primitive());
    assert_eq!(Vec::<Float64>::ident(), ident("Vec", vec![TypeIdent::from("f64")]));
    let types = registered::<Option<Float32>>();
    assert_eq!(types.len(), 2);
    assert_eq!(types.get(&TypeIdent::from("f32")), Some(&Type::Primitive(Primitive::F32)));
}

#[test]
fn wrappers_are_containers_of_their_argument() {
    assert_eq!(Box::<u8>::ident(), ident("Box", vec![TypeIdent::from("u8")]));
    assert_eq!(Box::<u8>::ty(), Type::Container("Box".to_owned(), TypeIdent::from("u8")));
    assert_eq!(Option::<String>::ident(), ident("Option", vec![TypeIdent::from("String")]));
    assert_eq!(
        Option::<String>::ty(),
        Type::Container("Option".to_owned(), TypeIdent::from("String"))
    );
    assert_eq!(Rc::<i64>::ident(), ident("Rc", vec![TypeIdent::from("i64")]));
    assert_eq!(Rc::<i64>::ty(), Type::Container("Rc".to_owned(), TypeIdent::from("i64")));
}

#[test]
fn vec_is_a_list() {
    assert_eq!(Vec::<u64>::ident(), ident("Vec", vec![TypeIdent::from("u64")]));
    assert_eq!(Vec::<u64>::ty(), Type::List("Vec".to_owned(), TypeIdent::from("u64")));
}

#[test]
fn sets_are_sets_of_their_element() {
    assert_eq!(BTreeSet::<u8>::ident(), ident("BTreeSet", vec![TypeIdent::from("u8")]));
    assert_eq!(BTreeSet::<u8>::ty(), Type::SetOf("BTreeSet".to_owned(), TypeIdent::from("u8")));
    assert_eq!(HashSet::<String>::ident(), ident("HashSet", vec![TypeIdent::from("String")]));
    assert_eq!(
        HashSet::<String>::ty(),
        Type::SetOf("HashSet".to_owned(), TypeIdent::from("String"))
    );
}

#[test]
fn maps_name_key_and_value() {
    assert_eq!(
        BTreeMap::<String, u32>::ident(),
        ident("BTreeMap", vec![TypeIdent::from("String"), TypeIdent::from("u32")])
    );
    assert_eq!(
        BTreeMap::<String, u32>::ty(),
        Type::MapOf("BTreeMap".to_owned(), TypeIdent::from("String"), TypeIdent::from("u32"))
    );
    assert_eq!(
        HashMap::<u8, bool>::ident(),
        ident("HashMap", vec![TypeIdent::from("u8"), TypeIdent::from("bool")])
    );
    assert_eq!(
        HashMap::<u8, bool>::ty(),
        Type::MapOf("HashMap".to_owned(), TypeIdent::from("u8"), TypeIdent::from("bool"))
    );
}

#[test]
fn nested_generics_embed_their_arguments() {
    let inner = ident("Vec", vec![TypeIdent::from("String")]);
    let expected = ident("Option", vec![inner.clone()]);
    assert_eq!(Option::<Vec<String>>::ident(), expected);
    assert_eq!(Option::<Vec<String>>::ty(), Type::Container("Option".to_owned(), inner));
}

#[test]
fn result_is_an_enum_of_two_variants() {
    let expected = Type::Enum(Enum {
        ident: ident("Result", vec![TypeIdent::from("u8"), TypeIdent::from("String")]),
        variants: vec![
            Variant {
                name: "Ok".to_owned(),
                ty: Type::Tuple(vec![TypeIdent::from("u8")]),
                doc_lines: vec![" Represents a succesful result.".to_owned()],
                attrs: VariantAttrs::default(),
            },
            Variant {
                name: "Err".to_owned(),
                ty: Type::Tuple(vec![TypeIdent::from("String")]),
                doc_lines: vec![" Represents an error.".to_owned()],
                attrs: VariantAttrs::default(),
            },
        ],
        doc_lines: vec![
            " A result that can be either successful (`Ok)` or represent an error (`Err`)."
                .to_owned(),
        ],
        options: EnumOptions::default(),
    });
    assert_eq!(Result::<u8, String>::ty(), expected);
}

#[test]
fn guest_error_is_an_internally_tagged_enum() {
    let mut native_modules = NativeModules::new();
    native_modules
        .insert("rust_plugin".to_owned(), "fp_bindgen_support::common::errors".to_owned());
    native_modules
        .insert("rust_wasmer_runtime".to_owned(), "fp_bindgen_support::common::errors".to_owned());
    let expected = Type::Enum(Enum {
        ident: TypeIdent::from("FPGuestError"),
        variants: vec![
            Variant {
                name: "SerdeError".to_owned(),
                ty: Type::Struct(Struct {
                    ident: TypeIdent::from("SerdeError"),
                    fields: vec![
                        Field {
                            name: "path".to_owned(),
                            ty: TypeIdent::from("String"),
                            doc_lines: vec![
                                "Path to the failed field that failed to serde".to_owned()
                            ],
                            attrs: FieldAttrs::default(),
                        },
                        Field {
                            name: "message".to_owned(),
                            ty: TypeIdent::from("String"),
                            doc_lines: vec![],
                            attrs: FieldAttrs::default(),
                        },
                    ],
                    doc_lines: vec![],
                    options: StructOptions {
                        field_casing: Casing::SnakeCase,
                        native_modules: NativeModules::new(),
                    },
                }),
                doc_lines: vec!["Deserialization of data failed, possible mismatch between guest and runtime protocol version".to_owned()],
                attrs: VariantAttrs::default(),
            },
            Variant {
                name: "InvalidFatPtr".to_owned(),
                ty: Type::Unit,
                doc_lines: vec!["Received an invalid `FatPtr`".to_owned()],
                attrs: VariantAttrs::default(),
            },
        ],
        doc_lines: vec![],
        options: EnumOptions {
            variant_casing: Casing::SnakeCase,
            content_prop_name: None,
            tag_prop_name: Some("type".to_owned()),
            untagged: false,
            native_modules,
        },
    });
    assert_eq!(FPGuestError::ident(), TypeIdent::from("FPGuestError"));
    assert_eq!(FPGuestError::ty(), expected);
}

#[test]
fn collecting_a_type_without_dependencies_registers_it() {
    let types = registered::<String>();
    assert_eq!(types.len(), 1);
    assert_eq!(types.get(&TypeIdent::from("String")), Some(&Type::String));
}

#[test]
fn collecting_a_container_registers_its_arguments() {
    let types = registered::<Vec<Option<u8>>>();
    let option = ident("Option", vec![TypeIdent::from("u8")]);
    let vec = ident("Vec", vec![option.clone()]);
    assert_eq!(idents_of(&types), vec![option.clone(), vec.clone(), TypeIdent::from("u8")]);
    assert_eq!(types.get(&vec), Some(&Type::List("Vec".to_owned(), option.clone())));
    assert_eq!(
        types.get(&option),
        Some(&Type::Container("Option".to_owned(), TypeIdent::from("u8")))
    );
    assert_eq!(types.get(&TypeIdent::from("u8")), Some(&Type::Primitive(Primitive::U8)));
}

#[test]
fn collecting_a_map_registers_key_and_value() {
    let types = registered::<HashMap<String, Vec<u32>>>();
    let vec = ident("Vec", vec![TypeIdent::from("u32")]);
    let map = ident("HashMap", vec![TypeIdent::from("String"), vec.clone()]);
    assert_eq!(
        idents_of(&types),
        vec![map, TypeIdent::from("String"), vec, TypeIdent::from("u32")]
    );
}

#[test]
fn collecting_a_result_registers_both_arguments() {
    let types = registered::<Result<u8, FPGuestError>>();
    let result = ident("Result", vec![TypeIdent::from("u8"), TypeIdent::from("FPGuestError")]);
    assert_eq!(
        idents_of(&types),
        vec![TypeIdent::from("FPGuestError"), result.clone(), TypeIdent::from("u8")]
    );
    assert_eq!(types.get(&result), Some(&Result::<u8, FPGuestError>::ty()));
    assert_eq!(types.get(&TypeIdent::from("FPGuestError")), Some(&FPGuestError::ty()));
}

#[test]
fn same_instance_registered_twice_is_one_entry() {
    let mut types = TypeMap::new();
    Vec::<u64>::collect_types(&mut types);
    let once = idents_of(&types);
    assert_eq!(types.len(), 2);
    Vec::<u64>::collect_types(&mut types);
    assert_eq!(types.len(), 2);
    assert_eq!(idents_of(&types), once);
}

#[test]
fn instances_of_one_generic_type_are_entries_of_their_own() {
    let mut types = TypeMap::new();
    Vec::<u64>::collect_types(&mut types);
    Vec::<String>::collect_types(&mut types);
    assert_eq!(types.len(), 4);
    assert!(types.contains_key(&ident("Vec", vec![TypeIdent::from("u64")])));
    assert!(types.contains_key(&ident("Vec", vec![TypeIdent::from("String")])));
}

#[test]
fn shared_dependency_is_registered_once() {
    let mut types = TypeMap::new();
    Vec::<u8>::collect_types(&mut types);
    Option::<u8>::collect_types(&mut types);
    u8::collect_types(&mut types);
    assert_eq!(types.len(), 3);
}

#[test]
fn types_stand_in_the_order_of_their_identifiers_however_they_were_collected() {
    let mut first = TypeMap::new();
    u8::collect_types(&mut first);
    String::collect_types(&mut first);
    Vec::<u8>::collect_types(&mut first);
    Vec::<String>::collect_types(&mut first);
    let mut second = TypeMap::new();
    Vec::<String>::collect_types(&mut second);
    Vec::<u8>::collect_types(&mut second);
    assert_eq!(idents_of(&first), idents_of(&second));
    assert_eq!(
        idents_of(&first),
        vec![
            TypeIdent::from("String"),
            ident("Vec", vec![TypeIdent::from("String")]),
            ident("Vec", vec![TypeIdent::from("u8")]),
            TypeIdent::from("u8"),
        ]
    );
}

#[test]
fn first_registration_of_an_identifier_stays() {
    let mut types = TypeMap::new();
    assert!(types.register(TypeIdent::from("String"), Type::Unit));
    String::collect_types(&mut types);
    assert_eq!(types.len(), 1);
    assert_eq!(types.get(&TypeIdent::from("String")), Some(&Type::Unit));
}

#[test]
fn guest_errors_are_told_apart() {
    let serde = FPGuestError::SerdeError { path: "a.b".to_owned(), message: "missing".to_owned() };
    assert_eq!(serde.clone(), serde);
    assert_ne!(serde, FPGuestError::InvalidFatPtr);
    assert_eq!(FPGuestError::InvalidFatPtr, FPGuestError::InvalidFatPtr);
}
