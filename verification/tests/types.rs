use fp_bindgen::casing::Casing;
use fp_bindgen::errors::GenerationError;
use fp_bindgen::types::order::order_names;
use fp_bindgen::types::{
    Enum, EnumOptions, Field, FieldAttrs, NativeModules, Order, Primitive, Struct, StructOptions,
    Tagging, Type, TypeIdent, TypeMap, Variant, VariantAttrs,
};

fn field(name: &str, ty: &str, rename: Option<&str>, flatten: bool) -> Field {
    Field {
        name: name.to_owned(),
        ty: TypeIdent::from(ty),
        doc_lines: Vec::new(),
        attrs: FieldAttrs { rename: rename.map(|r| r.to_owned()), flatten },
    }
}

fn record(fields: Vec<Field>, field_casing: Casing) -> Struct {
    Struct {
        ident: TypeIdent::from("Record"),
        fields,
        doc_lines: Vec::new(),
        options: StructOptions { field_casing, native_modules: NativeModules::new() },
    }
}

fn variant(name: &str, rename: Option<&str>) -> Variant {
    Variant {
        name: name.to_owned(),
        ty: Type::Unit,
        doc_lines: Vec::new(),
        attrs: VariantAttrs { field_casing: Casing::Original, rename: rename.map(|r| r.to_owned()) },
    }
}

fn options(tag: Option<&str>, content: Option<&str>, untagged: bool) -> EnumOptions {
    EnumOptions {
        variant_casing: Casing::Original,
        content_prop_name: content.map(|c| c.to_owned()),
        tag_prop_name: tag.map(|t| t.to_owned()),
        untagged,
        native_modules: NativeModules::new(),
    }
}

#[test]
fn identifiers_are_equal_by_name_and_arguments() {
    let a = TypeIdent::new("Vec".to_owned(), vec![TypeIdent::from("u8")]);
    let b = TypeIdent::new("Vec".to_owned(), vec![TypeIdent::from("u8")]);
    let c = TypeIdent::new("Vec".to_owned(), vec![TypeIdent::from("u16")]);
    let d = TypeIdent::new("Vec".to_owned(), vec![]);
    let e = TypeIdent::new("Set".to_owned(), vec![TypeIdent::from("u8")]);
    assert_eq!(a, b);
    assert_ne!(a, c);
    assert_ne!(a, d);
    assert_ne!(a, e);
    assert_eq!(a.clone(), a);
}

#[test]
fn identifier_from_a_name_has_no_arguments() {
    let ident = TypeIdent::from("String");
    assert_eq!(ident.name, "String");
    assert!(ident.generic_args.is_empty());
}

#[test]
fn type_map_keeps_the_order_of_the_identifiers() {
    let mut types = TypeMap::new();
    assert!(types.is_empty());
    assert!(types.register(TypeIdent::from("b"), Type::Unit));
    assert!(types.register(TypeIdent::from("a"), Type::String));
    assert!(!types.register(TypeIdent::from("b"), Type::String));
    assert_eq!(types.len(), 2);
    assert!(!types.is_empty());
    assert_eq!(types.ident_at(0), &TypeIdent::from("a"));
    assert_eq!(types.type_at(0), &Type::String);
    assert_eq!(types.ident_at(1), &TypeIdent::from("b"));
    assert_eq!(types.type_at(1), &Type::Unit);
    assert!(types.register(TypeIdent::from("ab"), Type::Unit));
    assert!(types.register(TypeIdent::from("B"), Type::Unit));
    assert!(types.register(TypeIdent::from("d"), Type::Unit));
    let idents: Vec<&str> = (0..types.len()).map(|i| types.ident_at(i).name.as_str()).collect();
    assert_eq!(idents, vec!["B", "a", "ab", "b", "d"]);
    assert_eq!(types.get(&TypeIdent::from("a")), Some(&Type::String));
    assert_eq!(types.get(&TypeIdent::from("b")), Some(&Type::Unit));
    assert_eq!(types.get(&TypeIdent::from("c")), None);
    assert!(!types.contains_key(&TypeIdent::from("c")));
}

#[test]
fn native_modules_hold_one_module_for_each_target() {
    let mut modules = NativeModules::new();
    assert_eq!(modules.len(), 0);
    modules.insert("rust_plugin".to_owned(), "a::b".to_owned());
    modules.insert("ts_runtime".to_owned(), "./types".to_owned());
    modules.insert("rust_plugin".to_owned(), "c::d".to_owned());
    assert_eq!(modules.len(), 2);
    assert_eq!(modules.get("rust_plugin"), Some(&"c::d".to_owned()));
    assert_eq!(modules.get("ts_runtime"), Some(&"./types".to_owned()));
    assert_eq!(modules.get("rust_wasmer_runtime"), None);
}

#[test]
fn native_modules_are_equal_whatever_the_order_of_insertion() {
    let mut first = NativeModules::new();
    first.insert("a".to_owned(), "1".to_owned());
    first.insert("b".to_owned(), "2".to_owned());
    let mut second = NativeModules::new();
    second.insert("b".to_owned(), "2".to_owned());
    second.insert("a".to_owned(), "1".to_owned());
    assert_eq!(first, second);
    assert_eq!(first.clone(), first);
    second.insert("a".to_owned(), "3".to_owned());
    assert_ne!(first, second);
    let mut third = NativeModules::new();
    third.insert("a".to_owned(), "1".to_owned());
    assert_ne!(first, third);
}

#[test]
fn field_name_follows_the_casing_of_the_struct() {
    let f = field("user_name", "String", None, false);
    assert_eq!(f.wire_name(Casing::CamelCase), "userName");
    assert_eq!(f.wire_name(Casing::PascalCase), "UserName");
    assert_eq!(f.wire_name(Casing::KebabCase), "user-name");
    assert_eq!(f.wire_name(Casing::Original), "user_name");
}

#[test]
fn explicit_rename_overrides_the_casing_of_the_struct() {
    let f = field("user_name", "String", Some("LOGIN"), false);
    assert_eq!(f.wire_name(Casing::CamelCase), "LOGIN");
    assert_eq!(f.wire_name(Casing::SnakeCase), "LOGIN");
    assert_eq!(f.wire_name(Casing::Original), "LOGIN");
}

#[test]
fn field_names_of_a_struct() {
    let s = record(
        vec![
            field("first_name", "String", None, false),
            field("last_name", "String", Some("surname"), false),
            field("zip_code", "u32", None, false),
        ],
        Casing::CamelCase,
    );
    assert_eq!(s.field_names(), vec!["firstName", "surname", "zipCode"]);
    assert!(!s.has_flattened_fields());
}

#[test]
fn flattened_field_is_found() {
    let s = record(
        vec![field("id", "u32", None, false), field("rest", "Extra", None, true)],
        Casing::Original,
    );
    assert!(s.has_flattened_fields());
    assert!(!record(Vec::new(), Casing::Original).has_flattened_fields());
}

#[test]
fn variant_names_of_an_enum() {
    let e = Enum {
        ident: TypeIdent::from("Shape"),
        variants: vec![variant("RoundRect", None), variant("Circle", Some("disc"))],
        doc_lines: Vec::new(),
        options: EnumOptions { variant_casing: Casing::SnakeCase, ..EnumOptions::default() },
    };
    assert_eq!(e.variant_names(), vec!["round_rect", "disc"]);
    assert_eq!(e.variants[0].wire_name(Casing::KebabCase), "round-rect");
    assert_eq!(e.variants[1].wire_name(Casing::KebabCase), "disc");
}

#[test]
fn tagging_scheme_is_selected_by_the_options() {
    assert_eq!(EnumOptions::default().tagging(), Tagging::External);
    assert_eq!(options(None, None, false).tagging(), Tagging::External);
    assert_eq!(options(None, Some("payload"), false).tagging(), Tagging::External);
    assert_eq!(
        options(Some("type"), None, false).tagging(),
        Tagging::Internal { tag: "type".to_owned() }
    );
    assert_eq!(
        options(Some("type"), Some("payload"), false).tagging(),
        Tagging::Adjacent { tag: "type".to_owned(), content: "payload".to_owned() }
    );
    assert_eq!(options(None, None, true).tagging(), Tagging::Untagged);
    assert_eq!(options(Some("type"), Some("payload"), true).tagging(), Tagging::Untagged);
}

#[test]
fn tagging_schemes_differ_from_each_other() {
    let schemes = [
        options(None, None, false).tagging(),
        options(Some("type"), None, false).tagging(),
        options(Some("type"), Some("payload"), false).tagging(),
        options(None, None, true).tagging(),
    ];
    for i in 0..schemes.len() {
        for j in 0..schemes.len() {
            assert_eq!(schemes[i] == schemes[j], i == j);
        }
    }
}

#[test]
fn defaults_of_options_and_attributes() {
    assert_eq!(FieldAttrs::default(), FieldAttrs { rename: None, flatten: false });
    assert_eq!(
        VariantAttrs::default(),
        VariantAttrs { field_casing: Casing::Original, rename: None }
    );
    assert_eq!(
        StructOptions::default(),
        StructOptions { field_casing: Casing::Original, native_modules: NativeModules::new() }
    );
    assert_eq!(EnumOptions::default(), options(None, None, false));
}

#[test]
fn shapes_are_equal_by_what_they_hold() {
    let u8_ident = TypeIdent::from("u8");
    let shapes = || {
        vec![
            Type::Primitive(Primitive::U8),
            Type::Primitive(Primitive::I8),
            Type::String,
            Type::Unit,
            Type::Tuple(vec![TypeIdent::from("u8")]),
            Type::Tuple(vec![TypeIdent::from("u8"), TypeIdent::from("u8")]),
            Type::List("Vec".to_owned(), TypeIdent::from("u8")),
            Type::List("VecDeque".to_owned(), TypeIdent::from("u8")),
            Type::SetOf("Vec".to_owned(), TypeIdent::from("u8")),
            Type::Container("Vec".to_owned(), TypeIdent::from("u8")),
            Type::MapOf("HashMap".to_owned(), TypeIdent::from("u8"), TypeIdent::from("u8")),
            Type::MapOf("HashMap".to_owned(), TypeIdent::from("u8"), TypeIdent::from("u16")),
            Type::Struct(record(vec![field("a", "u8", None, false)], Casing::Original)),
            Type::Struct(record(vec![field("a", "u8", None, true)], Casing::Original)),
            Type::Struct(record(vec![field("a", "u8", Some("b"), false)], Casing::Original)),
            Type::Struct(record(vec![field("a", "u8", None, false)], Casing::SnakeCase)),
            Type::Struct(record(Vec::new(), Casing::Original)),
            Type::Enum(Enum {
                ident: TypeIdent::from("E"),
                variants: vec![variant("A", None)],
                doc_lines: Vec::new(),
                options: options(None, None, false),
            }),
            Type::Enum(Enum {
                ident: TypeIdent::from("E"),
                variants: vec![variant("A", None), variant("B", None)],
                doc_lines: Vec::new(),
                options: options(None, None, false),
            }),
            Type::Enum(Enum {
                ident: TypeIdent::from("E"),
                variants: vec![variant("A", None)],
                doc_lines: vec!["An enum.".to_owned()],
                options: options(None, None, false),
            }),
            Type::Enum(Enum {
                ident: TypeIdent::from("E"),
                variants: vec![variant("A", None)],
                doc_lines: Vec::new(),
                options: options(Some("type"), None, false),
            }),
        ]
    };
    let (first, second) = (shapes(), shapes());
    for i in 0..first.len() {
        for j in 0..second.len() {
            assert_eq!(first[i] == second[j], i == j, "{:?} and {:?}", first[i], second[j]);
        }
        assert_eq!(first[i].clone(), first[i]);
    }
    assert_eq!(u8_ident.clone(), u8_ident);
}

#[test]
fn identifier_registered_with_another_shape_is_a_conflict() {
    let mut types = TypeMap::new();
    assert_eq!(types.register_same(TypeIdent::from("T"), Type::String), Ok(true));
    assert_eq!(types.register_same(TypeIdent::from("T"), Type::String), Ok(false));
    assert_eq!(
        types.register_same(TypeIdent::from("T"), Type::Unit),
        Err(GenerationError::ConflictingType(TypeIdent::from("T")))
    );
    assert_eq!(types.len(), 1);
    assert_eq!(types.get(&TypeIdent::from("T")), Some(&Type::String));
    assert_eq!(types.register_same(TypeIdent::from("U"), Type::Unit), Ok(true));
    assert_eq!(types.len(), 2);
}

#[test]
fn identifiers_are_ordered_by_name_then_arguments() {
    let ident = |name: &str, args: Vec<TypeIdent>| TypeIdent::new(name.to_owned(), args);
    // In ascending order.
    let sorted = vec![
        ident("", vec![]),
        ident("A", vec![]),
        ident("A", vec![ident("", vec![])]),
        ident("A", vec![ident("B", vec![])]),
        ident("A", vec![ident("B", vec![]), ident("A", vec![])]),
        ident("A", vec![ident("B", vec![ident("C", vec![])])]),
        ident("A", vec![ident("C", vec![])]),
        ident("AB", vec![]),
        ident("B", vec![]),
        ident("a", vec![]),
        ident("ab", vec![]),
        ident("b", vec![]),
        ident("é", vec![]),
        ident("€", vec![]),
        ident("😀", vec![]),
    ];
    for i in 0..sorted.len() {
        for j in 0..sorted.len() {
            let expected = if i < j {
                Order::Less
            } else if i == j {
                Order::Equal
            } else {
                Order::Greater
            };
            assert_eq!(sorted[i].order(&sorted[j]), expected, "{:?} to {:?}", sorted[i], sorted[j]);
            assert_eq!(sorted[i] < sorted[j], i < j);
            assert_eq!(sorted[i] <= sorted[j], i <= j);
            assert_eq!(sorted[i] > sorted[j], i > j);
            assert_eq!(sorted[i].partial_cmp(&sorted[j]), Some(i.cmp(&j)));
            assert_eq!(sorted[i].cmp(&sorted[j]), i.cmp(&j));
        }
    }
}

#[test]
fn names_are_ordered_as_in_a_dictionary() {
    assert_eq!(order_names("", ""), Order::Equal);
    assert_eq!(order_names("", "a"), Order::Less);
    assert_eq!(order_names("a", ""), Order::Greater);
    assert_eq!(order_names("Vec", "Vec"), Order::Equal);
    assert_eq!(order_names("Vec", "VecDeque"), Order::Less);
    assert_eq!(order_names("Vec", "Option"), Order::Greater);
    assert_eq!(order_names("Z", "a"), Order::Less);
}

#[test]
fn identifiers_can_be_sorted() {
    let mut idents = vec![
        TypeIdent::from("u8"),
        TypeIdent::new("Vec".to_owned(), vec![TypeIdent::from("u8")]),
        TypeIdent::from("String"),
        TypeIdent::new("Vec".to_owned(), vec![TypeIdent::from("String")]),
        TypeIdent::from("Vec"),
    ];
    idents.sort();
    let names: Vec<String> = idents
        .iter()
        .map(|i| format!("{}/{}", i.name, i.generic_args.iter().map(|a| a.name.as_str()).collect::<Vec<_>>().join(",")))
        .collect();
    assert_eq!(names, vec!["String/", "Vec/", "Vec/String", "Vec/u8", "u8/"]);
}
