use fp_bindgen::casing::Casing;
use fp_bindgen::serializable::Serializable;
use fp_bindgen::types::{
    Field, FieldAttrs, NativeModules, Struct, StructOptions, Type, TypeIdent, TypeMap,
};
use fp_bindgen::validate::validate;

fn field(name: &str, ty: TypeIdent) -> Field {
    Field { name: name.to_owned(), ty, doc_lines: Vec::new(), attrs: FieldAttrs::default() }
}

fn list_of(item: TypeIdent) -> TypeIdent {
    TypeIdent::new("Vec".to_owned(), vec![item])
}

/// A tree: a struct that holds a list of itself.
fn tree() -> Type {
    Type::Struct(Struct {
        ident: TypeIdent::from("Tree"),
        fields: vec![
            field("label", String::ident()),
            field("children", list_of(TypeIdent::from("Tree"))),
        ],
        doc_lines: Vec::new(),
        options: StructOptions {
            field_casing: Casing::Original,
            native_modules: NativeModules::new(),
        },
    })
}

/// Registers the tree and what it depends on. The tree is registered
/// before its dependencies are, so that the list of trees finds it there.
fn collect_tree(types: &mut TypeMap, visits: &mut usize) {
    *visits += 1;
    if types.register(TypeIdent::from("Tree"), tree()) {
        String::collect_types(types);
        collect_list_of_trees(types, visits);
    }
}

fn collect_list_of_trees(types: &mut TypeMap, visits: &mut usize) {
    *visits += 1;
    let ident = list_of(TypeIdent::from("Tree"));
    if types.register(ident, Type::List("Vec".to_owned(), TypeIdent::from("Tree"))) {
        collect_tree(types, visits);
    }
}

#[test]
fn type_that_holds_a_list_of_itself_is_collected() {
    let mut types = TypeMap::new();
    let mut visits = 0;
    collect_tree(&mut types, &mut visits);
    assert_eq!(visits, 3);
    assert_eq!(types.len(), 3);
    assert_eq!(types.ident_at(0), &TypeIdent::from("String"));
    assert_eq!(types.ident_at(1), &TypeIdent::from("Tree"));
    assert_eq!(types.ident_at(2), &list_of(TypeIdent::from("Tree")));
    assert_eq!(types.get(&TypeIdent::from("Tree")), Some(&tree()));
    assert_eq!(validate(&types), Ok(()));
}

#[test]
fn collecting_a_recursive_type_again_changes_nothing() {
    let mut types = TypeMap::new();
    let mut visits = 0;
    collect_list_of_trees(&mut types, &mut visits);
    assert_eq!(types.len(), 3);
    collect_tree(&mut types, &mut visits);
    collect_list_of_trees(&mut types, &mut visits);
    assert_eq!(types.len(), 3);
    assert_eq!(types.ident_at(2), &list_of(TypeIdent::from("Tree")));
    assert_eq!(validate(&types), Ok(()));
}
