use fp_bindgen::errors::GenerationError;
use fp_bindgen::functions::{Function, FunctionArg, FunctionList, Passing, Returns};
use fp_bindgen::serializable::Serializable;
use fp_bindgen::types::{TypeIdent, TypeMap};
use fp_bindgen::validate::check_functions;

fn arg<T: Serializable>(name: &str) -> FunctionArg {
    FunctionArg { name: name.to_owned(), ty: T::ident() }
}

fn function(name: &str, args: Vec<FunctionArg>, return_type: Option<TypeIdent>, is_async: bool) -> Function {
    Function { name: name.to_owned(), doc_lines: Vec::new(), args, return_type, is_async }
}

fn types() -> TypeMap {
    let mut types = TypeMap::new();
    u32::collect_types(&mut types);
    String::collect_types(&mut types);
    Vec::<u8>::collect_types(&mut types);
    types
}

#[test]
fn primitives_travel_in_registers() {
    let add = function("add", vec![arg::<u32>("a"), arg::<u32>("b")], Some(u32::ident()), false);
    assert_eq!(
        add.passing(&types()),
        Ok(Passing { args_in_memory: vec![false, false], result: Returns::Register })
    );
}

#[test]
fn other_values_travel_through_memory() {
    let greet = function(
        "greet",
        vec![arg::<String>("name"), arg::<u32>("times"), arg::<Vec<u8>>("salt")],
        Some(String::ident()),
        false,
    );
    assert_eq!(
        greet.passing(&types()),
        Ok(Passing { args_in_memory: vec![true, false, true], result: Returns::Memory })
    );
}

#[test]
fn function_without_result_returns_nothing() {
    let log = function("log", vec![arg::<String>("message")], None, false);
    assert_eq!(
        log.passing(&types()),
        Ok(Passing { args_in_memory: vec![true], result: Returns::Nothing })
    );
}

#[test]
fn asynchronous_function_returns_later() {
    let fetch = function("fetch", vec![arg::<String>("url")], Some(Vec::<u8>::ident()), true);
    assert_eq!(
        fetch.passing(&types()),
        Ok(Passing { args_in_memory: vec![true], result: Returns::Deferred })
    );
    let tick = function("tick", Vec::new(), None, true);
    assert_eq!(
        tick.passing(&types()),
        Ok(Passing { args_in_memory: Vec::new(), result: Returns::Deferred })
    );
}

#[test]
fn type_that_is_not_registered_is_an_error() {
    let first = function("f", vec![arg::<u32>("a"), arg::<i64>("b"), arg::<bool>("c")], None, false);
    assert_eq!(first.passing(&types()), Err(GenerationError::UnresolvedType(i64::ident())));
    let second = function("g", vec![arg::<u32>("a")], Some(bool::ident()), false);
    assert_eq!(second.passing(&types()), Err(GenerationError::UnresolvedType(bool::ident())));
    let third = function("h", vec![arg::<i8>("a")], Some(bool::ident()), true);
    assert_eq!(third.passing(&types()), Err(GenerationError::UnresolvedType(i8::ident())));
}

#[test]
fn list_holds_one_function_of_each_name() {
    let mut exports = FunctionList::new();
    assert_eq!(exports.len(), 0);
    assert!(exports.add(function("b", Vec::new(), None, false)));
    assert!(exports.add(function("a", vec![arg::<u32>("x")], None, false)));
    assert!(!exports.add(function("b", vec![arg::<u32>("x")], None, true)));
    assert_eq!(exports.len(), 2);
    assert_eq!(exports.function_at(0).name, "b");
    assert_eq!(exports.function_at(1).name, "a");
    assert_eq!(exports.get("a"), Some(&function("a", vec![arg::<u32>("x")], None, false)));
    assert_eq!(exports.get("b"), Some(&function("b", Vec::new(), None, false)));
    assert_eq!(exports.get("c"), None);
}

#[test]
fn directions_have_lists_of_their_own() {
    let mut exports = FunctionList::new();
    let mut imports = FunctionList::new();
    assert!(exports.add(function("run", Vec::new(), None, false)));
    assert!(imports.add(function("run", Vec::new(), None, true)));
    assert_eq!(exports.get("run").map(|f| f.is_async), Some(false));
    assert_eq!(imports.get("run").map(|f| f.is_async), Some(true));
}

#[test]
fn functions_are_checked_against_the_collected_types() {
    let mut exports = FunctionList::new();
    assert_eq!(check_functions(&exports, &types()), Ok(()));
    assert!(exports.add(function("a", vec![arg::<u32>("x")], Some(String::ident()), false)));
    assert!(exports.add(function("b", Vec::new(), None, true)));
    assert_eq!(check_functions(&exports, &types()), Ok(()));
    assert!(exports.add(function("c", vec![arg::<u32>("x"), arg::<bool>("y")], Some(i8::ident()), false)));
    assert!(exports.add(function("d", vec![arg::<i64>("x")], None, false)));
    assert_eq!(
        check_functions(&exports, &types()),
        Err(GenerationError::UnresolvedType(bool::ident()))
    );
    assert_eq!(
        check_functions(&exports, &TypeMap::new()),
        Err(GenerationError::UnresolvedType(u32::ident()))
    );
}
