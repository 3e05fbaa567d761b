//! The scalar types of the protocol. A value of one of them crosses the
//! boundary in a register and needs no memory of the guest.
use crate::serializable::{lemma_register_is_union, Serializable};
use crate::types::enums::{Type, TypeModel};
use crate::types::primitive::Primitive;
use crate::types::type_ident::{plain_ident, IdentModel, TypeIdent};
use crate::types::type_map::TypeMap;
use vstd::prelude::*;

verus! {

/// Stands for the 32-bit floating-point primitive where a type is named:
/// `Vec<Float32>` describes a list of such numbers.
#[derive(Debug, Clone, Copy, PartialEq, Eq, Structural)]
pub struct Float32;

/// Stands for the 64-bit floating-point primitive where a type is named.
#[derive(Debug, Clone, Copy, PartialEq, Eq, Structural)]
pub struct Float64;

impl Serializable for bool {
    open spec fn spec_ident() -> IdentModel {
        plain_ident("bool"@)
    }

    open spec fn spec_ty() -> TypeModel {
        TypeModel::Primitive(Primitive::Bool)
    }

    open spec fn spec_types() -> Map<IdentModel, TypeModel> {
        map![Self::spec_ident() => Self::spec_ty()]
    }

    proof fn lemma_spec_types() {
    }

    fn ident() -> (r: TypeIdent) {
        TypeIdent::from("bool")
    }

    fn ty() -> (r: Type) {
        Type::Primitive(Primitive::Bool)
    }

    fn is_primitive() -> (r: bool)
        ensures
            r,
    {
        true
    }

    fn collect_types(types: &mut TypeMap) {
        types.register(Self::ident(), Self::ty());
        proof {
            lemma_register_is_union(old(types)@, Self::spec_ident(), Self::spec_ty());
        }
    }
}

impl Serializable for Float32 {
    open spec fn spec_ident() -> IdentModel {
        plain_ident("f32"@)
    }

    open spec fn spec_ty() -> TypeModel {
        TypeModel::Primitive(Primitive::F32)
    }

    open spec fn spec_types() -> Map<IdentModel, TypeModel> {
        map![Self::spec_ident() => Self::spec_ty()]
    }

    proof fn lemma_spec_types() {
    }

    fn ident() -> (r: TypeIdent) {
        TypeIdent::from("f32")
    }

    fn ty() -> (r: Type) {
        Type::Primitive(Primitive::F32)
    }

    fn is_primitive() -> (r: bool)
        ensures
            r,
    {
        true
    }

    fn collect_types(types: &mut TypeMap) {
        types.register(Self::ident(), Self::ty());
        proof {
            lemma_register_is_union(old(types)@, Self::spec_ident(), Self::spec_ty());
        }
    }
}

impl Serializable for Float64 {
    open spec fn spec_ident() -> IdentModel {
        plain_ident("f64"@)
    }

    open spec fn spec_ty() -> TypeModel {
        TypeModel::Primitive(Primitive::F64)
    }

    open spec fn spec_types() -> Map<IdentModel, TypeModel> {
        map![Self::spec_ident() => Self::spec_ty()]
    }

    proof fn lemma_spec_types() {
    }

    fn ident() -> (r: TypeIdent) {
        TypeIdent::from("f64")
    }

    fn ty() -> (r: Type) {
        Type::Primitive(Primitive::F64)
    }

    fn is_primitive() -> (r: bool)
        ensures
            r,
    {
        true
    }

    fn collect_types(types: &mut TypeMap) {
        types.register(Self::ident(), Self::ty());
        proof {
            lemma_register_is_union(old(types)@, Self::spec_ident(), Self::spec_ty());
        }
    }
}

impl Serializable for i8 {
    open spec fn spec_ident() -> IdentModel {
        plain_ident("i8"@)
    }

    open spec fn spec_ty() -> TypeModel {
        TypeModel::Primitive(Primitive::I8)
    }

    open spec fn spec_types() -> Map<IdentModel, TypeModel> {
        map![Self::spec_ident() => Self::spec_ty()]
    }

    proof fn lemma_spec_types() {
    }

    fn ident() -> (r: TypeIdent) {
        TypeIdent::from("i8")
    }

    fn ty() -> (r: Type) {
        Type::Primitive(Primitive::I8)
    }

    fn is_primitive() -> (r: bool)
        ensures
            r,
    {
        true
    }

    fn collect_types(types: &mut TypeMap) {
        types.register(Self::ident(), Self::ty());
        proof {
            lemma_register_is_union(old(types)@, Self::spec_ident(), Self::spec_ty());
        }
    }
}

impl Serializable for i16 {
    open spec fn spec_ident() -> IdentModel {
        plain_ident("i16"@)
    }

    open spec fn spec_ty() -> TypeModel {
        TypeModel::Primitive(Primitive::I16)
    }

    open spec fn spec_types() -> Map<IdentModel, TypeModel> {
        map![Self::spec_ident() => Self::spec_ty()]
    }

    proof fn lemma_spec_types() {
    }

    fn ident() -> (r: TypeIdent) {
        TypeIdent::from("i16")
    }

    fn ty() -> (r: Type) {
        Type::Primitive(Primitive::I16)
    }

    fn is_primitive() -> (r: bool)
        ensures
            r,
    {
        true
    }

    fn collect_types(types: &mut TypeMap) {
        types.register(Self::ident(), Self::ty());
        proof {
            lemma_register_is_union(old(types)@, Self::spec_ident(), Self::spec_ty());
        }
    }
}

impl Serializable for i32 {
    open spec fn spec_ident() -> IdentModel {
        plain_ident("i32"@)
    }

    open spec fn spec_ty() -> TypeModel {
        TypeModel::Primitive(Primitive::I32)
    }

    open spec fn spec_types() -> Map<IdentModel, TypeModel> {
        map![Self::spec_ident() => Self::spec_ty()]
    }

    proof fn lemma_spec_types() {
    }

    fn ident() -> (r: TypeIdent) {
        TypeIdent::from("i32")
    }

    fn ty() -> (r: Type) {
        Type::Primitive(Primitive::I32)
    }

    fn is_primitive() -> (r: bool)
        ensures
            r,
    {
        true
    }

    fn collect_types(types: &mut TypeMap) {
        types.register(Self::ident(), Self::ty());
        proof {
            lemma_register_is_union(old(types)@, Self::spec_ident(), Self::spec_ty());
        }
    }
}

impl Serializable for i64 {
    open spec fn spec_ident() -> IdentModel {
        plain_ident("i64"@)
    }

    open spec fn spec_ty() -> TypeModel {
        TypeModel::Primitive(Primitive::I64)
    }

    open spec fn spec_types() -> Map<IdentModel, TypeModel> {
        map![Self::spec_ident() => Self::spec_ty()]
    }

    proof fn lemma_spec_types() {
    }

    fn ident() -> (r: TypeIdent) {
        TypeIdent::from("i64")
    }

    fn ty() -> (r: Type) {
        Type::Primitive(Primitive::I64)
    }

    fn is_primitive() -> (r: bool)
        ensures
            r,
    {
        true
    }

    fn collect_types(types: &mut TypeMap) {
        types.register(Self::ident(), Self::ty());
        proof {
            lemma_register_is_union(old(types)@, Self::spec_ident(), Self::spec_ty());
        }
    }
}

impl Serializable for u8 {
    open spec fn spec_ident() -> IdentModel {
        plain_ident("u8"@)
    }

    open spec fn spec_ty() -> TypeModel {
        TypeModel::Primitive(Primitive::U8)
    }

    open spec fn spec_types() -> Map<IdentModel, TypeModel> {
        map![Self::spec_ident() => Self::spec_ty()]
    }

    proof fn lemma_spec_types() {
    }

    fn ident() -> (r: TypeIdent) {
        TypeIdent::from("u8")
    }

    fn ty() -> (r: Type) {
        Type::Primitive(Primitive::U8)
    }

    fn is_primitive() -> (r: bool)
        ensures
            r,
    {
        true
    }

    fn collect_types(types: &mut TypeMap) {
        types.register(Self::ident(), Self::ty());
        proof {
            lemma_register_is_union(old(types)@, Self::spec_ident(), Self::spec_ty());
        }
    }
}

impl Serializable for u16 {
    open spec fn spec_ident() -> IdentModel {
        plain_ident("u16"@)
    }

    open spec fn spec_ty() -> TypeModel {
        TypeModel::Primitive(Primitive::U16)
    }

    open spec fn spec_types() -> Map<IdentModel, TypeModel> {
        map![Self::spec_ident() => Self::spec_ty()]
    }

    proof fn lemma_spec_types() {
    }

    fn ident() -> (r: TypeIdent) {
        TypeIdent::from("u16")
    }

    fn ty() -> (r: Type) {
        Type::Primitive(Primitive::U16)
    }

    fn is_primitive() -> (r: bool)
        ensures
            r,
    {
        true
    }

    fn collect_types(types: &mut TypeMap) {
        types.register(Self::ident(), Self::ty());
        proof {
            lemma_register_is_union(old(types)@, Self::spec_ident(), Self::spec_ty());
        }
    }
}

impl Serializable for u32 {
    open spec fn spec_ident() -> IdentModel {
        plain_ident("u32"@)
    }

    open spec fn spec_ty() -> TypeModel {
        TypeModel::Primitive(Primitive::U32)
    }

    open spec fn spec_types() -> Map<IdentModel, TypeModel> {
        map![Self::spec_ident() => Self::spec_ty()]
    }

    proof fn lemma_spec_types() {
    }

    fn ident() -> (r: TypeIdent) {
        TypeIdent::from("u32")
    }

    fn ty() -> (r: Type) {
        Type::Primitive(Primitive::U32)
    }

    fn is_primitive() -> (r: bool)
        ensures
            r,
    {
        true
    }

    fn collect_types(types: &mut TypeMap) {
        types.register(Self::ident(), Self::ty());
        proof {
            lemma_register_is_union(old(types)@, Self::spec_ident(), Self::spec_ty());
        }
    }
}

impl Serializable for u64 {
    open spec fn spec_ident() -> IdentModel {
        plain_ident("u64"@)
    }

    open spec fn spec_ty() -> TypeModel {
        TypeModel::Primitive(Primitive::U64)
    }

    open spec fn spec_types() -> Map<IdentModel, TypeModel> {
        map![Self::spec_ident() => Self::spec_ty()]
    }

    proof fn lemma_spec_types() {
    }

    fn ident() -> (r: TypeIdent) {
        TypeIdent::from("u64")
    }

    fn ty() -> (r: Type) {
        Type::Primitive(Primitive::U64)
    }

    fn is_primitive() -> (r: bool)
        ensures
            r,
    {
        true
    }

    fn collect_types(types: &mut TypeMap) {
        types.register(Self::ident(), Self::ty());
        proof {
            lemma_register_is_union(old(types)@, Self::spec_ident(), Self::spec_ty());
        }
    }
}

} // verus!
