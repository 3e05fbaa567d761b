//! The description of types that is independent of any host or guest
//! language: identifiers, shapes and serialization options.
pub mod enums;
pub mod native_modules;
pub mod order;
pub mod primitive;
pub mod references;
pub mod structs;
pub mod type_ident;
pub mod type_map;

pub use enums::{
    Enum, EnumModel, EnumOptions, EnumOptionsModel, Tagging, TaggingModel, Type, TypeModel,
    Variant, VariantAttrs, VariantAttrsModel, VariantModel,
};
pub use native_modules::NativeModules;
pub use order::Order;
pub use primitive::Primitive;
pub use structs::{
    Field, FieldAttrs, FieldAttrsModel, FieldModel, Struct, StructModel, StructOptions,
    StructOptionsModel,
};
pub use type_ident::{IdentModel, TypeIdent};
pub use type_map::TypeMap;
