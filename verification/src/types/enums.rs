use crate::casing::Casing;
use crate::types::native_modules::NativeModules;
use crate::types::structs::{
    clone_opt, opt_view, same_opt, spec_wire_name, wire_name, Struct, StructModel,
};
use crate::types::type_ident::{
    clone_idents, clone_strings, idents_view, same_idents, same_strings, strings_view,
    IdentModel, TypeIdent,
};
use crate::types::primitive::Primitive;
use vstd::prelude::*;

verus! {

/// The shape of a type.
#[derive(Debug)]
pub enum Type {
    /// A scalar.
    Primitive(Primitive),
    /// A string of characters.
    String,
    /// The type without a value.
    Unit,
    /// A fixed number of values, by the identifiers of their types.
    Tuple(Vec<TypeIdent>),
    /// A sequence: the container's name and the element's type.
    List(String, TypeIdent),
    /// A collection without duplicates: the container's name and the
    /// element's type.
    SetOf(String, TypeIdent),
    /// A dictionary: the container's name, the key's and the value's type.
    MapOf(String, TypeIdent, TypeIdent),
    /// A wrapper around one value that is serialized as that value: the
    /// wrapper's name and the inner type.
    Container(String, TypeIdent),
    Struct(Struct),
    Enum(Enum),
}

/// What was declared on a variant besides its name and payload.
#[derive(Debug)]
pub struct VariantAttrs {
    /// The convention that the names of the payload's fields follow.
    pub field_casing: Casing,
    /// The name of the variant on the wire, where it was given explicitly.
    pub rename: Option<String>,
}

/// A variant of an enum. Its payload is a unit, a tuple or a struct.
#[derive(Debug)]
pub struct Variant {
    pub name: String,
    pub ty: Type,
    pub doc_lines: Vec<String>,
    pub attrs: VariantAttrs,
}

/// What was declared on an enum as a whole.
#[derive(Debug)]
pub struct EnumOptions {
    /// The convention that the names of the variants follow on the wire.
    pub variant_casing: Casing,
    /// The property that holds the payload, where tag and payload are kept
    /// apart.
    pub content_prop_name: Option<String>,
    /// The property that names the variant, where there is one.
    pub tag_prop_name: Option<String>,
    /// Whether the variant is told by the shape of the payload alone.
    pub untagged: bool,
    /// The targets for which the enum is not generated but imported.
    pub native_modules: NativeModules,
}

/// An enum: its variants in the order of their declaration.
#[derive(Debug)]
pub struct Enum {
    pub ident: TypeIdent,
    pub variants: Vec<Variant>,
    pub doc_lines: Vec<String>,
    pub options: EnumOptions,
}

/// The mathematical value of [`VariantAttrs`].
pub ghost struct VariantAttrsModel {
    pub field_casing: Casing,
    pub rename: Option<Seq<char>>,
}

/// The mathematical value of a [`Variant`].
pub ghost struct VariantModel {
    pub name: Seq<char>,
    pub ty: TypeModel,
    pub doc_lines: Seq<Seq<char>>,
    pub attrs: VariantAttrsModel,
}

/// The mathematical value of [`EnumOptions`].
pub ghost struct EnumOptionsModel {
    pub variant_casing: Casing,
    pub content_prop_name: Option<Seq<char>>,
    pub tag_prop_name: Option<Seq<char>>,
    pub untagged: bool,
    pub native_modules: Map<Seq<char>, Seq<char>>,
}

/// The mathematical value of an [`Enum`].
pub ghost struct EnumModel {
    pub ident: IdentModel,
    pub variants: Seq<VariantModel>,
    pub doc_lines: Seq<Seq<char>>,
    pub options: EnumOptionsModel,
}

/// The mathematical value of a [`Type`].
pub ghost enum TypeModel {
    Primitive(Primitive),
    String,
    Unit,
    Tuple(Seq<IdentModel>),
    List(Seq<char>, IdentModel),
    SetOf(Seq<char>, IdentModel),
    MapOf(Seq<char>, IdentModel, IdentModel),
    Container(Seq<char>, IdentModel),
    Struct(StructModel),
    Enum(EnumModel),
}

impl View for VariantAttrs {
    type V = VariantAttrsModel;

    open spec fn view(&self) -> VariantAttrsModel {
        VariantAttrsModel { field_casing: self.field_casing, rename: opt_view(self.rename) }
    }
}

impl View for EnumOptions {
    type V = EnumOptionsModel;

    open spec fn view(&self) -> EnumOptionsModel {
        EnumOptionsModel {
            variant_casing: self.variant_casing,
            content_prop_name: opt_view(self.content_prop_name),
            tag_prop_name: opt_view(self.tag_prop_name),
            untagged: self.untagged,
            native_modules: self.native_modules@,
        }
    }
}

/// The value of a type's shape.
pub open spec fn type_model(t: Type) -> TypeModel
    decreases t,
{
    match t {
        Type::Primitive(p) => TypeModel::Primitive(p),
        Type::String => TypeModel::String,
        Type::Unit => TypeModel::Unit,
        Type::Tuple(items) => TypeModel::Tuple(idents_view(items@)),
        Type::List(name, item) => TypeModel::List(name@, item@),
        Type::SetOf(name, item) => TypeModel::SetOf(name@, item@),
        Type::MapOf(name, key, value) => TypeModel::MapOf(name@, key@, value@),
        Type::Container(name, inner) => TypeModel::Container(name@, inner@),
        Type::Struct(s) => TypeModel::Struct(s@),
        Type::Enum(e) => TypeModel::Enum(enum_model(e)),
    }
}

/// The value of an enum: the values of its variants, in order.
pub open spec fn enum_model(e: Enum) -> EnumModel
    decreases e,
{
    EnumModel {
        ident: e.ident@,
        variants: Seq::new(
            e.variants.len() as nat,
            |i: int|
                if 0 <= i < e.variants.len() {
                    variant_model(e.variants[i])
                } else {
                    arbitrary()
                },
        ),
        doc_lines: strings_view(e.doc_lines@),
        options: e.options@,
    }
}

/// The value of a variant.
pub open spec fn variant_model(v: Variant) -> VariantModel
    decreases v,
{
    VariantModel {
        name: v.name@,
        ty: type_model(v.ty),
        doc_lines: strings_view(v.doc_lines@),
        attrs: v.attrs@,
    }
}

impl View for Type {
    type V = TypeModel;

    open spec fn view(&self) -> TypeModel {
        type_model(*self)
    }
}

impl View for Enum {
    type V = EnumModel;

    open spec fn view(&self) -> EnumModel {
        enum_model(*self)
    }
}

impl View for Variant {
    type V = VariantModel;

    open spec fn view(&self) -> VariantModel {
        variant_model(*self)
    }
}

/// The values of a sequence of variants.
pub open spec fn variants_view(s: Seq<Variant>) -> Seq<VariantModel> {
    s.map_values(|v: Variant| v@)
}

/// The variants of an enum's value are the values of its variants.
pub proof fn lemma_enum_variants(e: Enum)
    ensures
        e@.variants == variants_view(e.variants@),
{
    assert(e@.variants =~= variants_view(e.variants@));
}

/// How the variant of a serialized enum value is told.
#[derive(Debug, Clone, PartialEq, Eq)]
pub enum Tagging {
    /// The payload stands under the variant's name.
    External,
    /// The payload's fields stand beside a property that names the variant.
    Internal { tag: String },
    /// One property names the variant, another holds the payload.
    Adjacent { tag: String, content: String },
    /// Nothing names the variant: it is the first one, in the order of the
    /// declaration, whose shape takes the value.
    Untagged,
}

/// The mathematical value of a [`Tagging`].
pub ghost enum TaggingModel {
    External,
    Internal { tag: Seq<char> },
    Adjacent { tag: Seq<char>, content: Seq<char> },
    Untagged,
}

impl View for Tagging {
    type V = TaggingModel;

    open spec fn view(&self) -> TaggingModel {
        match self {
            Tagging::External => TaggingModel::External,
            Tagging::Internal { tag } => TaggingModel::Internal { tag: tag@ },
            Tagging::Adjacent { tag, content } => TaggingModel::Adjacent {
                tag: tag@,
                content: content@,
            },
            Tagging::Untagged => TaggingModel::Untagged,
        }
    }
}

impl EnumOptionsModel {
    /// The tagging scheme that the options select: none if they say so;
    /// else by the properties that they name, a tag and a content property
    /// together, a tag property alone, or neither.
    pub open spec fn tagging(self) -> TaggingModel {
        if self.untagged {
            TaggingModel::Untagged
        } else {
            match (self.tag_prop_name, self.content_prop_name) {
                (Some(tag), Some(content)) => TaggingModel::Adjacent { tag, content },
                (Some(tag), None) => TaggingModel::Internal { tag },
                (None, _) => TaggingModel::External,
            }
        }
    }
}

impl EnumOptions {
    /// The tagging scheme that the options select.
    pub fn tagging(&self) -> (r: Tagging)
        ensures
            r@ == self@.tagging(),
    {
        if self.untagged {
            return Tagging::Untagged;
        }
        match &self.tag_prop_name {
            Some(tag) => match &self.content_prop_name {
                Some(content) => Tagging::Adjacent { tag: tag.clone(), content: content.clone() },
                None => Tagging::Internal { tag: tag.clone() },
            },
            None => Tagging::External,
        }
    }
}

impl Variant {
    /// The name of the variant on the wire, in an enum whose variants
    /// follow `casing`.
    pub fn wire_name(&self, casing: Casing) -> (r: String)
        ensures
            r@ == spec_wire_name(self@.name, self@.attrs.rename, casing),
    {
        wire_name(self.name.as_str(), &self.attrs.rename, casing)
    }
}

impl Enum {
    /// The names of the variants on the wire, in the order of the variants.
    pub fn variant_names(&self) -> (r: Vec<String>)
        ensures
            r.len() == self.variants.len(),
            forall|i: int|
                0 <= i < r.len() ==> (#[trigger] r[i])@ == spec_wire_name(
                    self@.variants[i].name,
                    self@.variants[i].attrs.rename,
                    self@.options.variant_casing,
                ),
    {
        let mut names: Vec<String> = Vec::new();
        let mut i: usize = 0;
        while i < self.variants.len()
            invariant
                i <= self.variants.len(),
                names.len() == i,
                forall|j: int|
                    0 <= j < i ==> (#[trigger] names[j])@ == spec_wire_name(
                        self@.variants[j].name,
                        self@.variants[j].attrs.rename,
                        self@.options.variant_casing,
                    ),
            decreases self.variants.len() - i,
        {
            names.push(self.variants[i].wire_name(self.options.variant_casing));
            i += 1;
        }
        names
    }
}

impl Clone for VariantAttrs {
    fn clone(&self) -> (r: Self)
        ensures
            r@ == self@,
    {
        VariantAttrs { field_casing: self.field_casing, rename: clone_opt(&self.rename) }
    }
}

impl Clone for EnumOptions {
    fn clone(&self) -> (r: Self)
        ensures
            r@ == self@,
    {
        EnumOptions {
            variant_casing: self.variant_casing,
            content_prop_name: clone_opt(&self.content_prop_name),
            tag_prop_name: clone_opt(&self.tag_prop_name),
            untagged: self.untagged,
            native_modules: self.native_modules.clone(),
        }
    }
}

impl PartialEq for VariantAttrs {
    fn eq(&self, other: &Self) -> (r: bool) {
        self.field_casing == other.field_casing && same_opt(&self.rename, &other.rename)
    }
}

impl vstd::std_specs::cmp::PartialEqSpecImpl for VariantAttrs {
    open spec fn obeys_eq_spec() -> bool {
        true
    }

    open spec fn eq_spec(&self, other: &Self) -> bool {
        self@ == other@
    }
}

impl PartialEq for EnumOptions {
    fn eq(&self, other: &Self) -> (r: bool) {
        self.variant_casing == other.variant_casing && same_opt(
            &self.content_prop_name,
            &other.content_prop_name,
        ) && same_opt(&self.tag_prop_name, &other.tag_prop_name) && self.untagged
            == other.untagged && self.native_modules == other.native_modules
    }
}

impl vstd::std_specs::cmp::PartialEqSpecImpl for EnumOptions {
    open spec fn obeys_eq_spec() -> bool {
        true
    }

    open spec fn eq_spec(&self, other: &Self) -> bool {
        self@ == other@
    }
}

/// Whether two shapes are the same.
pub fn same_type(a: &Type, b: &Type) -> (r: bool)
    ensures
        r == (a@ == b@),
    decreases a,
{
    match (a, b) {
        (Type::Primitive(p), Type::Primitive(q)) => *p == *q,
        (Type::String, Type::String) => true,
        (Type::Unit, Type::Unit) => true,
        (Type::Tuple(x), Type::Tuple(y)) => same_idents(x, y),
        (Type::List(n, x), Type::List(m, y)) => *n == *m && *x == *y,
        (Type::SetOf(n, x), Type::SetOf(m, y)) => *n == *m && *x == *y,
        (Type::MapOf(n, k, v), Type::MapOf(m, l, w)) => *n == *m && *k == *l && *v == *w,
        (Type::Container(n, x), Type::Container(m, y)) => *n == *m && *x == *y,
        (Type::Struct(s), Type::Struct(t)) => *s == *t,
        (Type::Enum(e), Type::Enum(f)) => same_enum(e, f),
        _ => false,
    }
}

/// Whether two enums are the same.
pub fn same_enum(a: &Enum, b: &Enum) -> (r: bool)
    ensures
        r == (a@ == b@),
    decreases a,
{
    proof {
        lemma_enum_variants(*a);
        lemma_enum_variants(*b);
    }
    if !(a.ident == b.ident) || a.variants.len() != b.variants.len() {
        assert(a@.ident != b@.ident || a@.variants.len() != b@.variants.len());
        return false;
    }
    let mut i: usize = 0;
    while i < a.variants.len()
        invariant
            i <= a.variants.len(),
            a.variants.len() == b.variants.len(),
            a@.variants == variants_view(a.variants@),
            b@.variants == variants_view(b.variants@),
            forall|j: int| 0 <= j < i ==> a.variants[j]@ == b.variants[j]@,
        decreases a.variants.len() - i,
    {
        if !same_variant(&a.variants[i], &b.variants[i]) {
            assert(a@.variants[i as int] != b@.variants[i as int]);
            return false;
        }
        i += 1;
    }
    assert(a@.variants =~= b@.variants);
    same_strings(&a.doc_lines, &b.doc_lines) && a.options == b.options
}

/// Whether two variants are the same.
pub fn same_variant(a: &Variant, b: &Variant) -> (r: bool)
    ensures
        r == (a@ == b@),
    decreases a,
{
    a.name == b.name && same_type(&a.ty, &b.ty) && same_strings(&a.doc_lines, &b.doc_lines)
        && a.attrs == b.attrs
}

impl PartialEq for Type {
    fn eq(&self, other: &Self) -> (r: bool) {
        same_type(self, other)
    }
}

impl vstd::std_specs::cmp::PartialEqSpecImpl for Type {
    open spec fn obeys_eq_spec() -> bool {
        true
    }

    open spec fn eq_spec(&self, other: &Self) -> bool {
        self@ == other@
    }
}

impl PartialEq for Enum {
    fn eq(&self, other: &Self) -> (r: bool) {
        same_enum(self, other)
    }
}

impl vstd::std_specs::cmp::PartialEqSpecImpl for Enum {
    open spec fn obeys_eq_spec() -> bool {
        true
    }

    open spec fn eq_spec(&self, other: &Self) -> bool {
        self@ == other@
    }
}

impl PartialEq for Variant {
    fn eq(&self, other: &Self) -> (r: bool) {
        same_variant(self, other)
    }
}

impl vstd::std_specs::cmp::PartialEqSpecImpl for Variant {
    open spec fn obeys_eq_spec() -> bool {
        true
    }

    open spec fn eq_spec(&self, other: &Self) -> bool {
        self@ == other@
    }
}

/// A copy of the shape `ty`.
pub fn clone_type(ty: &Type) -> (r: Type)
    ensures
        r@ == ty@,
    decreases ty,
{
    match ty {
        Type::Primitive(p) => Type::Primitive(*p),
        Type::String => Type::String,
        Type::Unit => Type::Unit,
        Type::Tuple(items) => Type::Tuple(clone_idents(items)),
        Type::List(name, item) => Type::List(name.clone(), item.clone()),
        Type::SetOf(name, item) => Type::SetOf(name.clone(), item.clone()),
        Type::MapOf(name, key, value) => Type::MapOf(name.clone(), key.clone(), value.clone()),
        Type::Container(name, inner) => Type::Container(name.clone(), inner.clone()),
        Type::Struct(s) => Type::Struct(s.clone()),
        Type::Enum(e) => Type::Enum(clone_enum(e)),
    }
}

/// A copy of the enum `e`.
pub fn clone_enum(e: &Enum) -> (r: Enum)
    ensures
        r@ == e@,
    decreases e,
{
    let mut variants: Vec<Variant> = Vec::new();
    let mut i: usize = 0;
    while i < e.variants.len()
        invariant
            i <= e.variants.len(),
            variants.len() == i,
            forall|j: int| 0 <= j < i ==> variants[j]@ == e.variants[j]@,
        decreases e.variants.len() - i,
    {
        variants.push(clone_variant(&e.variants[i]));
        i += 1;
    }
    let r = Enum {
        ident: e.ident.clone(),
        variants,
        doc_lines: clone_strings(&e.doc_lines),
        options: e.options.clone(),
    };
    proof {
        lemma_enum_variants(r);
        lemma_enum_variants(*e);
        assert(variants_view(r.variants@) =~= variants_view(e.variants@));
    }
    r
}

/// A copy of the variant `v`.
pub fn clone_variant(v: &Variant) -> (r: Variant)
    ensures
        r@ == v@,
    decreases v,
{
    Variant {
        name: v.name.clone(),
        ty: clone_type(&v.ty),
        doc_lines: clone_strings(&v.doc_lines),
        attrs: v.attrs.clone(),
    }
}

impl Clone for Type {
    fn clone(&self) -> (r: Self)
        ensures
            r@ == self@,
    {
        clone_type(self)
    }
}

impl Clone for Enum {
    fn clone(&self) -> (r: Self)
        ensures
            r@ == self@,
    {
        clone_enum(self)
    }
}

impl Clone for Variant {
    fn clone(&self) -> (r: Self)
        ensures
            r@ == self@,
    {
        clone_variant(self)
    }
}

impl Default for VariantAttrs {
    fn default() -> (r: Self)
        ensures
            r@ == (VariantAttrsModel { field_casing: Casing::Original, rename: None }),
    {
        VariantAttrs { field_casing: Casing::Original, rename: None }
    }
}

impl Default for EnumOptions {
    fn default() -> (r: Self)
        ensures
            r@ == (EnumOptionsModel {
                variant_casing: Casing::Original,
                content_prop_name: None,
                tag_prop_name: None,
                untagged: false,
                native_modules: Map::empty(),
            }),
    {
        EnumOptions {
            variant_casing: Casing::Original,
            content_prop_name: None,
            tag_prop_name: None,
            untagged: false,
            native_modules: NativeModules::new(),
        }
    }
}

} // verus!
