use crate::casing::{convert, spec_convert, Casing};
use crate::types::native_modules::NativeModules;
use crate::types::type_ident::{
    clone_strings, same_strings, strings_view, IdentModel, TypeIdent,
};
use vstd::prelude::*;

verus! {

/// The view of an optional string.
pub open spec fn opt_view(s: Option<String>) -> Option<Seq<char>> {
    match s {
        Some(s) => Some(s@),
        None => None,
    }
}

/// The name under which a declared name goes on the wire: the explicit
/// name where one was given, else the declared name in the convention that
/// the declaration inherits.
pub open spec fn spec_wire_name(
    name: Seq<char>,
    rename: Option<Seq<char>>,
    casing: Casing,
) -> Seq<char> {
    match rename {
        Some(explicit) => explicit,
        None => spec_convert(name, casing),
    }
}

/// An explicit name overrides the inherited convention, whatever that is.
pub proof fn lemma_rename_wins(name: Seq<char>, explicit: Seq<char>, casing: Casing)
    ensures
        spec_wire_name(name, Some(explicit), casing) == explicit,
{
}

/// The name under which `name` goes on the wire.
pub fn wire_name(name: &str, rename: &Option<String>, casing: Casing) -> (r: String)
    ensures
        r@ == spec_wire_name(name@, opt_view(*rename), casing),
{
    match rename {
        Some(explicit) => explicit.clone(),
        None => convert(name, casing),
    }
}

/// A copy of an optional string.
pub fn clone_opt(s: &Option<String>) -> (r: Option<String>)
    ensures
        opt_view(r) == opt_view(*s),
{
    match s {
        Some(s) => Some(s.clone()),
        None => None,
    }
}

/// Whether two optional strings are both missing or hold the same string.
pub fn same_opt(a: &Option<String>, b: &Option<String>) -> (r: bool)
    ensures
        r == (opt_view(*a) == opt_view(*b)),
{
    match (a, b) {
        (Some(x), Some(y)) => *x == *y,
        (None, None) => true,
        _ => false,
    }
}

/// What was declared on a field besides its name and type.
#[derive(Debug)]
pub struct FieldAttrs {
    /// The name of the field on the wire, where it was given explicitly.
    pub rename: Option<String>,
    /// Whether the fields of this field's type are merged into the parent.
    pub flatten: bool,
}

/// The mathematical value of [`FieldAttrs`].
pub ghost struct FieldAttrsModel {
    pub rename: Option<Seq<char>>,
    pub flatten: bool,
}

impl View for FieldAttrs {
    type V = FieldAttrsModel;

    open spec fn view(&self) -> FieldAttrsModel {
        FieldAttrsModel { rename: opt_view(self.rename), flatten: self.flatten }
    }
}

impl Default for FieldAttrs {
    fn default() -> (r: Self)
        ensures
            r@ == (FieldAttrsModel { rename: None, flatten: false }),
    {
        FieldAttrs { rename: None, flatten: false }
    }
}

impl Clone for FieldAttrs {
    fn clone(&self) -> (r: Self)
        ensures
            r@ == self@,
    {
        FieldAttrs { rename: clone_opt(&self.rename), flatten: self.flatten }
    }
}

impl PartialEq for FieldAttrs {
    fn eq(&self, other: &Self) -> (r: bool) {
        same_opt(&self.rename, &other.rename) && self.flatten == other.flatten
    }
}

impl vstd::std_specs::cmp::PartialEqSpecImpl for FieldAttrs {
    open spec fn obeys_eq_spec() -> bool {
        true
    }

    open spec fn eq_spec(&self, other: &Self) -> bool {
        self@ == other@
    }
}

/// A field of a struct.
#[derive(Debug)]
pub struct Field {
    pub name: String,
    pub ty: TypeIdent,
    pub doc_lines: Vec<String>,
    pub attrs: FieldAttrs,
}

/// The mathematical value of a [`Field`].
pub ghost struct FieldModel {
    pub name: Seq<char>,
    pub ty: IdentModel,
    pub doc_lines: Seq<Seq<char>>,
    pub attrs: FieldAttrsModel,
}

impl View for Field {
    type V = FieldModel;

    open spec fn view(&self) -> FieldModel {
        FieldModel {
            name: self.name@,
            ty: self.ty@,
            doc_lines: strings_view(self.doc_lines@),
            attrs: self.attrs@,
        }
    }
}

impl Clone for Field {
    fn clone(&self) -> (r: Self)
        ensures
            r@ == self@,
    {
        Field {
            name: self.name.clone(),
            ty: self.ty.clone(),
            doc_lines: clone_strings(&self.doc_lines),
            attrs: self.attrs.clone(),
        }
    }
}

impl PartialEq for Field {
    fn eq(&self, other: &Self) -> (r: bool) {
        self.name == other.name && self.ty == other.ty && same_strings(
            &self.doc_lines,
            &other.doc_lines,
        ) && self.attrs == other.attrs
    }
}

impl vstd::std_specs::cmp::PartialEqSpecImpl for Field {
    open spec fn obeys_eq_spec() -> bool {
        true
    }

    open spec fn eq_spec(&self, other: &Self) -> bool {
        self@ == other@
    }
}

impl Field {
    /// The name of the field on the wire, in a struct whose fields follow
    /// `casing`.
    pub fn wire_name(&self, casing: Casing) -> (r: String)
        ensures
            r@ == spec_wire_name(self@.name, self@.attrs.rename, casing),
    {
        wire_name(self.name.as_str(), &self.attrs.rename, casing)
    }
}

/// The values of a sequence of fields.
pub open spec fn fields_view(s: Seq<Field>) -> Seq<FieldModel> {
    s.map_values(|f: Field| f@)
}

/// A copy of the fields `fields`.
pub fn clone_fields(fields: &Vec<Field>) -> (r: Vec<Field>)
    ensures
        fields_view(r@) == fields_view(fields@),
{
    let mut copy: Vec<Field> = Vec::new();
    let mut i: usize = 0;
    while i < fields.len()
        invariant
            i <= fields.len(),
            copy.len() == i,
            forall|j: int| 0 <= j < i ==> copy[j]@ == fields[j]@,
        decreases fields.len() - i,
    {
        copy.push(fields[i].clone());
        i += 1;
    }
    assert(fields_view(copy@) =~= fields_view(fields@));
    copy
}

/// Whether two lists of fields hold the same fields in the same order.
pub fn same_fields(a: &Vec<Field>, b: &Vec<Field>) -> (r: bool)
    ensures
        r == (fields_view(a@) == fields_view(b@)),
{
    if a.len() != b.len() {
        assert(fields_view(a@).len() != fields_view(b@).len());
        return false;
    }
    let mut i: usize = 0;
    while i < a.len()
        invariant
            i <= a.len(),
            a.len() == b.len(),
            forall|j: int| 0 <= j < i ==> a[j]@ == b[j]@,
        decreases a.len() - i,
    {
        if !(a[i] == b[i]) {
            assert(fields_view(a@)[i as int] != fields_view(b@)[i as int]);
            return false;
        }
        i += 1;
    }
    assert(fields_view(a@) =~= fields_view(b@));
    true
}

/// What was declared on a struct as a whole.
#[derive(Debug)]
pub struct StructOptions {
    /// The convention that the names of the fields follow on the wire.
    pub field_casing: Casing,
    /// The targets for which the struct is not generated but imported.
    pub native_modules: NativeModules,
}

/// The mathematical value of [`StructOptions`].
pub ghost struct StructOptionsModel {
    pub field_casing: Casing,
    pub native_modules: Map<Seq<char>, Seq<char>>,
}

impl View for StructOptions {
    type V = StructOptionsModel;

    open spec fn view(&self) -> StructOptionsModel {
        StructOptionsModel {
            field_casing: self.field_casing,
            native_modules: self.native_modules@,
        }
    }
}

impl Default for StructOptions {
    fn default() -> (r: Self)
        ensures
            r@ == (StructOptionsModel {
                field_casing: Casing::Original,
                native_modules: Map::empty(),
            }),
    {
        StructOptions { field_casing: Casing::Original, native_modules: NativeModules::new() }
    }
}

impl Clone for StructOptions {
    fn clone(&self) -> (r: Self)
        ensures
            r@ == self@,
    {
        StructOptions {
            field_casing: self.field_casing,
            native_modules: self.native_modules.clone(),
        }
    }
}

impl PartialEq for StructOptions {
    fn eq(&self, other: &Self) -> (r: bool) {
        self.field_casing == other.field_casing && self.native_modules == other.native_modules
    }
}

impl vstd::std_specs::cmp::PartialEqSpecImpl for StructOptions {
    open spec fn obeys_eq_spec() -> bool {
        true
    }

    open spec fn eq_spec(&self, other: &Self) -> bool {
        self@ == other@
    }
}

/// A struct: its fields in the order of their declaration.
#[derive(Debug)]
pub struct Struct {
    pub ident: TypeIdent,
    pub fields: Vec<Field>,
    pub doc_lines: Vec<String>,
    pub options: StructOptions,
}

/// The mathematical value of a [`Struct`].
pub ghost struct StructModel {
    pub ident: IdentModel,
    pub fields: Seq<FieldModel>,
    pub doc_lines: Seq<Seq<char>>,
    pub options: StructOptionsModel,
}

impl View for Struct {
    type V = StructModel;

    open spec fn view(&self) -> StructModel {
        StructModel {
            ident: self.ident@,
            fields: fields_view(self.fields@),
            doc_lines: strings_view(self.doc_lines@),
            options: self.options@,
        }
    }
}

impl Clone for Struct {
    fn clone(&self) -> (r: Self)
        ensures
            r@ == self@,
    {
        Struct {
            ident: self.ident.clone(),
            fields: clone_fields(&self.fields),
            doc_lines: clone_strings(&self.doc_lines),
            options: self.options.clone(),
        }
    }
}

impl PartialEq for Struct {
    fn eq(&self, other: &Self) -> (r: bool) {
        self.ident == other.ident && same_fields(&self.fields, &other.fields) && same_strings(
            &self.doc_lines,
            &other.doc_lines,
        ) && self.options == other.options
    }
}

impl vstd::std_specs::cmp::PartialEqSpecImpl for Struct {
    open spec fn obeys_eq_spec() -> bool {
        true
    }

    open spec fn eq_spec(&self, other: &Self) -> bool {
        self@ == other@
    }
}

impl Struct {
    /// The names of the fields on the wire, in the order of the fields.
    pub fn field_names(&self) -> (r: Vec<String>)
        ensures
            r.len() == self.fields.len(),
            forall|i: int|
                0 <= i < r.len() ==> (#[trigger] r[i])@ == spec_wire_name(
                    self@.fields[i].name,
                    self@.fields[i].attrs.rename,
                    self@.options.field_casing,
                ),
    {
        let mut names: Vec<String> = Vec::new();
        let mut i: usize = 0;
        while i < self.fields.len()
            invariant
                i <= self.fields.len(),
                names.len() == i,
                forall|j: int|
                    0 <= j < i ==> (#[trigger] names[j])@ == spec_wire_name(
                        self@.fields[j].name,
                        self@.fields[j].attrs.rename,
                        self@.options.field_casing,
                    ),
            decreases self.fields.len() - i,
        {
            names.push(self.fields[i].wire_name(self.options.field_casing));
            i += 1;
        }
        names
    }

    /// Whether some field is merged into the struct that holds it.
    pub fn has_flattened_fields(&self) -> (r: bool)
        ensures
            r == exists|i: int| 0 <= i < self@.fields.len() && (#[trigger] self@.fields[i]).attrs.flatten,
    {
        let mut i: usize = 0;
        while i < self.fields.len()
            invariant
                i <= self.fields.len(),
                forall|j: int| 0 <= j < i ==> !(#[trigger] self@.fields[j]).attrs.flatten,
            decreases self.fields.len() - i,
        {
            if self.fields[i].attrs.flatten {
                assert(self@.fields[i as int].attrs.flatten);
                return true;
            }
            i += 1;
        }
        false
    }
}

} // verus!
