use vstd::prelude::*;

verus! {

/// The canonical name of a type together with the identifiers of its generic
/// arguments. Two declarations with the same identifier are the same type.
#[derive(Debug, Eq, Ord)]
pub struct TypeIdent {
    pub name: String,
    pub generic_args: Vec<TypeIdent>,
}

/// The mathematical value of a [`TypeIdent`].
pub ghost struct IdentModel {
    pub name: Seq<char>,
    pub generic_args: Seq<IdentModel>,
}

/// The value of an identifier: its name and the values of its arguments, in
/// order.
pub open spec fn ident_model(t: TypeIdent) -> IdentModel
    decreases t,
{
    IdentModel {
        name: t.name@,
        generic_args: Seq::new(
            t.generic_args.len() as nat,
            |i: int|
                if 0 <= i < t.generic_args.len() {
                    ident_model(t.generic_args[i])
                } else {
                    arbitrary()
                },
        ),
    }
}

impl View for TypeIdent {
    type V = IdentModel;

    open spec fn view(&self) -> IdentModel {
        ident_model(*self)
    }
}

/// The values of a sequence of identifiers.
pub open spec fn idents_view(s: Seq<TypeIdent>) -> Seq<IdentModel> {
    s.map_values(|t: TypeIdent| t@)
}

/// The views of a sequence of strings.
pub open spec fn strings_view(s: Seq<String>) -> Seq<Seq<char>> {
    s.map_values(|t: String| t@)
}

/// A copy of the strings `lines`.
pub fn clone_strings(lines: &Vec<String>) -> (r: Vec<String>)
    ensures
        strings_view(r@) == strings_view(lines@),
{
    let mut copy: Vec<String> = Vec::new();
    let mut i: usize = 0;
    while i < lines.len()
        invariant
            i <= lines.len(),
            copy.len() == i,
            forall|j: int| 0 <= j < i ==> copy[j]@ == lines[j]@,
        decreases lines.len() - i,
    {
        copy.push(lines[i].clone());
        i += 1;
    }
    assert(strings_view(copy@) =~= strings_view(lines@));
    copy
}

/// Whether two lists of strings hold the same strings in the same order.
pub fn same_strings(a: &Vec<String>, b: &Vec<String>) -> (r: bool)
    ensures
        r == (strings_view(a@) == strings_view(b@)),
{
    if a.len() != b.len() {
        assert(strings_view(a@).len() != strings_view(b@).len());
        return false;
    }
    let mut i: usize = 0;
    while i < a.len()
        invariant
            i <= a.len(),
            a.len() == b.len(),
            forall|j: int| 0 <= j < i ==> a[j]@ == b[j]@,
        decreases a.len() - i,
    {
        if !(a[i] == b[i]) {
            assert(strings_view(a@)[i as int] != strings_view(b@)[i as int]);
            return false;
        }
        i += 1;
    }
    assert(strings_view(a@) =~= strings_view(b@));
    true
}

/// Whether two lists of identifiers hold the same identifiers in the same
/// order.
pub fn same_idents(a: &Vec<TypeIdent>, b: &Vec<TypeIdent>) -> (r: bool)
    ensures
        r == (idents_view(a@) == idents_view(b@)),
{
    if a.len() != b.len() {
        assert(idents_view(a@).len() != idents_view(b@).len());
        return false;
    }
    let mut i: usize = 0;
    while i < a.len()
        invariant
            i <= a.len(),
            a.len() == b.len(),
            forall|j: int| 0 <= j < i ==> a[j]@ == b[j]@,
        decreases a.len() - i,
    {
        if !(a[i] == b[i]) {
            assert(idents_view(a@)[i as int] != idents_view(b@)[i as int]);
            return false;
        }
        i += 1;
    }
    assert(idents_view(a@) =~= idents_view(b@));
    true
}

/// A copy of the identifiers `idents`.
pub fn clone_idents(idents: &Vec<TypeIdent>) -> (r: Vec<TypeIdent>)
    ensures
        idents_view(r@) == idents_view(idents@),
{
    let mut copy: Vec<TypeIdent> = Vec::new();
    let mut i: usize = 0;
    while i < idents.len()
        invariant
            i <= idents.len(),
            copy.len() == i,
            forall|j: int| 0 <= j < i ==> copy[j]@ == idents[j]@,
        decreases idents.len() - i,
    {
        copy.push(idents[i].clone());
        i += 1;
    }
    assert(idents_view(copy@) =~= idents_view(idents@));
    copy
}

/// An identifier without generic arguments.
pub open spec fn plain_ident(name: Seq<char>) -> IdentModel {
    IdentModel { name, generic_args: Seq::empty() }
}

/// The arguments of an identifier's value are the values of its arguments.
pub proof fn lemma_ident_args(t: TypeIdent)
    ensures
        t@.name == t.name@,
        t@.generic_args == idents_view(t.generic_args@),
{
    assert(t@.generic_args =~= idents_view(t.generic_args@));
}

impl TypeIdent {
    /// The identifier with the given name and generic arguments.
    pub fn new(name: String, generic_args: Vec<TypeIdent>) -> (r: Self)
        ensures
            r@ == (IdentModel { name: name@, generic_args: idents_view(generic_args@) }),
    {
        let r = TypeIdent { name, generic_args };
        proof {
            lemma_ident_args(r);
        }
        r
    }
}

impl<'a> From<&'a str> for TypeIdent {
    /// The identifier with the given name and no generic arguments.
    fn from(name: &'a str) -> (r: TypeIdent)
        ensures
            r@ == plain_ident(name@),
    {
        let r = TypeIdent { name: name.to_owned(), generic_args: Vec::new() };
        assert(r@.generic_args =~= Seq::<IdentModel>::empty());
        r
    }
}

impl<'a> vstd::std_specs::convert::FromSpecImpl<&'a str> for TypeIdent {
    /// The result is told by its view, in the contract of `from`.
    open spec fn obeys_from_spec() -> bool {
        false
    }

    open spec fn from_spec(name: &'a str) -> TypeIdent {
        arbitrary()
    }
}

impl Clone for TypeIdent {
    fn clone(&self) -> (r: Self)
        ensures
            r@ == self@,
        decreases self,
    {
        let mut args: Vec<TypeIdent> = Vec::new();
        let mut i: usize = 0;
        while i < self.generic_args.len()
            invariant
                i <= self.generic_args.len(),
                args.len() == i,
                forall|j: int| 0 <= j < i ==> args[j]@ == self.generic_args[j]@,
            decreases self.generic_args.len() - i,
        {
            args.push(self.generic_args[i].clone());
            i += 1;
        }
        let r = TypeIdent { name: self.name.clone(), generic_args: args };
        assert(r@.generic_args =~= self@.generic_args);
        r
    }
}

impl PartialEq for TypeIdent {
    fn eq(&self, other: &Self) -> (r: bool)
        decreases self,
    {
        if !(self.name == other.name) || self.generic_args.len() != other.generic_args.len() {
            assert(self@.name != other@.name || self@.generic_args.len()
                != other@.generic_args.len());
            return false;
        }
        let mut i: usize = 0;
        while i < self.generic_args.len()
            invariant
                i <= self.generic_args.len(),
                self.generic_args.len() == other.generic_args.len(),
                forall|j: int| 0 <= j < i ==> self.generic_args[j]@ == other.generic_args[j]@,
            decreases self.generic_args.len() - i,
        {
            if !self.generic_args[i].eq(&other.generic_args[i]) {
                assert(self@.generic_args[i as int] != other@.generic_args[i as int]);
                return false;
            }
            i += 1;
        }
        assert(self@.generic_args =~= other@.generic_args);
        true
    }
}

impl vstd::std_specs::cmp::PartialEqSpecImpl for TypeIdent {
    open spec fn obeys_eq_spec() -> bool {
        true
    }

    open spec fn eq_spec(&self, other: &Self) -> bool {
        self@ == other@
    }
}

} // verus!
