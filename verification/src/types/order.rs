//! The order of type identifiers: by name, then by the generic arguments
//! from left to right.
use crate::strings::chars_of;
use crate::types::type_ident::{IdentModel, TypeIdent};
use std::cmp::Ordering;
use vstd::prelude::*;

verus! {

/// How one value stands to another.
#[derive(Clone, Copy, Debug, PartialEq, Eq, Structural)]
pub enum Order {
    Less,
    Equal,
    Greater,
}

/// Whether `a` comes before `b`, both taken from the position `i` on:
/// at the first position where they differ `a` has the smaller character,
/// or `a` ends there and `b` goes on.
pub open spec fn chars_lt_from(a: Seq<char>, b: Seq<char>, i: int) -> bool
    decreases a.len() - i,
{
    if i < 0 || i >= b.len() {
        false
    } else if i >= a.len() {
        true
    } else if a[i] != b[i] {
        a[i] < b[i]
    } else {
        chars_lt_from(a, b, i + 1)
    }
}

/// Whether the name `a` comes before the name `b`: the order of the
/// dictionary, by the code points of the characters.
pub open spec fn chars_lt(a: Seq<char>, b: Seq<char>) -> bool {
    chars_lt_from(a, b, 0)
}

/// Whether the identifier `a` comes before the identifier `b`: it has the
/// name that comes first or, the names being the same, the arguments that
/// come first.
pub open spec fn ident_lt(a: IdentModel, b: IdentModel) -> bool
    decreases a, 0nat,
{
    chars_lt(a.name, b.name) || (a.name == b.name && idents_lt_from(
        a.generic_args,
        b.generic_args,
        0,
    ))
}

/// Whether the identifiers `a` come before the identifiers `b`, both
/// taken from the position `i` on: at the first position where they differ
/// `a` has the identifier that comes first, or `a` ends there and `b`
/// goes on.
pub open spec fn idents_lt_from(a: Seq<IdentModel>, b: Seq<IdentModel>, i: int) -> bool
    decreases a, a.len() - i,
{
    if i < 0 || i >= b.len() {
        false
    } else if i >= a.len() {
        true
    } else if a[i] != b[i] {
        ident_lt(a[i], b[i])
    } else {
        idents_lt_from(a, b, i + 1)
    }
}

/// How the name `a` stands to the name `b`.
pub open spec fn names_order(a: Seq<char>, b: Seq<char>) -> Order {
    if a == b {
        Order::Equal
    } else if chars_lt(a, b) {
        Order::Less
    } else {
        Order::Greater
    }
}

/// How the identifier `a` stands to the identifier `b`.
pub open spec fn spec_order(a: IdentModel, b: IdentModel) -> Order {
    if a == b {
        Order::Equal
    } else if ident_lt(a, b) {
        Order::Less
    } else {
        Order::Greater
    }
}

/// Of two names at most one comes before the other.
pub proof fn lemma_chars_asymmetric(a: Seq<char>, b: Seq<char>, i: int)
    requires
        chars_lt_from(a, b, i),
    ensures
        !chars_lt_from(b, a, i),
    decreases a.len() - i,
{
    if 0 <= i < a.len() && i < b.len() && a[i] == b[i] {
        lemma_chars_asymmetric(a, b, i + 1);
    }
}

/// What comes before a name that comes before a third one comes before
/// the third.
pub proof fn lemma_chars_transitive(a: Seq<char>, b: Seq<char>, c: Seq<char>, i: int)
    requires
        chars_lt_from(a, b, i),
        chars_lt_from(b, c, i),
    ensures
        chars_lt_from(a, c, i),
    decreases a.len() - i,
{
    if 0 <= i < a.len() && i < b.len() && i < c.len() && a[i] == b[i] && b[i] == c[i] {
        lemma_chars_transitive(a, b, c, i + 1);
    }
}

/// Names of which neither comes before the other are the same from the
/// position `i` on.
pub proof fn lemma_chars_total(a: Seq<char>, b: Seq<char>, i: int)
    requires
        0 <= i <= a.len(),
        i <= b.len(),
        !chars_lt_from(a, b, i),
        !chars_lt_from(b, a, i),
    ensures
        a.len() == b.len(),
        forall|j: int| i <= j < a.len() ==> a[j] == b[j],
    decreases a.len() - i,
{
    if i < a.len() && i < b.len() {
        lemma_chars_total(a, b, i + 1);
    }
}

/// Of two identifiers at most one comes before the other.
pub proof fn lemma_ident_asymmetric(a: IdentModel, b: IdentModel)
    requires
        ident_lt(a, b),
    ensures
        !ident_lt(b, a),
    decreases a, 0nat,
{
    if chars_lt(a.name, b.name) {
        lemma_chars_asymmetric(a.name, b.name, 0);
    } else {
        lemma_idents_asymmetric(a.generic_args, b.generic_args, 0);
        if chars_lt(b.name, a.name) {
            lemma_chars_asymmetric(b.name, a.name, 0);
        }
    }
}

/// Of two sequences of identifiers at most one comes before the other.
pub proof fn lemma_idents_asymmetric(a: Seq<IdentModel>, b: Seq<IdentModel>, i: int)
    requires
        idents_lt_from(a, b, i),
    ensures
        !idents_lt_from(b, a, i),
    decreases a, a.len() - i,
{
    if 0 <= i < a.len() && i < b.len() {
        if a[i] == b[i] {
            lemma_idents_asymmetric(a, b, i + 1);
        } else {
            lemma_ident_asymmetric(a[i], b[i]);
        }
    }
}

/// What comes before an identifier that comes before a third one comes
/// before the third.
pub proof fn lemma_ident_transitive(a: IdentModel, b: IdentModel, c: IdentModel)
    requires
        ident_lt(a, b),
        ident_lt(b, c),
    ensures
        ident_lt(a, c),
    decreases a, 0nat,
{
    if chars_lt(a.name, b.name) && chars_lt(b.name, c.name) {
        lemma_chars_transitive(a.name, b.name, c.name, 0);
    } else if !chars_lt(a.name, b.name) && !chars_lt(b.name, c.name) {
        lemma_idents_transitive(a.generic_args, b.generic_args, c.generic_args, 0);
    }
}

/// The same of sequences of identifiers.
pub proof fn lemma_idents_transitive(
    a: Seq<IdentModel>,
    b: Seq<IdentModel>,
    c: Seq<IdentModel>,
    i: int,
)
    requires
        idents_lt_from(a, b, i),
        idents_lt_from(b, c, i),
    ensures
        idents_lt_from(a, c, i),
    decreases a, a.len() - i,
{
    if 0 <= i < a.len() && i < b.len() && i < c.len() {
        if a[i] == b[i] && b[i] == c[i] {
            lemma_idents_transitive(a, b, c, i + 1);
        } else if a[i] != b[i] && b[i] != c[i] {
            lemma_ident_transitive(a[i], b[i], c[i]);
            if a[i] == c[i] {
                lemma_ident_asymmetric(a[i], b[i]);
            }
        }
    }
}

/// Of two different identifiers one comes before the other.
pub proof fn lemma_ident_total(a: IdentModel, b: IdentModel)
    requires
        !ident_lt(a, b),
        !ident_lt(b, a),
    ensures
        a == b,
    decreases a, 0nat,
{
    lemma_chars_total(a.name, b.name, 0);
    assert(a.name =~= b.name);
    lemma_idents_total(a.generic_args, b.generic_args, 0);
    assert(a.generic_args =~= b.generic_args);
}

/// Sequences of identifiers of which neither comes before the other are
/// the same from the position `i` on.
pub proof fn lemma_idents_total(a: Seq<IdentModel>, b: Seq<IdentModel>, i: int)
    requires
        0 <= i <= a.len(),
        i <= b.len(),
        !idents_lt_from(a, b, i),
        !idents_lt_from(b, a, i),
    ensures
        a.len() == b.len(),
        forall|j: int| i <= j < a.len() ==> a[j] == b[j],
    decreases a, a.len() - i,
{
    if i < a.len() && i < b.len() {
        if a[i] != b[i] {
            lemma_ident_total(a[i], b[i]);
        }
        lemma_idents_total(a, b, i + 1);
    }
}

/// The identifiers are in a strict total order: no identifier comes before
/// itself, of two different ones exactly one comes before the other, and
/// what comes before an identifier comes before all that this one comes
/// before.
pub proof fn lemma_order_is_total(a: IdentModel, b: IdentModel, c: IdentModel)
    ensures
        spec_order(a, a) == Order::Equal,
        spec_order(a, b) == Order::Equal <==> a == b,
        spec_order(a, b) == Order::Less <==> spec_order(b, a) == Order::Greater,
        spec_order(a, b) == Order::Less && spec_order(b, c) == Order::Less ==> spec_order(a, c)
            == Order::Less,
{
    if ident_lt(a, b) {
        lemma_ident_asymmetric(a, b);
    }
    if ident_lt(b, a) {
        lemma_ident_asymmetric(b, a);
    }
    if !ident_lt(a, b) && !ident_lt(b, a) {
        lemma_ident_total(a, b);
    }
    if ident_lt(a, b) && ident_lt(b, c) {
        lemma_ident_transitive(a, b, c);
        if a == c {
            lemma_ident_asymmetric(a, b);
        }
    }
}

/// How the name `a` stands to the name `b`.
pub fn order_names(a: &str, b: &str) -> (r: Order)
    ensures
        r == names_order(a@, b@),
{
    let x = chars_of(a);
    let y = chars_of(b);
    let mut i: usize = 0;
    while i < x.len() && i < y.len()
        invariant
            x@ == a@,
            y@ == b@,
            i <= x.len(),
            i <= y.len(),
            forall|j: int| 0 <= j < i ==> x[j] == y[j],
            chars_lt_from(a@, b@, i as int) == chars_lt(a@, b@),
        decreases x.len() - i,
    {
        if x[i] != y[i] {
            return if x[i] < y[i] {
                Order::Less
            } else {
                Order::Greater
            };
        }
        i += 1;
    }
    if x.len() == y.len() {
        assert(a@ =~= b@);
        Order::Equal
    } else if i == x.len() {
        Order::Less
    } else {
        Order::Greater
    }
}

impl TypeIdent {
    /// How the identifier stands to `other` in the order of identifiers.
    pub fn order(&self, other: &Self) -> (r: Order)
        ensures
            r == spec_order(self@, other@),
        decreases self,
    {
        let by_name = order_names(self.name.as_str(), other.name.as_str());
        match by_name {
            Order::Equal => {},
            _ => {
                return by_name;
            },
        }
        proof {
            if chars_lt(self@.name, self@.name) {
                lemma_chars_asymmetric(self@.name, self@.name, 0);
            }
        }
        let ghost a = self@.generic_args;
        let ghost b = other@.generic_args;
        let mut i: usize = 0;
        while i < self.generic_args.len() && i < other.generic_args.len()
            invariant
                i <= self.generic_args.len(),
                i <= other.generic_args.len(),
                a == self@.generic_args,
                b == other@.generic_args,
                self@.name == other@.name,
                !chars_lt(self@.name, other@.name),
                forall|j: int| 0 <= j < i ==> a[j] == b[j],
                idents_lt_from(a, b, i as int) == idents_lt_from(a, b, 0),
            decreases self.generic_args.len() - i,
        {
            assert(a[i as int] == self.generic_args[i as int]@);
            assert(b[i as int] == other.generic_args[i as int]@);
            let by_argument = self.generic_args[i].order(&other.generic_args[i]);
            match by_argument {
                Order::Equal => {},
                _ => {
                    return by_argument;
                },
            }
            i += 1;
        }
        if self.generic_args.len() == other.generic_args.len() {
            assert(a =~= b);
            Order::Equal
        } else if i == self.generic_args.len() {
            Order::Less
        } else {
            Order::Greater
        }
    }
}

impl PartialOrd for TypeIdent {
    fn partial_cmp(&self, other: &Self) -> (r: Option<Ordering>) {
        match self.order(other) {
            Order::Less => Some(Ordering::Less),
            Order::Equal => Some(Ordering::Equal),
            Order::Greater => Some(Ordering::Greater),
        }
    }
}

impl vstd::std_specs::cmp::PartialOrdSpecImpl for TypeIdent {
    open spec fn obeys_partial_cmp_spec() -> bool {
        true
    }

    open spec fn partial_cmp_spec(&self, other: &Self) -> Option<Ordering> {
        match spec_order(self@, other@) {
            Order::Less => Some(Ordering::Less),
            Order::Equal => Some(Ordering::Equal),
            Order::Greater => Some(Ordering::Greater),
        }
    }
}

} // verus!
