use crate::errors::{GenerationError, ProblemModel};
use crate::types::enums::{Type, TypeModel};
use crate::types::order::{
    ident_lt, lemma_ident_asymmetric, lemma_ident_transitive, lemma_order_is_total, Order,
};
use crate::types::type_ident::{IdentModel, TypeIdent};
use vstd::prelude::*;

verus! {

/// The types that a protocol uses, each under its identifier. An identifier
/// is registered at most once; the types are kept in the order of their
/// identifiers.
#[derive(Debug)]
pub struct TypeMap {
    entries: Vec<(TypeIdent, Type)>,
}

/// Whether some entry of `entries` is for `ident`.
pub open spec fn has_ident(entries: Seq<(TypeIdent, Type)>, ident: IdentModel) -> bool {
    exists|i: int| 0 <= i < entries.len() && (#[trigger] entries[i]).0@ == ident
}

/// An index at which `entries` holds `ident`.
pub open spec fn ident_index(entries: Seq<(TypeIdent, Type)>, ident: IdentModel) -> int {
    choose|i: int| 0 <= i < entries.len() && (#[trigger] entries[i]).0@ == ident
}

/// No identifier occurs twice in `entries`.
pub open spec fn distinct_idents(entries: Seq<(TypeIdent, Type)>) -> bool {
    forall|i: int, j: int|
        0 <= i < j < entries.len() ==> (#[trigger] entries[i]).0@ != (#[trigger] entries[j]).0@
}

/// The identifiers of the entries, in order.
pub open spec fn entry_idents(entries: Seq<(TypeIdent, Type)>) -> Seq<IdentModel> {
    entries.map_values(|e: (TypeIdent, Type)| e.0@)
}

/// Each identifier comes before those behind it.
pub open spec fn ascending(idents: Seq<IdentModel>) -> bool {
    forall|i: int, j: int| 0 <= i < j < idents.len() ==> ident_lt(idents[i], idents[j])
}

/// The map from identifier to shape that `entries` stands for.
pub open spec fn types_map(entries: Seq<(TypeIdent, Type)>) -> Map<IdentModel, TypeModel> {
    Map::new(
        |ident: IdentModel| has_ident(entries, ident),
        |ident: IdentModel| entries[ident_index(entries, ident)].1@,
    )
}

/// The map `types` after `ident` was registered with the shape `ty`: the
/// first registration of an identifier stays.
pub open spec fn register_model(
    types: Map<IdentModel, TypeModel>,
    ident: IdentModel,
    ty: TypeModel,
) -> Map<IdentModel, TypeModel> {
    if types.contains_key(ident) {
        types
    } else {
        types.insert(ident, ty)
    }
}

impl View for TypeMap {
    type V = Map<IdentModel, TypeModel>;

    closed spec fn view(&self) -> Map<IdentModel, TypeModel> {
        types_map(self.entries@)
    }
}

impl TypeMap {
    #[verifier::type_invariant]
    spec fn inv(self) -> bool {
        ascending(entry_idents(self.entries@))
    }

    /// The registered identifiers, in ascending order.
    pub closed spec fn idents(&self) -> Seq<IdentModel> {
        entry_idents(self.entries@)
    }

    /// The map without a type.
    pub fn new() -> (r: Self)
        ensures
            r@ == Map::<IdentModel, TypeModel>::empty(),
            r.idents() == Seq::<IdentModel>::empty(),
    {
        let r = TypeMap { entries: Vec::new() };
        assert(r@ =~= Map::<IdentModel, TypeModel>::empty());
        assert(r.idents() =~= Seq::<IdentModel>::empty());
        r
    }

    /// The number of registered types. The identifiers of the map are
    /// those of its domain, each once and in ascending order.
    pub fn len(&self) -> (r: usize)
        ensures
            r == self@.len(),
            r == self.idents().len(),
            self@.dom().finite(),
            ascending(self.idents()),
            forall|ident: IdentModel| self@.contains_key(ident) <==> self.idents().contains(ident),
    {
        proof {
            use_type_invariant(self);
            lemma_ascending_distinct(self.entries@);
            lemma_types_len(self.entries@);
            assert forall|ident: IdentModel| self@.contains_key(ident) <==> self.idents().contains(
                ident,
            ) by {
                if self@.contains_key(ident) {
                    let i = ident_index(self.entries@, ident);
                    assert(self.idents()[i] == ident);
                }
                if self.idents().contains(ident) {
                    let i = choose|i: int| 0 <= i < self.idents().len() && self.idents()[i] == ident;
                    assert(self.entries@[i].0@ == ident);
                }
            }
        }
        self.entries.len()
    }

    /// Whether no type is registered.
    pub fn is_empty(&self) -> (r: bool)
        ensures
            r == (self@.len() == 0),
            self@.dom().finite(),
    {
        self.len() == 0
    }

    /// Where `ident` stands among the entries: the position of the first
    /// entry that does not come before it, and whether that entry is for
    /// `ident`.
    fn position(&self, ident: &TypeIdent) -> (r: (usize, bool))
        ensures
            r.0 <= self.entries.len(),
            forall|j: int| 0 <= j < r.0 ==> ident_lt((#[trigger] self.entries[j]).0@, ident@),
            forall|j: int|
                r.0 <= j < self.entries.len() ==> !ident_lt(
                    (#[trigger] self.entries[j]).0@,
                    ident@,
                ),
            r.1 == self@.contains_key(ident@),
            r.1 ==> r.0 < self.entries.len() && self.entries[r.0 as int].0@ == ident@
                && self.entries[r.0 as int].1@ == self@[ident@],
            !r.1 ==> forall|j: int|
                r.0 <= j < self.entries.len() ==> ident_lt(
                    ident@,
                    (#[trigger] self.entries[j]).0@,
                ),
    {
        proof {
            use_type_invariant(self);
            lemma_ascending_distinct(self.entries@);
        }
        let ghost idents = entry_idents(self.entries@);
        let mut i: usize = 0;
        while i < self.entries.len()
            invariant
                i <= self.entries.len(),
                idents == entry_idents(self.entries@),
                ascending(idents),
                distinct_idents(self.entries@),
                forall|j: int| 0 <= j < i ==> ident_lt((#[trigger] self.entries[j]).0@, ident@),
            decreases self.entries.len() - i,
        {
            let order = self.entries[i].0.order(ident);
            proof {
                lemma_order_is_total(self.entries[i as int].0@, ident@, ident@);
            }
            match order {
                Order::Less => {},
                _ => {
                    proof {
                        let at = self.entries[i as int].0@;
                        assert forall|j: int| i <= j < self.entries.len() implies !ident_lt(
                            (#[trigger] self.entries[j]).0@,
                            ident@,
                        ) && (order != Order::Equal ==> ident_lt(ident@, self.entries[j].0@)) by {
                            let other = self.entries[j].0@;
                            assert(idents[i as int] == at);
                            assert(idents[j] == other);
                            if ident_lt(other, ident@) {
                                if j > i {
                                    lemma_ident_transitive(at, other, ident@);
                                }
                                lemma_ident_asymmetric(at, ident@);
                            }
                            if order != Order::Equal {
                                lemma_order_is_total(ident@, at, at);
                                if j > i {
                                    lemma_ident_transitive(ident@, at, other);
                                }
                            }
                        }
                        if order == Order::Equal {
                            lemma_entry_type(self.entries@, i as int);
                        } else {
                            assert(!has_ident(self.entries@, ident@)) by {
                                if has_ident(self.entries@, ident@) {
                                    let k = ident_index(self.entries@, ident@);
                                    if k < i {
                                        lemma_ident_asymmetric(ident@, ident@);
                                    } else {
                                        lemma_ident_asymmetric(ident@, ident@);
                                    }
                                }
                            }
                        }
                    }
                    return (i, order == Order::Equal);
                },
            }
            i += 1;
        }
        proof {
            assert(!has_ident(self.entries@, ident@)) by {
                if has_ident(self.entries@, ident@) {
                    let k = ident_index(self.entries@, ident@);
                    lemma_ident_asymmetric(ident@, ident@);
                }
            }
        }
        (i, false)
    }

    /// Whether `ident` is registered.
    pub fn contains_key(&self, ident: &TypeIdent) -> (r: bool)
        ensures
            r == self@.contains_key(ident@),
    {
        self.position(ident).1
    }

    /// The shape registered under `ident`, if there is one.
    pub fn get(&self, ident: &TypeIdent) -> (r: Option<&Type>)
        ensures
            r is Some <==> self@.contains_key(ident@),
            r matches Some(ty) ==> ty@ == self@[ident@],
    {
        let (i, found) = self.position(ident);
        if found {
            Some(&self.entries[i].1)
        } else {
            None
        }
    }

    /// The identifier at the position `i` of the ascending order.
    pub fn ident_at(&self, i: usize) -> (r: &TypeIdent)
        requires
            i < self.idents().len(),
        ensures
            r@ == self.idents()[i as int],
            self@.contains_key(r@),
    {
        proof {
            use_type_invariant(self);
            lemma_ascending_distinct(self.entries@);
            lemma_entry_type(self.entries@, i as int);
        }
        &self.entries[i].0
    }

    /// The shape of the identifier at the position `i` of the ascending
    /// order.
    pub fn type_at(&self, i: usize) -> (r: &Type)
        requires
            i < self.idents().len(),
        ensures
            self@.contains_key(self.idents()[i as int]),
            r@ == self@[self.idents()[i as int]],
    {
        proof {
            use_type_invariant(self);
            lemma_ascending_distinct(self.entries@);
            lemma_entry_type(self.entries@, i as int);
        }
        &self.entries[i].1
    }

    /// Registers `ty` under `ident` unless the identifier is registered
    /// already, and says whether it did. A new identifier takes its place
    /// in the ascending order.
    pub fn register(&mut self, ident: TypeIdent, ty: Type) -> (r: bool)
        ensures
            r == !old(self)@.contains_key(ident@),
            final(self)@ == register_model(old(self)@, ident@, ty@),
            ascending(final(self).idents()),
            !r ==> final(self).idents() == old(self).idents(),
            r ==> exists|k: int|
                0 <= k <= old(self).idents().len() && final(self).idents() == old(
                    self,
                ).idents().insert(k, ident@),
    {
        proof {
            use_type_invariant(&*self);
            lemma_ascending_distinct(self.entries@);
        }
        let (k, found) = self.position(&ident);
        if found {
            return false;
        }
        let ghost before = self.entries@;
        let ghost key = ident@;
        let ghost value = ty@;
        let mut entries: Vec<(TypeIdent, Type)> = Vec::new();
        std::mem::swap(&mut entries, &mut self.entries);
        entries.insert(k, (ident, ty));
        proof {
            lemma_insert_type(before, entries@, k as int, key, value);
            assert(entry_idents(entries@) =~= entry_idents(before).insert(k as int, key));
            let after = entry_idents(entries@);
            assert forall|i: int, j: int| 0 <= i < j < after.len() implies ident_lt(
                after[i],
                after[j],
            ) by {
                let old_idents = entry_idents(before);
                if j < k {
                    assert(after[i] == old_idents[i] && after[j] == old_idents[j]);
                } else if j == k {
                    assert(after[i] == before[i].0@);
                } else if i < k {
                    assert(after[i] == old_idents[i] && after[j] == old_idents[j - 1]);
                } else if i == k {
                    assert(after[j] == before[j - 1].0@);
                } else {
                    assert(after[i] == old_idents[i - 1] && after[j] == old_idents[j - 1]);
                }
            }
        }
        self.entries = entries;
        assert(self.idents() == old(self).idents().insert(k as int, key));
        true
    }

    /// Registers `ty` under `ident` unless the identifier is registered
    /// already, and says whether it did. An identifier that is registered
    /// with another shape is an error, which leaves the map as it is.
    pub fn register_same(&mut self, ident: TypeIdent, ty: Type) -> (r: Result<
        bool,
        GenerationError,
    >)
        ensures
            r is Err <==> old(self)@.contains_key(ident@) && old(self)@[ident@] != ty@,
            r matches Err(e) ==> e@ == ProblemModel::Conflicting(ident@) && final(self)@ == old(
                self,
            )@ && final(self).idents() == old(self).idents(),
            r matches Ok(added) ==> added == !old(self)@.contains_key(ident@) && final(self)@
                == register_model(old(self)@, ident@, ty@),
    {
        match self.get(&ident) {
            Some(registered) => {
                if *registered == ty {
                    Ok(false)
                } else {
                    Err(GenerationError::ConflictingType(ident))
                }
            },
            None => Ok(self.register(ident, ty)),
        }
    }
}

/// Entries in ascending order hold no identifier twice.
pub proof fn lemma_ascending_distinct(entries: Seq<(TypeIdent, Type)>)
    requires
        ascending(entry_idents(entries)),
    ensures
        distinct_idents(entries),
{
    assert forall|i: int, j: int| 0 <= i < j < entries.len() implies (#[trigger] entries[i]).0@ != (
    #[trigger] entries[j]).0@ by {
        assert(ident_lt(entry_idents(entries)[i], entry_idents(entries)[j]));
        if entries[i].0@ == entries[j].0@ {
            lemma_ident_asymmetric(entries[i].0@, entries[j].0@);
        }
    }
}

/// With distinct identifiers, the entry at `i` gives the shape of its
/// identifier.
pub proof fn lemma_entry_type(entries: Seq<(TypeIdent, Type)>, i: int)
    requires
        distinct_idents(entries),
        0 <= i < entries.len(),
    ensures
        types_map(entries).contains_key(entries[i].0@),
        types_map(entries)[entries[i].0@] == entries[i].1@,
{
    let t = entries[i].0@;
    assert(has_ident(entries, t));
    let k = ident_index(entries, t);
    assert(k == i);
}

/// Putting in an entry for a new identifier adds it to the map.
proof fn lemma_insert_type(
    before: Seq<(TypeIdent, Type)>,
    after: Seq<(TypeIdent, Type)>,
    k: int,
    ident: IdentModel,
    ty: TypeModel,
)
    requires
        distinct_idents(before),
        !has_ident(before, ident),
        0 <= k <= before.len(),
        after.len() == before.len() + 1,
        after[k].0@ == ident,
        after[k].1@ == ty,
        forall|j: int| 0 <= j < k ==> after[j] == before[j],
        forall|j: int| k < j < after.len() ==> after[j] == before[j - 1],
    ensures
        distinct_idents(after),
        types_map(after) == types_map(before).insert(ident, ty),
{
    assert forall|a: int, b: int| 0 <= a < b < after.len() implies (#[trigger] after[a]).0@ != (
    #[trigger] after[b]).0@ by {
        let x = if a < k {
            a
        } else {
            a - 1
        };
        let y = if b < k {
            b
        } else {
            b - 1
        };
        if a != k {
            assert(after[a] == before[x]);
        }
        if b != k {
            assert(after[b] == before[y]);
        }
    }
    let lhs = types_map(after);
    let rhs = types_map(before).insert(ident, ty);
    assert forall|key: IdentModel| lhs.contains_key(key) <==> rhs.contains_key(key) by {
        if lhs.contains_key(key) {
            let j = ident_index(after, key);
            if j < k {
                assert(before[j].0@ == key);
            } else if j > k {
                assert(before[j - 1].0@ == key);
            }
        }
        if rhs.contains_key(key) {
            if key != ident {
                let j = ident_index(before, key);
                if j < k {
                    assert(after[j].0@ == key);
                } else {
                    assert(after[j + 1].0@ == key);
                }
            } else {
                assert(after[k].0@ == key);
            }
        }
    }
    assert forall|key: IdentModel| lhs.contains_key(key) implies lhs[key] == rhs[key] by {
        let j = ident_index(after, key);
        lemma_entry_type(after, j);
        if j < k {
            lemma_entry_type(before, j);
        } else if j > k {
            lemma_entry_type(before, j - 1);
        }
    }
    assert(lhs =~= rhs);
}

/// With distinct identifiers, the map has as many keys as there are entries.
pub proof fn lemma_types_len(entries: Seq<(TypeIdent, Type)>)
    requires
        distinct_idents(entries),
    ensures
        types_map(entries).dom().finite(),
        types_map(entries).dom().len() == entries.len(),
    decreases entries.len(),
{
    if entries.len() == 0 {
        assert(types_map(entries).dom() =~= Set::<IdentModel>::empty());
    } else {
        let init = entries.drop_last();
        let last = entries.last();
        assert(distinct_idents(init)) by {
            assert forall|i: int, j: int| 0 <= i < j < init.len() implies (#[trigger] init[i]).0@
                != (#[trigger] init[j]).0@ by {
                assert(init[i] == entries[i]);
                assert(init[j] == entries[j]);
            }
        }
        lemma_types_len(init);
        assert(!has_ident(init, last.0@)) by {
            if has_ident(init, last.0@) {
                let j = ident_index(init, last.0@);
                assert(init[j] == entries[j]);
                assert(entries[entries.len() - 1] == last);
            }
        }
        lemma_insert_type(init, entries, init.len() as int, last.0@, last.1@);
        assert(types_map(entries).dom() =~= types_map(init).dom().insert(last.0@));
    }
}

} // verus!
