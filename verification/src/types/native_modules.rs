use vstd::prelude::*;

verus! {

/// For each emission target that has one, the module in which a type is
/// already defined natively, so that the target's bindings import it instead
/// of generating it. Each target occurs at most once.
#[derive(Debug)]
pub struct NativeModules {
    entries: Vec<(String, String)>,
}

/// Whether some entry of `entries` is for `target`.
pub open spec fn has_target(entries: Seq<(String, String)>, target: Seq<char>) -> bool {
    exists|i: int| 0 <= i < entries.len() && (#[trigger] entries[i]).0@ == target
}

/// An index at which `entries` holds `target`.
pub open spec fn target_index(entries: Seq<(String, String)>, target: Seq<char>) -> int {
    choose|i: int| 0 <= i < entries.len() && (#[trigger] entries[i]).0@ == target
}

/// No target occurs twice in `entries`.
pub open spec fn distinct_targets(entries: Seq<(String, String)>) -> bool {
    forall|i: int, j: int|
        0 <= i < j < entries.len() ==> (#[trigger] entries[i]).0@ != (#[trigger] entries[j]).0@
}

/// The map from target to module that `entries` stands for.
pub open spec fn modules_map(entries: Seq<(String, String)>) -> Map<Seq<char>, Seq<char>> {
    Map::new(
        |target: Seq<char>| has_target(entries, target),
        |target: Seq<char>| entries[target_index(entries, target)].1@,
    )
}

impl View for NativeModules {
    type V = Map<Seq<char>, Seq<char>>;

    closed spec fn view(&self) -> Map<Seq<char>, Seq<char>> {
        modules_map(self.entries@)
    }
}

impl NativeModules {
    #[verifier::type_invariant]
    spec fn inv(self) -> bool {
        distinct_targets(self.entries@)
    }

    /// No overrides.
    pub fn new() -> (r: Self)
        ensures
            r@ == Map::<Seq<char>, Seq<char>>::empty(),
    {
        let r = NativeModules { entries: Vec::new() };
        assert(r@ =~= Map::<Seq<char>, Seq<char>>::empty());
        r
    }

    /// The number of targets with an override.
    pub fn len(&self) -> (r: usize)
        ensures
            r == self@.len(),
            self@.dom().finite(),
    {
        proof {
            use_type_invariant(self);
            lemma_modules_len(self.entries@);
        }
        self.entries.len()
    }

    /// The module that overrides the type for `target`, if there is one.
    pub fn get(&self, target: &str) -> (r: Option<&String>)
        ensures
            r is Some <==> self@.contains_key(target@),
            r matches Some(m) ==> m@ == self@[target@],
    {
        proof {
            use_type_invariant(self);
        }
        let mut i: usize = 0;
        while i < self.entries.len()
            invariant
                i <= self.entries.len(),
                distinct_targets(self.entries@),
                forall|j: int| 0 <= j < i ==> (#[trigger] self.entries[j]).0@ != target@,
            decreases self.entries.len() - i,
        {
            if *self.entries[i].0.as_str() == *target {
                proof {
                    lemma_entry_value(self.entries@, i as int);
                }
                return Some(&self.entries[i].1);
            }
            i += 1;
        }
        None
    }

    /// Sets the module for `target`, replacing the one it had.
    pub fn insert(&mut self, target: String, module: String)
        ensures
            final(self)@ == old(self)@.insert(target@, module@),
    {
        proof {
            use_type_invariant(&*self);
        }
        let ghost before = self.entries@;
        let ghost t = target@;
        let ghost m = module@;
        let mut entries: Vec<(String, String)> = Vec::new();
        std::mem::swap(&mut entries, &mut self.entries);
        let mut i: usize = 0;
        while i < entries.len() && !(entries[i].0 == target)
            invariant
                i <= entries.len(),
                entries@ == before,
                forall|j: int| 0 <= j < i ==> (#[trigger] entries[j]).0@ != target@,
            decreases entries.len() - i,
        {
            i += 1;
        }
        if i < entries.len() {
            entries[i] = (target, module);
            proof {
                lemma_replace(before, entries@, i as int, t, m);
            }
        } else {
            entries.push((target, module));
            proof {
                lemma_append(before, entries@, t, m);
            }
        }
        self.entries = entries;
    }
}

impl Clone for NativeModules {
    fn clone(&self) -> (r: Self)
        ensures
            r@ == self@,
    {
        proof {
            use_type_invariant(self);
        }
        let mut entries: Vec<(String, String)> = Vec::new();
        let mut i: usize = 0;
        while i < self.entries.len()
            invariant
                i <= self.entries.len(),
                entries.len() == i,
                forall|j: int|
                    0 <= j < i ==> (#[trigger] entries[j]).0@ == self.entries[j].0@
                        && entries[j].1@ == self.entries[j].1@,
            decreases self.entries.len() - i,
        {
            entries.push((self.entries[i].0.clone(), self.entries[i].1.clone()));
            i += 1;
        }
        proof {
            lemma_same_entries(self.entries@, entries@);
        }
        NativeModules { entries }
    }
}

impl PartialEq for NativeModules {
    fn eq(&self, other: &Self) -> (r: bool) {
        proof {
            use_type_invariant(self);
        }
        if self.len() != other.len() {
            return false;
        }
        let mut i: usize = 0;
        while i < self.entries.len()
            invariant
                i <= self.entries.len(),
                distinct_targets(self.entries@),
                forall|j: int|
                    0 <= j < i ==> other@.contains_key((#[trigger] self.entries[j]).0@)
                        && other@[self.entries[j].0@] == self.entries[j].1@,
            decreases self.entries.len() - i,
        {
            proof {
                lemma_entry_value(self.entries@, i as int);
            }
            match other.get(self.entries[i].0.as_str()) {
                Some(module) => {
                    if !(*module == self.entries[i].1) {
                        return false;
                    }
                },
                None => {
                    return false;
                },
            }
            i += 1;
        }
        proof {
            assert forall|k: Seq<char>| self@.contains_key(k) implies other@.contains_key(k)
                && other@[k] == self@[k] by {
                let j = target_index(self.entries@, k);
                lemma_entry_value(self.entries@, j);
            }
            vstd::set_lib::lemma_subset_equality(self@.dom(), other@.dom());
            assert(self@ =~= other@);
        }
        true
    }
}

impl vstd::std_specs::cmp::PartialEqSpecImpl for NativeModules {
    open spec fn obeys_eq_spec() -> bool {
        true
    }

    open spec fn eq_spec(&self, other: &Self) -> bool {
        self@ == other@
    }
}

/// Entry lists that agree in the views of their strings stand for the same
/// map.
proof fn lemma_same_entries(a: Seq<(String, String)>, b: Seq<(String, String)>)
    requires
        distinct_targets(a),
        a.len() == b.len(),
        forall|j: int|
            0 <= j < a.len() ==> (#[trigger] b[j]).0@ == a[j].0@ && b[j].1@ == a[j].1@,
    ensures
        distinct_targets(b),
        modules_map(a) == modules_map(b),
{
    assert forall|i: int, j: int| 0 <= i < j < b.len() implies (#[trigger] b[i]).0@ != (
    #[trigger] b[j]).0@ by {
        assert(b[i].0@ == a[i].0@);
        assert(b[j].0@ == a[j].0@);
    }
    let lhs = modules_map(a);
    let rhs = modules_map(b);
    assert forall|k: Seq<char>| lhs.contains_key(k) <==> rhs.contains_key(k) by {
        if lhs.contains_key(k) {
            let j = target_index(a, k);
            assert(b[j].0@ == k);
        }
        if rhs.contains_key(k) {
            let j = target_index(b, k);
            assert(a[j].0@ == k);
        }
    }
    assert forall|k: Seq<char>| lhs.contains_key(k) implies lhs[k] == rhs[k] by {
        let j = target_index(a, k);
        assert(b[j].0@ == k);
        lemma_entry_value(a, j);
        lemma_entry_value(b, j);
    }
    assert(lhs =~= rhs);
}

/// With distinct targets, the entry at `i` gives the value of its target.
pub proof fn lemma_entry_value(entries: Seq<(String, String)>, i: int)
    requires
        distinct_targets(entries),
        0 <= i < entries.len(),
    ensures
        modules_map(entries).contains_key(entries[i].0@),
        modules_map(entries)[entries[i].0@] == entries[i].1@,
{
    let t = entries[i].0@;
    assert(has_target(entries, t));
    let k = target_index(entries, t);
    assert(k == i);
}

/// Replacing the entry for a target sets its value in the map.
proof fn lemma_replace(
    before: Seq<(String, String)>,
    after: Seq<(String, String)>,
    i: int,
    target: Seq<char>,
    module: Seq<char>,
)
    requires
        distinct_targets(before),
        0 <= i < before.len(),
        before[i].0@ == target,
        after.len() == before.len(),
        after[i].0@ == target,
        after[i].1@ == module,
        forall|j: int| 0 <= j < before.len() && j != i ==> after[j] == before[j],
    ensures
        distinct_targets(after),
        modules_map(after) == modules_map(before).insert(target, module),
{
    assert forall|a: int, b: int| 0 <= a < b < after.len() implies (#[trigger] after[a]).0@ != (
    #[trigger] after[b]).0@ by {
        assert(after[a].0@ == before[a].0@);
        assert(after[b].0@ == before[b].0@);
    }
    let lhs = modules_map(after);
    let rhs = modules_map(before).insert(target, module);
    assert forall|k: Seq<char>| lhs.contains_key(k) <==> rhs.contains_key(k) by {
        if lhs.contains_key(k) {
            let j = target_index(after, k);
            assert(before[j].0@ == k);
        }
        if rhs.contains_key(k) {
            if k != target {
                let j = target_index(before, k);
                assert(after[j].0@ == k);
            } else {
                assert(after[i].0@ == k);
            }
        }
    }
    assert forall|k: Seq<char>| lhs.contains_key(k) implies lhs[k] == rhs[k] by {
        let j = target_index(after, k);
        lemma_entry_value(after, j);
        if j != i {
            lemma_entry_value(before, j);
        }
    }
    assert(lhs =~= rhs);
}

/// Appending an entry for a new target adds it to the map.
proof fn lemma_append(
    before: Seq<(String, String)>,
    after: Seq<(String, String)>,
    target: Seq<char>,
    module: Seq<char>,
)
    requires
        distinct_targets(before),
        !has_target(before, target),
        after.len() == before.len() + 1,
        after[before.len() as int].0@ == target,
        after[before.len() as int].1@ == module,
        forall|j: int| 0 <= j < before.len() ==> after[j] == before[j],
    ensures
        distinct_targets(after),
        modules_map(after) == modules_map(before).insert(target, module),
{
    let n = before.len() as int;
    assert forall|a: int, b: int| 0 <= a < b < after.len() implies (#[trigger] after[a]).0@ != (
    #[trigger] after[b]).0@ by {
        assert(after[a] == before[a]);
        if b < n {
            assert(after[b] == before[b]);
        } else {
            assert(before[a].0@ != target);
        }
    }
    let lhs = modules_map(after);
    let rhs = modules_map(before).insert(target, module);
    assert forall|k: Seq<char>| lhs.contains_key(k) <==> rhs.contains_key(k) by {
        if lhs.contains_key(k) {
            let j = target_index(after, k);
            if j < n {
                assert(before[j].0@ == k);
            }
        }
        if rhs.contains_key(k) {
            if k != target {
                let j = target_index(before, k);
                assert(after[j].0@ == k);
            } else {
                assert(after[n].0@ == k);
            }
        }
    }
    assert forall|k: Seq<char>| lhs.contains_key(k) implies lhs[k] == rhs[k] by {
        let j = target_index(after, k);
        lemma_entry_value(after, j);
        if j < n {
            lemma_entry_value(before, j);
        }
    }
    assert(lhs =~= rhs);
}

/// With distinct targets, the map has as many keys as there are entries.
pub proof fn lemma_modules_len(entries: Seq<(String, String)>)
    requires
        distinct_targets(entries),
    ensures
        modules_map(entries).dom().finite(),
        modules_map(entries).dom().len() == entries.len(),
    decreases entries.len(),
{
    if entries.len() == 0 {
        assert(modules_map(entries).dom() =~= Set::<Seq<char>>::empty());
    } else {
        let init = entries.drop_last();
        let last = entries.last();
        assert(distinct_targets(init)) by {
            assert forall|i: int, j: int| 0 <= i < j < init.len() implies (#[trigger] init[i]).0@
                != (#[trigger] init[j]).0@ by {
                assert(init[i] == entries[i]);
                assert(init[j] == entries[j]);
            }
        }
        lemma_modules_len(init);
        assert(!has_target(init, last.0@)) by {
            if has_target(init, last.0@) {
                let j = target_index(init, last.0@);
                assert(init[j] == entries[j]);
                assert(entries[entries.len() - 1] == last);
            }
        }
        lemma_append(init, entries, last.0@, last.1@);
        assert(modules_map(entries).dom() =~= modules_map(init).dom().insert(last.0@));
    }
}

} // verus!
