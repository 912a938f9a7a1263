//! A collection of values that are found by name.
//!
//! The names stand in one vector and the values in another, each value
//! where its name does, and no name stands twice. What the collection holds
//! is the map from each name to its value.
use vstd::prelude::*;
use vstd::utf8::{encode_utf8, encode_utf8_decode_utf8};

verus! {

/// Says whether two string slices are made of the same characters.
pub(crate) fn same_str(a: &str, b: &str) -> (same: bool)
    ensures
        same == (a@ == b@),
{
    let x = a.as_bytes();
    let y = b.as_bytes();
    proof {
        encode_utf8_decode_utf8(a@);
        encode_utf8_decode_utf8(b@);
    }
    if x.len() != y.len() {
        return false;
    }
    let mut i: usize = 0;
    while i < x.len()
        invariant
            i <= x.len(),
            x.len() == y.len(),
            x@ == encode_utf8(a@),
            y@ == encode_utf8(b@),
            forall|j: int| 0 <= j < i ==> x@[j] == y@[j],
        decreases x.len() - i,
    {
        if x[i] != y[i] {
            return false;
        }
        i = i + 1;
    }
    assert(x@ =~= y@);
    true
}

/// Some entry of `names` is `name`.
pub(crate) open spec fn has_name(names: Seq<String>, name: Seq<char>) -> bool {
    exists|i: int| 0 <= i < names.len() && (#[trigger] names[i])@ == name
}

/// Where `name` stands among `names`.
pub(crate) open spec fn position(names: Seq<String>, name: Seq<char>) -> int {
    choose|i: int| 0 <= i < names.len() && (#[trigger] names[i])@ == name
}

/// No name occurs twice.
pub(crate) open spec fn distinct(names: Seq<String>) -> bool {
    forall|i: int, j: int|
        0 <= i < j < names.len() ==> (#[trigger] names[i])@ != (#[trigger] names[j])@
}

/// The map from each of the names to the value that stands where the name
/// does.
pub(crate) open spec fn entries_map<T>(names: Seq<String>, values: Seq<T>) -> Map<Seq<char>, T> {
    Map::new(
        |name: Seq<char>| has_name(names, name),
        |name: Seq<char>| values[position(names, name)],
    )
}

/// With distinct names, the map knows each name and gives it the value that
/// stands where the name does.
pub(crate) proof fn lemma_found<T>(names: Seq<String>, values: Seq<T>, i: int)
    requires
        distinct(names),
        0 <= i < names.len(),
    ensures
        entries_map(names, values).contains_key(names[i]@),
        entries_map(names, values)[names[i]@] == values[i],
{
    let name = names[i]@;
    assert(has_name(names, name));
    let j = position(names, name);
    assert(i == j);
}

/// The map knows no name that is not among the names.
pub(crate) proof fn lemma_absent<T>(names: Seq<String>, values: Seq<T>, name: Seq<char>)
    requires
        forall|i: int| 0 <= i < names.len() ==> (#[trigger] names[i])@ != name,
    ensures
        !entries_map(names, values).contains_key(name),
{
}

/// A new name and its value behind the last entry: the names stay
/// distinct, and the map gains the name.
pub(crate) proof fn lemma_push<T>(names: Seq<String>, values: Seq<T>, name: String, value: T)
    requires
        distinct(names),
        names.len() == values.len(),
        !entries_map(names, values).contains_key(name@),
    ensures
        distinct(names.push(name)),
        entries_map(names.push(name), values.push(value)) == entries_map(names, values).insert(
            name@,
            value,
        ),
{
    let names2 = names.push(name);
    let values2 = values.push(value);
    assert forall|i: int, j: int| 0 <= i < j < names2.len() implies (#[trigger] names2[i])@ != (
    #[trigger] names2[j])@ by {
        if j == names.len() {
            assert(names[i] == names2[i]);
            if names2[i]@ == name@ {
                assert(has_name(names, name@));
            }
        } else {
            assert(names[i] == names2[i] && names[j] == names2[j]);
        }
    }
    assert forall|k: Seq<char>| #[trigger]
        entries_map(names2, values2).contains_key(k) == entries_map(names, values).insert(
            name@,
            value,
        ).contains_key(k) by {
        if has_name(names, k) {
            let i = position(names, k);
            assert(names2[i] == names[i]);
        }
        if has_name(names2, k) {
            let i = position(names2, k);
            if i < names.len() {
                assert(names2[i] == names[i]);
            }
        }
        if k == name@ {
            assert(names2[names.len() as int]@ == k);
        }
    }
    assert forall|k: Seq<char>| #[trigger]
        entries_map(names2, values2).contains_key(k) implies entries_map(names2, values2)[k]
        == entries_map(names, values).insert(name@, value)[k] by {
        let i = position(names2, k);
        lemma_found(names2, values2, i);
        if i < names.len() {
            assert(names2[i] == names[i]);
            lemma_found(names, values, i);
        }
    }
    assert(entries_map(names2, values2) =~= entries_map(names, values).insert(name@, value));
}

/// Another value in the place of one: the map gives the name of the place
/// the new value.
pub(crate) proof fn lemma_update<T>(names: Seq<String>, values: Seq<T>, i: int, value: T)
    requires
        distinct(names),
        names.len() == values.len(),
        0 <= i < names.len(),
    ensures
        entries_map(names, values.update(i, value)) == entries_map(names, values).insert(
            names[i]@,
            value,
        ),
{
    let values2 = values.update(i, value);
    lemma_found(names, values, i);
    assert forall|k: Seq<char>| #[trigger]
        entries_map(names, values2).contains_key(k) implies entries_map(names, values2)[k]
        == entries_map(names, values).insert(names[i]@, value)[k] by {
        let j = position(names, k);
        lemma_found(names, values2, j);
        lemma_found(names, values, j);
    }
    assert(entries_map(names, values2) =~= entries_map(names, values).insert(names[i]@, value));
}

/// With distinct names, the map knows as many names as there are entries.
pub(crate) proof fn lemma_len<T>(names: Seq<String>, values: Seq<T>)
    requires
        distinct(names),
        names.len() == values.len(),
    ensures
        entries_map(names, values).dom().finite(),
        entries_map(names, values).dom().len() == names.len(),
    decreases names.len(),
{
    if names.len() == 0 {
        assert(entries_map(names, values).dom() =~= Set::<Seq<char>>::empty());
    } else {
        let front = names.drop_last();
        let name = names.last();
        assert(distinct(front)) by {
            assert forall|i: int, j: int| 0 <= i < j < front.len() implies (#[trigger] front[i])@
                != (#[trigger] front[j])@ by {
                assert(front[i] == names[i] && front[j] == names[j]);
            }
        }
        assert(!entries_map(front, values.drop_last()).contains_key(name@)) by {
            if has_name(front, name@) {
                let i = position(front, name@);
                assert(front[i] == names[i]);
                assert(names[names.len() - 1]@ == name@);
            }
        }
        assert(front.push(name) =~= names);
        assert(values.drop_last().push(values.last()) =~= values);
        lemma_push(front, values.drop_last(), name, values.last());
        lemma_len(front, values.drop_last());
        assert(entries_map(names, values).dom() =~= entries_map(
            front,
            values.drop_last(),
        ).dom().insert(name@));
    }
}

/// The names, as sequences of characters: none of them occurs twice, and
/// together they are the names that the map knows.
pub(crate) proof fn lemma_names<T>(names: Vec<String>, values: Seq<T>)
    requires
        distinct(names@),
    ensures
        names.deep_view().no_duplicates(),
        names.deep_view().to_set() == entries_map(names@, values).dom(),
{
    let views = names.deep_view();
    assert forall|name: Seq<char>| views.to_set().contains(name) == has_name(names@, name) by {
        if views.contains(name) {
            let i = choose|i: int| 0 <= i < views.len() && views[i] == name;
            assert(names@[i]@ == name);
        }
        if has_name(names@, name) {
            let i = position(names@, name);
            assert(views[i] == name);
        }
    }
    assert(views.to_set() =~= entries_map(names@, values).dom());
    assert forall|i: int, j: int|
        0 <= i < views.len() && 0 <= j < views.len() && i != j implies views[i] != views[j] by {
        assert(views[i] == names@[i]@ && views[j] == names@[j]@);
    }
}

/// Where `name` stands among `names`, if it is there.
pub(crate) fn find(names: &Vec<String>, name: &str) -> (found: Option<usize>)
    ensures
        match found {
            Some(i) => i < names.len() && names[i as int]@ == name@,
            None => forall|i: int| 0 <= i < names.len() ==> (#[trigger] names[i])@ != name@,
        },
{
    let mut i: usize = 0;
    while i < names.len()
        invariant
            i <= names.len(),
            forall|j: int| 0 <= j < i ==> (#[trigger] names[j])@ != name@,
        decreases names.len() - i,
    {
        if same_str(names[i].as_str(), name) {
            return Some(i);
        }
        i = i + 1;
    }
    None
}

/// Puts `value` under `name`: in the place of the value that stands under
/// the name, which is handed back, or behind the last entry together with
/// the name where the name is new.
pub(crate) fn upsert<T>(
    names: &mut Vec<String>,
    values: &mut Vec<T>,
    name: String,
    value: T,
) -> (previous: Option<T>)
    requires
        old(names).len() == old(values).len(),
        distinct(old(names)@),
    ensures
        final(names).len() == final(values).len(),
        distinct(final(names)@),
        entries_map(final(names)@, final(values)@) == entries_map(old(names)@, old(values)@).insert(
            name@,
            value,
        ),
        previous == if entries_map(old(names)@, old(values)@).contains_key(name@) {
            Some(entries_map(old(names)@, old(values)@)[name@])
        } else {
            None
        },
{
    match find(names, name.as_str()) {
        Some(i) => {
            proof {
                lemma_found(names@, values@, i as int);
                lemma_update(names@, values@, i as int, value);
            }
            let mut slot = value;
            core::mem::swap(&mut values[i], &mut slot);
            Some(slot)
        },
        None => {
            proof {
                lemma_absent(names@, values@, name@);
                lemma_push(names@, values@, name, value);
            }
            names.push(name);
            values.push(value);
            None
        },
    }
}

/// A collection of values, each under a name of its own.
///
/// A name is any string: the empty string and a string that holds a
/// separator are names like the others. The collection is a map from names,
/// taken as sequences of characters, to values.
pub struct NameMap<T> {
    names: Vec<String>,
    values: Vec<T>,
}

impl<T> View for NameMap<T> {
    type V = Map<Seq<char>, T>;

    closed spec fn view(&self) -> Map<Seq<char>, T> {
        entries_map(self.names@, self.values@)
    }
}

impl<T> NameMap<T> {
    /// Each name has its value at the same place, and no name occurs twice.
    #[verifier::type_invariant]
    spec fn well_formed(&self) -> bool {
        self.names.len() == self.values.len() && distinct(self.names@)
    }

    /// A collection that holds nothing.
    pub fn new() -> (m: Self)
        ensures
            m@ == Map::<Seq<char>, T>::empty(),
    {
        let m = NameMap { names: Vec::new(), values: Vec::new() };
        assert(m@ =~= Map::<Seq<char>, T>::empty());
        m
    }

    /// The number of names.
    pub fn len(&self) -> (n: usize)
        ensures
            self@.dom().finite(),
            n == self@.len(),
    {
        proof {
            use_type_invariant(self);
            lemma_len(self.names@, self.values@);
        }
        self.names.len()
    }

    /// Says whether the collection holds nothing.
    pub fn is_empty(&self) -> (empty: bool)
        ensures
            empty == (self@ == Map::<Seq<char>, T>::empty()),
    {
        proof {
            use_type_invariant(self);
            lemma_len(self.names@, self.values@);
            if self.names.len() == 0 {
                assert(self@ =~= Map::<Seq<char>, T>::empty());
            }
        }
        self.names.len() == 0
    }

    /// The names, each once, in no order that a caller can rely on.
    pub fn names(&self) -> (names: &Vec<String>)
        ensures
            names.deep_view().no_duplicates(),
            names.deep_view().to_set() == self@.dom(),
    {
        proof {
            use_type_invariant(self);
            lemma_names(self.names, self.values@);
        }
        &self.names
    }

    /// Says whether something is called `name`.
    pub fn contains_key(&self, name: &str) -> (held: bool)
        ensures
            held == self@.contains_key(name@),
    {
        proof {
            use_type_invariant(self);
        }
        match find(&self.names, name) {
            Some(i) => {
                proof {
                    lemma_found(self.names@, self.values@, i as int);
                }
                true
            },
            None => {
                proof {
                    lemma_absent(self.names@, self.values@, name@);
                }
                false
            },
        }
    }

    /// The value that is called `name`, if there is one.
    pub fn get(&self, name: &str) -> (value: Option<&T>)
        ensures
            match value {
                Some(v) => self@.contains_key(name@) && self@[name@] == *v,
                None => !self@.contains_key(name@),
            },
    {
        proof {
            use_type_invariant(self);
        }
        match find(&self.names, name) {
            Some(i) => {
                proof {
                    lemma_found(self.names@, self.values@, i as int);
                }
                Some(&self.values[i])
            },
            None => {
                proof {
                    lemma_absent(self.names@, self.values@, name@);
                }
                None
            },
        }
    }

    /// The value that is called `name`, to be changed in place.
    pub fn get_mut(&mut self, name: &str) -> (value: Option<&mut T>)
        ensures
            match value {
                Some(v) => {
                    &&& old(self)@.contains_key(name@)
                    &&& *v == old(self)@[name@]
                    &&& final(self)@ == old(self)@.insert(name@, *final(v))
                },
                None => !old(self)@.contains_key(name@) && final(self)@ == old(self)@,
            },
    {
        proof {
            use_type_invariant(&*self);
        }
        match find(&self.names, name) {
            Some(i) => {
                proof {
                    let names = self.names@;
                    let values = self.values@;
                    lemma_found(names, values, i as int);
                    assert forall|v: T| #[trigger]
                        entries_map(names, values.update(i as int, v)) == entries_map(
                            names,
                            values,
                        ).insert(name@, v) by {
                        lemma_update(names, values, i as int, v);
                    }
                }
                Some(&mut self.values[i])
            },
            None => {
                proof {
                    lemma_absent(self.names@, self.values@, name@);
                }
                None
            },
        }
    }

    /// Puts `value` under `name`, in place of what was called so before,
    /// and hands back what it replaces.
    pub fn insert(&mut self, name: String, value: T) -> (previous: Option<T>)
        ensures
            final(self)@ == old(self)@.insert(name@, value),
            previous == if old(self)@.contains_key(name@) {
                Some(old(self)@[name@])
            } else {
                None
            },
    {
        proof {
            use_type_invariant(&*self);
        }
        let mut whole = NameMap::new();
        core::mem::swap(self, &mut whole);
        let NameMap { mut names, mut values } = whole;
        let previous = upsert(&mut names, &mut values, name, value);
        *self = NameMap { names, values };
        previous
    }
}

} // verus!
