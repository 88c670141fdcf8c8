use vstd::prelude::*;

verus! {

/// A table of values keyed by name, in insertion order; no name occurs twice.
#[derive(Debug)]
pub struct NamedTable<T> {
    entries: Vec<(String, T)>,
}

/// No two entries share a name.
pub open spec fn distinct_names<T>(s: Seq<(String, T)>) -> bool {
    forall|i: int, j: int| 0 <= i < s.len() && 0 <= j < s.len() && i != j ==> (#[trigger] s[i]).0@ != (#[trigger] s[j]).0@
}

/// The position of the entry named `k`.
pub open spec fn position_of<T>(s: Seq<(String, T)>, k: Seq<char>) -> int {
    choose|i: int| 0 <= i < s.len() && (#[trigger] s[i]).0@ == k
}

pub open spec fn has_name<T>(s: Seq<(String, T)>, k: Seq<char>) -> bool {
    exists|i: int| 0 <= i < s.len() && (#[trigger] s[i]).0@ == k
}

/// The entries as a map from names to values.
pub open spec fn as_map<T>(s: Seq<(String, T)>) -> Map<Seq<char>, T> {
    Map::new(|k: Seq<char>| has_name(s, k), |k: Seq<char>| s[position_of(s, k)].1)
}

impl<T> NamedTable<T> {
    pub closed spec fn entries_seq(&self) -> Seq<(String, T)> {
        self.entries@
    }

    /// The names with their values.
    pub open spec fn view(&self) -> Map<Seq<char>, T> {
        as_map(self.entries_seq())
    }

    /// The names, in the order they were first inserted.
    pub open spec fn names(&self) -> Seq<Seq<char>> {
        self.entries_seq().map_values(|e: (String, T)| e.0@)
    }

    #[verifier::type_invariant]
    spec fn inv(&self) -> bool {
        distinct_names(self.entries@)
    }

    pub fn new() -> (r: Self)
        ensures
            r@ == Map::<Seq<char>, T>::empty(),
            r.names() == Seq::<Seq<char>>::empty(),
    {
        let r = NamedTable { entries: Vec::new() };
        assert(r@ =~= Map::<Seq<char>, T>::empty());
        assert(r.names() =~= Seq::<Seq<char>>::empty());
        r
    }

    pub fn len(&self) -> (n: usize)
        ensures
            n == self.names().len(),
    {
        self.entries.len()
    }

    /// The entry at `i`, in insertion order.
    pub fn entry(&self, i: usize) -> (r: (&String, &T))
        requires
            i < self.names().len(),
        ensures
            r.0@ == self.names()[i as int],
            self@.contains_key(r.0@),
            self@[r.0@] == *r.1,
    {
        proof {
            use_type_invariant(self);
        }
        let ghost s = self.entries@;
        assert(s[i as int].0@ == self.names()[i as int]);
        assert(has_name(s, s[i as int].0@));
        let ghost p = position_of(s, s[i as int].0@);
        assert(p == i);
        (&self.entries[i].0, &self.entries[i].1)
    }

    /// The value named `name`, if any.
    pub fn get(&self, name: &String) -> (r: Option<&T>)
        ensures
            r is None <==> !self@.contains_key(name@),
            r matches Some(v) ==> *v == self@[name@],
    {
        proof {
            use_type_invariant(self);
        }
        let ghost s = self.entries@;
        let mut i: usize = 0;
        while i < self.entries.len()
            invariant
                0 <= i <= s.len(),
                s == self.entries@,
                distinct_names(s),
                forall|j: int| 0 <= j < i ==> (#[trigger] s[j]).0@ != name@,
            decreases s.len() - i,
        {
            if self.entries[i].0 == *name {
                assert(has_name(s, name@));
                let ghost p = position_of(s, name@);
                assert(p == i);
                return Some(&self.entries[i].1);
            }
            i = i + 1;
        }
        None
    }

    /// Binds `name` to `value`, replacing any earlier value under that name.
    /// A new name goes last; a known name keeps its place.
    pub fn insert(&mut self, name: String, value: T) -> (old_value: Option<T>)
        ensures
            final(self)@ == old(self)@.insert(name@, value),
            old_value is Some <==> old(self)@.contains_key(name@),
            old(self)@.contains_key(name@) ==> final(self).names() == old(self).names(),
            !old(self)@.contains_key(name@) ==> final(self).names() == old(self).names().push(name@),
    {
        proof {
            use_type_invariant(&*self);
        }
        let ghost s = self.entries@;
        let mut i: usize = 0;
        while i < self.entries.len()
            invariant
                0 <= i <= s.len(),
                s == self.entries@,
                s == old(self).entries@,
                distinct_names(s),
                forall|j: int| 0 <= j < i ==> (#[trigger] s[j]).0@ != name@,
            decreases s.len() - i,
        {
            if self.entries[i].0 == name {
                assert(has_name(s, name@));
                assert(position_of(s, name@) == i);
                let mut entries: Vec<(String, T)> = Vec::new();
        std::mem::swap(&mut entries, &mut self.entries);
                let (_, previous) = entries.remove(i);
                let ghost name_view = name@;
                entries.insert(i, (name, value));
                let ghost s2 = entries@;
                assert(s2 =~= s.update(i as int, (name, value)));
                assert(distinct_names(s2));
                assert(as_map(s2) =~= as_map(s).insert(name@, value)) by {
                    assert forall|k: Seq<char>| #[trigger] has_name(s2, k) <==> has_name(s, k) || k == name@ by {
                        if has_name(s, k) {
                            let p = position_of(s, k);
                            assert(s2[p].0@ == k);
                        }
                        if has_name(s2, k) {
                            let p = position_of(s2, k);
                            assert(s[p].0@ == k || p == i);
                        }
                    }
                    assert forall|k: Seq<char>| has_name(s2, k) implies #[trigger] s2[position_of(s2, k)].1
                        == (if k == name@ { value } else { s[position_of(s, k)].1 }) by {
                        let p2 = position_of(s2, k);
                        if k == name@ {
                            assert(p2 == i);
                        } else {
                            assert(has_name(s, k));
                            let p = position_of(s, k);
                            assert(s2[p].0@ == k);
                            assert(p == p2);
                        }
                    }
                }
                assert(entries@.map_values(|e: (String, T)| e.0@) =~= s.map_values(|e: (String, T)| e.0@));
                self.entries = entries;
                return Some(previous);
            }
            i = i + 1;
        }
        proof {
            assert(!has_name(s, name@));
        }
        let mut entries: Vec<(String, T)> = Vec::new();
        std::mem::swap(&mut entries, &mut self.entries);
        entries.push((name, value));
        let ghost s2 = entries@;
        assert(s2 =~= s.push((name, value)));
        assert(distinct_names(s2));
        assert(as_map(s2) =~= as_map(s).insert(name@, value)) by {
            assert forall|k: Seq<char>| #[trigger] has_name(s2, k) <==> has_name(s, k) || k == name@ by {
                if has_name(s, k) {
                    let p = position_of(s, k);
                    assert(s2[p].0@ == k);
                }
                if k == name@ {
                    assert(s2[s.len() as int].0@ == k);
                }
            }
            assert forall|k: Seq<char>| has_name(s2, k) implies #[trigger] s2[position_of(s2, k)].1
                == (if k == name@ { value } else { s[position_of(s, k)].1 }) by {
                let p2 = position_of(s2, k);
                if k == name@ {
                    assert(p2 == s.len());
                } else {
                    assert(has_name(s, k));
                    let p = position_of(s, k);
                    assert(s2[p].0@ == k);
                    assert(p == p2);
                }
            }
        }
        assert(entries@.map_values(|e: (String, T)| e.0@) =~= s.map_values(|e: (String, T)| e.0@).push(name@));
        self.entries = entries;
        None
    }
}

} // verus!
