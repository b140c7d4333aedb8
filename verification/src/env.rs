//! Environment variables: an insertion-ordered list of bindings in which no
//! name occurs twice.

use vstd::prelude::*;

verus! {

/// One binding as contracts see it: the name, then the value.
pub type Binding = (Seq<char>, Seq<char>);

/// True when some binding of `s` carries `name`.
pub open spec fn has_name(s: Seq<Binding>, name: Seq<char>) -> bool {
    exists|i: int| 0 <= i < s.len() && (#[trigger] s[i]).0 == name
}

/// The position of a binding of `s` that carries `name`.
pub open spec fn slot_of(s: Seq<Binding>, name: Seq<char>) -> int {
    choose|i: int| 0 <= i < s.len() && (#[trigger] s[i]).0 == name
}

/// No name occurs in two bindings.
pub open spec fn distinct_names(s: Seq<Binding>) -> bool {
    forall|i: int, j: int| 0 <= i < j < s.len() ==> (#[trigger] s[i]).0 != (#[trigger] s[j]).0
}

/// `s` after `name` is set to `value`: an existing binding keeps its place and
/// takes the new value, a new one goes to the end.
pub open spec fn bind(s: Seq<Binding>, name: Seq<char>, value: Seq<char>) -> Seq<Binding> {
    if has_name(s, name) {
        s.update(slot_of(s, name), (name, value))
    } else {
        s.push((name, value))
    }
}

/// `base` after every binding of `over` has been set in it, first to last.
pub open spec fn merged(base: Seq<Binding>, over: Seq<Binding>) -> Seq<Binding>
    decreases over.len(),
{
    if over.len() == 0 {
        base
    } else {
        bind(merged(base, over.drop_last()), over.last().0, over.last().1)
    }
}

/// The bindings as a finite map from name to value.
pub open spec fn as_map(s: Seq<Binding>) -> Map<Seq<char>, Seq<char>> {
    Map::new(|name: Seq<char>| has_name(s, name), |name: Seq<char>| s[slot_of(s, name)].1)
}

/// Setting a name keeps names distinct, keeps the length or grows it by one,
/// and changes the map at that name alone.
pub proof fn lemma_bind(s: Seq<Binding>, name: Seq<char>, value: Seq<char>)
    requires
        distinct_names(s),
    ensures
        distinct_names(bind(s, name, value)),
        as_map(bind(s, name, value)) == as_map(s).insert(name, value),
        has_name(s, name) ==> bind(s, name, value).len() == s.len(),
        !has_name(s, name) ==> bind(s, name, value).len() == s.len() + 1,
{
    let t = bind(s, name, value);
    let k = if has_name(s, name) {
        slot_of(s, name)
    } else {
        s.len() as int
    };
    assert(t[k] == (name, value));
    assert forall|n: Seq<char>| has_name(t, n) <==> (n == name || has_name(s, n)) by {
        if has_name(t, n) {
            let i = slot_of(t, n);
            if i != k {
                assert(s[i].0 == n);
            }
        }
        if n != name && has_name(s, n) {
            let i = slot_of(s, n);
            assert(t[i].0 == n);
        }
    }
    assert forall|n: Seq<char>| has_name(t, n) implies #[trigger] as_map(t)[n] == as_map(s).insert(
        name,
        value,
    )[n] by {
        let i = slot_of(t, n);
        if i != k {
            assert(s[i].0 == n);
            assert(i == slot_of(s, n));
        }
    }
    assert(as_map(t) =~= as_map(s).insert(name, value));
}

/// Merging keeps names distinct.
pub proof fn lemma_merged_distinct(base: Seq<Binding>, over: Seq<Binding>)
    requires
        distinct_names(base),
    ensures
        distinct_names(merged(base, over)),
    decreases over.len(),
{
    if over.len() > 0 {
        lemma_merged_distinct(base, over.drop_last());
        lemma_bind(merged(base, over.drop_last()), over.last().0, over.last().1);
    }
}

/// A merge is the union of the two maps in which the second wins wherever
/// both hold a name: names of `over` take its values, every other name of
/// `base` keeps its own.
pub proof fn lemma_merged_is_union(base: Seq<Binding>, over: Seq<Binding>)
    requires
        distinct_names(base),
        distinct_names(over),
    ensures
        as_map(merged(base, over)) == as_map(base).union_prefer_right(as_map(over)),
    decreases over.len(),
{
    if over.len() == 0 {
        assert(as_map(over) =~= Map::empty());
        assert(as_map(base).union_prefer_right(as_map(over)) =~= as_map(base));
    } else {
        let init = over.drop_last();
        let last = over.last();
        lemma_merged_distinct(base, init);
        lemma_merged_is_union(base, init);
        lemma_bind(merged(base, init), last.0, last.1);
        assert(!has_name(init, last.0)) by {
            if has_name(init, last.0) {
                let i = slot_of(init, last.0);
                assert(over[i].0 == over[over.len() - 1].0);
            }
        }
        lemma_bind(init, last.0, last.1);
        assert(bind(init, last.0, last.1) =~= over);
        assert(as_map(base).union_prefer_right(as_map(init)).insert(last.0, last.1) =~= as_map(
            base,
        ).union_prefer_right(as_map(init).insert(last.0, last.1)));
    }
}

/// The environment of a session or of one run.
#[derive(Debug)]
pub struct Env {
    entries: Vec<(String, String)>,
}

impl View for Env {
    type V = Seq<Binding>;

    closed spec fn view(&self) -> Seq<Binding> {
        self.entries@.map_values(|e: (String, String)| (e.0@, e.1@))
    }
}

impl Env {
    /// What every environment satisfies: no name occurs twice.
    #[verifier::type_invariant]
    pub open spec fn well_formed(&self) -> bool {
        distinct_names(self@)
    }

    /// The bindings as a map from name to value.
    pub open spec fn map(&self) -> Map<Seq<char>, Seq<char>> {
        as_map(self@)
    }

    /// The empty environment.
    pub fn new() -> (e: Env)
        ensures
            e@ == Seq::<Binding>::empty(),
    {
        let e = Env { entries: Vec::new() };
        assert(e@ =~= Seq::<Binding>::empty());
        e
    }

    /// The number of bindings.
    pub fn len(&self) -> (n: usize)
        ensures
            n == self@.len(),
    {
        self.entries.len()
    }

    /// The name of the binding at position `i`.
    pub fn name_at(&self, i: usize) -> (name: &String)
        requires
            i < self@.len(),
        ensures
            name@ == self@[i as int].0,
    {
        &self.entries[i].0
    }

    /// The value of the binding at position `i`.
    pub fn value_at(&self, i: usize) -> (value: &String)
        requires
            i < self@.len(),
        ensures
            value@ == self@[i as int].1,
    {
        &self.entries[i].1
    }

    /// The position of the binding named `name`, if there is one.
    pub fn position(&self, name: &str) -> (found: Option<usize>)
        ensures
            match found {
                Some(i) => i < self@.len() && self@[i as int].0 == name@ && i == slot_of(
                    self@,
                    name@,
                ),
                None => !has_name(self@, name@),
            },
    {
        proof {
            use_type_invariant(self);
        }
        let wanted = String::from_str(name);
        let mut i: usize = 0;
        while i < self.entries.len()
            invariant
                i <= self.entries.len(),
                wanted@ == name@,
                distinct_names(self@),
                forall|j: int| 0 <= j < i ==> (#[trigger] self@[j]).0 != name@,
            decreases self.entries.len() - i,
        {
            if self.entries[i].0 == wanted {
                proof {
                    let k = slot_of(self@, name@);
                    assert(self@[i as int].0 == name@);
                    assert(self@[k].0 == name@);
                }
                return Some(i);
            }
            i += 1;
        }
        None
    }

    /// The value bound to `name`, if it is bound.
    pub fn get(&self, name: &str) -> (value: Option<String>)
        ensures
            match value {
                Some(v) => self.map().contains_key(name@) && v@ == self.map()[name@],
                None => !self.map().contains_key(name@),
            },
    {
        match self.position(name) {
            Some(i) => Some(self.entries[i].1.clone()),
            None => None,
        }
    }

    /// Sets `name` to `value`: overwrites the value where the name is bound,
    /// appends the binding where it is not.
    pub fn insert(&mut self, name: String, value: String)
        ensures
            final(self)@ == bind(old(self)@, name@, value@),
            final(self).map() == old(self).map().insert(name@, value@),
    {
        proof {
            use_type_invariant(&*self);
            lemma_bind(self@, name@, value@);
        }
        let found = self.position(name.as_str());
        let ghost before = self@;
        let mut entries: Vec<(String, String)> = Vec::new();
        core::mem::swap(&mut entries, &mut self.entries);
        match found {
            Some(i) => {
                entries.set(i, (name, value));
            },
            None => {
                entries.push((name, value));
            },
        }
        proof {
            let after = entries@.map_values(|e: (String, String)| (e.0@, e.1@));
            assert(after =~= bind(before, name@, value@));
        }
        self.entries = entries;
    }

    /// Sets every binding of `over` in `self`, first to last: names that both
    /// hold take the value of `over`, names of `self` alone keep theirs.
    pub fn extend(&mut self, over: &Env)
        ensures
            final(self)@ == merged(old(self)@, over@),
            final(self).map() == old(self).map().union_prefer_right(over.map()),
    {
        proof {
            use_type_invariant(&*self);
            use_type_invariant(over);
            lemma_merged_is_union(self@, over@);
        }
        let n = over.len();
        let mut i: usize = 0;
        assert(over@.take(0) =~= Seq::<Binding>::empty());
        while i < n
            invariant
                i <= n,
                n == over@.len(),
                self@ == merged(old(self)@, over@.take(i as int)),
            decreases n - i,
        {
            let name = over.name_at(i).clone();
            let value = over.value_at(i).clone();
            proof {
                let next = over@.take(i as int + 1);
                assert(next.drop_last() =~= over@.take(i as int));
                assert(next.last() == over@[i as int]);
            }
            self.insert(name, value);
            i += 1;
        }
        assert(over@.take(n as int) =~= over@);
    }
}

impl Clone for Env {
    fn clone(&self) -> (copy: Env)
        ensures
            copy@ == self@,
    {
        proof {
            use_type_invariant(self);
        }
        let mut entries: Vec<(String, String)> = Vec::new();
        let mut i: usize = 0;
        while i < self.entries.len()
            invariant
                i <= self.entries.len(),
                entries@.len() == i,
                forall|j: int| 0 <= j < i ==> (#[trigger] entries@[j]).0@ == self.entries@[j].0@
                    && entries@[j].1@ == self.entries@[j].1@,
            decreases self.entries.len() - i,
        {
            entries.push((self.entries[i].0.clone(), self.entries[i].1.clone()));
            i += 1;
        }
        proof {
            assert(entries@.map_values(|e: (String, String)| (e.0@, e.1@)) =~= self@);
        }
        Env { entries }
    }
}

} // verus!
