use vstd::prelude::*;

verus! {

/// The run-scoped string-keyed state threaded through every turn.
///
/// Entries are kept in a vector with unique keys; insertion order carries no
/// meaning, and the view is the map from key to value.
#[derive(Clone, Debug)]
pub struct ContextVariables {
    entries: Vec<(String, String)>,
}

/// The map that a list of unique-keyed entries stands for.
pub open spec fn entries_map(e: Seq<(String, String)>) -> Map<Seq<char>, Seq<char>>
    decreases e.len(),
{
    if e.len() == 0 {
        Map::empty()
    } else {
        entries_map(e.drop_last()).insert(e.last().0@, e.last().1@)
    }
}

pub open spec fn keys_unique(e: Seq<(String, String)>) -> bool {
    forall|i: int, j: int| 0 <= i < j < e.len() ==> (#[trigger] e[i]).0@ != (#[trigger] e[j]).0@
}

/// `base` with every entry of `delta` written over it.
pub open spec fn merged(
    base: Map<Seq<char>, Seq<char>>,
    delta: Map<Seq<char>, Seq<char>>,
) -> Map<Seq<char>, Seq<char>> {
    base.union_prefer_right(delta)
}

proof fn lemma_entries_map_domain(e: Seq<(String, String)>)
    ensures
        forall|k: Seq<char>| #[trigger]
            entries_map(e).contains_key(k) <==> exists|i: int| 0 <= i < e.len() && e[i].0@ == k,
    decreases e.len(),
{
    if e.len() > 0 {
        let d = e.drop_last();
        lemma_entries_map_domain(d);
        assert forall|k: Seq<char>| #[trigger]
            entries_map(e).contains_key(k) <==> exists|i: int| 0 <= i < e.len() && e[i].0@ == k by {
            assert(entries_map(d).contains_key(k) <==> exists|i: int|
                0 <= i < d.len() && d[i].0@ == k);
            if entries_map(e).contains_key(k) {
                if k == e.last().0@ {
                    assert(e[e.len() - 1].0@ == k);
                } else {
                    assert(entries_map(d).contains_key(k));
                    let i = choose|i: int| 0 <= i < d.len() && d[i].0@ == k;
                    assert(e[i].0@ == k);
                }
            }
            if exists|i: int| 0 <= i < e.len() && e[i].0@ == k {
                let i = choose|i: int| 0 <= i < e.len() && e[i].0@ == k;
                if i < e.len() - 1 {
                    assert(d[i].0@ == k);
                }
            }
        }
    }
}

proof fn lemma_entries_map_at(e: Seq<(String, String)>, i: int)
    requires
        keys_unique(e),
        0 <= i < e.len(),
    ensures
        entries_map(e).contains_key(e[i].0@),
        entries_map(e)[e[i].0@] == e[i].1@,
    decreases e.len(),
{
    if i < e.len() - 1 {
        let d = e.drop_last();
        assert(d[i] == e[i]);
        assert(keys_unique(d)) by {
            assert forall|a: int, b: int| 0 <= a < b < d.len() implies (#[trigger] d[a]).0@ != (
            #[trigger] d[b]).0@ by {
                assert(d[a] == e[a] && d[b] == e[b]);
            }
        }
        lemma_entries_map_at(d, i);
        assert(e[i].0@ != e[e.len() - 1].0@);
    }
}

proof fn lemma_entries_map_update(e: Seq<(String, String)>, i: int, v: String)
    requires
        keys_unique(e),
        0 <= i < e.len(),
    ensures
        keys_unique(e.update(i, (e[i].0, v))),
        entries_map(e.update(i, (e[i].0, v))) == entries_map(e).insert(e[i].0@, v@),
    decreases e.len(),
{
    let f = e.update(i, (e[i].0, v));
    assert(keys_unique(f)) by {
        assert forall|a: int, b: int| 0 <= a < b < f.len() implies (#[trigger] f[a]).0@ != (
        #[trigger] f[b]).0@ by {
            assert(f[a].0@ == e[a].0@ && f[b].0@ == e[b].0@);
        }
    }
    if i == e.len() - 1 {
        assert(f.drop_last() =~= e.drop_last());
        assert(entries_map(f) =~= entries_map(e).insert(e[i].0@, v@));
    } else {
        let d = e.drop_last();
        assert(keys_unique(d)) by {
            assert forall|a: int, b: int| 0 <= a < b < d.len() implies (#[trigger] d[a]).0@ != (
            #[trigger] d[b]).0@ by {
                assert(d[a] == e[a] && d[b] == e[b]);
            }
        }
        assert(d[i] == e[i]);
        lemma_entries_map_update(d, i, v);
        assert(f.drop_last() =~= d.update(i, (d[i].0, v)));
        assert(e[i].0@ != e.last().0@);
        assert(entries_map(f) =~= entries_map(e).insert(e[i].0@, v@));
    }
}

impl ContextVariables {
    pub closed spec fn entries(&self) -> Seq<(String, String)> {
        self.entries@
    }

    pub closed spec fn wf(&self) -> bool {
        keys_unique(self.entries@)
    }

    pub closed spec fn view(&self) -> Map<Seq<char>, Seq<char>> {
        entries_map(self.entries@)
    }

    /// An empty context.
    pub fn new() -> (r: ContextVariables)
        ensures
            r.wf(),
            r.view() == Map::<Seq<char>, Seq<char>>::empty(),
    {
        ContextVariables { entries: Vec::new() }
    }

    fn position(&self, key: &str) -> (r: Option<usize>)
        requires
            self.wf(),
        ensures
            match r {
                Some(i) => i < self.entries@.len() && self.entries@[i as int].0@ == key@,
                None => !self.view().contains_key(key@),
            },
    {
        proof {
            lemma_entries_map_domain(self.entries@);
        }
        let mut i: usize = 0;
        while i < self.entries.len()
            invariant
                0 <= i <= self.entries@.len(),
                forall|k: int| 0 <= k < i ==> (#[trigger] self.entries@[k]).0@ != key@,
            decreases self.entries@.len() - i,
        {
            if str_eq(self.entries[i].0.as_str(), key) {
                return Some(i);
            }
            i = i + 1;
        }
        None
    }

    /// The value stored under `key`, if any.
    pub fn get(&self, key: &str) -> (r: Option<&String>)
        requires
            self.wf(),
        ensures
            match r {
                Some(v) => self.view().contains_key(key@) && self.view()[key@] == v@,
                None => !self.view().contains_key(key@),
            },
    {
        match self.position(key) {
            Some(i) => {
                proof {
                    lemma_entries_map_at(self.entries@, i as int);
                }
                Some(&self.entries[i].1)
            },
            None => None,
        }
    }

    /// Whether `key` is present.
    pub fn contains_key(&self, key: &str) -> (r: bool)
        requires
            self.wf(),
        ensures
            r == self.view().contains_key(key@),
    {
        match self.position(key) {
            Some(i) => {
                proof {
                    lemma_entries_map_at(self.entries@, i as int);
                }
                true
            },
            None => false,
        }
    }

    /// Sets `key` to `value`, replacing any earlier value.
    pub fn insert(&mut self, key: String, value: String)
        requires
            old(self).wf(),
        ensures
            final(self).wf(),
            final(self).view() == old(self).view().insert(key@, value@),
    {
        match self.position(key.as_str()) {
            Some(i) => {
                proof {
                    lemma_entries_map_update(self.entries@, i as int, value);
                }
                let k = self.entries[i].0.clone();
                let ghost e = self.entries@;
                self.entries.set(i, (k, value));
                assert(self.entries@ =~= e.update(i as int, (e[i as int].0, value)));
            },
            None => {
                proof {
                    lemma_entries_map_domain(self.entries@);
                }
                let ghost e = self.entries@;
                self.entries.push((key, value));
                assert(self.entries@.drop_last() =~= e);
                assert forall|a: int, b: int|
                    0 <= a < b < self.entries@.len() implies (#[trigger] self.entries@[a]).0@ != (
                #[trigger] self.entries@[b]).0@ by {
                    if b == e.len() {
                        assert(self.entries@[a] == e[a]);
                    } else {
                        assert(self.entries@[a] == e[a] && self.entries@[b] == e[b]);
                    }
                }
            },
        }
    }

    /// Writes every entry of `delta` over this context.
    pub fn extend(&mut self, delta: &ContextVariables)
        requires
            old(self).wf(),
            delta.wf(),
        ensures
            final(self).wf(),
            final(self).view() == merged(old(self).view(), delta.view()),
    {
        let ghost start = self.view();
        let mut i: usize = 0;
        while i < delta.entries.len()
            invariant
                self.wf(),
                delta.wf(),
                0 <= i <= delta.entries@.len(),
                self.view() == merged(start, entries_map(delta.entries@.subrange(0, i as int))),
            decreases delta.entries@.len() - i,
        {
            let k = delta.entries[i].0.clone();
            let v = delta.entries[i].1.clone();
            self.insert(k, v);
            proof {
                let s = delta.entries@.subrange(0, i as int + 1);
                assert(s.drop_last() =~= delta.entries@.subrange(0, i as int));
                assert(s.last() == delta.entries@[i as int]);
                assert(self.view() =~= merged(start, entries_map(s)));
            }
            i = i + 1;
        }
        assert(delta.entries@.subrange(0, delta.entries@.len() as int) =~= delta.entries@);
    }

    /// A copy of this context.
    pub fn duplicate(&self) -> (r: ContextVariables)
        ensures
            r.entries() == self.entries(),
            r.wf() == self.wf(),
            r.view() == self.view(),
    {
        let mut entries: Vec<(String, String)> = Vec::new();
        let mut i: usize = 0;
        while i < self.entries.len()
            invariant
                0 <= i <= self.entries@.len(),
                entries@ == self.entries@.subrange(0, i as int),
            decreases self.entries@.len() - i,
        {
            let k = self.entries[i].0.clone();
            let v = self.entries[i].1.clone();
            entries.push((k, v));
            i = i + 1;
            assert(entries@ =~= self.entries@.subrange(0, i as int));
        }
        assert(entries@ =~= self.entries@);
        ContextVariables { entries }
    }

    /// The number of keys.
    pub fn len(&self) -> (r: usize)
        requires
            self.wf(),
        ensures
            r == self.view().len(),
    {
        proof {
            lemma_entries_len(self.entries@);
        }
        self.entries.len()
    }

    /// The entries as key/value pairs, in no particular order.
    pub fn pairs(&self) -> (r: &Vec<(String, String)>)
        ensures
            r@ == self.entries(),
    {
        &self.entries
    }

    /// Builds a context from key/value pairs; a later pair wins over an
    /// earlier one with the same key.
    pub fn from_pairs(pairs: Vec<(String, String)>) -> (r: ContextVariables)
        ensures
            r.wf(),
            r.view() == entries_map(pairs@),
    {
        let mut c = ContextVariables::new();
        let mut i: usize = 0;
        while i < pairs.len()
            invariant
                c.wf(),
                0 <= i <= pairs@.len(),
                c.view() == entries_map(pairs@.subrange(0, i as int)),
            decreases pairs@.len() - i,
        {
            let k = pairs[i].0.clone();
            let v = pairs[i].1.clone();
            c.insert(k, v);
            proof {
                let s = pairs@.subrange(0, i as int + 1);
                assert(s.drop_last() =~= pairs@.subrange(0, i as int));
            }
            i = i + 1;
        }
        assert(pairs@.subrange(0, pairs@.len() as int) =~= pairs@);
        c
    }
}

proof fn lemma_entries_len(e: Seq<(String, String)>)
    requires
        keys_unique(e),
    ensures
        entries_map(e).len() == e.len(),
        entries_map(e).dom().finite(),
    decreases e.len(),
{
    if e.len() > 0 {
        let d = e.drop_last();
        assert(keys_unique(d)) by {
            assert forall|a: int, b: int| 0 <= a < b < d.len() implies (#[trigger] d[a]).0@ != (
            #[trigger] d[b]).0@ by {
                assert(d[a] == e[a] && d[b] == e[b]);
            }
        }
        lemma_entries_len(d);
        lemma_entries_map_domain(d);
        if entries_map(d).contains_key(e.last().0@) {
            let i = choose|i: int| 0 <= i < d.len() && d[i].0@ == e.last().0@;
            assert(e[i].0@ == e[e.len() - 1].0@);
        }
    }
}

/// Character-wise equality of two texts.
pub fn str_eq(a: &str, b: &str) -> (r: bool)
    ensures
        r == (a@ == b@),
{
    let x = crate::text::chars_of(a);
    let y = crate::text::chars_of(b);
    if x.len() != y.len() {
        return false;
    }
    let mut i: usize = 0;
    while i < x.len()
        invariant
            x@ == a@,
            y@ == b@,
            x@.len() == y@.len(),
            0 <= i <= x@.len(),
            forall|k: int| 0 <= k < i ==> x@[k] == y@[k],
        decreases x@.len() - i,
    {
        if x[i] != y[i] {
            return false;
        }
        i = i + 1;
    }
    assert(x@ =~= y@);
    true
}

} // verus!
