//! A table from names to times (milliseconds on a monotonic clock), kept as a
//! list in which no name occurs twice.
use vstd::prelude::*;
use crate::text::str_eq;

verus! {

/// The map from names to times that a list of entries stands for (a later
/// entry for a name wins).
pub open spec fn name_map(e: Seq<(String, u64)>) -> Map<Seq<char>, u64>
    decreases e.len(),
{
    if e.len() == 0 {
        Map::empty()
    } else {
        name_map(e.drop_last()).insert(e.last().0@, e.last().1)
    }
}

/// No name occurs twice among the entries.
pub open spec fn names_unique(e: Seq<(String, u64)>) -> bool {
    forall|i: int, j: int| 0 <= i < j < e.len() ==> e[i].0@ != e[j].0@
}

proof fn lemma_name_map_dom(e: Seq<(String, u64)>, k: Seq<char>)
    ensures
        name_map(e).contains_key(k) <==> exists|i: int| 0 <= i < e.len() && #[trigger] e[i].0@ == k,
    decreases e.len(),
{
    if e.len() > 0 {
        lemma_name_map_dom(e.drop_last(), k);
        if exists|i: int| 0 <= i < e.drop_last().len() && #[trigger] e.drop_last()[i].0@ == k {
            let i = choose|i: int| 0 <= i < e.drop_last().len() && #[trigger] e.drop_last()[i].0@ == k;
            assert(e[i].0@ == k);
        }
        if exists|i: int| 0 <= i < e.len() && #[trigger] e[i].0@ == k {
            let i = choose|i: int| 0 <= i < e.len() && #[trigger] e[i].0@ == k;
            if i < e.len() - 1 {
                assert(e.drop_last()[i].0@ == k);
            }
        }
    }
}

proof fn lemma_name_map_value(e: Seq<(String, u64)>, i: int)
    requires
        names_unique(e),
        0 <= i < e.len(),
    ensures
        name_map(e).contains_key(e[i].0@),
        name_map(e)[e[i].0@] == e[i].1,
    decreases e.len(),
{
    if i < e.len() - 1 {
        let d = e.drop_last();
        assert(names_unique(d)) by {
            assert forall|a: int, b: int| 0 <= a < b < d.len() implies d[a].0@ != d[b].0@ by {
                assert(d[a] == e[a] && d[b] == e[b]);
            }
        }
        lemma_name_map_value(d, i);
        assert(d[i] == e[i]);
        assert(e.last().0@ != e[i].0@) by {
            assert(e.last() == e[e.len() - 1]);
        }
    }
}

proof fn lemma_names_unique_prefix(e: Seq<(String, u64)>, n: int)
    requires
        names_unique(e),
        0 <= n <= e.len(),
    ensures
        names_unique(e.take(n)),
{
    let d = e.take(n);
    assert forall|a: int, b: int| 0 <= a < b < d.len() implies d[a].0@ != d[b].0@ by {
        assert(d[a] == e[a] && d[b] == e[b]);
    }
}

proof fn lemma_name_map_update(e: Seq<(String, u64)>, idx: int, x: (String, u64))
    requires
        names_unique(e),
        0 <= idx < e.len(),
        e[idx].0@ == x.0@,
    ensures
        name_map(e.update(idx, x)) == name_map(e).insert(x.0@, x.1),
    decreases e.len(),
{
    let u = e.update(idx, x);
    let d = e.drop_last();
    if idx == e.len() - 1 {
        assert(u.drop_last() =~= d);
        assert(name_map(u) =~= name_map(e).insert(x.0@, x.1));
    } else {
        assert(names_unique(d)) by {
            lemma_names_unique_prefix(e, e.len() - 1);
            assert(e.take(e.len() - 1) =~= d);
        }
        assert(u.drop_last() =~= d.update(idx, x));
        lemma_name_map_update(d, idx, x);
        assert(e.last().0@ != x.0@) by {
            assert(e.last() == e[e.len() - 1]);
        }
        assert(u.last() == e.last());
        assert(name_map(u) =~= name_map(e).insert(x.0@, x.1));
    }
}


proof fn lemma_name_map_remove(e: Seq<(String, u64)>, idx: int)
    requires
        names_unique(e),
        0 <= idx < e.len(),
    ensures
        name_map(e.remove(idx)) == name_map(e).remove(e[idx].0@),
        names_unique(e.remove(idx)),
    decreases e.len(),
{
    let k = e[idx].0@;
    let u = e.remove(idx);
    let d = e.drop_last();
    assert(names_unique(u)) by {
        assert forall|a: int, b: int| 0 <= a < b < u.len() implies u[a].0@ != u[b].0@ by {
            let a2 = if a < idx { a } else { a + 1 };
            let b2 = if b < idx { b } else { b + 1 };
            assert(u[a] == e[a2] && u[b] == e[b2]);
        }
    }
    assert(names_unique(d)) by {
        lemma_names_unique_prefix(e, e.len() - 1);
        assert(e.take(e.len() - 1) =~= d);
    }
    if idx == e.len() - 1 {
        assert(u =~= d);
        lemma_name_map_dom(d, k);
        if name_map(d).contains_key(k) {
            let j = choose|j: int| 0 <= j < d.len() && #[trigger] d[j].0@ == k;
            assert(d[j] == e[j]);
        }
        assert(name_map(u) =~= name_map(e).remove(k));
    } else {
        assert(u.drop_last() =~= d.remove(idx));
        assert(u.last() == e.last());
        lemma_name_map_remove(d, idx);
        assert(d[idx] == e[idx]);
        assert(e.last().0@ != k) by {
            assert(e.last() == e[e.len() - 1]);
        }
        assert(name_map(u) =~= name_map(e).remove(k));
    }
}

/// Milliseconds from `seen` to `now`, or zero when `seen` is later
/// (`Instant::duration_since` saturates).
pub open spec fn elapsed_ms(seen: u64, now: u64) -> nat {
    if now >= seen {
        (now - seen) as nat
    } else {
        0
    }
}

/// Milliseconds from `seen` to `now`, zero when `seen` is later.
pub fn elapsed(seen: u64, now: u64) -> (r: u64)
    ensures
        r == elapsed_ms(seen, now),
{
    if now >= seen {
        now - seen
    } else {
        0
    }
}

/// The entries of `m` at most `max_age` milliseconds old at `now`.
pub open spec fn recent_entries(m: Map<Seq<char>, u64>, now: u64, max_age: u64) -> Map<
    Seq<char>,
    u64,
> {
    Map::new(
        |k: Seq<char>| m.contains_key(k) && elapsed_ms(m[k], now) <= max_age,
        |k: Seq<char>| m[k],
    )
}

/// Names, each with a time.
pub struct TimeTable {
    entries: Vec<(String, u64)>,
}

impl View for TimeTable {
    type V = Map<Seq<char>, u64>;

    closed spec fn view(&self) -> Map<Seq<char>, u64> {
        name_map(self.entries@)
    }
}

impl TimeTable {
    #[verifier::type_invariant]
    spec fn well_formed(self) -> bool {
        names_unique(self.entries@)
    }

    /// An empty table.
    pub fn new() -> (r: Self)
        ensures
            r@ == Map::<Seq<char>, u64>::empty(),
    {
        let r = TimeTable { entries: Vec::new() };
        assert(r.entries@ =~= Seq::<(String, u64)>::empty());
        r
    }

    fn find(&self, name: &str) -> (r: Option<usize>)
        ensures
            match r {
                Some(i) => i < self.entries@.len() && self.entries@[i as int].0@ == name@,
                None => forall|i: int|
                    0 <= i < self.entries@.len() ==> #[trigger] self.entries@[i].0@ != name@,
            },
    {
        let n = self.entries.len();
        let mut i: usize = 0;
        while i < n
            invariant
                n == self.entries@.len(),
                i <= n,
                forall|k: int| 0 <= k < i ==> #[trigger] self.entries@[k].0@ != name@,
            decreases n - i,
        {
            if str_eq(self.entries[i].0.as_str(), name) {
                return Some(i);
            }
            i = i + 1;
        }
        None
    }

    /// Whether `name` is known.
    pub fn contains(&self, name: &str) -> (r: bool)
        ensures
            r == self@.contains_key(name@),
    {
        proof {
            lemma_name_map_dom(self.entries@, name@);
        }
        self.find(name).is_some()
    }

    /// Records that `name` was seen at `seen`.
    pub fn insert(&mut self, name: String, seen: u64)
        ensures
            final(self)@ == old(self)@.insert(name@, seen),
    {
        proof {
            use_type_invariant(&*self);
        }
        match self.find(name.as_str()) {
            Some(i) => {
                proof {
                    lemma_name_map_update(self.entries@, i as int, (name, seen));
                    assert(names_unique(self.entries@.update(i as int, (name, seen))));
                }
                let mut entries: Vec<(String, u64)> = Vec::new();
                std::mem::swap(&mut entries, &mut self.entries);
                entries.set(i, (name, seen));
                self.entries = entries;
            },
            None => {
                proof {
                    let e = self.entries@.push((name, seen));
                    assert(e.drop_last() =~= self.entries@);
                    assert(names_unique(e)) by {
                        assert forall|a: int, b: int| 0 <= a < b < e.len() implies e[a].0@
                            != e[b].0@ by {
                            if b == e.len() - 1 {
                                assert(self.entries@[a] == e[a]);
                            } else {
                                assert(self.entries@[a] == e[a] && self.entries@[b] == e[b]);
                            }
                        }
                    }
                }
                let mut entries: Vec<(String, u64)> = Vec::new();
                std::mem::swap(&mut entries, &mut self.entries);
                entries.push((name, seen));
                self.entries = entries;
            },
        }
    }

    /// The time recorded for `name`, if any.
    pub fn get(&self, name: &str) -> (r: Option<u64>)
        ensures
            r == (if self@.contains_key(name@) {
                Some(self@[name@])
            } else {
                None::<u64>
            }),
    {
        proof {
            use_type_invariant(self);
            lemma_name_map_dom(self.entries@, name@);
        }
        match self.find(name) {
            Some(i) => {
                proof {
                    lemma_name_map_value(self.entries@, i as int);
                }
                Some(self.entries[i].1)
            },
            None => None,
        }
    }

    /// Forgets `name`.
    pub fn remove(&mut self, name: &str)
        ensures
            final(self)@ == old(self)@.remove(name@),
    {
        proof {
            use_type_invariant(&*self);
            lemma_name_map_dom(self.entries@, name@);
        }
        match self.find(name) {
            Some(i) => {
                proof {
                    lemma_name_map_remove(self.entries@, i as int);
                }
                let mut entries: Vec<(String, u64)> = Vec::new();
                std::mem::swap(&mut entries, &mut self.entries);
                entries.remove(i);
                self.entries = entries;
            },
            None => {
                assert(old(self)@.remove(name@) =~= old(self)@);
            },
        }
    }

    /// Keeps the entries at most `max_age` milliseconds old at `now`.
    pub fn retain_recent(&mut self, now: u64, max_age: u64)
        ensures
            final(self)@ == recent_entries(old(self)@, now, max_age),
    {
        proof {
            use_type_invariant(&*self);
        }
        let ghost e = self.entries@;
        let n = self.entries.len();
        let mut kept: Vec<(String, u64)> = Vec::new();
        let mut i: usize = 0;
        assert(e.take(0) =~= Seq::<(String, u64)>::empty());
        assert(name_map(kept@) =~= recent_entries(name_map(e.take(0)), now, max_age));
        while i < n
            invariant
                e == self.entries@,
                names_unique(e),
                n == e.len(),
                i <= n,
                names_unique(kept@),
                name_map(kept@) == recent_entries(name_map(e.take(i as int)), now, max_age),
            decreases n - i,
        {
            let seen = self.entries[i].1;
            let ghost before = e.take(i as int);
            let ghost after = e.take(i + 1);
            assert(after.drop_last() =~= before);
            assert(after.last() == e[i as int]);
            proof {
                lemma_name_map_dom(before, e[i as int].0@);
                if exists|k: int| 0 <= k < before.len() && #[trigger] before[k].0@ == e[i as int].0@ {
                    let k = choose|k: int| 0 <= k < before.len() && #[trigger] before[k].0@ == e[i as int].0@;
                    assert(before[k] == e[k]);
                }
            }
            if elapsed(seen, now) <= max_age {
                let name = self.entries[i].0.clone();
                proof {
                    let k2 = kept@.push((name, seen));
                    assert(k2.drop_last() =~= kept@);
                    lemma_name_map_dom(kept@, name@);
                    assert(names_unique(k2)) by {
                        assert forall|a: int, b: int| 0 <= a < b < k2.len() implies k2[a].0@
                            != k2[b].0@ by {
                            if b == k2.len() - 1 {
                                assert(kept@[a] == k2[a]);
                            } else {
                                assert(kept@[a] == k2[a] && kept@[b] == k2[b]);
                            }
                        }
                    }
                    assert(name_map(k2) =~= recent_entries(name_map(after), now, max_age));
                }
                kept.push((name, seen));
            } else {
                proof {
                    assert(name_map(kept@) =~= recent_entries(name_map(after), now, max_age));
                }
            }
            i = i + 1;
        }
        assert(e.take(n as int) =~= e);
        self.entries = kept;
    }
}

} // verus!
