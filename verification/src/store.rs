//! A flat mapping from string keys to string values, the backing storage for
//! the variable namespace, for preloaded function scripts and for the
//! in-memory file table.
//!
//! The store is an association list whose keys are kept distinct; its view is
//! both the ordered entry sequence (for operations that enumerate entries)
//! and, derived from it, a `Map` from key characters to value characters.

use vstd::prelude::*;
use crate::text::str_eq;

verus! {

/// One stored binding, as character sequences.
pub type EntryV = (Seq<char>, Seq<char>);

/// The entries as ghost key/value character sequences.
pub open spec fn entry_views(es: Seq<(String, String)>) -> Seq<EntryV> {
    Seq::new(es.len(), |i: int| (es[i].0@, es[i].1@))
}

/// Whether some entry binds `k`.
pub open spec fn has_key(es: Seq<EntryV>, k: Seq<char>) -> bool {
    exists|i: int| 0 <= i < es.len() && es[i].0 == k
}

/// The index of the first entry binding `k`, or the length when absent.
pub open spec fn idx_of_key(es: Seq<EntryV>, k: Seq<char>) -> int
    decreases es.len(),
{
    if es.len() == 0 {
        0
    } else if es[0].0 == k {
        0
    } else {
        1 + idx_of_key(es.drop_first(), k)
    }
}

/// The mapping an entry sequence denotes (later entries shadow earlier ones;
/// with distinct keys the order does not matter).
pub open spec fn map_of(es: Seq<EntryV>) -> Map<Seq<char>, Seq<char>>
    decreases es.len(),
{
    if es.len() == 0 {
        Map::empty()
    } else {
        map_of(es.drop_last()).insert(es.last().0, es.last().1)
    }
}

/// All keys distinct.
pub open spec fn keys_distinct(es: Seq<EntryV>) -> bool {
    forall|i: int, j: int| 0 <= i < j < es.len() ==> es[i].0 != es[j].0
}

pub proof fn lemma_map_of_domain(es: Seq<EntryV>, k: Seq<char>)
    ensures
        map_of(es).contains_key(k) == has_key(es, k),
    decreases es.len(),
{
    if es.len() > 0 {
        lemma_map_of_domain(es.drop_last(), k);
        if es.last().0 == k {
            assert(es[es.len() - 1].0 == k);
        } else {
            if has_key(es.drop_last(), k) {
                let i = choose|i: int| 0 <= i < es.drop_last().len() && es.drop_last()[i].0 == k;
                assert(es[i].0 == k);
            }
            if has_key(es, k) {
                let i = choose|i: int| 0 <= i < es.len() && es[i].0 == k;
                assert(i < es.len() - 1);
                assert(es.drop_last()[i].0 == k);
            }
        }
    }
}

pub proof fn lemma_map_of_index(es: Seq<EntryV>, i: int)
    requires
        keys_distinct(es),
        0 <= i < es.len(),
    ensures
        map_of(es).contains_key(es[i].0),
        map_of(es)[es[i].0] == es[i].1,
    decreases es.len(),
{
    if i == es.len() - 1 {
    } else {
        assert(keys_distinct(es.drop_last()));
        lemma_map_of_index(es.drop_last(), i);
        assert(es[i].0 != es.last().0);
    }
}

pub proof fn lemma_idx_of_key(es: Seq<EntryV>, k: Seq<char>)
    ensures
        0 <= idx_of_key(es, k) <= es.len(),
        idx_of_key(es, k) < es.len() ==> es[idx_of_key(es, k)].0 == k,
        forall|j: int| 0 <= j < idx_of_key(es, k) ==> es[j].0 != k,
        (idx_of_key(es, k) < es.len()) == has_key(es, k),
    decreases es.len(),
{
    if es.len() > 0 && es[0].0 != k {
        lemma_idx_of_key(es.drop_first(), k);
        assert forall|j: int| 0 <= j < idx_of_key(es, k) implies es[j].0 != k by {
            if j > 0 {
                assert(es.drop_first()[j - 1].0 != k);
            }
        }
        if idx_of_key(es.drop_first(), k) < es.drop_first().len() {
            assert(es[idx_of_key(es, k)].0 == k);
            assert(has_key(es, k));
        } else {
            if has_key(es, k) {
                let w = choose|w: int| 0 <= w < es.len() && es[w].0 == k;
                assert(es.drop_first()[w - 1].0 == k);
                assert(has_key(es.drop_first(), k));
            }
        }
    } else if es.len() > 0 {
        assert(has_key(es, k)) by {
            assert(es[0].0 == k);
        }
    } else {
        if has_key(es, k) {
            let w = choose|w: int| 0 <= w < es.len() && es[w].0 == k;
        }
    }
}

pub proof fn lemma_map_of_update(es: Seq<EntryV>, i: int, k: Seq<char>, v: Seq<char>)
    requires
        keys_distinct(es),
        0 <= i < es.len(),
        es[i].0 == k,
    ensures
        map_of(es.update(i, (k, v))) =~= map_of(es).insert(k, v),
    decreases es.len(),
{
    let es2 = es.update(i, (k, v));
    if i == es.len() - 1 {
        assert(es2.drop_last() =~= es.drop_last());
        assert(es2.last() == (k, v));
    } else {
        assert(keys_distinct(es.drop_last()));
        lemma_map_of_update(es.drop_last(), i, k, v);
        assert(es2.drop_last() =~= es.drop_last().update(i, (k, v)));
        assert(es2.last() == es.last());
        assert(es.last().0 != k);
    }
}

pub proof fn lemma_map_of_push(es: Seq<EntryV>, k: Seq<char>, v: Seq<char>)
    ensures
        map_of(es.push((k, v))) =~= map_of(es).insert(k, v),
{
    assert(es.push((k, v)).drop_last() =~= es);
}

// ---------------------------------------------------------------------------
// The store
// ---------------------------------------------------------------------------

/// A flat string-keyed store with distinct keys.
pub struct VarStore {
    pub entries: Vec<(String, String)>,
}

impl View for VarStore {
    type V = Seq<EntryV>;

    open spec fn view(&self) -> Seq<EntryV> {
        entry_views(self.entries@)
    }
}

impl VarStore {
    /// Keys are distinct, so the entry order and the map agree.
    pub open spec fn wf(&self) -> bool {
        keys_distinct(self@)
    }

    /// The mapping the store denotes.
    pub open spec fn as_map(&self) -> Map<Seq<char>, Seq<char>> {
        map_of(self@)
    }

    pub fn new() -> (r: VarStore)
        ensures
            r.wf(),
            r@ == Seq::<EntryV>::empty(),
            r.as_map() == Map::<Seq<char>, Seq<char>>::empty(),
    {
        let r = VarStore { entries: Vec::new() };
        proof {
            assert(r@ =~= Seq::<EntryV>::empty());
        }
        r
    }

    /// Look a key up.
    pub fn get(&self, name: &str) -> (r: Option<&String>)
        requires
            self.wf(),
        ensures
            match r {
                Some(v) => self.as_map().contains_key(name@) && v@ == self.as_map()[name@],
                None => !self.as_map().contains_key(name@),
            },
    {
        proof {
            lemma_map_of_domain(self@, name@);
        }
        let n = self.entries.len();
        let mut i: usize = 0;
        while i < n
            invariant
                n == self.entries@.len(),
                i <= n,
                self.wf(),
                forall|j: int| 0 <= j < i ==> self@[j].0 != name@,
            decreases n - i,
        {
            if str_eq(self.entries[i].0.as_str(), name) {
                proof {
                    lemma_map_of_index(self@, i as int);
                }
                return Some(&self.entries[i].1);
            }
            i = i + 1;
        }
        proof {
            if has_key(self@, name@) {
                let w = choose|w: int| 0 <= w < self@.len() && self@[w].0 == name@;
            }
            lemma_map_of_domain(self@, name@);
        }
        None
    }

    /// Bind `name` to `value`, replacing any earlier binding in place.
    pub fn insert(&mut self, name: &str, value: String)
        requires
            old(self).wf(),
        ensures
            final(self).wf(),
            final(self).as_map() == old(self).as_map().insert(name@, value@),
            final(self)@ == if has_key(old(self)@, name@) {
                old(self)@.update(idx_of_key(old(self)@, name@), (name@, value@))
            } else {
                old(self)@.push((name@, value@))
            },
    {
        proof {
            lemma_idx_of_key(self@, name@);
        }
        let ghost snapshot = self@;
        let n = self.entries.len();
        let mut i: usize = 0;
        while i < n
            invariant
                snapshot == old(self)@,
                self@ == snapshot,
                self.wf(),
                n == self.entries@.len(),
                i <= n,
                forall|j: int| 0 <= j < i ==> self@[j].0 != name@,
            decreases n - i,
        {
            if str_eq(self.entries[i].0.as_str(), name) {
                proof {
                    assert(snapshot[i as int].0 == name@);
                    assert(idx_of_key(snapshot, name@) == i) by {
                        lemma_idx_of_key(snapshot, name@);
                        let ix = idx_of_key(snapshot, name@);
                        if ix < i {
                            assert(snapshot[ix].0 == name@);
                        }
                        if ix > i {
                            assert(snapshot[i as int].0 != name@);
                        }
                    }
                    lemma_map_of_update(snapshot, i as int, name@, value@);
                }
                let owned = crate::text::string_of(crate::text::str_chars(name).as_slice());
                self.entries[i] = (owned, value);
                proof {
                    let updated = snapshot.update(i as int, (name@, value@));
                    assert(self@ =~= updated);
                    assert(self.wf()) by {
                        assert forall|p: int, q: int|
                            0 <= p < q < updated.len() implies updated[p].0 != updated[q].0 by {
                            assert(updated[p].0 == snapshot[p].0 || p == i);
                            assert(updated[q].0 == snapshot[q].0 || q == i);
                        }
                    }
                    assert(self.as_map() =~= map_of(snapshot).insert(name@, value@));
                    assert(has_key(snapshot, name@)) by {
                        assert(snapshot[i as int].0 == name@);
                    }
                    assert(self@ == snapshot.update(idx_of_key(snapshot, name@), (name@, value@)));
                    assert(self.as_map() == map_of(snapshot).insert(name@, value@));
                }
                return ;
            }
            i = i + 1;
        }
        proof {
            if has_key(snapshot, name@) {
                let w = choose|w: int| 0 <= w < snapshot.len() && snapshot[w].0 == name@;
            }
            lemma_map_of_push(snapshot, name@, value@);
        }
        let owned = crate::text::string_of(crate::text::str_chars(name).as_slice());
        self.entries.push((owned, value));
        proof {
            assert(self@ =~= snapshot.push((name@, value@)));
        }
    }

    /// The number of bindings.
    pub fn len(&self) -> (n: usize)
        ensures
            n == self@.len(),
    {
        self.entries.len()
    }

    /// Duplicate the store.
    pub fn duplicate(&self) -> (r: VarStore)
        ensures
            r@ == self@,
            r.wf() == self.wf(),
    {
        let mut entries: Vec<(String, String)> = Vec::new();
        let mut i: usize = 0;
        while i < self.entries.len()
            invariant
                i <= self.entries@.len(),
                entries@.len() == i,
                forall|j: int|
                    0 <= j < i ==> entries@[j].0@ == self.entries@[j].0@ && entries@[j].1@
                        == self.entries@[j].1@,
            decreases self.entries@.len() - i,
        {
            let k = self.entries[i].0.clone();
            let v = self.entries[i].1.clone();
            entries.push((k, v));
            i = i + 1;
        }
        let r = VarStore { entries };
        proof {
            assert(r@ =~= self@);
        }
        r
    }
}

} // verus!
