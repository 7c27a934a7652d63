//! A table of values keyed by distinct names, kept in insertion order.
//!
//! It holds what the engine keeps in string-keyed hash maps: the registry
//! of graphics devices and the name → key maps of the render graph
//! manager. Names are distinct; that is the table's invariant.

use vstd::prelude::*;
use vstd::string::*;

verus! {

/// Entries of a table, names as character sequences.
pub open spec fn entries_distinct<V>(s: Seq<(Seq<char>, V)>) -> bool {
    forall|i: int, j: int| 0 <= i < j < s.len() ==> #[trigger] s[i].0 != #[trigger] s[j].0
}

/// Some entry carries the name.
pub open spec fn has_name<V>(s: Seq<(Seq<char>, V)>, name: Seq<char>) -> bool {
    exists|i: int| 0 <= i < s.len() && #[trigger] s[i].0 == name
}

/// Position of the entry that carries the name (meaningful when present).
pub open spec fn name_index<V>(s: Seq<(Seq<char>, V)>, name: Seq<char>) -> int {
    choose|i: int| 0 <= i < s.len() && #[trigger] s[i].0 == name
}

/// The value stored under a name, if any.
pub open spec fn lookup<V>(s: Seq<(Seq<char>, V)>, name: Seq<char>) -> Option<V> {
    if has_name(s, name) {
        Some(s[name_index(s, name)].1)
    } else {
        None
    }
}

/// The entries without the one that carries the name.
pub open spec fn without_name<V>(s: Seq<(Seq<char>, V)>, name: Seq<char>) -> Seq<(Seq<char>, V)> {
    if has_name(s, name) {
        s.remove(name_index(s, name))
    } else {
        s
    }
}

/// The names of the entries, in table order.
pub open spec fn names_of<V>(s: Seq<(Seq<char>, V)>) -> Seq<Seq<char>> {
    s.map_values(|e: (Seq<char>, V)| e.0)
}

/// A table of values keyed by distinct names.
pub struct NameTable<V> {
    entries: Vec<(String, V)>,
}

impl<V> View for NameTable<V> {
    type V = Seq<(Seq<char>, V)>;

    closed spec fn view(&self) -> Seq<(Seq<char>, V)> {
        self.entries@.map_values(|e: (String, V)| (e.0@, e.1))
    }
}

impl<V> NameTable<V> {
    /// Names are distinct.
    pub open spec fn wf(&self) -> bool {
        entries_distinct(self@)
    }

    /// An empty table.
    pub fn new() -> (t: Self)
        ensures
            t.wf(),
            t@ == Seq::<(Seq<char>, V)>::empty(),
    {
        let t = NameTable { entries: Vec::new() };
        assert(t@ =~= Seq::<(Seq<char>, V)>::empty());
        t
    }

    /// Number of entries.
    pub fn len(&self) -> (n: usize)
        ensures
            n == self@.len(),
    {
        self.entries.len()
    }

    /// Position of the entry named `name`, if there is one.
    pub fn find(&self, name: &str) -> (r: Option<usize>)
        requires
            self.wf(),
        ensures
            r is Some <==> has_name(self@, name@),
            r matches Some(i) ==> i < self@.len() && self@[i as int].0 == name@ && i
                == name_index(self@, name@),
    {
        let key = String::from_str(name);
        let mut i: usize = 0;
        while i < self.entries.len()
            invariant
                self.wf(),
                i <= self.entries@.len(),
                key@ == name@,
                forall|j: int| 0 <= j < i ==> #[trigger] self@[j].0 != name@,
            decreases self.entries@.len() - i,
        {
            if self.entries[i].0 == key {
                assert(self@[i as int].0 == name@);
                assert(has_name(self@, name@));
                let ghost k = name_index(self@, name@);
                assert(self@[k].0 == name@);
                assert(k == i as int);
                return Some(i);
            }
            i += 1;
        }
        None
    }

    /// The name and value of entry `i`.
    pub fn entry(&self, i: usize) -> (r: (&String, &V))
        requires
            i < self@.len(),
        ensures
            r.0@ == self@[i as int].0,
            *r.1 == self@[i as int].1,
    {
        (&self.entries[i].0, &self.entries[i].1)
    }

    /// Append a new entry under a name that is not in the table.
    pub fn push(&mut self, name: &str, value: V)
        requires
            old(self).wf(),
            !has_name(old(self)@, name@),
        ensures
            final(self).wf(),
            final(self)@ == old(self)@.push((name@, value)),
    {
        let ghost old_view = self@;
        self.entries.push((String::from_str(name), value));
        assert(self@ =~= old_view.push((name@, value)));
    }

    /// Remove entry `i`, returning its value.
    pub fn remove_at(&mut self, i: usize) -> (v: V)
        requires
            old(self).wf(),
            i < old(self)@.len(),
        ensures
            final(self).wf(),
            final(self)@ == old(self)@.remove(i as int),
            v == old(self)@[i as int].1,
    {
        let ghost old_view = self@;
        let (_, v) = self.entries.remove(i);
        assert(self@ =~= old_view.remove(i as int));
        v
    }

    /// Remove every entry.
    pub fn clear(&mut self)
        ensures
            final(self).wf(),
            final(self)@ == Seq::<(Seq<char>, V)>::empty(),
    {
        self.entries.clear();
        assert(self@ =~= Seq::<(Seq<char>, V)>::empty());
    }
}

/// In a table with distinct names, the entry at a position is the one
/// that its name finds.
pub proof fn lemma_name_index_unique<V>(s: Seq<(Seq<char>, V)>, i: int)
    requires
        entries_distinct(s),
        0 <= i < s.len(),
    ensures
        has_name(s, s[i].0),
        name_index(s, s[i].0) == i,
        lookup(s, s[i].0) == Some(s[i].1),
{
    assert(has_name(s, s[i].0));
    let k = name_index(s, s[i].0);
    assert(s[k].0 == s[i].0);
}

/// Appending an entry under a new name keeps names distinct, and the new
/// name then finds the new value while every other name finds what it
/// found before.
pub proof fn lemma_push_lookup<V>(s: Seq<(Seq<char>, V)>, name: Seq<char>, v: V, other: Seq<char>)
    requires
        entries_distinct(s),
        !has_name(s, name),
    ensures
        entries_distinct(s.push((name, v))),
        lookup(s.push((name, v)), name) == Some(v),
        other != name ==> lookup(s.push((name, v)), other) == lookup(s, other),
{
    let t = s.push((name, v));
    assert forall|i: int, j: int| 0 <= i < j < t.len() implies #[trigger] t[i].0 != #[trigger] t[j].0 by {
        if j == s.len() {
            assert(s[i].0 == t[i].0);
        } else {
            assert(t[i] == s[i] && t[j] == s[j]);
        }
    }
    lemma_name_index_unique(t, s.len() as int);
    assert(t[s.len() as int] == (name, v));
    if other != name {
        if has_name(s, other) {
            let k = name_index(s, other);
            assert(t[k] == s[k]);
            lemma_name_index_unique(t, k);
        } else {
            assert forall|i: int| 0 <= i < t.len() implies #[trigger] t[i].0 != other by {
                if i < s.len() {
                    assert(t[i] == s[i]);
                }
            }
        }
    }
}

/// Removing the entry under a name keeps names distinct; the name then
/// finds nothing, and every other name finds what it found before.
pub proof fn lemma_without_lookup<V>(s: Seq<(Seq<char>, V)>, name: Seq<char>, other: Seq<char>)
    requires
        entries_distinct(s),
    ensures
        entries_distinct(without_name(s, name)),
        lookup(without_name(s, name), name) is None,
        other != name ==> lookup(without_name(s, name), other) == lookup(s, other),
{
    if has_name(s, name) {
        let k = name_index(s, name);
        let t = s.remove(k);
        assert(s[k].0 == name);
        assert forall|i: int| 0 <= i < t.len() implies #[trigger] t[i] == (if i < k {
            s[i]
        } else {
            s[i + 1]
        }) by {}
        assert forall|i: int, j: int| 0 <= i < j < t.len() implies #[trigger] t[i].0
            != #[trigger] t[j].0 by {
            let ii = if i < k { i } else { i + 1 };
            let jj = if j < k { j } else { j + 1 };
            assert(t[i] == s[ii]);
            assert(t[j] == s[jj]);
        }
        assert forall|i: int| 0 <= i < t.len() implies #[trigger] t[i].0 != name by {
            let ii = if i < k { i } else { i + 1 };
            assert(t[i] == s[ii]);
        }
        if other != name {
            if has_name(s, other) {
                let m = name_index(s, other);
                assert(s[m].0 == other);
                let mm = if m < k { m } else { m - 1 };
                assert(t[mm] == s[m]);
                lemma_name_index_unique(t, mm);
                lemma_name_index_unique(s, m);
            } else {
                assert forall|i: int| 0 <= i < t.len() implies #[trigger] t[i].0 != other by {
                    let ii = if i < k { i } else { i + 1 };
                    assert(t[i] == s[ii]);
                }
            }
        }
    }
}

} // verus!
