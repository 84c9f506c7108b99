//! The `fields.*` options of a datagen source: a map from option name to option text.

use vstd::prelude::*;
use crate::strings::text_equals;

verus! {

/// Option names and their texts; each name occurs once.
pub struct FieldOptions {
    entries: Vec<(String, String)>,
}

impl FieldOptions {
    #[verifier::type_invariant]
    closed spec fn names_distinct(self) -> bool {
        forall|i: int, j: int|
            #![trigger self.entries@[i], self.entries@[j]]
            0 <= i < j < self.entries@.len() ==> self.entries@[i].0@ != self.entries@[j].0@
    }

    /// Whether the entry at `i` is named `k`.
    closed spec fn named_at(self, i: int, k: Seq<char>) -> bool {
        0 <= i < self.entries@.len() && self.entries@[i].0@ == k
    }

    /// No options.
    pub fn new() -> (r: FieldOptions)
        ensures
            r@ == Map::<Seq<char>, Seq<char>>::empty(),
    {
        let r = FieldOptions { entries: Vec::new() };
        assert(r@ =~= Map::<Seq<char>, Seq<char>>::empty());
        r
    }

    /// The text of the option named `key`, if it is set.
    pub fn get(&self, key: &str) -> (r: Option<&String>)
        ensures
            match r {
                Some(v) => self@.contains_key(key@) && v@ == self@[key@],
                None => !self@.contains_key(key@),
            },
    {
        proof {
            use_type_invariant(self);
        }
        let n = self.entries.len();
        let mut i: usize = 0;
        while i < n
            invariant
                n == self.entries@.len(),
                self.names_distinct(),
                i <= n,
                forall|j: int| 0 <= j < i ==> !self.named_at(j, key@),
            decreases n - i,
        {
            if text_equals(self.entries[i].0.as_str(), key) {
                proof {
                    assert(self.named_at(i as int, key@));
                    let c = choose|j: int| self.named_at(j, key@);
                    if c != i as int {
                        assert(self.entries@[c].0@ == self.entries@[i as int].0@);
                        if c < i {
                            assert(!self.named_at(c, key@));
                        }
                    }
                }
                return Some(&self.entries[i].1);
            }
            i = i + 1;
        }
        None
    }

    /// Sets the option named `key` to `value`, replacing its earlier text if it had one.
    pub fn insert(&mut self, key: String, value: String)
        ensures
            final(self)@ == old(self)@.insert(key@, value@),
    {
        proof {
            use_type_invariant(&*self);
        }
        let ghost before = *self;
        let n = self.entries.len();
        let mut i: usize = 0;
        while i < n
            invariant
                n == self.entries@.len(),
                *self == before,
                before == *old(self),
                before.names_distinct(),
                i <= n,
                forall|j: int| 0 <= j < i ==> !before.named_at(j, key@),
            decreases n - i,
        {
            if text_equals(self.entries[i].0.as_str(), key.as_str()) {
                let ghost kv = key@;
                let ghost vv = value@;
                let mut entries = Vec::new();
                std::mem::swap(&mut entries, &mut self.entries);
                entries.set(i, (key, value));
                proof {
                    assert forall|a: int, b: int|
                        #![trigger entries@[a], entries@[b]]
                        0 <= a < b < entries@.len() implies entries@[a].0@ != entries@[b].0@ by {
                        if a != i && b != i {
                            assert(before.entries@[a] == entries@[a]);
                            assert(before.entries@[b] == entries@[b]);
                        } else if a == i {
                            assert(before.entries@[b] == entries@[b]);
                            assert(before.entries@[i as int].0@ == kv);
                        } else {
                            assert(before.entries@[a] == entries@[a]);
                            assert(before.entries@[i as int].0@ == kv);
                        }
                    }
                }
                self.entries = entries;
                proof {
                    self.lemma_view_replaced(before, i as int, kv, vv);
                }
                return;
            }
            i = i + 1;
        }
        let ghost kv = key@;
        let ghost vv = value@;
        let mut entries = Vec::new();
        std::mem::swap(&mut entries, &mut self.entries);
        entries.push((key, value));
        proof {
            assert forall|a: int, b: int|
                #![trigger entries@[a], entries@[b]]
                0 <= a < b < entries@.len() implies entries@[a].0@ != entries@[b].0@ by {
                assert(before.entries@[a] == entries@[a]);
                if b < n {
                    assert(before.entries@[b] == entries@[b]);
                } else {
                    assert(!before.named_at(a, kv));
                }
            }
        }
        self.entries = entries;
        proof {
            self.lemma_view_pushed(before, kv, vv);
        }
    }

    proof fn lemma_view_replaced(self, before: FieldOptions, i: int, k: Seq<char>, v: Seq<char>)
        requires
            before.names_distinct(),
            self.names_distinct(),
            0 <= i < before.entries@.len(),
            before.entries@[i].0@ == k,
            self.entries@.len() == before.entries@.len(),
            self.entries@[i].0@ == k,
            self.entries@[i].1@ == v,
            forall|j: int| 0 <= j < before.entries@.len() && j != i ==> before.entries@[j]
                == self.entries@[j],
        ensures
            self@ == before@.insert(k, v),
    {
        assert forall|q: Seq<char>| #[trigger] self@.contains_key(q) == before@.insert(
            k,
            v,
        ).contains_key(q) by {
            if q == k {
                assert(self.named_at(i, q));
                assert(before.named_at(i, q));
            } else {
                if self@.contains_key(q) {
                    let j = choose|j: int| self.named_at(j, q);
                    assert(before.named_at(j, q));
                }
                if before@.contains_key(q) {
                    let j = choose|j: int| before.named_at(j, q);
                    assert(self.named_at(j, q));
                }
            }
        }
        assert forall|q: Seq<char>| #[trigger] self@.contains_key(q) implies self@[q] == before@.insert(
            k,
            v,
        )[q] by {
            let j = choose|j: int| self.named_at(j, q);
            if q == k {
                assert(self.named_at(i, q));
                if j != i {
                    if j < i {
                        assert(self.entries@[j].0@ != self.entries@[i].0@);
                    } else {
                        assert(self.entries@[i].0@ != self.entries@[j].0@);
                    }
                }
            } else {
                assert(before.named_at(j, q));
                let b = choose|b: int| before.named_at(b, q);
                if b != j {
                    if b < j {
                        assert(before.entries@[b].0@ != before.entries@[j].0@);
                    } else {
                        assert(before.entries@[j].0@ != before.entries@[b].0@);
                    }
                }
            }
        }
        assert(self@ =~= before@.insert(k, v));
    }

    proof fn lemma_view_pushed(self, before: FieldOptions, k: Seq<char>, v: Seq<char>)
        requires
            before.names_distinct(),
            self.names_distinct(),
            forall|j: int| 0 <= j < before.entries@.len() ==> !before.named_at(j, k),
            self.entries@.len() == before.entries@.len() + 1,
            self.entries@.last().0@ == k,
            self.entries@.last().1@ == v,
            forall|j: int| 0 <= j < before.entries@.len() ==> before.entries@[j]
                == self.entries@[j],
        ensures
            self@ == before@.insert(k, v),
    {
        let n = before.entries@.len() as int;
        assert forall|q: Seq<char>| #[trigger] self@.contains_key(q) == before@.insert(
            k,
            v,
        ).contains_key(q) by {
            if q == k {
                assert(self.named_at(n, q));
            } else {
                if self@.contains_key(q) {
                    let j = choose|j: int| self.named_at(j, q);
                    assert(before.named_at(j, q));
                }
                if before@.contains_key(q) {
                    let j = choose|j: int| before.named_at(j, q);
                    assert(self.named_at(j, q));
                }
            }
        }
        assert forall|q: Seq<char>| #[trigger] self@.contains_key(q) implies self@[q] == before@.insert(
            k,
            v,
        )[q] by {
            let j = choose|j: int| self.named_at(j, q);
            if q == k {
                if j != n {
                    assert(before.named_at(j, q));
                }
            } else {
                assert(before.named_at(j, q));
                let b = choose|b: int| before.named_at(b, q);
                if b != j {
                    if b < j {
                        assert(before.entries@[b].0@ != before.entries@[j].0@);
                    } else {
                        assert(before.entries@[j].0@ != before.entries@[b].0@);
                    }
                }
            }
        }
        assert(self@ =~= before@.insert(k, v));
    }
}

impl View for FieldOptions {
    type V = Map<Seq<char>, Seq<char>>;

    closed spec fn view(&self) -> Map<Seq<char>, Seq<char>> {
        Map::new(
            |k: Seq<char>| exists|i: int| self.named_at(i, k),
            |k: Seq<char>| self.entries@[choose|i: int| self.named_at(i, k)].1@,
        )
    }
}

} // verus!
