//! A set of texts, kept as a list in which no text occurs twice.

use crate::text::texts_view;
use vstd::prelude::*;

verus! {

/// A finite set of texts.
pub struct TextSet {
    items: Vec<String>,
}

impl View for TextSet {
    type V = Set<Seq<char>>;

    closed spec fn view(&self) -> Set<Seq<char>> {
        texts_view(self.items@).to_set()
    }
}

impl TextSet {
    /// No text occurs twice in the list.
    pub closed spec fn wf(&self) -> bool {
        texts_view(self.items@).no_duplicates()
    }

    /// The empty set.
    pub fn new() -> (r: TextSet)
        ensures
            r.wf(),
            r@ == Set::<Seq<char>>::empty(),
    {
        let r = TextSet { items: Vec::new() };
        assert(texts_view(r.items@) =~= Seq::<Seq<char>>::empty());
        assert(r@ =~= Set::<Seq<char>>::empty());
        r
    }

    /// The number of texts in the set.
    pub fn len(&self) -> (r: usize)
        requires
            self.wf(),
        ensures
            r == self@.len(),
            self@.finite(),
    {
        proof {
            texts_view(self.items@).unique_seq_to_set();
        }
        self.items.len()
    }

    /// Whether the set holds no text.
    pub fn is_empty(&self) -> (r: bool)
        requires
            self.wf(),
        ensures
            r == (self@ == Set::<Seq<char>>::empty()),
    {
        proof {
            let s = texts_view(self.items@);
            if s.len() == 0 {
                assert(self@ =~= Set::<Seq<char>>::empty());
            } else {
                assert(s.to_set().contains(s[0]));
            }
        }
        self.items.len() == 0
    }

    /// The position of a text in the list, if the set holds it.
    fn position(&self, text: &String) -> (r: Option<usize>)
        ensures
            match r {
                Some(i) => i < self.items.len() && self.items@[i as int]@ == text@,
                None => !self@.contains(text@),
            },
    {
        let mut i: usize = 0;
        while i < self.items.len()
            invariant
                i <= self.items.len(),
                forall|j: int| 0 <= j < i ==> self.items@[j]@ != text@,
            decreases self.items.len() - i,
        {
            if self.items[i] == *text {
                return Some(i);
            }
            i += 1;
        }
        proof {
            let s = texts_view(self.items@);
            if s.to_set().contains(text@) {
                let j = choose|j: int| 0 <= j < s.len() && s[j] == text@;
                assert(self.items@[j]@ == text@);
            }
        }
        None
    }

    /// Whether the set holds the text.
    pub fn contains(&self, text: &String) -> (r: bool)
        ensures
            r == self@.contains(text@),
    {
        match self.position(text) {
            Some(i) => {
                proof {
                    let s = texts_view(self.items@);
                    assert(s[i as int] == text@);
                    assert(s.to_set().contains(s[i as int]));
                }
                true
            },
            None => false,
        }
    }

    /// Adds a text. Returns whether the set did not hold it before.
    pub fn insert(&mut self, text: String) -> (r: bool)
        requires
            old(self).wf(),
        ensures
            final(self).wf(),
            final(self)@ == old(self)@.insert(text@),
            r == !old(self)@.contains(text@),
    {
        let found = self.position(&text);
        if found.is_some() {
            proof {
                let s = texts_view(self.items@);
                let i = found.unwrap() as int;
                assert(s[i] == text@);
                assert(s.to_set().contains(s[i]));
                assert(self@ =~= old(self)@.insert(text@));
            }
            return false;
        }
        let ghost before = texts_view(self.items@);
        self.items.push(text);
        proof {
            let after = texts_view(self.items@);
            assert(after =~= before.push(text@));
            assert forall|i: int, j: int| 0 <= i < after.len() && 0 <= j < after.len() && i != j
                implies after[i] != after[j] by {
                if i < before.len() && j < before.len() {
                    assert(before[i] != before[j]);
                } else if i < before.len() {
                    assert(before.to_set().contains(before[i]));
                } else {
                    assert(before.to_set().contains(before[j]));
                }
            }
            before.lemma_push_to_set_commute(text@);
            assert(after.to_set() =~= before.to_set().insert(text@));
        }
        true
    }

    /// Takes a text out. Returns whether the set held it.
    pub fn remove(&mut self, text: &String) -> (r: bool)
        requires
            old(self).wf(),
        ensures
            final(self).wf(),
            final(self)@ == old(self)@.remove(text@),
            r == old(self)@.contains(text@),
    {
        let found = self.position(text);
        match found {
            None => {
                assert(self@ =~= old(self)@.remove(text@));
                false
            },
            Some(i) => {
                let ghost before = texts_view(self.items@);
                self.items.remove(i);
                proof {
                    let after = texts_view(self.items@);
                    assert(before[i as int] == text@);
                    assert(before.to_set().contains(before[i as int]));
                    assert(after =~= before.remove(i as int));
                    assert forall|a: int, b: int|
                        0 <= a < after.len() && 0 <= b < after.len() && a != b implies after[a]
                        != after[b] by {
                        let a0 = if a < i { a } else { a + 1 };
                        let b0 = if b < i { b } else { b + 1 };
                        assert(after[a] == before[a0]);
                        assert(after[b] == before[b0]);
                    }
                    assert forall|t: Seq<char>| after.to_set().contains(t)
                        == before.to_set().remove(text@).contains(t) by {
                        if after.to_set().contains(t) {
                            let a = choose|a: int| 0 <= a < after.len() && after[a] == t;
                            let a0 = if a < i { a } else { a + 1 };
                            assert(before[a0] == t);
                            assert(a0 != i);
                            assert(before[a0] != before[i as int]);
                        }
                        if before.to_set().remove(text@).contains(t) {
                            let b = choose|b: int| 0 <= b < before.len() && before[b] == t;
                            assert(b != i);
                            let b1 = if b < i { b } else { b - 1 };
                            assert(after[b1] == t);
                        }
                    }
                    assert(after.to_set() =~= before.to_set().remove(text@));
                }
                true
            },
        }
    }

    /// Takes every text out.
    pub fn clear(&mut self)
        ensures
            final(self).wf(),
            final(self)@ == Set::<Seq<char>>::empty(),
    {
        self.items.clear();
        assert(texts_view(self.items@) =~= Seq::<Seq<char>>::empty());
        assert(self@ =~= Set::<Seq<char>>::empty());
    }

    /// The texts of the set as a list, each once.
    pub fn to_vec(&self) -> (r: Vec<String>)
        requires
            self.wf(),
        ensures
            texts_view(r@).no_duplicates(),
            texts_view(r@).to_set() == self@,
            r.len() == self@.len(),
    {
        proof {
            texts_view(self.items@).unique_seq_to_set();
        }
        crate::text::clone_texts(&self.items)
    }
}

} // verus!
