//! Sets of texts.
use crate::text::{contains_text, position_of_text, views, views_push};
use vstd::prelude::*;

verus! {

/// The set of a list with one element more.
pub proof fn to_set_push<A>(s: Seq<A>, a: A)
    ensures
        s.push(a).to_set() == s.to_set().insert(a),
{
    assert forall|x: A| s.push(a).to_set().contains(x) == s.to_set().insert(a).contains(x) by {
        if s.contains(x) {
            assert(s.push(a)[s.index_of(x)] == x);
        }
        if x == a {
            assert(s.push(a)[s.len() as int] == x);
        }
    }
    assert(s.push(a).to_set() =~= s.to_set().insert(a));
}

/// The set without `text` where it holds it, else with it.
pub open spec fn toggled(set: Set<Seq<char>>, text: Seq<char>) -> Set<Seq<char>> {
    if set.contains(text) {
        set.remove(text)
    } else {
        set.insert(text)
    }
}

/// Toggling twice changes nothing.
pub proof fn toggling_twice(set: Set<Seq<char>>, text: Seq<char>)
    ensures
        toggled(toggled(set, text), text) == set,
{
    assert(toggled(toggled(set, text), text) =~= set);
}

/// A set of texts.
#[derive(Debug)]
pub struct TextSet {
    texts: Vec<String>,
}

impl TextSet {
    /// The texts in the set.
    pub closed spec fn view(&self) -> Set<Seq<char>> {
        views(self.texts@).to_set()
    }

    /// No text is held twice.
    #[verifier::type_invariant]
    spec fn distinct(&self) -> bool {
        views(self.texts@).no_duplicates()
    }

    /// The empty set.
    pub fn new() -> (r: Self)
        ensures
            r@ == Set::<Seq<char>>::empty(),
    {
        let set = TextSet { texts: Vec::new() };
        assert(set@ =~= Set::<Seq<char>>::empty());
        set
    }

    /// The texts of a list.
    pub fn from_texts(list: &Vec<String>) -> (r: Self)
        ensures
            r@ == views(list@).to_set(),
    {
        let mut set = TextSet::new();
        let mut i: usize = 0;
        assert(views(list@.take(0)).to_set() =~= Set::<Seq<char>>::empty());
        while i < list.len()
            invariant
                i <= list@.len(),
                set@ == views(list@.take(i as int)).to_set(),
            decreases list@.len() - i,
        {
            proof {
                let before = views(list@.take(i as int));
                let text = list@[i as int]@;
                assert(views(list@.take(i + 1)) =~= before.push(text));
                to_set_push(before, text);
            }
            set.insert(list[i].clone());
            i = i + 1;
        }
        assert(list@.take(i as int) =~= list@);
        set
    }

    /// The set holds nothing.
    pub fn is_empty(&self) -> (r: bool)
        ensures
            r == (self@ =~= Set::<Seq<char>>::empty()),
    {
        proof {
            if self.texts@.len() > 0 {
                assert(views(self.texts@).contains(views(self.texts@)[0]));
                assert(self@.contains(views(self.texts@)[0]));
            }
        }
        self.texts.len() == 0
    }

    /// The set holds `text`.
    pub fn contains(&self, text: &str) -> (r: bool)
        ensures
            r == self@.contains(text@),
    {
        contains_text(&self.texts, text)
    }

    /// Adds a text; says whether it was new.
    pub fn insert(&mut self, text: String) -> (r: bool)
        ensures
            final(self)@ == old(self)@.insert(text@),
            r == !old(self)@.contains(text@),
    {
        proof {
            use_type_invariant(&*self);
        }
        if contains_text(&self.texts, text.as_str()) {
            assert(self@ =~= self@.insert(text@));
            return false;
        }
        let ghost before = views(self.texts@);
        proof {
            views_push(self.texts@, text);
            assert(before.push(text@).no_duplicates());
            to_set_push(before, text@);
        }
        let mut texts: Vec<String> = Vec::new();
        std::mem::swap(&mut texts, &mut self.texts);
        texts.push(text);
        self.texts = texts;
        true
    }

    /// Takes a text out; says whether it was there.
    pub fn remove(&mut self, text: &str) -> (r: bool)
        ensures
            final(self)@ == old(self)@.remove(text@),
            r == old(self)@.contains(text@),
    {
        proof {
            use_type_invariant(&*self);
        }
        match position_of_text(&self.texts, text) {
            None => {
                assert(self@ =~= self@.remove(text@));
                false
            },
            Some(i) => {
                let ghost before = views(self.texts@);
                proof {
                    let after = before.remove(i as int);
                    assert(views(self.texts@.remove(i as int)) =~= after);
                    assert forall|a: int, b: int|
                        0 <= a < after.len() && 0 <= b < after.len() && a != b implies after[a]
                        != after[b] by {
                        let a0 = if a < i { a } else { a + 1 };
                        let b0 = if b < i { b } else { b + 1 };
                        assert(before[a0] != before[b0]);
                    }
                    assert(after.to_set() =~= before.to_set().remove(text@)) by {
                        assert forall|x: Seq<char>| after.contains(x) <==> before.contains(x) && x
                            != text@ by {
                            if after.contains(x) {
                                let k = after.index_of(x);
                                let k0 = if k < i { k } else { k + 1 };
                                assert(before[k0] == x);
                                assert(before[k0] != before[i as int]);
                            }
                            if before.contains(x) && x != text@ {
                                let k = before.index_of(x);
                                let k1 = if k < i { k } else { k - 1 };
                                assert(after[k1] == x);
                            }
                        }
                    }
                }
                let mut texts: Vec<String> = Vec::new();
                std::mem::swap(&mut texts, &mut self.texts);
                texts.remove(i);
                self.texts = texts;
                true
            },
        }
    }

    /// Takes a text out where it is there, else adds it; says whether it was added.
    pub fn toggle(&mut self, text: String) -> (r: bool)
        ensures
            final(self)@ == toggled(old(self)@, text@),
            r == !old(self)@.contains(text@),
    {
        if self.remove(text.as_str()) {
            return false;
        }
        assert(self@ =~= old(self)@);
        self.insert(text)
    }

    /// Takes every text out.
    pub fn clear(&mut self)
        ensures
            final(self)@ == Set::<Seq<char>>::empty(),
    {
        self.texts = Vec::new();
        assert(self@ =~= Set::<Seq<char>>::empty());
    }
}

} // verus!
