//! Small sets: the numbers of what the user chose to see, and texts.

use vstd::prelude::*;
use crate::menu::same_text;
use crate::unicode::views;

verus! {

/// Numbers that were chosen.
#[derive(Debug)]
pub struct Choices {
    pub chosen: Vec<usize>,
}

impl View for Choices {
    type V = Set<usize>;

    open spec fn view(&self) -> Set<usize> {
        self.chosen@.to_set()
    }
}

impl Choices {
    pub fn new() -> (choices: Self)
        ensures
            choices@ == Set::<usize>::empty(),
    {
        let choices = Choices { chosen: Vec::new() };
        proof {
            assert(choices@ =~= Set::empty());
        }
        choices
    }

    pub fn contains(&self, number: usize) -> (yes: bool)
        ensures
            yes == self@.contains(number),
    {
        let mut i: usize = 0;
        while i < self.chosen.len()
            invariant
                i <= self.chosen@.len(),
                forall|k: int| 0 <= k < i ==> self.chosen@[k] != number,
            decreases self.chosen@.len() - i,
        {
            if self.chosen[i] == number {
                assert(self.chosen@.contains(number));
                return true;
            }
            i += 1;
        }
        false
    }

    pub fn insert(&mut self, number: usize)
        ensures
            final(self)@ == old(self)@.insert(number),
    {
        let ghost before = self.chosen@;
        self.chosen.push(number);
        proof {
            assert forall|n: usize| self@.contains(n) == before.to_set().insert(number).contains(
                n,
            ) by {
                if before.contains(n) {
                    let i = before.index_of(n);
                    assert(self.chosen@[i] == n);
                }
                assert(self.chosen@[before.len() as int] == number);
                if self.chosen@.contains(n) && n != number {
                    let i = self.chosen@.index_of(n);
                    assert(before[i] == n);
                }
            }
            assert(self@ =~= before.to_set().insert(number));
        }
    }

    pub fn clear(&mut self)
        ensures
            final(self)@ == Set::<usize>::empty(),
    {
        self.chosen.clear();
        proof {
            assert(self@ =~= Set::empty());
        }
    }

    pub fn copy(&self) -> (copy: Choices)
        ensures
            copy@ == self@,
    {
        let mut chosen: Vec<usize> = Vec::new();
        let mut i: usize = 0;
        while i < self.chosen.len()
            invariant
                i <= self.chosen@.len(),
                chosen@ == self.chosen@.take(i as int),
            decreases self.chosen@.len() - i,
        {
            chosen.push(self.chosen[i]);
            i += 1;
            proof {
                assert(chosen@ =~= self.chosen@.take(i as int));
            }
        }
        proof {
            assert(self.chosen@.take(i as int) =~= self.chosen@);
        }
        Choices { chosen }
    }

    /// Whether all that was chosen here was chosen there too.
    fn is_within(&self, other: &Choices) -> (yes: bool)
        ensures
            yes == self@.subset_of(other@),
    {
        let mut i: usize = 0;
        while i < self.chosen.len()
            invariant
                i <= self.chosen@.len(),
                forall|k: int| 0 <= k < i ==> other@.contains(#[trigger] self.chosen@[k]),
            decreases self.chosen@.len() - i,
        {
            if !other.contains(self.chosen[i]) {
                proof {
                    assert(self@.contains(self.chosen@[i as int]));
                }
                return false;
            }
            i += 1;
        }
        proof {
            assert forall|n: usize| self@.contains(n) implies other@.contains(n) by {
                let k = self.chosen@.index_of(n);
                assert(other@.contains(self.chosen@[k]));
            }
        }
        true
    }

    /// Whether the same was chosen.
    pub fn same(&self, other: &Choices) -> (same: bool)
        ensures
            same == (self@ == other@),
    {
        let same: bool = self.is_within(other) && other.is_within(self);
        proof {
            if same {
                assert(self@ =~= other@);
            }
        }
        same
    }
}

/// A set of texts.
#[derive(Debug)]
pub struct TextSet {
    pub texts: Vec<String>,
}

impl View for TextSet {
    type V = Set<Seq<char>>;

    open spec fn view(&self) -> Set<Seq<char>> {
        views(self.texts@).to_set()
    }
}

impl TextSet {
    pub fn new() -> (set: Self)
        ensures
            set@ == Set::<Seq<char>>::empty(),
    {
        let set = TextSet { texts: Vec::new() };
        proof {
            assert(set@ =~= Set::empty());
        }
        set
    }

    pub fn is_empty(&self) -> (empty: bool)
        ensures
            empty == (self@ == Set::<Seq<char>>::empty()),
    {
        proof {
            if self.texts@.len() > 0 {
                assert(views(self.texts@)[0] == self.texts@[0]@);
                assert(self@.contains(self.texts@[0]@));
            } else {
                assert(self@ =~= Set::empty());
            }
        }
        self.texts.len() == 0
    }

    pub fn contains(&self, text: &str) -> (yes: bool)
        ensures
            yes == self@.contains(text@),
    {
        let mut i: usize = 0;
        while i < self.texts.len()
            invariant
                i <= self.texts@.len(),
                forall|k: int| 0 <= k < i ==> #[trigger] views(self.texts@)[k] != text@,
            decreases self.texts@.len() - i,
        {
            proof {
                assert(views(self.texts@)[i as int] == self.texts@[i as int]@);
            }
            if same_text(self.texts[i].as_str(), text) {
                return true;
            }
            i += 1;
        }
        false
    }

    pub fn insert(&mut self, text: String)
        ensures
            final(self)@ == old(self)@.insert(text@),
    {
        let ghost before = views(self.texts@);
        let ghost added = text@;
        self.texts.push(text);
        proof {
            let after = views(self.texts@);
            assert(after =~= before.push(added));
            assert forall|other: Seq<char>| self@.contains(other) == before.to_set().insert(
                added,
            ).contains(other) by {
                if before.contains(other) {
                    assert(after[before.index_of(other)] == other);
                }
                assert(after[before.len() as int] == added);
                if after.contains(other) && other != added {
                    assert(before[after.index_of(other)] == other);
                }
            }
            assert(self@ =~= before.to_set().insert(added));
        }
    }

    pub fn remove(&mut self, text: &str)
        ensures
            final(self)@ == old(self)@.remove(text@),
    {
        let ghost before = views(self.texts@);
        let mut kept: Vec<String> = Vec::new();
        let mut i: usize = 0;
        while i < self.texts.len()
            invariant
                i <= self.texts@.len(),
                before == views(self.texts@),
                forall|k: int| 0 <= k < kept@.len() ==> #[trigger] views(kept@)[k] != text@
                    && before.contains(views(kept@)[k]),
                forall|k: int|
                    0 <= k < i && before[k] != text@ ==> views(kept@).contains(
                        #[trigger] before[k],
                    ),
            decreases self.texts@.len() - i,
        {
            let ghost so_far = views(kept@);
            proof {
                assert(before[i as int] == self.texts@[i as int]@);
            }
            if !same_text(self.texts[i].as_str(), text) {
                kept.push(self.texts[i].clone());
                proof {
                    let now = views(kept@);
                    assert(now =~= so_far.push(before[i as int]));
                    assert(now[so_far.len() as int] == before[i as int]);
                    assert forall|k: int| 0 <= k < i + 1 && before[k] != text@ implies now.contains(
                        #[trigger] before[k],
                    ) by {
                        if k < i {
                            assert(now[so_far.index_of(before[k])] == before[k]);
                        }
                    }
                    assert forall|k: int| 0 <= k < kept@.len() implies #[trigger] now[k] != text@
                        && before.contains(now[k]) by {
                        if k < so_far.len() {
                            assert(now[k] == so_far[k]);
                        }
                    }
                }
            }
            i += 1;
        }
        self.texts = kept;
        proof {
            let after = views(self.texts@);
            assert forall|other: Seq<char>| self@.contains(other) == before.to_set().remove(
                text@,
            ).contains(other) by {
                if after.contains(other) {
                    let k = after.index_of(other);
                    assert(after[k] == other);
                }
                if before.contains(other) && other != text@ {
                    let k = before.index_of(other);
                    assert(after.contains(before[k]));
                }
            }
            assert(self@ =~= before.to_set().remove(text@));
        }
    }
}

} // verus!
