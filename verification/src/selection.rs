//! What is selected, by identity rather than by position.
//!
//! Three things read one selection - a table, a scene and the strip between
//! them - and each of them shows a different part of it. So the rules live
//! here, and there are only three of them:
//!
//! - **Sorting and filtering keep it.** A selection is of things, not of rows;
//!   moving a thing does not deselect it, and neither does hiding it.
//! - **Deleting clears it.** A selected identity that no longer exists is not
//!   selected.
//! - **How many are hidden is a question about the view.** The selection does
//!   not know what the view shows, so it is asked, and the answer changes when
//!   the view does without the selection changing at all.

use vstd::prelude::*;
use std::collections::BTreeSet;
use vstd::std_specs::btree::increasing_seq;
use vstd::std_specs::cmp::OrdSpec;
use vstd::std_specs::iter::IteratorSpec;

verus! {

broadcast use {vstd::std_specs::btree::group_btree_axioms, vstd::laws_cmp::group_laws_cmp};

/// Business identity. The application decides what it means; what matters here
/// is that it is stable and never reused.
pub type Id = u32;

/// How much of a selection a view is showing.
#[derive(Clone, Copy, Debug, Default, PartialEq, Eq, Structural)]
pub struct Counts {
    pub visible: usize,
    pub hidden: usize,
}

impl Counts {
    pub fn total(&self) -> (r: usize)
        requires
            self.visible + self.hidden <= usize::MAX,
        ensures
            r == self.visible + self.hidden,
    {
        self.visible + self.hidden
    }
}

/// A set of selected identities, walked in ascending order.
#[derive(Clone, Debug, PartialEq, Eq)]
pub struct Selection(BTreeSet<Id>);

impl View for Selection {
    type V = Set<Id>;

    closed spec fn view(&self) -> Set<Id> {
        self.0@
    }
}

impl Default for Selection {
    fn default() -> (r: Selection)
        ensures
            r@ == Set::<Id>::empty(),
    {
        Selection(BTreeSet::new())
    }
}

/// `s` with `id` flipped: deselected if it was selected, selected if not.
pub open spec fn toggled(s: Set<Id>, id: Id) -> Set<Id> {
    if s.contains(id) {
        s.remove(id)
    } else {
        s.insert(id)
    }
}

impl Selection {
    pub fn new() -> (r: Selection)
        ensures
            r@ == Set::<Id>::empty(),
    {
        Selection(BTreeSet::new())
    }

    /// Selects exactly these.
    pub fn from_ids(ids: &[Id]) -> (r: Selection)
        ensures
            r@ == ids@.to_set(),
    {
        let mut r = Selection::new();
        r.add(ids);
        r
    }

    pub fn contains(&self, id: Id) -> (r: bool)
        ensures
            r == self@.contains(id),
    {
        self.0.contains(&id)
    }

    pub fn len(&self) -> (r: usize)
        ensures
            r == self@.len(),
    {
        self.0.len()
    }

    pub fn is_empty(&self) -> (r: bool)
        ensures
            r == (self@.len() == 0),
    {
        self.0.len() == 0
    }

    /// A selection holds finitely many identities: its walk lists them all.
    fn note_finite(&self)
        ensures
            self@.finite(),
    {
        let walk = self.0.iter();
        proof {
            assert(walk.remaining().unref().to_set() == self@);
        }
    }

    /// The selected identities, in ascending order.
    pub fn ids(&self) -> (r: Vec<Id>)
        ensures
            r@.to_set() == self@,
            r@.len() == self@.len(),
            r@.no_duplicates(),
            forall|i: int, j: int| 0 <= i < j < r@.len() ==> r@[i] < r@[j],
    {
        let mut out: Vec<Id> = Vec::new();
        let walk = self.0.iter();
        let ghost keys = walk.remaining();
        proof {
            assert(keys.unref().to_set() == self@);
            assert(keys.no_duplicates());
            assert(increasing_seq(keys));
            assert(vstd::laws_cmp::obeys_cmp::<u32>());
            assert(vstd::laws_cmp::obeys_cmp::<&u32>());
        }
        for x in it: walk
            invariant
                out@ == it.seq().take(it.index()).unref(),
        {
            out.push(*x);
            assert(out@ =~= it.seq().take(it.index() + 1).unref());
        }
        proof {
            assert(vstd::laws_cmp::obeys_cmp::<u32>());
            assert(vstd::laws_cmp::obeys_cmp::<&u32>());
            assert(increasing_seq(keys));
            vstd::std_specs::btree::axiom_increasing_seq_meaning(keys);
            assert(out@ =~= keys.unref());
            assert forall|i: int, j: int| 0 <= i < j < out@.len() implies out@[i] < out@[j] by {
                assert(OrdSpec::cmp_spec(&keys[i], &keys[j]) is Less);
            }
            assert(out@.no_duplicates());
        }
        out
    }

    /// How many selected identities the view shows, and how many it does not.
    ///
    /// `shown` is asked once per selected identity, not once per row: a
    /// selection is small and a view is not. `visible` counts the identities it
    /// said yes to, and `hidden` the rest.
    pub fn counts<F: Fn(Id) -> bool>(&self, shown: F) -> (r: Counts)
        requires
            forall|id: Id| self@.contains(id) ==> shown.requires((id,)),
        ensures
            r.visible + r.hidden == self@.len(),
            exists|seen: Set<Id>|
                {
                    &&& seen.subset_of(self@)
                    &&& seen.finite()
                    &&& seen.len() == r.visible
                    &&& forall|id: Id| #[trigger] seen.contains(id) ==> shown.ensures((id,), true)
                    &&& forall|id: Id|
                        self@.contains(id) && !(#[trigger] seen.contains(id)) ==> shown.ensures((id,), false)
                },
    {
        let ids = self.ids();
        let mut visible: usize = 0;
        let ghost mut seen: Set<Id> = Set::empty();
        let mut i: usize = 0;
        while i < ids.len()
            invariant
                i <= ids@.len(),
                ids@.to_set() == self@,
                ids@.len() == self@.len(),
                ids@.no_duplicates(),
                forall|id: Id| self@.contains(id) ==> shown.requires((id,)),
                seen.finite(),
                seen.len() == visible,
                visible <= i,
                seen.subset_of(ids@.take(i as int).to_set()),
                forall|id: Id| #[trigger] seen.contains(id) ==> shown.ensures((id,), true),
                forall|k: int| 0 <= k < i && !seen.contains(#[trigger] ids@[k]) ==> shown.ensures((ids@[k],), false),
            decreases ids@.len() - i,
        {
            let id = ids[i];
            assert(ids@.contains(id));
            assert(self@.contains(id));
            let yes = shown(id);
            proof {
                assert(ids@.take(i + 1) =~= ids@.take(i as int).push(id));
                ids@.take(i as int).lemma_push_to_set_commute(id);
                if seen.contains(id) {
                    let k = choose|k: int| 0 <= k < i && ids@.take(i as int)[k] == id;
                    assert(ids@[k] == ids@[i as int]);
                }
            }
            if yes {
                visible = visible + 1;
                proof {
                    seen = seen.insert(id);
                }
            }
            i = i + 1;
        }
        proof {
            assert(ids@.take(i as int) =~= ids@);
            assert forall|id: Id| self@.contains(id) && !(#[trigger] seen.contains(id)) implies shown.ensures((id,), false) by {
                assert(ids@.to_set().contains(id));
                let k = choose|k: int| 0 <= k < ids@.len() && ids@[k] == id;
            }
        }
        Counts { visible, hidden: ids.len() - visible }
    }

    /// Selects or deselects one identity, and reports what it now is.
    pub fn toggle(&mut self, id: Id) -> (r: bool)
        ensures
            final(self)@ == toggled(old(self)@, id),
            r == final(self)@.contains(id),
    {
        if self.0.remove(&id) {
            return false;
        }
        self.0.insert(id);
        true
    }

    /// Selects exactly these, and nothing else.
    pub fn set(&mut self, ids: &[Id])
        ensures
            final(self)@ == ids@.to_set(),
    {
        self.0.clear();
        self.add(ids);
    }

    /// Adds these to what is already selected.
    pub fn add(&mut self, ids: &[Id])
        ensures
            final(self)@ == old(self)@ + ids@.to_set(),
    {
        let mut i: usize = 0;
        while i < ids.len()
            invariant
                i <= ids@.len(),
                self@ == old(self)@ + ids@.take(i as int).to_set(),
            decreases ids@.len() - i,
        {
            self.0.insert(ids[i]);
            proof {
                assert(ids@.take(i + 1) =~= ids@.take(i as int).push(ids@[i as int]));
                ids@.take(i as int).lemma_push_to_set_commute(ids@[i as int]);
            }
            i = i + 1;
            assert(self@ =~= old(self)@ + ids@.take(i as int).to_set());
        }
        assert(ids@.take(i as int) =~= ids@);
    }

    pub fn clear(&mut self)
        ensures
            final(self)@ == Set::<Id>::empty(),
    {
        self.0.clear();
    }

    /// Drops identities that no longer exist, and reports how many went.
    ///
    /// The caller passes what it deleted rather than what survives: a deletion
    /// is a few rows and the sample is a hundred thousand.
    pub fn remove_deleted(&mut self, deleted: &[Id]) -> (r: usize)
        ensures
            final(self)@ == old(self)@.difference(deleted@.to_set()),
            r == old(self)@.len() - final(self)@.len(),
    {
        self.note_finite();
        let before = self.0.len();
        let mut i: usize = 0;
        while i < deleted.len()
            invariant
                i <= deleted@.len(),
                self@ == old(self)@.difference(deleted@.take(i as int).to_set()),
                before == old(self)@.len(),
                old(self)@.finite(),
            decreases deleted@.len() - i,
        {
            self.0.remove(&deleted[i]);
            proof {
                assert(deleted@.take(i + 1) =~= deleted@.take(i as int).push(deleted@[i as int]));
                deleted@.take(i as int).lemma_push_to_set_commute(deleted@[i as int]);
            }
            i = i + 1;
            assert(self@ =~= old(self)@.difference(deleted@.take(i as int).to_set()));
        }
        assert(deleted@.take(i as int) =~= deleted@);
        proof {
            vstd::set_lib::lemma_len_subset(self@, old(self)@);
        }
        before - self.0.len()
    }
}

/// Toggling twice changes nothing: the second toggle undoes the first.
pub proof fn law_toggling_twice_changes_nothing(s: Set<Id>, id: Id)
    ensures
        toggled(toggled(s, id), id) == s,
{
    if s.contains(id) {
        assert(s.remove(id).insert(id) =~= s);
    } else {
        assert(s.insert(id).remove(id) =~= s);
    }
}

} // verus!
