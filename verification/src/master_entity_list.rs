//! The live entity registry: all gameplay entities of the running scene,
//! keyed by unique name, in insertion order.
//!
//! Inserting a name that already exists silently replaces the old entry, as
//! the scene format relies on.

use vstd::prelude::*;

use crate::generic_entity::{GenericEntity, GenericEntityView};
use crate::registry::{index_of, lemma_index_of_first_match, lemma_index_of_no_match, lookup,
    names_unique, Named};

verus! {

impl Named for GenericEntityView {
    open spec fn key(self) -> Seq<char> {
        self.name
    }
}

/// The store of all live entities.
#[derive(Debug)]
pub struct MasterEntityList {
    entities: Vec<GenericEntity>,
}

impl DeepView for MasterEntityList {
    type V = Seq<GenericEntityView>;

    closed spec fn deep_view(&self) -> Seq<GenericEntityView> {
        self.entities.deep_view()
    }
}

impl MasterEntityList {
    /// Unique names, and every entity inside its fixed-point limits.
    pub open spec fn wf(self) -> bool {
        &&& names_unique(self.deep_view())
        &&& forall|i: int|
            0 <= i < self.deep_view().len() ==> (#[trigger] self.deep_view()[i]).valid()
    }

    pub fn new() -> (r: MasterEntityList)
        ensures
            r.deep_view() == Seq::<GenericEntityView>::empty(),
            r.wf(),
    {
        let r = MasterEntityList { entities: Vec::new() };
        proof {
            assert(r.deep_view() =~= Seq::<GenericEntityView>::empty());
        }
        r
    }

    /// Inserts keyed by the entity's name, replacing a previous entry of the
    /// same name in place.
    #[verifier::loop_isolation(false)]
    pub fn add_entity(&mut self, entity: GenericEntity)
        requires
            old(self).wf(),
            entity.valid(),
        ensures
            final(self).wf(),
            ({
                let i = index_of(old(self).deep_view(), entity.deep_view().name);
                if i == -1 {
                    final(self).deep_view() == old(self).deep_view().push(entity.deep_view())
                } else {
                    final(self).deep_view() == old(self).deep_view().update(i, entity.deep_view())
                }
            }),
    {
        let ghost s = self.deep_view();
        let ghost name = entity.deep_view().name;
        let mut i: usize = 0;
        while i < self.entities.len()
            invariant
                0 <= i <= self.entities.len(),
                s == self.deep_view(),
                name == entity.deep_view().name,
                forall|j: int| 0 <= j < i ==> s[j].key() != name,
            decreases self.entities.len() - i,
        {
            if self.entities[i].get_name().eq(entity.get_name()) {
                proof {
                    lemma_index_of_first_match(s, name, i as int);
                }
                self.entities.set(i, entity);
                proof {
                    let t = s.update(i as int, entity.deep_view());
                    assert(self.deep_view() =~= t);
                    assert(s[i as int].key() == entity.deep_view().name);
                    assert forall|p: int, q: int| 0 <= p < q < t.len() implies t[p].key()
                        != t[q].key() by {
                        assert(s[p].key() != s[q].key());
                    }
                    assert forall|p: int| 0 <= p < t.len() implies (#[trigger] t[p]).valid() by {
                        assert(s[p].valid());
                    }
                }
                return ;
            }
            i += 1;
        }
        proof {
            lemma_index_of_no_match(s, name);
        }
        self.entities.push(entity);
        proof {
            let t = s.push(entity.deep_view());
            assert(self.deep_view() =~= t);
            assert forall|p: int, q: int| 0 <= p < q < t.len() implies t[p].key() != t[q].key() by {
                if q < s.len() {
                    assert(s[p].key() != s[q].key());
                } else {
                    assert(s[p].key() != entity.deep_view().name);
                }
            }
            assert forall|p: int| 0 <= p < t.len() implies (#[trigger] t[p]).valid() by {
                if p < s.len() {
                    assert(s[p].valid());
                }
            }
        }
    }

    /// The entity of this name, if any.
    #[verifier::loop_isolation(false)]
    pub fn get_entity(&self, name: &String) -> (r: Option<&GenericEntity>)
        ensures
            match r {
                Some(e) => lookup(self.deep_view(), name@) == Some(e.deep_view()),
                None => lookup(self.deep_view(), name@) is None,
            },
    {
        let ghost s = self.deep_view();
        let mut i: usize = 0;
        while i < self.entities.len()
            invariant
                0 <= i <= self.entities.len(),
                s == self.deep_view(),
                forall|j: int| 0 <= j < i ==> s[j].key() != name@,
            decreases self.entities.len() - i,
        {
            if self.entities[i].get_name().eq(name) {
                proof {
                    lemma_index_of_first_match(s, name@, i as int);
                }
                return Some(&self.entities[i]);
            }
            i += 1;
        }
        proof {
            lemma_index_of_no_match(s, name@);
        }
        None
    }

    /// A read-only view of all live entities, in insertion order.
    pub fn get_entities(&self) -> (r: &Vec<GenericEntity>)
        ensures
            r.deep_view() == self.deep_view(),
    {
        &self.entities
    }

    /// How many entities are live.
    pub fn len(&self) -> (r: usize)
        ensures
            r == self.deep_view().len(),
    {
        self.entities.len()
    }

    /// Removes the entity of this name; absent names are left alone.
    #[verifier::loop_isolation(false)]
    pub fn remove_entity(&mut self, name: &String)
        requires
            old(self).wf(),
        ensures
            final(self).wf(),
            ({
                let i = index_of(old(self).deep_view(), name@);
                if i == -1 {
                    final(self).deep_view() == old(self).deep_view()
                } else {
                    final(self).deep_view() == old(self).deep_view().remove(i)
                }
            }),
    {
        let ghost s = self.deep_view();
        let mut i: usize = 0;
        while i < self.entities.len()
            invariant
                0 <= i <= self.entities.len(),
                s == self.deep_view(),
                forall|j: int| 0 <= j < i ==> s[j].key() != name@,
            decreases self.entities.len() - i,
        {
            if self.entities[i].get_name().eq(name) {
                proof {
                    lemma_index_of_first_match(s, name@, i as int);
                }
                self.entities.remove(i);
                proof {
                    let t = s.remove(i as int);
                    assert(self.deep_view() =~= t);
                    assert forall|p: int, q: int| 0 <= p < q < t.len() implies t[p].key()
                        != t[q].key() by {
                        let p0: int = if p < i as int { p } else { p + 1 };
                        let q0: int = if q < i as int { q } else { q + 1 };
                        assert(t[p] == s[p0]);
                        assert(t[q] == s[q0]);
                        assert(s[p0].key() != s[q0].key());
                    }
                    assert forall|p: int| 0 <= p < t.len() implies (#[trigger] t[p]).valid() by {
                        let p0: int = if p < i as int { p } else { p + 1 };
                        assert(t[p] == s[p0]);
                        assert(s[p0].valid());
                    }
                }
                return ;
            }
            i += 1;
        }
        proof {
            lemma_index_of_no_match(s, name@);
        }
    }

    /// Removes every entity.
    pub fn remove_all(&mut self)
        ensures
            final(self).deep_view() == Seq::<GenericEntityView>::empty(),
            final(self).wf(),
    {
        self.entities.clear();
        proof {
            assert(self.deep_view() =~= Seq::<GenericEntityView>::empty());
        }
    }
}

} // verus!
