//! The registry of live renderable objects, keyed by unique name, in
//! insertion order.  It models the store the rendering framework keeps; the
//! simulation reads positions and dimensions from it and writes positions
//! back.
//!
//! Inserting a name that already exists silently replaces the old entry.

use vstd::prelude::*;

use crate::graphics_object::{GraphicsObject, GraphicsObjectView};
use crate::registry::{index_of, lemma_index_of_first_match, lemma_index_of_no_match, lookup,
    names_unique, Named};

verus! {

impl Named for GraphicsObjectView {
    open spec fn key(self) -> Seq<char> {
        self.name
    }
}

/// The store of all live graphics objects.
#[derive(Debug)]
pub struct MasterGraphicsList {
    objects: Vec<GraphicsObject>,
}

impl DeepView for MasterGraphicsList {
    type V = Seq<GraphicsObjectView>;

    closed spec fn deep_view(&self) -> Seq<GraphicsObjectView> {
        self.objects.deep_view()
    }
}

impl MasterGraphicsList {
    /// Unique names, and every object inside its fixed-point limits.
    pub open spec fn wf(self) -> bool {
        &&& names_unique(self.deep_view())
        &&& forall|i: int|
            0 <= i < self.deep_view().len() ==> (#[trigger] self.deep_view()[i]).valid()
    }

    pub fn new() -> (r: MasterGraphicsList)
        ensures
            r.deep_view() == Seq::<GraphicsObjectView>::empty(),
            r.wf(),
    {
        let r = MasterGraphicsList { objects: Vec::new() };
        proof {
            assert(r.deep_view() =~= Seq::<GraphicsObjectView>::empty());
        }
        r
    }

    /// Inserts keyed by the object's name, replacing a previous entry of the
    /// same name in place.
    #[verifier::loop_isolation(false)]
    pub fn add_object(&mut self, object: GraphicsObject)
        requires
            old(self).wf(),
            object.valid(),
        ensures
            final(self).wf(),
            ({
                let i = index_of(old(self).deep_view(), object.deep_view().name);
                if i == -1 {
                    final(self).deep_view() == old(self).deep_view().push(object.deep_view())
                } else {
                    final(self).deep_view() == old(self).deep_view().update(i, object.deep_view())
                }
            }),
    {
        let ghost s = self.deep_view();
        let ghost name = object.deep_view().name;
        let mut i: usize = 0;
        while i < self.objects.len()
            invariant
                0 <= i <= self.objects.len(),
                s == self.deep_view(),
                name == object.deep_view().name,
                forall|j: int| 0 <= j < i ==> s[j].key() != name,
            decreases self.objects.len() - i,
        {
            if self.objects[i].get_name().eq(object.get_name()) {
                proof {
                    lemma_index_of_first_match(s, name, i as int);
                }
                self.objects.set(i, object);
                proof {
                    let t = s.update(i as int, object.deep_view());
                    assert(self.deep_view() =~= t);
                    assert(s[i as int].key() == object.deep_view().name);
                    assert forall|p: int, q: int| 0 <= p < q < t.len() implies t[p].key()
                        != t[q].key() by {
                        assert(s[p].key() != s[q].key());
                    }
                    assert forall|p: int| 0 <= p < t.len() implies (#[trigger] t[p]).valid() by {
                        assert(s[p].valid());
                    }
                }
                return ;
            }
            i += 1;
        }
        proof {
            lemma_index_of_no_match(s, name);
        }
        self.objects.push(object);
        proof {
            let t = s.push(object.deep_view());
            assert(self.deep_view() =~= t);
            assert forall|p: int, q: int| 0 <= p < q < t.len() implies t[p].key() != t[q].key() by {
                if q < s.len() {
                    assert(s[p].key() != s[q].key());
                } else {
                    assert(s[p].key() != object.deep_view().name);
                }
            }
            assert forall|p: int| 0 <= p < t.len() implies (#[trigger] t[p]).valid() by {
                if p < s.len() {
                    assert(s[p].valid());
                }
            }
        }
    }

    /// The object of this name, if any.
    #[verifier::loop_isolation(false)]
    pub fn get_object(&self, name: &String) -> (r: Option<&GraphicsObject>)
        ensures
            match r {
                Some(e) => lookup(self.deep_view(), name@) == Some(e.deep_view()),
                None => lookup(self.deep_view(), name@) is None,
            },
    {
        let ghost s = self.deep_view();
        let mut i: usize = 0;
        while i < self.objects.len()
            invariant
                0 <= i <= self.objects.len(),
                s == self.deep_view(),
                forall|j: int| 0 <= j < i ==> s[j].key() != name@,
            decreases self.objects.len() - i,
        {
            if self.objects[i].get_name().eq(name) {
                proof {
                    lemma_index_of_first_match(s, name@, i as int);
                }
                return Some(&self.objects[i]);
            }
            i += 1;
        }
        proof {
            lemma_index_of_no_match(s, name@);
        }
        None
    }

    /// A read-only view of all live objects, in insertion order.
    pub fn get_objects(&self) -> (r: &Vec<GraphicsObject>)
        ensures
            r.deep_view() == self.deep_view(),
    {
        &self.objects
    }

    /// How many objects are live.
    pub fn len(&self) -> (r: usize)
        ensures
            r == self.deep_view().len(),
    {
        self.objects.len()
    }

    /// Removes the object of this name; absent names are left alone.
    #[verifier::loop_isolation(false)]
    pub fn remove_object(&mut self, name: &String)
        requires
            old(self).wf(),
        ensures
            final(self).wf(),
            ({
                let i = index_of(old(self).deep_view(), name@);
                if i == -1 {
                    final(self).deep_view() == old(self).deep_view()
                } else {
                    final(self).deep_view() == old(self).deep_view().remove(i)
                }
            }),
    {
        let ghost s = self.deep_view();
        let mut i: usize = 0;
        while i < self.objects.len()
            invariant
                0 <= i <= self.objects.len(),
                s == self.deep_view(),
                forall|j: int| 0 <= j < i ==> s[j].key() != name@,
            decreases self.objects.len() - i,
        {
            if self.objects[i].get_name().eq(name) {
                proof {
                    lemma_index_of_first_match(s, name@, i as int);
                }
                self.objects.remove(i);
                proof {
                    let t = s.remove(i as int);
                    assert(self.deep_view() =~= t);
                    assert forall|p: int, q: int| 0 <= p < q < t.len() implies t[p].key()
                        != t[q].key() by {
                        let p0: int = if p < i as int { p } else { p + 1 };
                        let q0: int = if q < i as int { q } else { q + 1 };
                        assert(t[p] == s[p0]);
                        assert(t[q] == s[q0]);
                        assert(s[p0].key() != s[q0].key());
                    }
                    assert forall|p: int| 0 <= p < t.len() implies (#[trigger] t[p]).valid() by {
                        let p0: int = if p < i as int { p } else { p + 1 };
                        assert(t[p] == s[p0]);
                        assert(s[p0].valid());
                    }
                }
                return ;
            }
            i += 1;
        }
        proof {
            lemma_index_of_no_match(s, name@);
        }
    }

    /// Removes every object.
    pub fn remove_all(&mut self)
        ensures
            final(self).deep_view() == Seq::<GraphicsObjectView>::empty(),
            final(self).wf(),
    {
        self.objects.clear();
        proof {
            assert(self.deep_view() =~= Seq::<GraphicsObjectView>::empty());
        }
    }
}

} // verus!
