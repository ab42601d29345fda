//! Shared specification of name-keyed stores.
//!
//! The entity registry, the graphics registry and the scene store all keep
//! their items in insertion order and address them by a unique name.  The
//! spec functions here describe that discipline once, over the items' deep
//! views.

use vstd::prelude::*;

verus! {

/// A view type addressed by a name.
pub trait Named {
    spec fn key(self) -> Seq<char>;
}

/// Index of the first item with this name, or -1.
pub open spec fn index_of<T: Named>(s: Seq<T>, name: Seq<char>) -> int
    decreases s.len(),
{
    if s.len() == 0 {
        -1
    } else if s[0].key() == name {
        0
    } else {
        let r = index_of(s.drop_first(), name);
        if r == -1 {
            -1
        } else {
            r + 1
        }
    }
}

/// The first item with this name, if any.
pub open spec fn lookup<T: Named>(s: Seq<T>, name: Seq<char>) -> Option<T> {
    let i = index_of(s, name);
    if i == -1 {
        None
    } else {
        Some(s[i])
    }
}

/// No two items share a name.
pub open spec fn names_unique<T: Named>(s: Seq<T>) -> bool {
    forall|i: int, j: int| 0 <= i < j < s.len() ==> s[i].key() != s[j].key()
}

/// What `index_of` finds: either no item has the name, or the result is the
/// first position carrying it.
pub proof fn lemma_index_of<T: Named>(s: Seq<T>, name: Seq<char>)
    ensures
        index_of(s, name) == -1 ==> forall|i: int| 0 <= i < s.len() ==> s[i].key() != name,
        index_of(s, name) != -1 ==> {
            &&& 0 <= index_of(s, name) < s.len()
            &&& s[index_of(s, name)].key() == name
            &&& forall|i: int| 0 <= i < index_of(s, name) ==> s[i].key() != name
        },
    decreases s.len(),
{
    if s.len() > 0 && s[0].key() != name {
        lemma_index_of(s.drop_first(), name);
        let r = index_of(s.drop_first(), name);
        assert(forall|i: int| 0 <= i < s.drop_first().len() ==> s.drop_first()[i] == s[i + 1]);
        if r == -1 {
            assert forall|i: int| 0 <= i < s.len() implies s[i].key() != name by {
                if i > 0 {
                    assert(s.drop_first()[i - 1].key() != name);
                }
            }
        } else {
            assert(s[r + 1] == s.drop_first()[r]);
            assert forall|i: int| 0 <= i < r + 1 implies s[i].key() != name by {
                if i > 0 {
                    assert(s.drop_first()[i - 1].key() != name);
                }
            }
        }
    }
}

/// Under unique names, any position carrying the name is the one `index_of`
/// finds.
pub proof fn lemma_index_of_unique<T: Named>(s: Seq<T>, name: Seq<char>, i: int)
    requires
        names_unique(s),
        0 <= i < s.len(),
        s[i].key() == name,
    ensures
        index_of(s, name) == i,
{
    lemma_index_of(s, name);
}

/// A scan that saw no match before `i` and a match at `i` found `index_of`.
pub proof fn lemma_index_of_first_match<T: Named>(s: Seq<T>, name: Seq<char>, i: int)
    requires
        0 <= i < s.len(),
        s[i].key() == name,
        forall|j: int| 0 <= j < i ==> s[j].key() != name,
    ensures
        index_of(s, name) == i,
{
    lemma_index_of(s, name);
    let r = index_of(s, name);
    if r == -1 {
    } else {
        if r < i {
        } else if r > i {
        }
    }
}

/// A scan that saw no match anywhere means `index_of` is -1.
pub proof fn lemma_index_of_no_match<T: Named>(s: Seq<T>, name: Seq<char>)
    requires
        forall|j: int| 0 <= j < s.len() ==> s[j].key() != name,
    ensures
        index_of(s, name) == -1,
{
    lemma_index_of(s, name);
}

/// The store with the named item removed, if it was there.
pub open spec fn remove_named<T: Named>(s: Seq<T>, name: Seq<char>) -> Seq<T> {
    let i = index_of(s, name);
    if i == -1 {
        s
    } else {
        s.remove(i)
    }
}

/// Removing a name under unique names: the name is gone, every other name
/// resolves as before, and uniqueness is kept.
pub proof fn lemma_remove_named<T: Named>(s: Seq<T>, name: Seq<char>, other: Seq<char>)
    requires
        names_unique(s),
    ensures
        lookup(remove_named(s, name), name) is None,
        other != name ==> lookup(remove_named(s, name), other) == lookup(s, other),
        names_unique(remove_named(s, name)),
{
    lemma_index_of(s, name);
    let i = index_of(s, name);
    if i == -1 {
    } else {
        let t = s.remove(i);
        assert forall|j: int| 0 <= j < t.len() implies #[trigger] t[j].key() != name by {
            let j0: int = if j < i {
                j
            } else {
                j + 1
            };
            assert(t[j] == s[j0]);
        }
        lemma_index_of_no_match(t, name);
        assert forall|p: int, q: int| 0 <= p < q < t.len() implies t[p].key() != t[q].key() by {
            let p0: int = if p < i {
                p
            } else {
                p + 1
            };
            let q0: int = if q < i {
                q
            } else {
                q + 1
            };
            assert(t[p] == s[p0]);
            assert(t[q] == s[q0]);
        }
        if other != name {
            lemma_index_of(s, other);
            let k = index_of(s, other);
            if k == -1 {
                assert forall|j: int| 0 <= j < t.len() implies #[trigger] t[j].key() != other by {
                    let j0: int = if j < i {
                        j
                    } else {
                        j + 1
                    };
                    assert(t[j] == s[j0]);
                }
                lemma_index_of_no_match(t, other);
            } else {
                let p: int = if k < i {
                    k
                } else {
                    k - 1
                };
                assert(t[p] == s[k]);
                assert forall|j: int| 0 <= j < p implies #[trigger] t[j].key() != other by {
                    let j0: int = if j < i {
                        j
                    } else {
                        j + 1
                    };
                    assert(t[j] == s[j0]);
                }
                lemma_index_of_first_match(t, other, p);
            }
        }
    }
}

/// The store after an insert: the named slot holds the new item, every other
/// name resolves as before, and uniqueness is kept.
pub open spec fn upsert<T: Named>(s: Seq<T>, item: T) -> Seq<T> {
    let i = index_of(s, item.key());
    if i == -1 {
        s.push(item)
    } else {
        s.update(i, item)
    }
}

/// Inserting under unique names: the item is found under its name, every
/// other name resolves as before, and uniqueness is kept.
pub proof fn lemma_upsert<T: Named>(s: Seq<T>, item: T, other: Seq<char>)
    requires
        names_unique(s),
    ensures
        lookup(upsert(s, item), item.key()) == Some(item),
        other != item.key() ==> lookup(upsert(s, item), other) == lookup(s, other),
        names_unique(upsert(s, item)),
{
    lemma_index_of(s, item.key());
    let i = index_of(s, item.key());
    let t = upsert(s, item);
    if i == -1 {
        assert(t[s.len() as int] == item);
        assert forall|j: int| 0 <= j < s.len() implies #[trigger] t[j].key() != item.key() by {
            assert(t[j] == s[j]);
        }
        lemma_index_of_first_match(t, item.key(), s.len() as int);
        assert forall|p: int, q: int| 0 <= p < q < t.len() implies t[p].key() != t[q].key() by {
            if q < s.len() {
                assert(s[p].key() != s[q].key());
            } else {
                assert(t[p] == s[p]);
            }
        }
        if other != item.key() {
            lemma_index_of(s, other);
            let k = index_of(s, other);
            if k == -1 {
                assert forall|j: int| 0 <= j < t.len() implies #[trigger] t[j].key() != other by {
                    if j < s.len() {
                        assert(t[j] == s[j]);
                    }
                }
                lemma_index_of_no_match(t, other);
            } else {
                assert(t[k] == s[k]);
                assert forall|j: int| 0 <= j < k implies #[trigger] t[j].key() != other by {
                    assert(t[j] == s[j]);
                }
                lemma_index_of_first_match(t, other, k);
            }
        }
    } else {
        assert(t[i] == item);
        assert(s[i].key() == item.key());
        assert forall|j: int| 0 <= j < i implies #[trigger] t[j].key() != item.key() by {
            assert(t[j] == s[j]);
        }
        lemma_index_of_first_match(t, item.key(), i);
        assert forall|p: int, q: int| 0 <= p < q < t.len() implies t[p].key() != t[q].key() by {
            assert(s[p].key() != s[q].key());
        }
        if other != item.key() {
            lemma_index_of(s, other);
            let k = index_of(s, other);
            if k == -1 {
                assert forall|j: int| 0 <= j < t.len() implies #[trigger] t[j].key() != other by {
                    assert(s[j].key() != other);
                    if j == i {
                        assert(t[j].key() == item.key());
                    } else {
                        assert(t[j] == s[j]);
                    }
                }
                lemma_index_of_no_match(t, other);
            } else {
                assert(k != i);
                assert(t[k] == s[k]);
                assert forall|j: int| 0 <= j < k implies #[trigger] t[j].key() != other by {
                    if j == i {
                        assert(t[j].key() == item.key());
                    } else {
                        assert(t[j] == s[j]);
                    }
                }
                lemma_index_of_first_match(t, other, k);
            }
        }
    }
}

/// The store after inserting a whole batch, first to last.
pub open spec fn upsert_all<T: Named>(dst: Seq<T>, src: Seq<T>) -> Seq<T>
    decreases src.len(),
{
    if src.len() == 0 {
        dst
    } else {
        upsert_all(upsert(dst, src[0]), src.drop_first())
    }
}

/// Inserting a batch of fresh, uniquely named items appends them in order.
pub proof fn lemma_upsert_all_fresh<T: Named>(dst: Seq<T>, src: Seq<T>)
    requires
        names_unique(dst),
        names_unique(src),
        forall|i: int| 0 <= i < src.len() ==> index_of(dst, (#[trigger] src[i]).key()) == -1,
    ensures
        upsert_all(dst, src) == dst + src,
        names_unique(dst + src),
    decreases src.len(),
{
    if src.len() == 0 {
        assert(dst + src =~= dst);
    } else {
        lemma_index_of(dst, src[0].key());
        let dst1 = dst.push(src[0]);
        assert(upsert(dst, src[0]) == dst1);
        assert forall|p: int, q: int| 0 <= p < q < dst1.len() implies dst1[p].key()
            != dst1[q].key() by {
            if q < dst.len() {
                assert(dst[p].key() != dst[q].key());
            } else {
                assert(dst1[p] == dst[p]);
            }
        }
        let src1 = src.drop_first();
        assert forall|p: int, q: int| 0 <= p < q < src1.len() implies src1[p].key()
            != src1[q].key() by {
            assert(src1[p] == src[p + 1]);
            assert(src1[q] == src[q + 1]);
        }
        assert forall|i: int| 0 <= i < src1.len() implies index_of(
            dst1,
            (#[trigger] src1[i]).key(),
        ) == -1 by {
            assert(src1[i] == src[i + 1]);
            lemma_index_of(dst, src[i + 1].key());
            assert forall|j: int| 0 <= j < dst1.len() implies #[trigger] dst1[j].key() != src[
                i + 1
            ].key() by {
                if j < dst.len() {
                    assert(dst1[j] == dst[j]);
                } else {
                    assert(dst1[j] == src[0]);
                    assert(src[0].key() != src[i + 1].key());
                }
            }
            lemma_index_of_no_match(dst1, src[i + 1].key());
        }
        lemma_upsert_all_fresh(dst1, src1);
        assert(dst1 + src1 =~= dst + src);
    }
}

} // verus!
