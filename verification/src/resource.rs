use vstd::prelude::*;

use crate::resources::{res_tag_of, ResourceValue};

verus! {

/// A value type that may be stored as a process-wide singleton. Each
/// implementing type owns a distinct tag, an injection into the one
/// type-erased resource value, and the checked partial inverse used on access.
pub trait Resource: Sized {
    /// The stable key under which this type's singleton is filed.
    spec fn tag() -> u64;

    /// What erasing a value of this type yields.
    spec fn erased(self) -> ResourceValue;

    /// The value a correctly tagged erased value stands for.
    spec fn of_value(v: ResourceValue) -> Self;

    /// Erasing is faithful: the erased value carries this type's tag and
    /// recovers to the value it came from.
    proof fn lemma_round_trip(x: Self)
        ensures
            res_tag_of(x.erased()) == Self::tag(),
            Self::of_value(x.erased()) == x,
    ;

    fn tag_value() -> (t: u64)
        ensures
            t == Self::tag(),
    ;

    fn erase(self) -> (v: ResourceValue)
        ensures
            v == self.erased(),
    ;

    fn recover(v: &ResourceValue) -> (r: Option<&Self>)
        ensures
            match r {
                Some(x) => res_tag_of(*v) == Self::tag() && *x == Self::of_value(*v),
                None => res_tag_of(*v) != Self::tag(),
            },
    ;

    fn recover_mut(v: &mut ResourceValue) -> (r: Option<&mut Self>)
        ensures
            match r {
                Some(x) => res_tag_of(*old(v)) == Self::tag() && *x == Self::of_value(*old(v))
                    && *final(v) == final(x).erased(),
                None => res_tag_of(*old(v)) != Self::tag() && *final(v) == *old(v),
            },
    ;
}

/// Singleton-per-type storage: at most one value per resource type, filed
/// under the type's tag; insertion overwrites.
pub struct ResourceStorage {
    items: Vec<(u64, ResourceValue)>,
}

impl ResourceStorage {
    pub closed spec fn rows(self) -> Seq<(u64, ResourceValue)> {
        self.items@
    }

    /// Whether a singleton is filed under tag `t`.
    pub open spec fn stored(self, t: u64) -> bool {
        exists|i: int| 0 <= i < self.rows().len() && (#[trigger] self.rows()[i]).0 == t
    }

    pub open spec fn row_index(self, t: u64) -> int {
        choose|i: int| 0 <= i < self.rows().len() && (#[trigger] self.rows()[i]).0 == t
    }

    /// The erased singleton filed under tag `t`; meaningful when stored.
    pub open spec fn value_of(self, t: u64) -> ResourceValue {
        self.rows()[self.row_index(t)].1
    }

    /// The typed reading of the singleton for `T`: present exactly when a
    /// value is filed under `T`'s tag and carries it.
    pub open spec fn typed<T: Resource>(self) -> Option<T> {
        if self.stored(T::tag()) && res_tag_of(self.value_of(T::tag())) == T::tag() {
            Some(T::of_value(self.value_of(T::tag())))
        } else {
            None
        }
    }

    /// Each tag is filed at most once.
    pub open spec fn wf(self) -> bool {
        forall|i: int, j: int| 0 <= i < j < self.rows().len()
            ==> (#[trigger] self.rows()[i]).0 != (#[trigger] self.rows()[j]).0
    }

    pub fn new() -> (s: Self)
        ensures
            s.wf(),
            forall|t: u64| !s.stored(t),
    {
        ResourceStorage { items: Vec::new() }
    }

    fn position_of(&self, t: u64) -> (r: Option<usize>)
        requires
            self.wf(),
        ensures
            match r {
                Some(i) => i < self.rows().len() && self.rows()[i as int].0 == t
                    && self.row_index(t) == i && self.stored(t),
                None => !self.stored(t),
            },
    {
        let mut i: usize = 0;
        while i < self.items.len()
            invariant
                self.wf(),
                i <= self.rows().len(),
                forall|k: int| 0 <= k < i ==> (#[trigger] self.rows()[k]).0 != t,
            decreases self.rows().len() - i,
        {
            if self.items[i].0 == t {
                proof {
                    lemma_unique_row(*self, t, i as int);
                }
                return Some(i);
            }
            i = i + 1;
        }
        None
    }

    /// Stores the singleton for `T`, overwriting any value already filed under
    /// `T`'s tag; no other type's singleton changes.
    pub fn insert<T: Resource>(&mut self, resource: T)
        requires
            old(self).wf(),
        ensures
            final(self).wf(),
            forall|u: u64| final(self).stored(u) == (old(self).stored(u) || u == T::tag()),
            final(self).value_of(T::tag()) == resource.erased(),
            res_tag_of(resource.erased()) == T::tag(),
            forall|u: u64| u != T::tag() && old(self).stored(u) ==> final(self).value_of(u) == old(
                self,
            ).value_of(u),
    {
        proof {
            T::lemma_round_trip(resource);
        }
        let t = T::tag_value();
        let v = resource.erase();
        match self.position_of(t) {
            Some(i) => {
                self.items[i] = (t, v);
                proof {
                    lemma_resource_replaced(*old(self), *self, t, v);
                }
            }
            None => {
                self.items.push((t, v));
                proof {
                    let pre = *old(self);
                    let post = *self;
                    let n = pre.rows().len() as int;
                    assert forall|u: u64| #[trigger] post.stored(u) implies u == t || pre.stored(
                        u,
                    ) by {
                        let i = choose|i: int|
                            0 <= i < post.rows().len() && (#[trigger] post.rows()[i]).0 == u;
                        if i < n {
                            assert(pre.rows()[i].0 == u);
                        }
                    }
                    assert(post.rows()[n].0 == t);
                    lemma_unique_row(post, t, n);
                    assert forall|u: u64| u != t && #[trigger] pre.stored(u) implies post.stored(u)
                        && post.value_of(u) == pre.value_of(u) by {
                        lemma_row_index(pre, u);
                        let i = pre.row_index(u);
                        assert(post.rows()[i].0 == u);
                        lemma_unique_row(post, u, i);
                    }
                }
            }
        }
    }

    /// The singleton for `T`, or absent where none was ever inserted.
    pub fn get<T: Resource>(&self) -> (r: Option<&T>)
        requires
            self.wf(),
        ensures
            match r {
                Some(x) => self.typed::<T>() == Some(*x),
                None => self.typed::<T>() is None,
            },
    {
        let t = T::tag_value();
        match self.position_of(t) {
            Some(i) => T::recover(&self.items[i].1),
            None => None,
        }
    }

    /// Exclusive access to the singleton for `T`, or absent where none was
    /// ever inserted. Only `T`'s row changes through the reference;
    /// `lemma_resource_replaced` turns the row update into per-tag facts.
    pub fn get_mut<T: Resource>(&mut self) -> (r: Option<&mut T>)
        requires
            old(self).wf(),
        ensures
            match r {
                Some(x) => {
                    &&& old(self).typed::<T>() == Some(*x)
                    &&& old(self).stored(T::tag())
                    &&& final(self).rows() == old(self).rows().update(
                        old(self).row_index(T::tag()),
                        ((T::tag(), final(x).erased())),
                    )
                },
                None => old(self).typed::<T>() is None && final(self).rows() == old(
                    self,
                ).rows(),
            },
    {
        let t = T::tag_value();
        match self.position_of(t) {
            Some(i) => {
                let tag_matches = T::recover(&self.items[i].1).is_some();
                if tag_matches {
                    let entry = &mut self.items[i];
                    let v = &mut entry.1;
                    T::recover_mut(v)
                } else {
                    None
                }
            }
            None => None,
        }
    }
}

/// Tags are unique, so any position holding tag `t` is the position `value_of`
/// reads from.
proof fn lemma_unique_row(s: ResourceStorage, t: u64, i: int)
    requires
        s.wf(),
        0 <= i < s.rows().len(),
        s.rows()[i].0 == t,
    ensures
        s.stored(t),
        s.row_index(t) == i,
        s.value_of(t) == s.rows()[i].1,
{
    assert(s.stored(t));
    let k = s.row_index(t);
    if k != i {
        if k < i {
            assert(s.rows()[k].0 != s.rows()[i].0);
        } else {
            assert(s.rows()[i].0 != s.rows()[k].0);
        }
    }
}

proof fn lemma_row_index(s: ResourceStorage, t: u64)
    requires
        s.wf(),
        s.stored(t),
    ensures
        0 <= s.row_index(t) < s.rows().len(),
        s.rows()[s.row_index(t)].0 == t,
{
}

/// Replacing the one row that carries tag `t` (tag kept) leaves every other
/// singleton as it was.
pub proof fn lemma_resource_replaced(
    pre: ResourceStorage,
    post: ResourceStorage,
    t: u64,
    v2: ResourceValue,
)
    requires
        pre.wf(),
        pre.stored(t),
        post.rows() == pre.rows().update(pre.row_index(t), ((t, v2))),
    ensures
        post.wf(),
        forall|u: u64| post.stored(u) == pre.stored(u),
        post.value_of(t) == v2,
        forall|u: u64| u != t && pre.stored(u) ==> post.value_of(u) == pre.value_of(u),
{
    lemma_row_index(pre, t);
    let i = pre.row_index(t);
    assert forall|u: u64| post.stored(u) == pre.stored(u) by {
        if pre.stored(u) {
            lemma_row_index(pre, u);
            let k = pre.row_index(u);
            assert(post.rows()[k].0 == u);
        }
        if post.stored(u) {
            let k = choose|k: int| 0 <= k < post.rows().len() && (#[trigger] post.rows()[k]).0 == u;
            assert(pre.rows()[k].0 == u);
        }
    }
    assert(post.wf()) by {
        assert forall|a: int, b: int| 0 <= a < b < post.rows().len() implies (
        #[trigger] post.rows()[a]).0 != (#[trigger] post.rows()[b]).0 by {
            assert(pre.rows()[a].0 == post.rows()[a].0);
            assert(pre.rows()[b].0 == post.rows()[b].0);
        }
    }
    lemma_unique_row(post, t, i);
    assert forall|u: u64| u != t && #[trigger] pre.stored(u) implies post.value_of(u)
        == pre.value_of(u) by {
        lemma_row_index(pre, u);
        let k = pre.row_index(u);
        assert(post.rows()[k].0 == u);
        lemma_unique_row(post, u, k);
        assert(k != i);
    }
}

} // verus!
