//! The component registry: a type-keyed singleton store. During the Building
//! phase the registry is owned exclusively by the builder and may be grown;
//! sealing converts it, once, into a read-only form. Registration is one-shot:
//! a second insertion under a type key is rejected and the first value kept.
//!
//! Beside singletons, the registry holds accumulating groups: collections to
//! which independent plugins each contribute one element (for instance the
//! router fragments merged later into one router). Groups can only be touched
//! before sealing; the sealed form has no writing operation at all.

use vstd::prelude::*;

use crate::component::Component;
use crate::component::ComponentView;
use crate::component::components_deep;
use crate::errors::BootError;
use crate::errors::ErrView;

verus! {

/// The value stored under key `k`: the last entry for `k` wins.
pub open spec fn spec_assoc<T>(s: Seq<(u64, T)>, k: u64) -> Option<T>
    decreases s.len(),
{
    if s.len() == 0 {
        None
    } else if s.last().0 == k {
        Some(s.last().1)
    } else {
        spec_assoc(s.drop_last(), k)
    }
}

/// Removing an entry whose key is not `k` does not change what `k` maps to.
pub proof fn lemma_assoc_remove<T>(s: Seq<(u64, T)>, idx: int, k: u64)
    requires
        0 <= idx < s.len(),
        s[idx].0 != k,
    ensures
        spec_assoc(s.remove(idx), k) == spec_assoc(s, k),
    decreases s.len(),
{
    if idx == s.len() - 1 {
        assert(s.remove(idx) =~= s.drop_last());
    } else {
        let t = s.remove(idx);
        assert(t.last() == s.last());
        if s.last().0 != k {
            assert(t.drop_last() =~= s.drop_last().remove(idx));
            lemma_assoc_remove(s.drop_last(), idx, k);
        }
    }
}

/// The mathematical value of a registry: its singletons and its accumulating
/// groups, each as a key-to-value association read last-entry-first.
pub struct RegView {
    pub singles: Seq<(u64, ComponentView)>,
    pub groups: Seq<(u64, Seq<ComponentView>)>,
}

/// The builder-owned, growable component registry.
pub struct ComponentRegistry {
    singles: Vec<(u64, Component)>,
    groups: Vec<(u64, Vec<Component>)>,
}

impl View for ComponentRegistry {
    type V = RegView;

    closed spec fn view(&self) -> RegView {
        RegView {
            singles: self.singles@.map(|i: int, e: (u64, Component)| (e.0, e.1@)),
            groups: self.groups@.map(
                |i: int, e: (u64, Vec<Component>)| (e.0, components_deep(e.1@)),
            ),
        }
    }
}

impl ComponentRegistry {
    /// A registry with nothing registered.
    pub fn new() -> (r: ComponentRegistry)
        ensures
            r@.singles == Seq::<(u64, ComponentView)>::empty(),
            r@.groups == Seq::<(u64, Seq<ComponentView>)>::empty(),
    {
        let r = ComponentRegistry { singles: Vec::new(), groups: Vec::new() };
        proof {
            assert(r@.singles =~= Seq::<(u64, ComponentView)>::empty());
            assert(r@.groups =~= Seq::<(u64, Seq<ComponentView>)>::empty());
        }
        r
    }

    /// Whether a singleton is registered under `type_key`.
    pub fn contains(&self, type_key: u64) -> (r: bool)
        ensures
            r == (spec_assoc(self@.singles, type_key) is Some),
    {
        let mut i: usize = self.singles.len();
        proof {
            assert(self@.singles.subrange(0, i as int) =~= self@.singles);
        }
        while i > 0
            invariant
                i <= self.singles.len(),
                self@.singles.len() == self.singles.len(),
                spec_assoc(self@.singles, type_key) == spec_assoc(
                    self@.singles.subrange(0, i as int),
                    type_key,
                ),
            decreases i,
        {
            i -= 1;
            proof {
                assert(self@.singles.subrange(0, i + 1).last() == self@.singles[i as int]);
                assert(self@.singles.subrange(0, i + 1).drop_last() =~= self@.singles.subrange(
                    0,
                    i as int,
                ));
            }
            if self.singles[i].0 == type_key {
                return true;
            }
        }
        proof {
            assert(self@.singles.subrange(0, 0) =~= Seq::<(u64, ComponentView)>::empty());
        }
        false
    }

    /// Registers the singleton for `type_key`, one-shot: if the key is
    /// already taken, the insertion is rejected and nothing changes.
    pub fn insert(&mut self, type_key: u64, value: Component) -> (r: Result<(), BootError>)
        ensures
            match r {
                Ok(_) => spec_assoc(old(self)@.singles, type_key) is None && final(self)@.singles
                    == old(self)@.singles.push((type_key, value@)) && final(self)@.groups == old(
                    self,
                )@.groups,
                Err(e) => e@ == (ErrView::DuplicateComponent { type_key }) && spec_assoc(
                    old(self)@.singles,
                    type_key,
                ) is Some && final(self)@ == old(self)@,
            },
    {
        if self.contains(type_key) {
            return Err(BootError::DuplicateComponent { type_key });
        }
        let ghost before = self@;
        let ghost vv = value@;
        self.singles.push((type_key, value));
        proof {
            assert(self@.singles =~= before.singles.push((type_key, vv)));
            assert(self@.groups =~= before.groups);
        }
        Ok(())
    }

    /// The singleton registered under `type_key`, as a shared read-only
    /// handle, if present.
    pub fn get(&self, type_key: u64) -> (r: Option<&Component>)
        ensures
            match r {
                Option::Some(c) => spec_assoc(self@.singles, type_key) == Some(c@),
                Option::None => spec_assoc(self@.singles, type_key) is None,
            },
    {
        let mut i: usize = self.singles.len();
        proof {
            assert(self@.singles.subrange(0, i as int) =~= self@.singles);
        }
        while i > 0
            invariant
                i <= self.singles.len(),
                self@.singles.len() == self.singles.len(),
                spec_assoc(self@.singles, type_key) == spec_assoc(
                    self@.singles.subrange(0, i as int),
                    type_key,
                ),
            decreases i,
        {
            i -= 1;
            proof {
                assert(self@.singles.subrange(0, i + 1).last() == self@.singles[i as int]);
                assert(self@.singles.subrange(0, i + 1).drop_last() =~= self@.singles.subrange(
                    0,
                    i as int,
                ));
            }
            let e = &self.singles[i];
            if e.0 == type_key {
                return Some(&e.1);
            }
        }
        proof {
            assert(self@.singles.subrange(0, 0) =~= Seq::<(u64, ComponentView)>::empty());
        }
        None
    }

    /// Appends `item` to the accumulating group under `type_key`, creating
    /// the group with just `item` when absent. Only independent contributions
    /// during Building go through here; the operation disappears with the
    /// seal.
    pub fn accumulate(&mut self, type_key: u64, item: Component)
        ensures
            final(self)@.singles == old(self)@.singles,
            spec_assoc(final(self)@.groups, type_key) == Some(
                match spec_assoc(old(self)@.groups, type_key) {
                    Option::Some(items) => items.push(item@),
                    Option::None => seq![item@],
                },
            ),
            forall|k2: u64|
                k2 != type_key ==> spec_assoc(final(self)@.groups, k2) == spec_assoc(
                    old(self)@.groups,
                    k2,
                ),
    {
        let ghost before = self@;
        let ghost itemv = item@;
        let mut i: usize = self.groups.len();
        proof {
            assert(self@.groups.subrange(0, i as int) =~= self@.groups);
        }
        while i > 0
            invariant
                i <= self.groups.len(),
                self@.groups.len() == self.groups.len(),
                before == self@,
                before == old(self)@,
                itemv == item@,
                spec_assoc(self@.groups, type_key) == spec_assoc(
                    self@.groups.subrange(0, i as int),
                    type_key,
                ),
            decreases i,
        {
            i -= 1;
            proof {
                assert(self@.groups.subrange(0, i + 1).last() == self@.groups[i as int]);
                assert(self@.groups.subrange(0, i + 1).drop_last() =~= self@.groups.subrange(
                    0,
                    i as int,
                ));
            }
            if self.groups[i].0 == type_key {
                let ghost pregroups = self.groups@;
                let entry = self.groups.remove(i);
                let ghost olditems = before.groups[i as int].1;
                let (k, mut items) = entry;
                let ghost itemsv0 = items@;
                proof {
                    assert(before.groups[i as int] == (pregroups[i as int].0, components_deep(
                        pregroups[i as int].1@,
                    )));
                    assert(olditems =~= components_deep(itemsv0));
                }
                items.push(item);
                let ghost newitems = components_deep(items@);
                proof {
                    assert(items@.drop_last() =~= itemsv0);
                    assert(items@.last()@ == itemv);
                    assert(items@.len() == itemsv0.len() + 1);
                    assert(olditems.len() == itemsv0.len());
                    assert forall|j: int| 0 <= j < newitems.len() implies #[trigger] newitems[j]
                        == olditems.push(itemv)[j] by {
                        assert(newitems[j] == items@[j]@);
                        if j < itemsv0.len() {
                            assert(items@[j] == items@.drop_last()[j]);
                            assert(olditems[j] == components_deep(itemsv0)[j]);
                            assert(components_deep(itemsv0)[j] == itemsv0[j]@);
                        } else {
                            assert(items@[j] == items@.last());
                        }
                    }
                    assert(newitems =~= olditems.push(itemv));
                }
                self.groups.push((k, items));
                proof {
                    let finalg = self@.groups;
                    assert(finalg =~= before.groups.remove(i as int).push((type_key, newitems)));
                    assert(spec_assoc(finalg, type_key) == Some(newitems));
                    assert(spec_assoc(before.groups, type_key) == Some(olditems));
                    assert forall|k2: u64| k2 != type_key implies #[trigger] spec_assoc(
                        self@.groups,
                        k2,
                    ) == spec_assoc(before.groups, k2) by {
                        assert(finalg.drop_last() =~= before.groups.remove(i as int));
                        lemma_assoc_remove(before.groups, i as int, k2);
                    }
                    assert(self@.singles =~= before.singles);
                }
                return ;
            }
        }
        proof {
            assert(self@.groups.subrange(0, 0) =~= Seq::<(u64, Seq<ComponentView>)>::empty());
        }
        let mut items: Vec<Component> = Vec::new();
        items.push(item);
        let ghost newitems = components_deep(items@);
        proof {
            assert(newitems =~= seq![itemv]);
        }
        self.groups.push((type_key, items));
        proof {
            assert(self@.groups =~= before.groups.push((type_key, newitems)));
            assert forall|k2: u64| k2 != type_key implies #[trigger] spec_assoc(self@.groups, k2)
                == spec_assoc(before.groups, k2) by {
                assert(self@.groups.drop_last() =~= before.groups);
            }
            assert(self@.singles =~= before.singles);
        }
    }

    /// The accumulating group under `type_key`, if present.
    pub fn get_group(&self, type_key: u64) -> (r: Option<&Vec<Component>>)
        ensures
            match r {
                Option::Some(g) => spec_assoc(self@.groups, type_key) == Some(components_deep(g@)),
                Option::None => spec_assoc(self@.groups, type_key) is None,
            },
    {
        let mut i: usize = self.groups.len();
        proof {
            assert(self@.groups.subrange(0, i as int) =~= self@.groups);
        }
        while i > 0
            invariant
                i <= self.groups.len(),
                self@.groups.len() == self.groups.len(),
                spec_assoc(self@.groups, type_key) == spec_assoc(
                    self@.groups.subrange(0, i as int),
                    type_key,
                ),
            decreases i,
        {
            i -= 1;
            proof {
                assert(self@.groups.subrange(0, i + 1).last() == self@.groups[i as int]);
                assert(self@.groups.subrange(0, i + 1).drop_last() =~= self@.groups.subrange(
                    0,
                    i as int,
                ));
            }
            let e = &self.groups[i];
            if e.0 == type_key {
                return Some(&e.1);
            }
        }
        proof {
            assert(self@.groups.subrange(0, 0) =~= Seq::<(u64, Seq<ComponentView>)>::empty());
        }
        None
    }

    /// The one-way seal: consumes the growable registry and yields the
    /// read-only form handed to the application. After this, nothing can
    /// insert or accumulate: the sealed form has no such operation.
    pub fn seal(self) -> (r: SealedRegistry)
        ensures
            r@ == self@,
    {
        SealedRegistry { inner: self }
    }
}

/// The read-only registry of a running application.
pub struct SealedRegistry {
    inner: ComponentRegistry,
}

impl View for SealedRegistry {
    type V = RegView;

    closed spec fn view(&self) -> RegView {
        self.inner@
    }
}

impl SealedRegistry {
    /// The singleton registered under `type_key`, if present.
    pub fn get(&self, type_key: u64) -> (r: Option<&Component>)
        ensures
            match r {
                Option::Some(c) => spec_assoc(self@.singles, type_key) == Some(c@),
                Option::None => spec_assoc(self@.singles, type_key) is None,
            },
    {
        self.inner.get(type_key)
    }

    /// The group accumulated under `type_key`, if present.
    pub fn get_group(&self, type_key: u64) -> (r: Option<&Vec<Component>>)
        ensures
            match r {
                Option::Some(g) => spec_assoc(self@.groups, type_key) == Some(components_deep(g@)),
                Option::None => spec_assoc(self@.groups, type_key) is None,
            },
    {
        self.inner.get_group(type_key)
    }
}

/// Identity of registration: once a singleton is inserted for a type key,
/// reading that key yields exactly the inserted value — and, the registry
/// being read-only from then on unless something else is inserted under a
/// different key, every later read agrees.
pub proof fn lemma_insert_then_get(s: Seq<(u64, ComponentView)>, type_key: u64, v: ComponentView)
    ensures
        spec_assoc(s.push((type_key, v)), type_key) == Some(v),
{
}

/// Inserting under one key never disturbs what another key maps to.
pub proof fn lemma_insert_preserves_others(
    s: Seq<(u64, ComponentView)>,
    type_key: u64,
    v: ComponentView,
    k2: u64,
)
    requires
        k2 != type_key,
    ensures
        spec_assoc(s.push((type_key, v)), k2) == spec_assoc(s, k2),
{
    assert(s.push((type_key, v)).drop_last() =~= s);
}

} // verus!
