//! A registry of live resource identifiers (background tasks, tunnels, ...).
use crate::process::strs;
use crate::text::str_eq;
use vstd::prelude::*;

verus! {

/// A set of resource identifiers. Registering and unregistering are idempotent:
/// each reports whether it changed the set.
pub struct ResourceRegistry {
    ids: Vec<String>,
}

impl View for ResourceRegistry {
    type V = Set<Seq<char>>;

    closed spec fn view(&self) -> Set<Seq<char>> {
        strs(self.ids@).to_set()
    }
}

impl Default for ResourceRegistry {
    fn default() -> (r: Self)
        ensures
            r@ == Set::<Seq<char>>::empty(),
    {
        ResourceRegistry::new()
    }
}

impl ResourceRegistry {
    #[verifier::type_invariant]
    closed spec fn unique(&self) -> bool {
        strs(self.ids@).no_duplicates()
    }

    /// An empty registry.
    pub fn new() -> (r: Self)
        ensures
            r@ == Set::<Seq<char>>::empty(),
    {
        let r = ResourceRegistry { ids: Vec::new() };
        assert(strs(r.ids@) =~= Seq::<Seq<char>>::empty());
        assert(r@ =~= Set::<Seq<char>>::empty());
        r
    }

    fn position(&self, id: &str) -> (r: Option<usize>)
        ensures
            match r {
                Some(i) => i < self.ids@.len() && self.ids@[i as int]@ == id@,
                None => !strs(self.ids@).contains(id@),
            },
    {
        let mut i: usize = 0;
        while i < self.ids.len()
            invariant
                i <= self.ids@.len(),
                forall|k: int| 0 <= k < i ==> self.ids@[k]@ != id@,
            decreases self.ids.len() - i,
        {
            if str_eq(self.ids[i].as_str(), id) {
                return Some(i);
            }
            i = i + 1;
        }
        assert forall|k: int| 0 <= k < strs(self.ids@).len() implies strs(self.ids@)[k] != id@ by {}
        None
    }

    /// Whether `id` is registered.
    pub fn contains(&self, id: &str) -> (r: bool)
        ensures
            r == self@.contains(id@),
    {
        let p = self.position(id);
        proof {
            if let Some(i) = p {
                assert(strs(self.ids@)[i as int] == id@);
            }
        }
        p.is_some()
    }

    /// Registers `id`; `true` when it was not registered before.
    pub fn register(&mut self, id: String) -> (added: bool)
        ensures
            added == !old(self)@.contains(id@),
            final(self)@ == old(self)@.insert(id@),
    {
        proof {
            use_type_invariant(&*self);
        }
        if self.contains(id.as_str()) {
            assert(self@.insert(id@) =~= self@);
            return false;
        }
        let ghost before = strs(self.ids@);
        let mut ids: Vec<String> = Vec::new();
        std::mem::swap(&mut ids, &mut self.ids);
        ids.push(id);
        assert(strs(ids@) =~= before.push(id@));
        self.ids = ids;
        assert(self@ =~= old(self)@.insert(id@)) by {
            broadcast use vstd::seq_lib::group_seq_properties;
        }
        true
    }

    /// Unregisters `id`; `true` when it was registered.
    pub fn unregister(&mut self, id: &str) -> (removed: bool)
        ensures
            removed == old(self)@.contains(id@),
            final(self)@ == old(self)@.remove(id@),
    {
        proof {
            use_type_invariant(&*self);
        }
        match self.position(id) {
            None => {
                assert(self@.remove(id@) =~= self@);
                false
            },
            Some(i) => {
                let ghost before = strs(self.ids@);
                proof {
                    assert(before[i as int] == id@);
                    assert(before.contains(id@));
                }
                let mut ids: Vec<String> = Vec::new();
                std::mem::swap(&mut ids, &mut self.ids);
                ids.remove(i);
                proof {
                    assert(strs(ids@) =~= before.remove(i as int));
                    before.remove_ensures(i as int);
                    assert forall|a: int, b: int| 0 <= a < b < strs(ids@).len() implies strs(ids@)[a] != strs(ids@)[b] by {
                        if a < i && b >= i { assert(before[a] != before[b + 1]); }
                        else if a >= i { assert(before[a + 1] != before[b + 1]); }
                        else { assert(before[a] != before[b]); }
                    }
                }
                self.ids = ids;
                proof {
                    assert(strs(self.ids@) =~= before.remove(i as int));
                    before.remove_ensures(i as int);
                    assert forall|x: Seq<char>| self@.contains(x) == old(self)@.remove(id@).contains(
                        x,
                    ) by {
                        if strs(self.ids@).contains(x) {
                            let k = choose|k: int| 0 <= k < strs(self.ids@).len() && strs(self.ids@)[k] == x;
                            if k < i {
                                assert(before[k] == x);
                            } else {
                                assert(before[k + 1] == x);
                            }
                        }
                        if old(self)@.remove(id@).contains(x) {
                            let k = choose|k: int| 0 <= k < before.len() && before[k] == x;
                            assert(k != i);
                            if k < i {
                                assert(strs(self.ids@)[k] == x);
                            } else {
                                assert(strs(self.ids@)[k - 1] == x);
                            }
                        }
                    }
                    assert(self@ =~= old(self)@.remove(id@));
                }
                true
            },
        }
    }

    /// The number of registered identifiers.
    pub fn len(&self) -> (n: usize)
        ensures
            self@.finite(),
            n == self@.len(),
    {
        proof {
            use_type_invariant(self);
            vstd::seq_lib::seq_to_set_is_finite(strs(self.ids@));
            strs(self.ids@).unique_seq_to_set();
        }
        self.ids.len()
    }

    /// Whether nothing is registered.
    pub fn is_empty(&self) -> (r: bool)
        ensures
            r == (self@.len() == 0),
    {
        self.len() == 0
    }
}

} // verus!
