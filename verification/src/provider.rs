//! The shared source tree that declarative bindings and plugins read from.

use vstd::prelude::*;

use crate::json::{json_eq, json_equal, json_map_insert, json_map_new, json_object, json_object_members, json_map_entries};
use crate::package::{distinct_names, name_set};

verus! {

/// Minimal change sent from a shared provider to widget documents.
#[derive(Debug, Clone, PartialEq)]
pub struct DataPatch {
    pub path: String,
    pub value: serde_json::Value,
}

/// Shared source tree for declarative package bindings.
#[derive(Debug)]
pub struct ProviderRegistry {
    names: Vec<String>,
    roots: Vec<serde_json::Value>,
    revisions: Vec<u64>,
}

/// Position of the name `key` in a list of distinct names.
pub open spec fn position_of(names: Seq<String>, key: Seq<char>) -> int {
    choose|i: int| 0 <= i < names.len() && (#[trigger] names[i])@ == key
}

impl ProviderRegistry {
    /// The three parallel lists agree in length and no provider occurs twice.
    pub closed spec fn wf(&self) -> bool {
        &&& self.names@.len() == self.roots@.len()
        &&& self.names@.len() == self.revisions@.len()
        &&& distinct_names(self.names@)
    }

    /// The current root of every provider.
    pub closed spec fn roots_view(&self) -> Map<Seq<char>, serde_json::Value> {
        Map::new(
            |k: Seq<char>| name_set(self.names@).contains(k),
            |k: Seq<char>| self.roots@[position_of(self.names@, k)],
        )
    }

    /// The revision of every provider that has ever been stored.
    pub closed spec fn revisions_view(&self) -> Map<Seq<char>, u64> {
        Map::new(
            |k: Seq<char>| name_set(self.names@).contains(k),
            |k: Seq<char>| self.revisions@[position_of(self.names@, k)],
        )
    }

    /// The revision of `provider`, zero when it has never been stored.
    pub open spec fn revision_of(&self, provider: Seq<char>) -> u64 {
        if self.revisions_view().contains_key(provider) {
            self.revisions_view()[provider]
        } else {
            0
        }
    }

    /// An empty registry.
    pub fn new() -> (res: ProviderRegistry)
        ensures
            res.wf(),
            res.roots_view().dom().is_empty(),
            res.revisions_view().dom().is_empty(),
    {
        let res = ProviderRegistry { names: Vec::new(), roots: Vec::new(), revisions: Vec::new() };
        assert(res.roots_view().dom() =~= Set::empty());
        assert(res.revisions_view().dom() =~= Set::empty());
        res
    }

    fn find(&self, provider: &String) -> (res: Option<usize>)
        requires
            self.wf(),
        ensures
            res matches Some(i) ==> i < self.names@.len() && self.names@[i as int]@ == provider@
                && position_of(self.names@, provider@) == i,
            res is None <==> !name_set(self.names@).contains(provider@),
    {
        let mut i: usize = 0;
        while i < self.names.len()
            invariant
                self.wf(),
                i <= self.names@.len(),
                forall|k: int| 0 <= k < i ==> (#[trigger] self.names@[k])@ != provider@,
            decreases self.names@.len() - i,
        {
            if self.names[i] == *provider {
                proof {
                    assert(self.names@[i as int]@ == provider@);
                    assert(name_set(self.names@).contains(provider@));
                    let p = position_of(self.names@, provider@);
                    assert(0 <= p < self.names@.len() && self.names@[p]@ == provider@);
                }
                return Some(i);
            }
            i = i + 1;
        }
        None
    }

    /// Replaces one provider root and advances its revision only when data changed.
    pub fn update(&mut self, provider: &str, value: serde_json::Value) -> (res: Option<DataPatch>)
        requires
            old(self).wf(),
            old(self).revision_of(provider@) < u64::MAX,
        ensures
            final(self).wf(),
            ({
                let unchanged = old(self).roots_view().contains_key(provider@) && json_equal(
                    old(self).roots_view()[provider@],
                    value,
                );
                &&& unchanged ==> res is None && final(self).roots_view() == old(self).roots_view()
                    && final(self).revisions_view() == old(self).revisions_view()
                &&& !unchanged ==> (res matches Some(patch) && patch.path@ == provider@
                    && patch.value == value)
                &&& !unchanged ==> final(self).roots_view() == old(self).roots_view().insert(
                    provider@,
                    value,
                )
                &&& !unchanged ==> final(self).revisions_view() == old(self).revisions_view().insert(
                    provider@,
                    (old(self).revision_of(provider@) + 1) as u64,
                )
            }),
            old(self).roots_view().contains_key(provider@) && old(self).roots_view()[provider@]
                == value ==> res is None && final(self).roots_view() == old(self).roots_view()
                && final(self).revisions_view() == old(self).revisions_view(),
            forall|k: Seq<char>| #[trigger] final(self).revision_of(k) >= old(self).revision_of(k),
    {
        let key = String::from_str(provider);
        let ghost old_names = self.names@;
        let ghost old_roots = self.roots_view();
        let ghost old_revisions = self.revisions_view();
        match self.find(&key) {
            Some(i) => {
                if json_eq(&self.roots[i], &value) {
                    return None;
                }
                let revision = self.revisions[i] + 1;
                self.roots.set(i, value.clone());
                self.revisions.set(i, revision);
                proof {
                    assert(self.names@ == old_names);
                    assert(self.roots_view() =~= old_roots.insert(provider@, value)) by {
                        assert forall|k: Seq<char>| #[trigger] self.roots_view().contains_key(k)
                            implies self.roots_view()[k] == old_roots.insert(provider@, value)[k] by {
                            let p = position_of(self.names@, k);
                            assert(0 <= p < self.names@.len() && self.names@[p]@ == k);
                        }
                    }
                    assert(self.revisions_view() =~= old_revisions.insert(provider@, revision)) by {
                        assert forall|k: Seq<char>| #[trigger] self.revisions_view().contains_key(k)
                            implies self.revisions_view()[k] == old_revisions.insert(
                            provider@,
                            revision,
                        )[k] by {
                            let p = position_of(self.names@, k);
                            assert(0 <= p < self.names@.len() && self.names@[p]@ == k);
                        }
                    }
                }
            },
            None => {
                self.names.push(key);
                self.roots.push(value.clone());
                self.revisions.push(1);
                proof {
                    let n = old_names.len() as int;
                    assert(self.names@ == old_names.push(key));
                    assert(distinct_names(self.names@)) by {
                        assert forall|a: int, b: int|
                            0 <= a < self.names@.len() && 0 <= b < self.names@.len() && a != b
                                implies (#[trigger] self.names@[a])@ != (#[trigger] self.names@[b])@ by {
                            if a < n && b < n {
                                assert(self.names@[a] == old_names[a] && self.names@[b] == old_names[b]);
                            } else if a < n {
                                assert(self.names@[a] == old_names[a]);
                                assert(!name_set(old_names).contains(key@));
                            } else {
                                assert(self.names@[b] == old_names[b]);
                                assert(!name_set(old_names).contains(key@));
                            }
                        }
                    }
                    assert forall|k: Seq<char>| name_set(self.names@).contains(k) <==> (
                        name_set(old_names).contains(k) || k == provider@) by {
                        if name_set(self.names@).contains(k) {
                            let j = choose|j: int| 0 <= j < self.names@.len() && (#[trigger] self.names@[j])@ == k;
                            if j < n {
                                assert(self.names@[j] == old_names[j]);
                            }
                        }
                        if name_set(old_names).contains(k) {
                            let j = choose|j: int| 0 <= j < old_names.len() && (#[trigger] old_names[j])@ == k;
                            assert(self.names@[j] == old_names[j]);
                        }
                        if k == provider@ {
                            assert(self.names@[n]@ == k);
                        }
                    }
                    assert forall|k: Seq<char>| name_set(self.names@).contains(k) implies {
                        let p = position_of(self.names@, k);
                        &&& 0 <= p < self.names@.len()
                        &&& (k == provider@ ==> p == n)
                        &&& (k != provider@ ==> p < n && p == position_of(old_names, k))
                    } by {
                        let p = position_of(self.names@, k);
                        assert(0 <= p < self.names@.len() && self.names@[p]@ == k);
                        if k != provider@ {
                            assert(p != n);
                            let q = position_of(old_names, k);
                            assert(name_set(old_names).contains(k));
                            assert(0 <= q < old_names.len() && old_names[q]@ == k);
                            assert(self.names@[q] == old_names[q]);
                            assert(self.names@[p] == old_names[p]);
                        } else if p != n {
                            assert(self.names@[p] == old_names[p]);
                        }
                    }
                    assert(self.roots_view() =~= old_roots.insert(provider@, value));
                    assert(self.revisions_view() =~= old_revisions.insert(provider@, 1));
                }
            },
        }
        Some(DataPatch { path: String::from_str(provider), value })
    }

    /// Reads the combined JSON tree consumed by binding resolution and plugins.
    pub fn snapshot(&self) -> (res: serde_json::Value)
        requires
            self.wf(),
        ensures
            json_object_members(res) == Some(self.roots_view()),
    {
        let mut map = json_map_new();
        let mut i: usize = 0;
        proof {
            assert(name_set(self.names@.take(0)) =~= Set::<Seq<char>>::empty());
            assert(json_map_entries(map) =~= self.roots_upto(0));
        }
        while i < self.names.len()
            invariant
                self.wf(),
                i <= self.names@.len(),
                json_map_entries(map) == self.roots_upto(i as int),
            decreases self.names@.len() - i,
        {
            json_map_insert(&mut map, self.names[i].clone(), self.roots[i].clone());
            proof {
                let k0 = self.names@[i as int]@;
                assert(position_of(self.names@, k0) == i) by {
                    let p = position_of(self.names@, k0);
                    assert(0 <= p < self.names@.len() && self.names@[p]@ == k0);
                }
                lemma_name_set_take_next(self.names@, i as int);
                assert(json_map_entries(map) =~= self.roots_upto(i + 1));
            }
            i = i + 1;
        }
        proof {
            assert(self.names@.take(self.names@.len() as int) =~= self.names@);
            assert(json_map_entries(map) =~= self.roots_view());
        }
        json_object(map)
    }

    /// The roots of the first `n` providers.
    pub closed spec fn roots_upto(&self, n: int) -> Map<Seq<char>, serde_json::Value> {
        Map::new(
            |k: Seq<char>| name_set(self.names@.take(n)).contains(k),
            |k: Seq<char>| self.roots@[position_of(self.names@, k)],
        )
    }

    /// Returns the monotonic revision for a provider.
    pub fn revision(&self, provider: &str) -> (res: u64)
        requires
            self.wf(),
        ensures
            res == self.revision_of(provider@),
    {
        let key = String::from_str(provider);
        match self.find(&key) {
            Some(i) => self.revisions[i],
            None => 0,
        }
    }
}

/// Taking one more name adds that name to the set.
proof fn lemma_name_set_take_next(names: Seq<String>, n: int)
    requires
        0 <= n < names.len(),
    ensures
        name_set(names.take(n + 1)) == name_set(names.take(n)).insert(names[n]@),
{
    let a = names.take(n + 1);
    let b = names.take(n);
    assert forall|k: Seq<char>| name_set(a).contains(k) <==> name_set(b).insert(names[n]@).contains(k) by {
        if name_set(a).contains(k) {
            let j = choose|j: int| 0 <= j < a.len() && (#[trigger] a[j])@ == k;
            if j < n {
                assert(b[j] == a[j]);
            }
        }
        if name_set(b).contains(k) {
            let j = choose|j: int| 0 <= j < b.len() && (#[trigger] b[j])@ == k;
            assert(a[j] == b[j]);
        }
        if k == names[n]@ {
            assert(a[n] == names[n]);
        }
    }
    assert(name_set(a) =~= name_set(b).insert(names[n]@));
}

impl Default for ProviderRegistry {
    fn default() -> (res: ProviderRegistry)
        ensures
            res.wf(),
            res.roots_view().dom().is_empty(),
            res.revisions_view().dom().is_empty(),
    {
        ProviderRegistry::new()
    }
}

} // verus!
