//! The cache of built pipelines: a pipeline is built once per description
//! and device and then reused. A key holds hashes of the description's
//! parts and the device it was built on, since a pipeline is only valid on
//! that device.

use vstd::prelude::*;
use crate::moon_pipeline::MoonPipeline;

verus! {

/// What identifies a built pipeline.
#[derive(Debug, Clone, Copy, PartialEq, Eq, Hash, Structural)]
pub struct PipelineCacheKey {
    pub shader_hash: u64,
    pub vertex_layouts_hash: u64,
    pub bind_groups_hash: u64,
    pub format_hash: u64,
    pub device_id: u64,
}

/// Built pipelines by key.
pub struct PipelineCache<P> {
    entries: Vec<(PipelineCacheKey, P)>,
}

/// The map that a list of entries stands for, later entries winning.
pub open spec fn entries_map<P>(s: Seq<(PipelineCacheKey, P)>) -> Map<PipelineCacheKey, P>
    decreases s.len(),
{
    if s.len() == 0 {
        Map::empty()
    } else {
        entries_map(s.drop_last()).insert(s.last().0, s.last().1)
    }
}

/// No key occurs twice in the list.
pub open spec fn keys_unique<P>(s: Seq<(PipelineCacheKey, P)>) -> bool {
    forall|i: int, j: int| 0 <= i < j < s.len() ==> #[trigger] s[i].0 != #[trigger] s[j].0
}

/// With unique keys, the map holds exactly the listed keys, each with its
/// listed value.
proof fn lemma_entries_map<P>(s: Seq<(PipelineCacheKey, P)>)
    requires
        keys_unique(s),
    ensures
        forall|k: PipelineCacheKey| #[trigger]
            entries_map(s).contains_key(k) <==> exists|i: int| 0 <= i < s.len() && s[i].0 == k,
        forall|i: int| 0 <= i < s.len() ==> #[trigger] entries_map(s)[s[i].0] == s[i].1,
        entries_map(s).dom().finite(),
    decreases s.len(),
{
    if s.len() > 0 {
        let t = s.drop_last();
        assert(keys_unique(t)) by {
            assert forall|i: int, j: int| 0 <= i < j < t.len() implies #[trigger] t[i].0 != #[trigger] t[j].0 by {
                assert(t[i] == s[i] && t[j] == s[j]);
            }
        }
        lemma_entries_map(t);
        assert forall|k: PipelineCacheKey| #[trigger]
            entries_map(s).contains_key(k) <==> exists|i: int| 0 <= i < s.len() && s[i].0 == k by {
            if entries_map(t).contains_key(k) {
                let i = choose|i: int| 0 <= i < t.len() && t[i].0 == k;
                assert(s[i].0 == k);
            }
            if exists|i: int| 0 <= i < s.len() && s[i].0 == k {
                let i = choose|i: int| 0 <= i < s.len() && s[i].0 == k;
                if i < s.len() - 1 {
                    assert(t[i].0 == k);
                }
            }
        }
        assert forall|i: int| 0 <= i < s.len() implies #[trigger] entries_map(s)[s[i].0] == s[i].1 by {
            if i < s.len() - 1 {
                assert(t[i] == s[i]);
                assert(s[i].0 != s.last().0);
            }
        }
    }
}

/// Replacing the value of a listed key changes the map at that key only.
proof fn lemma_entries_map_update<P>(s: Seq<(PipelineCacheKey, P)>, i: int, v: P)
    requires
        keys_unique(s),
        0 <= i < s.len(),
    ensures
        keys_unique(s.update(i, (s[i].0, v))),
        entries_map(s.update(i, (s[i].0, v))) == entries_map(s).insert(s[i].0, v),
{
    let u = s.update(i, (s[i].0, v));
    assert(keys_unique(u)) by {
        assert forall|a: int, b: int| 0 <= a < b < u.len() implies #[trigger] u[a].0 != #[trigger] u[b].0 by {
            assert(u[a].0 == s[a].0 && u[b].0 == s[b].0);
        }
    }
    lemma_entries_map(s);
    lemma_entries_map(u);
    let m = entries_map(s).insert(s[i].0, v);
    assert forall|k: PipelineCacheKey| #[trigger] entries_map(u).contains_key(k) <==> m.contains_key(k) by {
        if exists|j: int| 0 <= j < s.len() && s[j].0 == k {
            let j = choose|j: int| 0 <= j < s.len() && s[j].0 == k;
            assert(u[j].0 == k);
        }
        if exists|j: int| 0 <= j < u.len() && u[j].0 == k {
            let j = choose|j: int| 0 <= j < u.len() && u[j].0 == k;
            assert(s[j].0 == k);
        }
    }
    assert forall|k: PipelineCacheKey| #[trigger] entries_map(u).contains_key(k) implies entries_map(u)[k] == m[k] by {
        let j = choose|j: int| 0 <= j < u.len() && u[j].0 == k;
        assert(entries_map(u)[u[j].0] == u[j].1);
        if j != i {
            assert(entries_map(s)[s[j].0] == s[j].1);
        }
    }
    assert(entries_map(u) =~= m);
}

/// The keys of the devices other than `device_id`.
pub open spec fn other_devices(device_id: u64) -> Set<PipelineCacheKey> {
    Set::new(|k: PipelineCacheKey| k.device_id != device_id)
}

/// The entries not built on the device `device_id`, in order.
pub open spec fn kept_entries<P>(s: Seq<(PipelineCacheKey, P)>, device_id: u64) -> Seq<(PipelineCacheKey, P)>
    decreases s.len(),
{
    if s.len() == 0 {
        Seq::empty()
    } else {
        let t = kept_entries(s.drop_last(), device_id);
        if s.last().0.device_id != device_id {
            t.push(s.last())
        } else {
            t
        }
    }
}

/// Keeping the entries of the other devices keeps their keys unique and
/// gives the map restricted to the other devices.
proof fn lemma_kept_entries<P>(s: Seq<(PipelineCacheKey, P)>, device_id: u64)
    requires
        keys_unique(s),
    ensures
        keys_unique(kept_entries(s, device_id)),
        entries_map(kept_entries(s, device_id)) == entries_map(s).restrict(other_devices(device_id)),
        forall|j: int|
            0 <= j < kept_entries(s, device_id).len() ==> exists|i: int|
                0 <= i < s.len() && s[i].0 == #[trigger] kept_entries(s, device_id)[j].0,
    decreases s.len(),
{
    if s.len() > 0 {
        let t = s.drop_last();
        assert(keys_unique(t)) by {
            assert forall|i: int, j: int| 0 <= i < j < t.len() implies #[trigger] t[i].0 != #[trigger] t[j].0 by {
                assert(t[i] == s[i] && t[j] == s[j]);
            }
        }
        lemma_kept_entries(t, device_id);
        let kt = kept_entries(t, device_id);
        let ks = kept_entries(s, device_id);
        assert forall|j: int| 0 <= j < ks.len() implies exists|i: int|
            0 <= i < s.len() && s[i].0 == #[trigger] ks[j].0 by {
            if j < kt.len() {
                assert(ks[j] == kt[j]);
                let i = choose|i: int| 0 <= i < t.len() && t[i].0 == kt[j].0;
                assert(s[i] == t[i]);
            } else {
                assert(s[s.len() - 1].0 == ks[j].0);
            }
        }
        assert forall|a: int, b: int| 0 <= a < b < ks.len() implies #[trigger] ks[a].0 != #[trigger] ks[b].0 by {
            assert(ks[a] == kt[a]);
            if b < kt.len() {
                assert(ks[b] == kt[b]);
            } else {
                let i = choose|i: int| 0 <= i < t.len() && t[i].0 == kt[a].0;
                assert(s[i] == t[i]);
                assert(ks[b] == s.last());
            }
        }
        let f = other_devices(device_id);
        if s.last().0.device_id != device_id {
            assert(ks.drop_last() =~= kt);
            assert(ks.last() == s.last());
            assert(entries_map(ks) == entries_map(kt).insert(s.last().0, s.last().1));
            assert(entries_map(s).restrict(f) =~= entries_map(t).restrict(f).insert(s.last().0, s.last().1));
        } else {
            assert(entries_map(s).restrict(f) =~= entries_map(t).restrict(f));
        }
    } else {
        assert(entries_map(kept_entries(s, device_id)) =~= entries_map(s).restrict(other_devices(device_id)));
    }
}

impl<P> PipelineCache<P> {
    /// The cached pipelines.
    pub closed spec fn map(&self) -> Map<PipelineCacheKey, P> {
        entries_map(self.entries@)
    }

    /// The cache's invariant: no key is listed twice.
    pub closed spec fn wf(&self) -> bool {
        keys_unique(self.entries@)
    }

    /// An empty cache.
    pub fn new() -> (r: PipelineCache<P>)
        ensures
            r.wf(),
            r.map() == Map::<PipelineCacheKey, P>::empty(),
    {
        PipelineCache { entries: Vec::new() }
    }

    fn find(&self, key: &PipelineCacheKey) -> (r: Option<usize>)
        ensures
            match r {
                Some(i) => i < self.entries@.len() && self.entries@[i as int].0 == *key,
                None => forall|i: int| 0 <= i < self.entries@.len() ==> self.entries@[i].0 != *key,
            },
    {
        let n = self.entries.len();
        let mut i: usize = 0;
        while i < n
            invariant
                n == self.entries@.len(),
                i <= n,
                forall|j: int| 0 <= j < i ==> self.entries@[j].0 != *key,
            decreases n - i,
        {
            if self.entries[i].0 == *key {
                return Some(i);
            }
            i = i + 1;
        }
        None
    }

    /// The pipeline cached under `key`, if any.
    pub fn get(&self, key: &PipelineCacheKey) -> (r: Option<&P>)
        requires
            self.wf(),
        ensures
            match r {
                Some(p) => self.map().contains_key(*key) && *p == self.map()[*key],
                None => !self.map().contains_key(*key),
            },
    {
        proof {
            lemma_entries_map(self.entries@);
        }
        match self.find(key) {
            Some(i) => Some(&self.entries[i].1),
            None => None,
        }
    }

    /// Caches a pipeline under `key`, replacing any cached before.
    pub fn insert(&mut self, key: PipelineCacheKey, pipeline: P)
        requires
            old(self).wf(),
        ensures
            final(self).wf(),
            final(self).map() == old(self).map().insert(key, pipeline),
    {
        let ghost s = self.entries@;
        match self.find(&key) {
            Some(i) => {
                proof {
                    lemma_entries_map_update(s, i as int, pipeline);
                }
                self.entries.set(i, (key, pipeline));
            },
            None => {
                self.entries.push((key, pipeline));
                proof {
                    let u = self.entries@;
                    assert(u.drop_last() =~= s);
                    assert forall|a: int, b: int| 0 <= a < b < u.len() implies #[trigger] u[a].0 != #[trigger] u[b].0 by {
                        if b < s.len() {
                            assert(u[a] == s[a] && u[b] == s[b]);
                        } else {
                            assert(u[a] == s[a]);
                        }
                    }
                }
            },
        }
    }

    /// Drops every cached pipeline.
    pub fn clear(&mut self)
        ensures
            final(self).wf(),
            final(self).map() == Map::<PipelineCacheKey, P>::empty(),
    {
        self.entries.clear();
    }

    /// Drops the pipelines built on the device `device_id`, keeping all others.
    pub fn clear_device(&mut self, device_id: u64)
        requires
            old(self).wf(),
        ensures
            final(self).wf(),
            final(self).map() == old(self).map().restrict(other_devices(device_id)),
    {
        let ghost s = self.entries@;
        let mut rest: Vec<(PipelineCacheKey, P)> = Vec::new();
        std::mem::swap(&mut rest, &mut self.entries);
        let ghost mut k: int = 0;
        assert(s.take(0) =~= Seq::<(PipelineCacheKey, P)>::empty());
        assert(s.skip(0) =~= s);
        while rest.len() > 0
            invariant
                0 <= k <= s.len(),
                rest@ == s.skip(k),
                self.entries@ == kept_entries(s.take(k), device_id),
            decreases rest@.len(),
        {
            let e = rest.remove(0);
            proof {
                assert(e == s[k]);
                assert(rest@ =~= s.skip(k + 1));
                assert(s.take(k + 1).drop_last() =~= s.take(k));
                assert(s.take(k + 1).last() == e);
            }
            if e.0.device_id != device_id {
                self.entries.push(e);
            }
            proof {
                k = k + 1;
            }
        }
        proof {
            assert(k == s.len());
            assert(s.take(k) =~= s);
            lemma_kept_entries(s, device_id);
        }
    }

    /// Number of cached pipelines.
    pub fn len(&self) -> (r: usize)
        requires
            self.wf(),
        ensures
            r == self.map().len(),
    {
        proof {
            lemma_entries_map_len(self.entries@);
        }
        self.entries.len()
    }
}

/// With unique keys, the map has one key per entry.
proof fn lemma_entries_map_len<P>(s: Seq<(PipelineCacheKey, P)>)
    requires
        keys_unique(s),
    ensures
        entries_map(s).len() == s.len(),
    decreases s.len(),
{
    if s.len() > 0 {
        let t = s.drop_last();
        assert(keys_unique(t)) by {
            assert forall|i: int, j: int| 0 <= i < j < t.len() implies #[trigger] t[i].0 != #[trigger] t[j].0 by {
                assert(t[i] == s[i] && t[j] == s[j]);
            }
        }
        lemma_entries_map_len(t);
        lemma_entries_map(t);
        if entries_map(t).contains_key(s.last().0) {
            let i = choose|i: int| 0 <= i < t.len() && t[i].0 == s.last().0;
            assert(s[i].0 == s[s.len() - 1].0);
        }
    }
}

impl MoonPipeline {
    /// Drops every cached pipeline.
    pub fn clear_pipeline_cache<P>(cache: &mut PipelineCache<P>)
        ensures
            final(cache).wf(),
            final(cache).map() == Map::<PipelineCacheKey, P>::empty(),
    {
        cache.clear();
    }

    /// Drops the cached pipelines of one device, keeping those of the others.
    pub fn clear_pipeline_cache_for_device<P>(cache: &mut PipelineCache<P>, device_id: u64)
        requires
            old(cache).wf(),
        ensures
            final(cache).wf(),
            final(cache).map() == old(cache).map().restrict(other_devices(device_id)),
    {
        cache.clear_device(device_id);
    }
}

/// A read gives back what the last write wrote: after caching a pipeline
/// under a key, a lookup of that key finds it, and a lookup of any other key
/// finds what it found before.
pub proof fn law_cache_read_after_write<P>(m: Map<PipelineCacheKey, P>, key: PipelineCacheKey, p: P, other: PipelineCacheKey)
    requires
        other != key,
    ensures
        m.insert(key, p).contains_key(key),
        m.insert(key, p)[key] == p,
        m.insert(key, p).contains_key(other) == m.contains_key(other),
        m.contains_key(other) ==> m.insert(key, p)[other] == m[other],
{
}

/// Clearing one device's pipelines leaves none of that device and every
/// pipeline of the other devices.
pub proof fn law_device_clear_is_exact<P>(m: Map<PipelineCacheKey, P>, device_id: u64, k: PipelineCacheKey)
    ensures
        ({
            let r = m.restrict(other_devices(device_id));
            &&& (r.contains_key(k) <==> (m.contains_key(k) && k.device_id != device_id))
            &&& r.contains_key(k) ==> r[k] == m[k]
        }),
{
}

} // verus!
