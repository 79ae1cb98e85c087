//! Process-wide controller pool: a map from configuration fingerprints to
//! shared, reference-counted controller handles.
//!
//! Each entry pairs a fingerprint with a handle, a reference count and the
//! set of owning instance ids. `get` hands out an existing handle and raises
//! the count; `insert` registers a freshly created handle at count one;
//! `release` lowers the count and hands the handle back to the caller — who
//! performs the single native destroy call — exactly when the count crosses
//! zero. The reverse lookup used for event fan-out is answered from the same
//! table, keyed by the handle address.

use vstd::prelude::*;

use crate::bytes::{bytes_eq, copy_bytes};

verus! {

/// A pooled controller: the handle address, its reference count, and the
/// ids of the instances that share it.
pub struct PooledController {
    /// Address of the native controller handle.
    pub controller: u64,
    /// How many `get`/`insert` acquisitions are not yet released.
    pub ref_count: usize,
    /// Ids of the owning instances, each held once.
    pub instance_ids: Vec<Vec<u8>>,
}

/// Abstract value of a pooled controller.
pub struct PooledView {
    pub controller: u64,
    pub ref_count: nat,
    pub owners: Seq<Seq<u8>>,
}

/// True when `id` is among the owners `s`.
pub open spec fn has_owner(s: Seq<Seq<u8>>, id: Seq<u8>) -> bool {
    exists|i: int| 0 <= i < s.len() && s[i] == id
}

/// The owner list after an acquisition: unchanged when `id` is already
/// present, appended otherwise.
pub open spec fn add_owner(s: Seq<Seq<u8>>, id: Seq<u8>) -> Seq<Seq<u8>> {
    if has_owner(s, id) {
        s
    } else {
        s + seq![id]
    }
}

/// The owner list with every occurrence of `id` removed.
pub open spec fn remove_owner(s: Seq<Seq<u8>>, id: Seq<u8>) -> Seq<Seq<u8>>
    decreases s.len(),
{
    if s.len() == 0 {
        Seq::empty()
    } else {
        let rest = remove_owner(s.drop_last(), id);
        if s.last() == id {
            rest
        } else {
            rest + seq![s.last()]
        }
    }
}

impl PooledController {
    /// Abstract value of this pooled controller.
    pub open spec fn view_spec(&self) -> PooledView {
        PooledView {
            controller: self.controller,
            ref_count: self.ref_count as nat,
            owners: self.instance_ids.deep_view(),
        }
    }

    /// A fresh pooled controller: count one, no recorded owner yet.
    pub fn new(controller: u64) -> (r: Self)
        ensures
            r.controller == controller,
            r.ref_count == 1,
            r.instance_ids.deep_view() == Seq::<Seq<u8>>::empty(),
    {
        let r = PooledController { controller, ref_count: 1, instance_ids: Vec::new() };
        assert(r.instance_ids.deep_view() =~= Seq::<Seq<u8>>::empty());
        r
    }

    /// Tests whether `id` is recorded as an owner.
    fn contains_id(&self, id: &Vec<u8>) -> (r: bool)
        ensures
            r == has_owner(self.instance_ids.deep_view(), id@),
    {
        let mut i: usize = 0;
        while i < self.instance_ids.len()
            invariant
                0 <= i <= self.instance_ids.len(),
                forall|j: int| 0 <= j < i ==> self.instance_ids.deep_view()[j] != id@,
            decreases self.instance_ids.len() - i,
        {
            assert(self.instance_ids.deep_view()[i as int] == self.instance_ids[i as int]@);
            if bytes_eq(&self.instance_ids[i], id) {
                return true;
            }
            i = i + 1;
        }
        false
    }

    /// Raises the reference count by one and records `id` as an owner.
    /// Recording is idempotent; the count increment is not — every
    /// acquisition must be paired with exactly one later release.
    pub fn acquire(&mut self, instance_id: &Vec<u8>)
        requires
            old(self).ref_count < usize::MAX,
        ensures
            final(self).controller == old(self).controller,
            final(self).ref_count == old(self).ref_count + 1,
            final(self).instance_ids.deep_view() == add_owner(
                old(self).instance_ids.deep_view(),
                instance_id@,
            ),
    {
        self.ref_count = self.ref_count + 1;
        let present = self.contains_id(instance_id);
        if !present {
            let id = copy_bytes(instance_id);
            self.instance_ids.push(id);
            assert(self.instance_ids.deep_view() =~~= old(self).instance_ids.deep_view() + seq![
                instance_id@,
            ]);
        }
    }

    /// Lowers the reference count by one, removes `id` from the owners, and
    /// reports whether this release was the last one — the zero crossing at
    /// which the caller must perform the single native destroy.
    pub fn release(&mut self, instance_id: &Vec<u8>) -> (last: bool)
        requires
            old(self).ref_count >= 1,
        ensures
            final(self).controller == old(self).controller,
            final(self).ref_count == old(self).ref_count - 1,
            final(self).instance_ids.deep_view() == remove_owner(
                old(self).instance_ids.deep_view(),
                instance_id@,
            ),
            last == (old(self).ref_count == 1),
    {
        let mut kept: Vec<Vec<u8>> = Vec::new();
        let ids = &self.instance_ids;
        let mut i: usize = 0;
        while i < ids.len()
            invariant
                0 <= i <= ids.len(),
                kept.deep_view() =~= remove_owner(ids.deep_view().take(i as int), instance_id@),
            decreases ids.len() - i,
        {
            assert(ids.deep_view().take(i + 1).drop_last() =~= ids.deep_view().take(i as int));
            assert(ids.deep_view().take(i + 1).last() == ids[i as int]@);
            if !bytes_eq(&ids[i], instance_id) {
                let id = copy_bytes(&ids[i]);
                kept.push(id);
            }
            i = i + 1;
        }
        assert(ids.deep_view().take(ids.deep_view().len() as int) =~= ids.deep_view());
        self.instance_ids = kept;
        let last = self.ref_count == 1;
        self.ref_count = self.ref_count - 1;
        last
    }

    /// The current reference count.
    pub fn count(&self) -> (r: usize)
        ensures
            r == self.ref_count,
    {
        self.ref_count
    }
}

/// One pool entry: a fingerprint and its pooled controller.
pub struct PoolEntry {
    pub key: Vec<u8>,
    pub pooled: PooledController,
}

/// The abstract map a pool table denotes: fingerprint to pooled view.
pub open spec fn pool_map_of(s: Seq<PoolEntry>) -> Map<Seq<u8>, PooledView>
    decreases s.len(),
{
    if s.len() == 0 {
        Map::empty()
    } else {
        pool_map_of(s.drop_last()).insert(s.last().key@, s.last().pooled.view_spec())
    }
}

/// True when no two entries share a fingerprint.
pub open spec fn unique_keys(s: Seq<PoolEntry>) -> bool {
    forall|i: int, j: int|
        0 <= i < j < s.len() ==> #[trigger] s[i].key@ != #[trigger] s[j].key@
}

/// True when no two entries share a handle address.
pub open spec fn unique_handles(s: Seq<PoolEntry>) -> bool {
    forall|i: int, j: int|
        0 <= i < j < s.len() ==> #[trigger] s[i].pooled.controller != #[trigger] s[j].pooled.controller
}

/// Every entry in the table is keyed in the map with its own view, and the
/// map holds nothing else.
proof fn lemma_pool_map(s: Seq<PoolEntry>)
    requires
        unique_keys(s),
    ensures
        forall|i: int|
            0 <= i < s.len() ==> pool_map_of(s).contains_key(#[trigger] s[i].key@)
                && pool_map_of(s)[s[i].key@] == s[i].pooled.view_spec(),
        forall|k: Seq<u8>|
            #[trigger] pool_map_of(s).contains_key(k) ==> exists|i: int|
                0 <= i < s.len() && #[trigger] s[i].key@ == k,
    decreases s.len(),
{
    if s.len() > 0 {
        let prefix = s.drop_last();
        assert(unique_keys(prefix));
        lemma_pool_map(prefix);
        assert forall|i: int| 0 <= i < s.len() implies pool_map_of(s).contains_key(
            #[trigger] s[i].key@,
        ) && pool_map_of(s)[s[i].key@] == s[i].pooled.view_spec() by {
            if i < s.len() - 1 {
                assert(s[i] == prefix[i]);
                assert(s[i].key@ != s[s.len() - 1].key@);
            }
        }
        assert forall|k: Seq<u8>| #[trigger] pool_map_of(s).contains_key(k) implies exists|i: int|
            0 <= i < s.len() && #[trigger] s[i].key@ == k by {
            if k == s.last().key@ {
                assert(s[s.len() - 1].key@ == k);
            } else {
                assert(pool_map_of(prefix).contains_key(k));
                let i = choose|i: int| 0 <= i < prefix.len() && #[trigger] prefix[i].key@ == k;
                assert(s[i].key@ == k);
            }
        }
    }
}

/// Updating an entry in place updates the map at its key.
proof fn lemma_pool_map_update(s: Seq<PoolEntry>, i: int, e: PoolEntry)
    requires
        unique_keys(s),
        0 <= i < s.len(),
        e.key@ == s[i].key@,
    ensures
        pool_map_of(s.update(i, e)) == pool_map_of(s).insert(e.key@, e.pooled.view_spec()),
    decreases s.len(),
{
    let t = s.update(i, e);
    let prefix = s.drop_last();
    assert(unique_keys(prefix));
    if i == s.len() - 1 {
        assert(t.drop_last() =~= prefix);
        assert(t.last() == e);
        assert(pool_map_of(t) == pool_map_of(prefix).insert(e.key@, e.pooled.view_spec()));
        assert(pool_map_of(s).insert(e.key@, e.pooled.view_spec()) =~= pool_map_of(prefix).insert(
            e.key@,
            e.pooled.view_spec(),
        ));
    } else {
        assert(t.drop_last() =~= prefix.update(i, e));
        assert(t.last() == s.last());
        lemma_pool_map_update(prefix, i, e);
        assert(s[i].key@ != s.last().key@);
        assert(pool_map_of(t) == pool_map_of(prefix).insert(e.key@, e.pooled.view_spec()).insert(
            s.last().key@,
            s.last().pooled.view_spec(),
        ));
        assert(pool_map_of(prefix).insert(e.key@, e.pooled.view_spec()).insert(
            s.last().key@,
            s.last().pooled.view_spec(),
        ) =~= pool_map_of(s).insert(e.key@, e.pooled.view_spec()));
    }
}

/// Removing an entry removes its key from the map.
proof fn lemma_pool_map_remove(s: Seq<PoolEntry>, i: int)
    requires
        unique_keys(s),
        0 <= i < s.len(),
    ensures
        pool_map_of(s.remove(i)) == pool_map_of(s).remove(s[i].key@),
    decreases s.len(),
{
    let t = s.remove(i);
    let prefix = s.drop_last();
    assert(unique_keys(prefix));
    lemma_pool_map(s);
    if i == s.len() - 1 {
        assert(t =~= prefix);
        lemma_pool_map(prefix);
        assert forall|k: Seq<u8>| #[trigger] pool_map_of(prefix).contains_key(k) implies k != s[
            i
        ].key@ by {
            let j = choose|j: int| 0 <= j < prefix.len() && #[trigger] prefix[j].key@ == k;
            assert(s[j].key@ != s[i].key@);
        }
        assert(pool_map_of(t) =~= pool_map_of(s).remove(s[i].key@));
    } else {
        assert(t.drop_last() =~= prefix.remove(i));
        assert(t.last() == s.last());
        lemma_pool_map_remove(prefix, i);
        assert(pool_map_of(t) == pool_map_of(prefix).remove(s[i].key@).insert(
            s.last().key@,
            s.last().pooled.view_spec(),
        ));
        assert(s[i].key@ != s.last().key@);
        assert(pool_map_of(prefix).remove(s[i].key@).insert(
            s.last().key@,
            s.last().pooled.view_spec(),
        ) =~= pool_map_of(s).remove(s[i].key@));
    }
}

/// The controller pool: fingerprint-keyed table of shared handles.
pub struct ControllerPool {
    /// The entry table; contracts speak of it through `pmap`.
    pub entries: Vec<PoolEntry>,
}

impl ControllerPool {
    /// The abstract map this pool denotes.
    pub open spec fn pmap(&self) -> Map<Seq<u8>, PooledView> {
        pool_map_of(self.entries@)
    }

    /// Well-formedness: fingerprints and handle addresses are unique, and
    /// every held entry has at least one reference — the pool never holds,
    /// and so never yields, a handle at reference count zero.
    pub open spec fn wf(&self) -> bool {
        &&& unique_keys(self.entries@)
        &&& unique_handles(self.entries@)
        &&& forall|i: int|
            0 <= i < self.entries@.len() ==> #[trigger] self.entries@[i].pooled.ref_count >= 1
    }

    /// An empty pool.
    pub fn new() -> (r: Self)
        ensures
            r.wf(),
            r.pmap() == Map::<Seq<u8>, PooledView>::empty(),
    {
        ControllerPool { entries: Vec::new() }
    }

    /// Index of the entry holding `key`, if any.
    fn find_index(&self, key: &Vec<u8>) -> (r: Option<usize>)
        ensures
            r matches Some(i) ==> i < self.entries@.len() && self.entries@[i as int].key@ == key@,
            r is None ==> forall|i: int|
                0 <= i < self.entries@.len() ==> #[trigger] self.entries@[i].key@ != key@,
    {
        let mut i: usize = 0;
        while i < self.entries.len()
            invariant
                0 <= i <= self.entries.len(),
                forall|j: int| 0 <= j < i ==> #[trigger] self.entries@[j].key@ != key@,
            decreases self.entries.len() - i,
        {
            if bytes_eq(&self.entries[i].key, key) {
                return Some(i);
            }
            i = i + 1;
        }
        None
    }

    /// Looks up `key`. When an entry exists its reference count rises by
    /// one, `instance_id` joins its owners, and the shared handle is
    /// returned; the handle returned this way always carries at least one
    /// prior reference. When no entry exists the pool is unchanged and the
    /// caller must create a handle and `insert` it.
    pub fn get(&mut self, key: &Vec<u8>, instance_id: &Vec<u8>) -> (r: Option<u64>)
        requires
            old(self).wf(),
            old(self).pmap().contains_key(key@) ==> old(self).pmap()[key@].ref_count < usize::MAX,
        ensures
            final(self).wf(),
            r is Some <==> old(self).pmap().contains_key(key@),
            r matches Some(h) ==> {
                &&& h == old(self).pmap()[key@].controller
                &&& old(self).pmap()[key@].ref_count >= 1
                &&& final(self).pmap() == old(self).pmap().insert(
                    key@,
                    PooledView {
                        controller: old(self).pmap()[key@].controller,
                        ref_count: old(self).pmap()[key@].ref_count + 1,
                        owners: add_owner(old(self).pmap()[key@].owners, instance_id@),
                    },
                )
            },
            r is None ==> final(self).pmap() == old(self).pmap(),
    {
        proof {
            lemma_pool_map(self.entries@);
        }
        match self.find_index(key) {
            Some(i) => {
                let mut e = self.entries.remove(i);
                proof {
                    lemma_pool_map(old(self).entries@);
                }
                let h = e.pooled.controller;
                e.pooled.acquire(instance_id);
                self.entries.insert(i, e);
                proof {
                    assert(self.entries@ =~= old(self).entries@.update(i as int, self.entries@[
                        i as int
                    ]));
                    lemma_pool_map_update(old(self).entries@, i as int, self.entries@[i as int]);
                }
                Some(h)
            },
            None => {
                proof {
                    lemma_pool_map(self.entries@);
                    if self.pmap().contains_key(key@) {
                        let i = choose|i: int|
                            0 <= i < self.entries@.len() && #[trigger] self.entries@[i].key@
                                == key@;
                        assert(false);
                    }
                }
                None
            },
        }
    }

    /// Registers a freshly created handle under `key` with reference count
    /// one and `instance_id` as its sole owner. The caller creates an entry
    /// only after `get` found none, and a native handle is registered only
    /// once, so the key and the address are new to the pool.
    pub fn insert(&mut self, key: Vec<u8>, controller: u64, instance_id: &Vec<u8>)
        requires
            old(self).wf(),
            !old(self).pmap().contains_key(key@),
            forall|k: Seq<u8>|
                old(self).pmap().contains_key(k) ==> #[trigger] old(self).pmap()[k].controller
                    != controller,
        ensures
            final(self).wf(),
            final(self).pmap() == old(self).pmap().insert(
                key@,
                PooledView { controller, ref_count: 1, owners: seq![instance_id@] },
            ),
    {
        proof {
            lemma_pool_map(self.entries@);
        }
        let mut pooled = PooledController::new(controller);
        let id = copy_bytes(instance_id);
        pooled.instance_ids.push(id);
        assert(pooled.instance_ids.deep_view() =~~= seq![instance_id@]);
        let entry = PoolEntry { key, pooled };
        self.entries.push(entry);
        proof {
            assert(self.entries@.drop_last() =~= old(self).entries@);
            assert forall|i: int, j: int| 0 <= i < j < self.entries@.len() implies #[trigger] self
                .entries@[i].key@ != #[trigger] self.entries@[j].key@ by {
                if j == self.entries@.len() - 1 {
                    assert(old(self).pmap().contains_key(old(self).entries@[i].key@));
                }
            }
            assert forall|i: int, j: int| 0 <= i < j < self.entries@.len() implies #[trigger] self
                .entries@[i].pooled.controller != #[trigger] self.entries@[j].pooled.controller by {
                if j == self.entries@.len() - 1 {
                    let k = old(self).entries@[i].key@;
                    assert(old(self).pmap().contains_key(k));
                    assert(old(self).pmap()[k] == old(self).entries@[i].pooled.view_spec());
                    assert(old(self).pmap()[k].controller != controller);
                }
            }
        }
    }

    /// Removes `instance_id` from the owners of `key` and lowers the
    /// reference count. At the zero crossing the entry leaves the pool and
    /// the handle is returned so the caller performs the one native destroy
    /// call; above zero nothing is returned and the handle stays alive. An
    /// unknown key is a no-op.
    pub fn release(&mut self, key: &Vec<u8>, instance_id: &Vec<u8>) -> (r: Option<u64>)
        requires
            old(self).wf(),
        ensures
            final(self).wf(),
            !old(self).pmap().contains_key(key@) ==> r is None && final(self).pmap() == old(
                self,
            ).pmap(),
            old(self).pmap().contains_key(key@) && old(self).pmap()[key@].ref_count == 1 ==> r
                == Some(old(self).pmap()[key@].controller) && final(self).pmap() == old(
                self,
            ).pmap().remove(key@),
            old(self).pmap().contains_key(key@) && old(self).pmap()[key@].ref_count > 1 ==> r
                is None && final(self).pmap() == old(self).pmap().insert(
                key@,
                PooledView {
                    controller: old(self).pmap()[key@].controller,
                    ref_count: (old(self).pmap()[key@].ref_count - 1) as nat,
                    owners: remove_owner(old(self).pmap()[key@].owners, instance_id@),
                },
            ),
    {
        proof {
            lemma_pool_map(self.entries@);
        }
        match self.find_index(key) {
            Some(i) => {
                let mut e = self.entries.remove(i);
                let last = e.pooled.release(instance_id);
                if last {
                    proof {
                        lemma_pool_map_remove(old(self).entries@, i as int);
                        assert(self.entries@ =~= old(self).entries@.remove(i as int));
                    }
                    Some(e.pooled.controller)
                } else {
                    self.entries.insert(i, e);
                    proof {
                        assert(self.entries@ =~= old(self).entries@.update(i as int, self.entries@[
                            i as int
                        ]));
                        lemma_pool_map_update(old(self).entries@, i as int, self.entries@[
                            i as int
                        ]);
                    }
                    None
                }
            },
            None => {
                proof {
                    if self.pmap().contains_key(key@) {
                        let i = choose|i: int|
                            0 <= i < self.entries@.len() && #[trigger] self.entries@[i].key@
                                == key@;
                        assert(false);
                    }
                }
                None
            },
        }
    }

    /// Every pooled entry carries at least one reference.
    pub proof fn lemma_counts_positive(&self)
        requires
            self.wf(),
        ensures
            forall|k: Seq<u8>|
                #[trigger] self.pmap().contains_key(k) ==> self.pmap()[k].ref_count >= 1,
    {
        lemma_pool_map(self.entries@);
        assert forall|k: Seq<u8>| #[trigger] self.pmap().contains_key(k) implies self.pmap()[
            k
        ].ref_count >= 1 by {
            let i = choose|i: int|
                0 <= i < self.entries@.len() && #[trigger] self.entries@[i].key@ == k;
            assert(self.pmap()[k] == self.entries@[i].pooled.view_spec());
        }
    }

    /// The fingerprint some entry owned by `instance_id` is pooled under,
    /// if any.
    pub fn find_key_by_instance(&self, instance_id: &Vec<u8>) -> (r: Option<Vec<u8>>)
        requires
            self.wf(),
        ensures
            r matches Some(k) ==> self.pmap().contains_key(k@) && has_owner(
                self.pmap()[k@].owners,
                instance_id@,
            ),
            r is None ==> forall|k: Seq<u8>|
                #[trigger] self.pmap().contains_key(k) ==> !has_owner(
                    self.pmap()[k].owners,
                    instance_id@,
                ),
    {
        proof {
            lemma_pool_map(self.entries@);
        }
        let mut i: usize = 0;
        while i < self.entries.len()
            invariant
                0 <= i <= self.entries.len(),
                self.wf(),
                forall|j: int|
                    0 <= j < i ==> !has_owner(
                        #[trigger] self.entries@[j].pooled.instance_ids.deep_view(),
                        instance_id@,
                    ),
            decreases self.entries.len() - i,
        {
            if self.entries[i].pooled.contains_id(instance_id) {
                let k = copy_bytes(&self.entries[i].key);
                proof {
                    lemma_pool_map(self.entries@);
                }
                return Some(k);
            }
            i = i + 1;
        }
        proof {
            lemma_pool_map(self.entries@);
            assert forall|k: Seq<u8>| #[trigger] self.pmap().contains_key(k) implies !has_owner(
                self.pmap()[k].owners,
                instance_id@,
            ) by {
                let j = choose|j: int|
                    0 <= j < self.entries@.len() && #[trigger] self.entries@[j].key@ == k;
                assert(self.pmap()[k] == self.entries@[j].pooled.view_spec());
            }
        }
        None
    }

    /// The ids of the instances currently sharing the controller whose
    /// handle address is `ptr` — the fan-out set for a callback event that
    /// arrives with just a raw handle. Empty when no pooled entry holds that
    /// address.
    pub fn find_instances_by_controller_ptr(&self, ptr: u64) -> (r: Vec<Vec<u8>>)
        requires
            self.wf(),
        ensures
            forall|k: Seq<u8>|
                #[trigger] self.pmap().contains_key(k) && self.pmap()[k].controller == ptr
                    ==> r.deep_view() == self.pmap()[k].owners,
            (forall|k: Seq<u8>|
                #[trigger] self.pmap().contains_key(k) ==> self.pmap()[k].controller != ptr) ==> r
                .deep_view() == Seq::<Seq<u8>>::empty(),
    {
        proof {
            lemma_pool_map(self.entries@);
        }
        let mut i: usize = 0;
        while i < self.entries.len()
            invariant
                0 <= i <= self.entries.len(),
                self.wf(),
                forall|j: int| 0 <= j < i ==> #[trigger] self.entries@[j].pooled.controller != ptr,
            decreases self.entries.len() - i,
        {
            if self.entries[i].pooled.controller == ptr {
                let ids = &self.entries[i].pooled.instance_ids;
                let mut r: Vec<Vec<u8>> = Vec::new();
                let mut j: usize = 0;
                while j < ids.len()
                    invariant
                        0 <= j <= ids.len(),
                        r.deep_view() =~~= ids.deep_view().take(j as int),
                    decreases ids.len() - j,
                {
                    let id = copy_bytes(&ids[j]);
                    r.push(id);
                    assert(r.deep_view() =~~= ids.deep_view().take(j + 1));
                    j = j + 1;
                }
                assert(r.deep_view() =~~= ids.deep_view());
                proof {
                    lemma_pool_map(self.entries@);
                    assert forall|k: Seq<u8>|
                        #[trigger] self.pmap().contains_key(k) && self.pmap()[k].controller
                            == ptr implies r.deep_view() == self.pmap()[k].owners by {
                        let j2 = choose|j2: int|
                            0 <= j2 < self.entries@.len() && #[trigger] self.entries@[j2].key@
                                == k;
                        assert(self.pmap()[k] == self.entries@[j2].pooled.view_spec());
                        if j2 != i as int {
                            assert(self.entries@[j2].pooled.controller != self.entries@[
                                i as int
                            ].pooled.controller);
                        }
                    }
                    assert(self.pmap().contains_key(self.entries@[i as int].key@));
                    assert(self.pmap()[self.entries@[i as int].key@].controller == ptr);
                }
                return r;
            }
            i = i + 1;
        }
        let r: Vec<Vec<u8>> = Vec::new();
        proof {
            assert(r.deep_view() =~= Seq::<Seq<u8>>::empty());
            assert forall|k: Seq<u8>| #[trigger] self.pmap().contains_key(k) implies self.pmap()[
                k
            ].controller != ptr by {
                let j = choose|j: int|
                    0 <= j < self.entries@.len() && #[trigger] self.entries@[j].key@ == k;
                assert(self.pmap()[k] == self.entries@[j].pooled.view_spec());
            }
        }
        r
    }
}

/// One operation on a single fingerprint of the pool, as the abstract
/// reference-count model sees it.
pub enum PoolOp {
    /// Acquire an existing entry; yields a handle only when one is present.
    Get,
    /// Register a new handle; the caller inserts only after `Get` found
    /// nothing, so an insert on a present entry is modelled as a no-op.
    Insert,
    /// Release one reference; on the crossing to zero the handle is handed
    /// out for its single native destroy.
    Release,
}

/// Reference count after one operation.
pub open spec fn pool_op_step(count: nat, op: PoolOp) -> nat {
    match op {
        PoolOp::Get => if count > 0 {
            count + 1
        } else {
            count
        },
        PoolOp::Insert => if count == 0 {
            1nat
        } else {
            count
        },
        PoolOp::Release => if count > 0 {
            (count - 1) as nat
        } else {
            count
        },
    }
}

/// Reference count of one fingerprint after a sequence of operations,
/// starting from an absent entry.
pub open spec fn pool_count_after(ops: Seq<PoolOp>) -> nat
    decreases ops.len(),
{
    if ops.len() == 0 {
        0
    } else {
        pool_op_step(pool_count_after(ops.drop_last()), ops.last())
    }
}

/// True when step `i` performs the native destroy: a release that hands the
/// handle back, which happens exactly when the count stood at one.
pub open spec fn pool_destroy_at(ops: Seq<PoolOp>, i: int) -> bool {
    ops[i] is Release && pool_count_after(ops.take(i)) == 1
}

/// True when step `i` crosses zero: the count was positive before and zero
/// after.
pub open spec fn pool_crossing_at(ops: Seq<PoolOp>, i: int) -> bool {
    pool_count_after(ops.take(i)) > 0 && pool_count_after(ops.take(i + 1)) == 0
}

/// Number of native destroy calls over a run.
pub open spec fn pool_destroys(ops: Seq<PoolOp>) -> nat
    decreases ops.len(),
{
    if ops.len() == 0 {
        0
    } else {
        pool_destroys(ops.drop_last()) + if pool_destroy_at(ops, ops.len() - 1) {
            1nat
        } else {
            0nat
        }
    }
}

/// Number of zero crossings over a run.
pub open spec fn pool_crossings(ops: Seq<PoolOp>) -> nat
    decreases ops.len(),
{
    if ops.len() == 0 {
        0
    } else {
        pool_crossings(ops.drop_last()) + if pool_crossing_at(ops, ops.len() - 1) {
            1nat
        } else {
            0nat
        }
    }
}

/// For any sequence of get/insert/release operations on one fingerprint,
/// the number of native destroy calls equals exactly the number of zero
/// crossings of the reference count — never more, never less.
pub proof fn lemma_pool_destroys_eq_crossings(ops: Seq<PoolOp>)
    ensures
        pool_destroys(ops) == pool_crossings(ops),
    decreases ops.len(),
{
    if ops.len() > 0 {
        let prefix = ops.drop_last();
        lemma_pool_destroys_eq_crossings(prefix);
        let i = ops.len() - 1;
        assert(ops.take(i) =~= prefix);
        assert(ops.take(i + 1) =~= ops);
        assert forall|j: int| 0 <= j < prefix.len() implies (pool_destroy_at(ops, j)
            == pool_destroy_at(prefix, j)) && (pool_crossing_at(ops, j) == pool_crossing_at(
            prefix,
            j,
        )) by {
            assert(ops.take(j) =~= prefix.take(j));
            assert(ops.take(j + 1) =~= prefix.take(j + 1));
        }
        lemma_pool_counts_agree(ops, prefix);
    }
}

/// Helper: destroy and crossing tallies only read the prefix they are given.
proof fn lemma_pool_counts_agree(ops: Seq<PoolOp>, prefix: Seq<PoolOp>)
    requires
        prefix == ops.drop_last(),
        ops.len() > 0,
        forall|j: int|
            0 <= j < prefix.len() ==> (#[trigger] pool_destroy_at(ops, j) == pool_destroy_at(
                prefix,
                j,
            )) && (pool_crossing_at(ops, j) == pool_crossing_at(prefix, j)),
        pool_destroys(prefix) == pool_crossings(prefix),
    ensures
        pool_destroys(ops) == pool_crossings(ops),
{
    lemma_pool_tally_congruent(ops, prefix);
    let i = ops.len() - 1;
    assert(ops.take(i) =~= prefix);
    assert(ops.take(i + 1) =~= ops);
    let before = pool_count_after(prefix);
    assert(pool_count_after(ops) == pool_op_step(before, ops.last()));
    if pool_destroy_at(ops, i) {
        assert(pool_crossing_at(ops, i));
    } else {
        assert(!pool_crossing_at(ops, i)) by {
            if ops[i] is Release {
                if before > 1 {
                    assert(pool_count_after(ops) == before - 1);
                } else if before == 0 {
                    assert(pool_count_after(ops) == 0);
                }
            } else if ops[i] is Get {
                if before > 0 {
                    assert(pool_count_after(ops) == before + 1);
                }
            } else {
                assert(pool_count_after(ops) >= 1);
            }
        }
    }
}

/// Helper: equal step verdicts on the common prefix give equal tallies there.
proof fn lemma_pool_tally_congruent(ops: Seq<PoolOp>, prefix: Seq<PoolOp>)
    requires
        prefix == ops.drop_last(),
        ops.len() > 0,
        forall|j: int|
            0 <= j < prefix.len() ==> (#[trigger] pool_destroy_at(ops, j) == pool_destroy_at(
                prefix,
                j,
            )) && (pool_crossing_at(ops, j) == pool_crossing_at(prefix, j)),
    ensures
        pool_destroys(ops) == pool_destroys(prefix) + if pool_destroy_at(ops, ops.len() - 1) {
            1nat
        } else {
            0nat
        },
        pool_crossings(ops) == pool_crossings(prefix) + if pool_crossing_at(ops, ops.len() - 1) {
            1nat
        } else {
            0nat
        },
{
    lemma_pool_tally_prefix(ops, prefix, prefix.len() as int);
}

/// Helper: tallies over the first `n` steps agree when the step verdicts do.
proof fn lemma_pool_tally_prefix(ops: Seq<PoolOp>, prefix: Seq<PoolOp>, n: int)
    requires
        prefix == ops.drop_last(),
        ops.len() > 0,
        0 <= n <= prefix.len(),
        forall|j: int|
            0 <= j < prefix.len() ==> (#[trigger] pool_destroy_at(ops, j) == pool_destroy_at(
                prefix,
                j,
            )) && (pool_crossing_at(ops, j) == pool_crossing_at(prefix, j)),
    ensures
        pool_destroys(ops.take(n)) == pool_destroys(prefix.take(n)),
        pool_crossings(ops.take(n)) == pool_crossings(prefix.take(n)),
        n == prefix.len() ==> pool_destroys(prefix.take(n)) == pool_destroys(prefix)
            && pool_crossings(prefix.take(n)) == pool_crossings(prefix),
    decreases n,
{
    if n == 0 {
        assert(ops.take(0) =~= prefix.take(0));
    } else {
        lemma_pool_tally_prefix(ops, prefix, n - 1);
        assert(ops.take(n).drop_last() =~= ops.take(n - 1));
        assert(prefix.take(n).drop_last() =~= prefix.take(n - 1));
        lemma_pool_step_verdicts_in_prefix(ops, prefix, n - 1);
    }
    if n == prefix.len() {
        assert(prefix.take(n) =~= prefix);
    }
}

/// Helper: a step verdict inside a prefix equals the verdict on the whole.
proof fn lemma_pool_step_verdicts_in_prefix(ops: Seq<PoolOp>, prefix: Seq<PoolOp>, j: int)
    requires
        prefix == ops.drop_last(),
        ops.len() > 0,
        0 <= j < prefix.len(),
    ensures
        pool_destroy_at(ops.take(j + 1), j) == pool_destroy_at(ops, j),
        pool_crossing_at(ops.take(j + 1), j) == pool_crossing_at(ops, j),
        pool_destroy_at(prefix.take(j + 1), j) == pool_destroy_at(prefix, j),
        pool_crossing_at(prefix.take(j + 1), j) == pool_crossing_at(prefix, j),
{
    assert(ops.take(j + 1).take(j) =~= ops.take(j));
    assert(ops.take(j + 1).take(j + 1) =~= ops.take(j + 1));
    assert(prefix.take(j + 1).take(j) =~= prefix.take(j));
    assert(prefix.take(j + 1).take(j + 1) =~= prefix.take(j + 1));
}

} // verus!
