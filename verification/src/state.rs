//! The process-wide container: the instance map, the controller pool, and
//! the discovery caches. Creating an instance is an idempotent insert;
//! destroying one is an idempotent removal that cascades through the fixed
//! teardown order and releases the pooled controller reference.

use vstd::prelude::*;

use crate::bytes::{bytes_eq, copy_bytes};
use crate::errors::MaaError;
use crate::instance::{is_empty_runtime, teardown_spec, InstanceRuntime, TeardownAction};
use crate::pool::{ControllerPool, PooledView};

verus! {

/// A discovered device reachable over a debug-bridge address.
pub struct AdbDevice {
    pub name: String,
    pub adb_path: String,
    pub address: String,
    pub screencap_methods: u64,
    pub input_methods: u64,
    pub config: String,
}

/// A discovered desktop window.
pub struct Win32Window {
    pub handle: u64,
    pub class_name: String,
    pub window_name: String,
}

/// One instance-map entry: the instance id and its runtime.
pub struct InstanceEntry {
    pub id: Vec<u8>,
    pub runtime: InstanceRuntime,
}

/// True when some entry carries `id`.
pub open spec fn has_instance(s: Seq<InstanceEntry>, id: Seq<u8>) -> bool {
    exists|i: int| 0 <= i < s.len() && #[trigger] s[i].id@ == id
}

/// True when no two entries share an id.
pub open spec fn unique_ids(s: Seq<InstanceEntry>) -> bool {
    forall|i: int, j: int| 0 <= i < j < s.len() ==> #[trigger] s[i].id@ != #[trigger] s[j].id@
}

/// The runtime registered under `id`: the last matching entry, which under
/// unique ids is the only one.
pub open spec fn find_instance(s: Seq<InstanceEntry>, id: Seq<u8>) -> Option<InstanceRuntime>
    decreases s.len(),
{
    if s.len() == 0 {
        None
    } else if s.last().id@ == id {
        Some(s.last().runtime)
    } else {
        find_instance(s.drop_last(), id)
    }
}

/// The instance map with every entry named `id` removed.
pub open spec fn remove_instance(s: Seq<InstanceEntry>, id: Seq<u8>) -> Seq<InstanceEntry>
    decreases s.len(),
{
    if s.len() == 0 {
        Seq::empty()
    } else {
        let rest = remove_instance(s.drop_last(), id);
        if s.last().id@ == id {
            rest
        } else {
            rest + seq![s.last()]
        }
    }
}

/// An absent id is found by neither spec.
pub proof fn lemma_find_absent(s: Seq<InstanceEntry>, id: Seq<u8>)
    ensures
        find_instance(s, id) is Some <==> has_instance(s, id),
        !has_instance(s, id) ==> remove_instance(s, id) == s,
    decreases s.len(),
{
    if s.len() > 0 {
        lemma_find_absent(s.drop_last(), id);
        if s.last().id@ == id {
            assert(s[s.len() - 1].id@ == id);
        } else {
            if has_instance(s, id) {
                let i = choose|i: int| 0 <= i < s.len() && #[trigger] s[i].id@ == id;
                assert(s.drop_last()[i] == s[i]);
            }
            if !has_instance(s, id) {
                assert(remove_instance(s, id) =~= s);
            }
        }
        if has_instance(s.drop_last(), id) {
            let i = choose|i: int| 0 <= i < s.len() - 1 && #[trigger] s.drop_last()[i].id@ == id;
            assert(s[i].id@ == id);
        }
    }
}

/// Removing an id removes it and nothing else, and keeps ids unique.
pub proof fn lemma_remove_instance(s: Seq<InstanceEntry>, id: Seq<u8>)
    requires
        unique_ids(s),
    ensures
        unique_ids(remove_instance(s, id)),
        !has_instance(remove_instance(s, id), id),
        forall|other: Seq<u8>|
            other != id ==> (#[trigger] has_instance(remove_instance(s, id), other)
                == has_instance(s, other)),
    decreases s.len(),
{
    if s.len() > 0 {
        let prefix = s.drop_last();
        assert(unique_ids(prefix));
        lemma_remove_instance(prefix, id);
        let r = remove_instance(s, id);
        let rp = remove_instance(prefix, id);
        if s.last().id@ == id {
            assert(r == rp);
            assert forall|other: Seq<u8>| other != id implies (#[trigger] has_instance(r, other)
                == has_instance(s, other)) by {
                if has_instance(s, other) {
                    let i = choose|i: int| 0 <= i < s.len() && #[trigger] s[i].id@ == other;
                    assert(i < s.len() - 1);
                    assert(prefix[i].id@ == other);
                }
            }
        } else {
            assert(r == rp + seq![s.last()]);
            assert(unique_ids(r)) by {
                assert forall|i: int, j: int| 0 <= i < j < r.len() implies #[trigger] r[i].id@
                    != #[trigger] r[j].id@ by {
                    if j < r.len() - 1 {
                        assert(r[i] == rp[i] && r[j] == rp[j]);
                    } else {
                        assert(r[j] == s.last());
                        assert(r[i] == rp[i]);
                        let wi = lemma_remove_sub_elem(prefix, id, i);
                        assert(prefix[wi].id@ != s[s.len() - 1].id@);
                    }
                }
            }
            assert(!has_instance(r, id)) by {
                if has_instance(r, id) {
                    let i = choose|i: int| 0 <= i < r.len() && #[trigger] r[i].id@ == id;
                    if i < r.len() - 1 {
                        assert(rp[i].id@ == id);
                    }
                }
            }
            assert forall|other: Seq<u8>| other != id implies (#[trigger] has_instance(r, other)
                == has_instance(s, other)) by {
                if has_instance(s, other) {
                    let i = choose|i: int| 0 <= i < s.len() && #[trigger] s[i].id@ == other;
                    if i < s.len() - 1 {
                        assert(prefix[i].id@ == other);
                        assert(has_instance(rp, other));
                        let k = choose|k: int| 0 <= k < rp.len() && #[trigger] rp[k].id@ == other;
                        assert(r[k].id@ == other);
                    } else {
                        assert(r[r.len() - 1].id@ == other);
                    }
                }
                if has_instance(r, other) {
                    let i = choose|i: int| 0 <= i < r.len() && #[trigger] r[i].id@ == other;
                    if i < r.len() - 1 {
                        assert(rp[i].id@ == other);
                        let k = lemma_remove_sub_elem(prefix, id, i);
                        assert(prefix[k].id@ == other);
                        assert(s[k].id@ == other);
                    } else {
                        assert(s[s.len() - 1].id@ == other);
                    }
                }
            }
        }
    }
}

/// Picks the witness index in `s` for one element of the removal result.
proof fn lemma_remove_sub_elem(s: Seq<InstanceEntry>, id: Seq<u8>, i: int) -> (j: int)
    requires
        0 <= i < remove_instance(s, id).len(),
    ensures
        0 <= j < s.len(),
        s[j] == remove_instance(s, id)[i],
    decreases s.len(),
{
    let prefix = s.drop_last();
    let r = remove_instance(s, id);
    let rp = remove_instance(prefix, id);
    if s.last().id@ == id {
        let j = lemma_remove_sub_elem(prefix, id, i);
        assert(s[j] == prefix[j]);
        j
    } else {
        if i < r.len() - 1 {
            assert(r[i] == rp[i]);
            let j = lemma_remove_sub_elem(prefix, id, i);
            assert(s[j] == prefix[j]);
            j
        } else {
            assert(r[i] == s.last());
            s.len() - 1
        }
    }
}

/// The process-wide state: library and resource directories, the instance
/// map, the controller pool, and the discovery caches.
pub struct MaaState {
    /// Directory the engine library was loaded from, once initialized.
    pub lib_dir: Option<Vec<u8>>,
    /// Directory resource bundles are loaded from, once set.
    pub resource_dir: Option<Vec<u8>>,
    /// The instance map.
    pub instances: Vec<InstanceEntry>,
    /// The controller pool.
    pub pool: ControllerPool,
    /// Cached device discovery results, shared across instances.
    pub cached_adb_devices: Vec<AdbDevice>,
    /// Cached window discovery results, shared across instances.
    pub cached_win32_windows: Vec<Win32Window>,
}

impl Default for MaaState {
    /// A fresh state: nothing initialized, no instances, an empty pool and
    /// empty caches.
    fn default() -> (r: Self)
        ensures
            r.wf(),
            r.lib_dir is None,
            r.resource_dir is None,
            r.instances@ == Seq::<InstanceEntry>::empty(),
            r.pool.pmap() == Map::<Seq<u8>, PooledView>::empty(),
            r.cached_adb_devices@ == Seq::<AdbDevice>::empty(),
            r.cached_win32_windows@ == Seq::<Win32Window>::empty(),
    {
        MaaState {
            lib_dir: None,
            resource_dir: None,
            instances: Vec::new(),
            pool: ControllerPool::new(),
            cached_adb_devices: Vec::new(),
            cached_win32_windows: Vec::new(),
        }
    }
}

impl MaaState {
    /// Well-formedness: instance ids are unique and the pool is well formed.
    pub open spec fn wf(&self) -> bool {
        unique_ids(self.instances@) && self.pool.wf()
    }

    /// Index of the entry carrying `id`, if any.
    fn find_index(&self, id: &Vec<u8>) -> (r: Option<usize>)
        ensures
            r matches Some(i) ==> i < self.instances@.len() && self.instances@[i as int].id@ == id@,
            r is None ==> !has_instance(self.instances@, id@),
    {
        let mut i: usize = 0;
        while i < self.instances.len()
            invariant
                0 <= i <= self.instances.len(),
                forall|j: int| 0 <= j < i ==> #[trigger] self.instances@[j].id@ != id@,
            decreases self.instances.len() - i,
        {
            if bytes_eq(&self.instances[i].id, id) {
                return Some(i);
            }
            i = i + 1;
        }
        None
    }

    /// Idempotent insert of an empty runtime: an existing instance is left
    /// untouched and the call still succeeds.
    pub fn create_instance(&mut self, instance_id: &Vec<u8>)
        requires
            old(self).wf(),
        ensures
            final(self).wf(),
            has_instance(old(self).instances@, instance_id@) ==> final(self).instances@ == old(self).instances@,
            !has_instance(old(self).instances@, instance_id@) ==> final(self).instances@.len()
                == old(self).instances@.len() + 1 && final(self).instances@.drop_last() == old(self).instances@ && final(self).instances@.last().id@ == instance_id@ && is_empty_runtime(
                final(self).instances@.last().runtime,
            ),
            has_instance(final(self).instances@, instance_id@),
            final(self).pool == old(self).pool,
            final(self).lib_dir == old(self).lib_dir,
            final(self).resource_dir == old(self).resource_dir,
            final(self).cached_adb_devices == old(self).cached_adb_devices,
            final(self).cached_win32_windows == old(self).cached_win32_windows,
    {
        match self.find_index(instance_id) {
            Some(i) => {
                assert(has_instance(self.instances@, instance_id@));
            },
            None => {
                let entry = InstanceEntry {
                    id: copy_bytes(instance_id),
                    runtime: Default::default(),
                };
                self.instances.push(entry);
                proof {
                    assert(self.instances@.drop_last() =~= old(self).instances@);
                    assert(self.instances@[self.instances@.len() - 1].id@ == instance_id@);
                    assert forall|i: int, j: int| 0 <= i < j < self.instances@.len() implies #[trigger] self
                        .instances@[i].id@ != #[trigger] self.instances@[j].id@ by {
                        if j == self.instances@.len() - 1 {
                            assert(old(self).instances@[i].id@ != instance_id@);
                        }
                    }
                }
            },
        }
    }

    /// Idempotent removal of an instance, cascading in the fixed order:
    /// disconnect and destroy the agent client, kill the child, destroy the
    /// tasker, release — not destroy — the controller reference, destroy
    /// the resource. The controller's native destroy appears exactly when
    /// the release crossed the pool's reference count to zero. A missing id
    /// succeeds without side effects.
    pub fn destroy_instance(&mut self, instance_id: &Vec<u8>) -> (r: Vec<TeardownAction>)
        requires
            old(self).wf(),
        ensures
            final(self).wf(),
            !has_instance(final(self).instances@, instance_id@),
            final(self).instances@ == remove_instance(old(self).instances@, instance_id@),
            !has_instance(old(self).instances@, instance_id@) ==> r@ == Seq::<
                TeardownAction,
            >::empty() && final(self).pool == old(self).pool,
            has_instance(old(self).instances@, instance_id@) ==> {
                let rt = find_instance(old(self).instances@, instance_id@).unwrap();
                match rt.controller_pool_key {
                    None => r@ == teardown_spec(rt) && final(self).pool.pmap() == old(self).pool.pmap(),
                    Some(k) => {
                        if !old(self).pool.pmap().contains_key(k@) {
                            r@ == teardown_spec(rt) && final(self).pool.pmap() == old(self).pool.pmap()
                        } else if old(self).pool.pmap()[k@].ref_count == 1 {
                            r@ == teardown_spec(rt) + seq![
                                TeardownAction::DestroyController(
                                    old(self).pool.pmap()[k@].controller,
                                ),
                            ] && final(self).pool.pmap() == old(self).pool.pmap().remove(k@)
                        } else {
                            r@ == teardown_spec(rt) && final(self).pool.pmap() == old(self).pool.pmap().insert(
                                k@,
                                PooledView {
                                    controller: old(self).pool.pmap()[k@].controller,
                                    ref_count: (old(self).pool.pmap()[k@].ref_count - 1) as nat,
                                    owners: crate::pool::remove_owner(
                                        old(self).pool.pmap()[k@].owners,
                                        instance_id@,
                                    ),
                                },
                            )
                        }
                    },
                }
            },
            final(self).lib_dir == old(self).lib_dir,
            final(self).resource_dir == old(self).resource_dir,
            final(self).cached_adb_devices == old(self).cached_adb_devices,
            final(self).cached_win32_windows == old(self).cached_win32_windows,
    {
        proof {
            lemma_find_absent(self.instances@, instance_id@);
            lemma_remove_instance(self.instances@, instance_id@);
            self.pool.lemma_counts_positive();
        }
        match self.find_index(instance_id) {
            Some(i) => {
                let entry = self.instances.remove(i);
                proof {
                    lemma_remove_at_index(old(self).instances@, instance_id@, i as int);
                    assert(find_instance(old(self).instances@, instance_id@) == Some(
                        entry.runtime,
                    ));
                    assert(self.instances@ == remove_instance(old(self).instances@, instance_id@));
                }
                let mut r = entry.runtime.teardown_actions();
                match &entry.runtime.controller_pool_key {
                    Some(k) => {
                        assert(entry.runtime.controller_pool_key == Some(*k));
                        match self.pool.release(k, instance_id) {
                            Some(h) => {
                                assert(old(self).pool.pmap().contains_key(k@) && old(self).pool.pmap()[k@].ref_count == 1);
                                r.push(TeardownAction::DestroyController(h));
                                assert(r@ =~= teardown_spec(entry.runtime) + seq![
                                    TeardownAction::DestroyController(h),
                                ]);
                            },
                            None => {},
                        }
                    },
                    None => {},
                }
                r
            },
            None => {
                proof {
                    assert(remove_instance(self.instances@, instance_id@) == self.instances@);
                }
                Vec::new()
            },
        }
    }

    /// Stores a freshly acquired pooled controller on an instance after a
    /// connect: the reference previously held under the instance's old
    /// fingerprint is released first — through the pool, so the native
    /// destroy happens exactly at a zero crossing and never while another
    /// instance still shares the handle — then the new handle and its
    /// fingerprint are recorded. An unknown instance is an error.
    pub fn store_controller(&mut self, instance_id: &Vec<u8>, controller: u64, key: Vec<u8>) -> (r:
        Result<Vec<TeardownAction>, MaaError>)
        requires
            old(self).wf(),
        ensures
            final(self).wf(),
            !has_instance(old(self).instances@, instance_id@) ==> r == Err::<Vec<TeardownAction>, MaaError>(MaaError::NotFound) && *final(self) == *old(self),
            has_instance(old(self).instances@, instance_id@) ==> {
                let rt = find_instance(old(self).instances@, instance_id@).unwrap();
                let rt2 = find_instance(final(self).instances@, instance_id@).unwrap();
                &&& find_instance(final(self).instances@, instance_id@) is Some
                &&& rt2.controller == Some(controller)
                &&& (rt2.controller_pool_key matches Some(k) && k@ == key@)
                &&& rt2.resource == rt.resource
                &&& rt2.tasker == rt.tasker
                &&& rt2.agent_client == rt.agent_client
                &&& rt2.agent_child == rt.agent_child
                &&& rt2.task_ids@ == rt.task_ids@
                &&& remove_instance(final(self).instances@, instance_id@) == remove_instance(
                    old(self).instances@,
                    instance_id@,
                )
                &&& final(self).instances@.len() == old(self).instances@.len()
                &&& match rt.controller_pool_key {
                    None => (r matches Ok(a) && a@ == Seq::<TeardownAction>::empty()) && final(self).pool.pmap() == old(self).pool.pmap(),
                    Some(k_old) => {
                        if !old(self).pool.pmap().contains_key(k_old@) {
                            (r matches Ok(a) && a@ == Seq::<TeardownAction>::empty()) && final(self).pool.pmap() == old(self).pool.pmap()
                        } else if old(self).pool.pmap()[k_old@].ref_count == 1 {
                            (r matches Ok(a) && a@ == seq![
                                TeardownAction::DestroyController(
                                    old(self).pool.pmap()[k_old@].controller,
                                ),
                            ]) && final(self).pool.pmap() == old(self).pool.pmap().remove(k_old@)
                        } else {
                            (r matches Ok(a) && a@ == Seq::<TeardownAction>::empty()) && final(self).pool.pmap() == old(self).pool.pmap().insert(
                                k_old@,
                                crate::pool::PooledView {
                                    controller: old(self).pool.pmap()[k_old@].controller,
                                    ref_count: (old(self).pool.pmap()[k_old@].ref_count - 1) as nat,
                                    owners: crate::pool::remove_owner(
                                        old(self).pool.pmap()[k_old@].owners,
                                        instance_id@,
                                    ),
                                },
                            )
                        }
                    },
                }
            },
            final(self).lib_dir == old(self).lib_dir,
            final(self).resource_dir == old(self).resource_dir,
            final(self).cached_adb_devices == old(self).cached_adb_devices,
            final(self).cached_win32_windows == old(self).cached_win32_windows,
    {
        proof {
            lemma_find_absent(self.instances@, instance_id@);
            self.pool.lemma_counts_positive();
        }
        match self.find_index(instance_id) {
            Some(i) => {
                let mut entry = self.instances.remove(i);
                proof {
                    lemma_remove_at_index(old(self).instances@, instance_id@, i as int);
                }
                let mut actions: Vec<TeardownAction> = Vec::new();
                match &entry.runtime.controller_pool_key {
                    Some(old_key) => {
                        match self.pool.release(old_key, instance_id) {
                            Some(h) => {
                                actions.push(TeardownAction::DestroyController(h));
                                assert(actions@ =~= seq![TeardownAction::DestroyController(h)]);
                            },
                            None => {},
                        }
                    },
                    None => {},
                }
                entry.runtime.controller = Some(controller);
                entry.runtime.controller_pool_key = Some(key);
                self.instances.insert(i, entry);
                proof {
                    assert(self.instances@ =~= old(self).instances@.update(i as int, self.instances@[
                        i as int
                    ]));
                    lemma_update_at_index(old(self).instances@, instance_id@, i as int, self.instances@[
                        i as int
                    ]);
                }
                Ok(actions)
            },
            None => Err(MaaError::NotFound),
        }
    }

    /// Takes the agent child of every instance, clearing the fields; the
    /// returned process ids are killed by the caller at process teardown.
    pub fn cleanup_all_agent_children(&mut self) -> (r: Vec<u64>)
        requires
            old(self).wf(),
        ensures
            final(self).wf(),
            final(self).instances@.len() == old(self).instances@.len(),
            forall|i: int|
                0 <= i < final(self).instances@.len() ==> #[trigger] final(self).instances@[i]
                    == cleared_entry(old(self).instances@[i]),
            r@ == child_pids(old(self).instances@),
            final(self).pool == old(self).pool,
            final(self).lib_dir == old(self).lib_dir,
            final(self).resource_dir == old(self).resource_dir,
            final(self).cached_adb_devices == old(self).cached_adb_devices,
            final(self).cached_win32_windows == old(self).cached_win32_windows,
    {
        let mut pids: Vec<u64> = Vec::new();
        let mut i: usize = 0;
        while i < self.instances.len()
            invariant
                0 <= i <= self.instances.len(),
                self.instances@.len() == old(self).instances@.len(),
                forall|j: int|
                    i <= j < self.instances@.len() ==> #[trigger] self.instances@[j] == old(self).instances@[j],
                forall|j: int|
                    0 <= j < i ==> #[trigger] self.instances@[j] == cleared_entry(
                        old(self).instances@[j],
                    ),
                pids@ =~= child_pids(old(self).instances@.take(i as int)),
                unique_ids(self.instances@),
                self.pool == old(self).pool,
                self.lib_dir == old(self).lib_dir,
                self.resource_dir == old(self).resource_dir,
                self.cached_adb_devices == old(self).cached_adb_devices,
                self.cached_win32_windows == old(self).cached_win32_windows,
            decreases self.instances.len() - i,
        {
            proof {
                assert(old(self).instances@.take(i + 1).drop_last() =~= old(self).instances@.take(
                    i as int,
                ));
                assert(old(self).instances@.take(i + 1).last() == old(self).instances@[i as int]);
            }
            let mut entry = self.instances.remove(i);
            match entry.runtime.agent_child {
                Some(pid) => {
                    pids.push(pid);
                    entry.runtime.agent_child = None;
                },
                None => {},
            }
            self.instances.insert(i, entry);
            proof {
                assert(unique_ids(self.instances@)) by {
                    assert forall|a: int, b: int| 0 <= a < b < self.instances@.len() implies #[trigger] self
                        .instances@[a].id@ != #[trigger] self.instances@[b].id@ by {
                        assert(self.instances@[a].id == old(self).instances@[a].id);
                        assert(self.instances@[b].id == old(self).instances@[b].id);
                    }
                }
            }
            i = i + 1;
        }
        proof {
            assert(old(self).instances@.take(old(self).instances@.len() as int) =~= old(self).instances@);
        }
        pids
    }

    /// Replaces the cached device list with a fresh discovery result.
    pub fn set_cached_adb_devices(&mut self, devices: Vec<AdbDevice>)
        ensures
            final(self).cached_adb_devices == devices,
            final(self).cached_win32_windows == old(self).cached_win32_windows,
            final(self).instances == old(self).instances,
            final(self).pool == old(self).pool,
            final(self).lib_dir == old(self).lib_dir,
            final(self).resource_dir == old(self).resource_dir,
    {
        self.cached_adb_devices = devices;
    }

    /// Replaces the cached window list with a fresh discovery result.
    pub fn set_cached_win32_windows(&mut self, windows: Vec<Win32Window>)
        ensures
            final(self).cached_win32_windows == windows,
            final(self).cached_adb_devices == old(self).cached_adb_devices,
            final(self).instances == old(self).instances,
            final(self).pool == old(self).pool,
            final(self).lib_dir == old(self).lib_dir,
            final(self).resource_dir == old(self).resource_dir,
    {
        self.cached_win32_windows = windows;
    }
}

/// An entry with its agent child taken.
pub open spec fn cleared_entry(e: InstanceEntry) -> InstanceEntry {
    InstanceEntry { id: e.id, runtime: InstanceRuntime { agent_child: None, ..e.runtime } }
}

/// The child process ids recorded across the instance map, in map order.
pub open spec fn child_pids(s: Seq<InstanceEntry>) -> Seq<u64>
    decreases s.len(),
{
    if s.len() == 0 {
        Seq::empty()
    } else {
        child_pids(s.drop_last()) + (match s.last().runtime.agent_child {
            Some(pid) => seq![pid],
            None => Seq::<u64>::empty(),
        })
    }
}

/// Replacing the (unique) entry at index `i` carrying `id` leaves lookup
/// and removal of every id consistent.
proof fn lemma_update_at_index(s: Seq<InstanceEntry>, id: Seq<u8>, i: int, e: InstanceEntry)
    requires
        unique_ids(s),
        0 <= i < s.len(),
        s[i].id@ == id,
        e.id@ == id,
    ensures
        unique_ids(s.update(i, e)),
        find_instance(s.update(i, e), id) == Some(e.runtime),
        remove_instance(s.update(i, e), id) == remove_instance(s, id),
        has_instance(s.update(i, e), id),
    decreases s.len(),
{
    let t = s.update(i, e);
    let prefix = s.drop_last();
    assert(unique_ids(prefix));
    assert(unique_ids(t)) by {
        assert forall|a: int, b: int| 0 <= a < b < t.len() implies #[trigger] t[a].id@
            != #[trigger] t[b].id@ by {
            assert(t[a].id@ == s[a].id@ || a == i);
            assert(t[b].id@ == s[b].id@ || b == i);
        }
    }
    if i == s.len() - 1 {
        assert(t.drop_last() =~= prefix);
        assert(t.last() == e);
        assert(!has_instance(prefix, id)) by {
            if has_instance(prefix, id) {
                let j = choose|j: int| 0 <= j < prefix.len() && #[trigger] prefix[j].id@ == id;
                assert(s[j].id@ == s[i].id@);
            }
        }
        lemma_find_absent(prefix, id);
        assert(t[t.len() - 1].id@ == id);
    } else {
        assert(s.last().id@ != id) by {
            assert(s[i].id@ != s[s.len() - 1].id@);
        }
        assert(t.drop_last() =~= prefix.update(i, e));
        assert(t.last() == s.last());
        lemma_update_at_index(prefix, id, i, e);
        assert(t[i].id@ == id);
        assert(remove_instance(t, id) == remove_instance(prefix.update(i, e), id) + seq![s.last()]);
        assert(remove_instance(s, id) == remove_instance(prefix, id) + seq![s.last()]);
    }
}

/// Removing the (unique) entry at index `i` carrying `id` equals the
/// id-directed removal.
proof fn lemma_remove_at_index(s: Seq<InstanceEntry>, id: Seq<u8>, i: int)
    requires
        unique_ids(s),
        0 <= i < s.len(),
        s[i].id@ == id,
    ensures
        remove_instance(s, id) == s.remove(i),
        find_instance(s, id) == Some(s[i].runtime),
    decreases s.len(),
{
    let prefix = s.drop_last();
    assert(unique_ids(prefix));
    if i == s.len() - 1 {
        assert(!has_instance(prefix, id)) by {
            if has_instance(prefix, id) {
                let j = choose|j: int| 0 <= j < prefix.len() && #[trigger] prefix[j].id@ == id;
                assert(s[j].id@ == s[i].id@);
            }
        }
        lemma_find_absent(prefix, id);
        assert(remove_instance(s, id) == remove_instance(prefix, id));
        assert(remove_instance(prefix, id) =~= s.remove(i));
    } else {
        assert(s.last().id@ != id) by {
            assert(s[i].id@ != s[s.len() - 1].id@);
        }
        lemma_remove_at_index(prefix, id, i);
        assert(prefix[i] == s[i]);
        assert(remove_instance(s, id) == prefix.remove(i) + seq![s.last()]);
        assert(prefix.remove(i) + seq![s.last()] =~= s.remove(i));
    }
}


/// A snapshot of every instance's state plus the shared discovery caches,
/// for a front end restoring itself after a reload.
pub struct AllInstanceStates {
    pub instances: Vec<(Vec<u8>, crate::instance::InstanceState)>,
    pub cached_adb_devices: Vec<AdbDevice>,
    pub cached_win32_windows: Vec<Win32Window>,
}

/// The manifest an incremental update package carries: which paths the new
/// version adds, deletes, and modifies.
pub struct ChangesJson {
    pub added: Vec<Vec<u8>>,
    pub deleted: Vec<Vec<u8>>,
    pub modified: Vec<Vec<u8>>,
}

/// Outcome of comparing the engine's version against the supported minimum.
pub struct VersionCheckResult {
    pub current: String,
    pub minimum: String,
    pub is_compatible: bool,
}

/// Identification of the running system, as reported to a front end.
pub struct SystemInfo {
    pub os: String,
    pub os_version: String,
    pub arch: String,
    pub tauri_version: String,
}

/// Destroying an instance is idempotent at the model level: removing an id
/// twice equals removing it once, and after the removal the id is gone, so
/// a second destroy finds nothing to tear down.
pub proof fn lemma_destroy_idempotent(s: Seq<InstanceEntry>, id: Seq<u8>)
    requires
        unique_ids(s),
    ensures
        remove_instance(remove_instance(s, id), id) == remove_instance(s, id),
        !has_instance(remove_instance(s, id), id),
        find_instance(remove_instance(s, id), id) is None,
{
    lemma_remove_instance(s, id);
    lemma_find_absent(remove_instance(s, id), id);
}

} // verus!
