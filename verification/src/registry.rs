//! Registry for managing multiple capability sets

use crate::capabilities::{report_views, Capabilities};
use crate::checker::{answers_any_name, answers_match};
use crate::clock::unix_time_now;
use crate::model::{
    all_tool_names, attested_tool_count, distinct, distinct_onto, has_all_required_tools_test,
    has_capability_test, has_flag_test, has_metadata_test, has_permission_test, is_verified_test,
    lemma_distinct_onto, lemma_distinct_onto_concat, lemma_filter_next, lemma_filter_none,
    lemma_tool_count_bounds, registry_statistics, required_tool_count, tool_count,
    CapabilitiesView, RegistryStatisticsView,
};
use crate::store::{
    is_insertion, is_removal, lemma_map_of_len, lemma_mapped_insert, lemma_mapped_lookup,
    lemma_mapped_remove, map_of, position_of, KeyedStore,
};
use crate::text::str_eq;
use crate::types::CapabilitySecurityReport;
use vstd::prelude::*;

verus! {

/// What each of `bundles` holds.
pub open spec fn bundle_views(bundles: Seq<Capabilities>) -> Seq<CapabilitiesView> {
    bundles.map_values(|caps: Capabilities| caps@)
}

/// What each of the bundles referred to holds.
pub open spec fn views_of_refs(bundles: Seq<&Capabilities>) -> Seq<CapabilitiesView> {
    bundles.map_values(|caps: &Capabilities| caps@)
}

/// Registry for managing multiple capability sets
#[derive(Debug)]
pub struct CapabilityRegistry {
    capabilities: KeyedStore<Capabilities>,
}

impl View for CapabilityRegistry {
    type V = Map<Seq<char>, CapabilitiesView>;

    /// The registered bundles by worker id.
    open spec fn view(&self) -> Map<Seq<char>, CapabilitiesView> {
        map_of(self.ids(), self.bundles())
    }
}

impl CapabilityRegistry {
    /// The worker ids, in the order in which they were first registered.
    pub closed spec fn ids(&self) -> Seq<Seq<char>> {
        self.capabilities.keys()
    }

    /// What the registered bundles hold, in the order of their ids.
    pub closed spec fn bundles(&self) -> Seq<CapabilitiesView> {
        bundle_views(self.capabilities.values())
    }

    /// There is one bundle for each id, and no id occurs twice. This holds
    /// of every registry.
    pub open spec fn is_keyed(&self) -> bool {
        &&& self.ids().len() == self.bundles().len()
        &&& self.ids().no_duplicates()
    }

    /// Create a new empty registry
    pub fn new() -> (registry: Self)
        ensures
            registry.ids() == Seq::<Seq<char>>::empty(),
            registry.bundles() == Seq::<CapabilitiesView>::empty(),
            registry@ == Map::<Seq<char>, CapabilitiesView>::empty(),
    {
        let registry = CapabilityRegistry { capabilities: KeyedStore::new() };
        assert(registry.bundles() =~= Seq::<CapabilitiesView>::empty());
        assert(registry@ =~= Map::<Seq<char>, CapabilitiesView>::empty());
        registry
    }

    /// Register a capability set under its id. A bundle registered under
    /// that id before is replaced as a whole and keeps its place.
    pub fn register(&mut self, caps: Capabilities)
        ensures
            old(self).is_keyed(),
            final(self).is_keyed(),
            is_insertion(
                old(self).ids(),
                old(self).bundles(),
                caps@.id,
                caps@,
                final(self).ids(),
                final(self).bundles(),
            ),
            final(self)@ == old(self)@.insert(caps@.id, caps@),
    {
        let ghost each = |c: Capabilities| c@;
        let ghost keys = self.capabilities.keys();
        let ghost values = self.capabilities.values();
        let id = caps.id.clone();
        self.capabilities.insert(id, caps);
        proof {
            lemma_mapped_insert(
                keys,
                values,
                caps@.id,
                caps,
                self.capabilities.keys(),
                self.capabilities.values(),
                each,
            );
            match position_of(keys, caps@.id) {
                Some(i) => {
                    assert(self.bundles() =~= old(self).bundles().update(i, caps@));
                },
                None => {
                    assert(self.bundles() =~= old(self).bundles().push(caps@));
                },
            }
        }
    }

    /// Get capabilities by ID
    pub fn get(&self, id: &str) -> (caps: Option<&Capabilities>)
        ensures
            self.is_keyed(),
            match position_of(self.ids(), id@) {
                Some(i) => caps matches Some(c) && c@ == self.bundles()[i],
                None => caps is None,
            },
            match caps {
                Some(c) => self@.contains_key(id@) && c@ == self@[id@],
                None => !self@.contains_key(id@),
            },
    {
        let caps = self.capabilities.get(id);
        proof {
            lemma_mapped_lookup(
                self.capabilities.keys(),
                self.capabilities.values(),
                id@,
                |c: Capabilities| c@,
            );
        }
        caps
    }

    /// Get mutable capabilities by ID. The ids stay as they are, whatever is
    /// written to the bundle.
    pub fn get_mut(&mut self, id: &str) -> (caps: Option<&mut Capabilities>)
        ensures
            old(self).is_keyed(),
            final(self).ids() == old(self).ids(),
            match position_of(old(self).ids(), id@) {
                Some(i) => {
                    &&& caps matches Some(c)
                    &&& c@ == old(self).bundles()[i]
                    &&& final(self).bundles() == old(self).bundles().update(i, final(c)@)
                },
                None => caps is None && final(self).bundles() == old(self).bundles(),
            },
    {
        let ghost values = self.capabilities.values();
        let caps = self.capabilities.get_mut(id);
        proof {
            let each = |c: Capabilities| c@;
            match position_of(old(self).ids(), id@) {
                Some(i) => {
                    let c = caps->0;
                    assert(values.update(i, *final(c)).map_values(each) =~= values.map_values(
                        each,
                    ).update(i, final(c)@));
                },
                None => {},
            }
        }
        caps
    }

    /// List all registered capability IDs
    pub fn list_ids(&self) -> (ids: Vec<String>)
        ensures
            ids.deep_view() == self.ids(),
    {
        let n = self.capabilities.len();
        let mut ids: Vec<String> = Vec::new();
        let mut i: usize = 0;
        while i < n
            invariant
                i <= n,
                n == self.capabilities.keys().len(),
                ids@.len() == i,
                forall|j: int| 0 <= j < i ==> ids@[j]@ == self.capabilities.keys()[j],
            decreases n - i,
        {
            ids.push(self.capabilities.key_at(i).clone());
            i += 1;
        }
        assert(ids.deep_view() =~= self.ids());
        ids
    }

    /// Revoke capabilities for a specific worker. Returns false, and changes
    /// nothing, where no worker is registered under the id.
    pub fn revoke_worker_capabilities(
        &mut self,
        worker_id: &str,
        reason: String,
        revoked_by: String,
    ) -> (revoked: bool)
        ensures
            final(self).ids() == old(self).ids(),
            revoked == old(self)@.contains_key(worker_id@),
            match position_of(old(self).ids(), worker_id@) {
                Some(i) => {
                    &&& revoked
                    &&& old(self).bundles()[i].revoked_as(
                        final(self).bundles()[i],
                        reason@,
                        revoked_by@,
                    )
                    &&& final(self).bundles() == old(self).bundles().update(
                        i,
                        final(self).bundles()[i],
                    )
                },
                None => !revoked && *final(self) == *old(self),
            },
    {
        let ghost values = self.capabilities.values();
        match self.capabilities.find(worker_id) {
            Some(i) => {
                proof {
                    lemma_mapped_lookup(
                        self.capabilities.keys(),
                        values,
                        worker_id@,
                        |c: Capabilities| c@,
                    );
                }
                let caps = self.capabilities.value_at_mut(i);
                caps.revoke_all_capabilities(reason, revoked_by);
                proof {
                    let after = self.capabilities.values()[i as int];
                    assert(self.bundles() =~= old(self).bundles().update(i as int, after@));
                }
                true
            },
            None => {
                proof {
                    lemma_mapped_lookup(
                        self.capabilities.keys(),
                        values,
                        worker_id@,
                        |c: Capabilities| c@,
                    );
                }
                false
            },
        }
    }

    /// Remove a worker from the registry
    pub fn remove_worker(&mut self, worker_id: &str) -> (removed: Option<Capabilities>)
        ensures
            old(self).is_keyed(),
            final(self).is_keyed(),
            is_removal(
                old(self).ids(),
                old(self).bundles(),
                worker_id@,
                final(self).ids(),
                final(self).bundles(),
            ),
            final(self)@ == old(self)@.remove(worker_id@),
            match removed {
                Some(caps) => old(self)@.contains_key(worker_id@) && caps@ == old(
                    self,
                )@[worker_id@],
                None => !old(self)@.contains_key(worker_id@) && *final(self) == *old(self),
            },
    {
        let ghost each = |c: Capabilities| c@;
        let ghost keys = self.capabilities.keys();
        let ghost values = self.capabilities.values();
        let removed = self.capabilities.remove(worker_id);
        proof {
            lemma_mapped_lookup(keys, values, worker_id@, each);
            lemma_mapped_remove(
                keys,
                values,
                worker_id@,
                self.capabilities.keys(),
                self.capabilities.values(),
                each,
            );
            match position_of(keys, worker_id@) {
                Some(i) => {
                    assert(self.bundles() =~= old(self).bundles().remove(i));
                },
                None => {},
            }
        }
        removed
    }

    /// Clear all workers from the registry
    pub fn clear_all(&mut self)
        ensures
            final(self).ids() == Seq::<Seq<char>>::empty(),
            final(self).bundles() == Seq::<CapabilitiesView>::empty(),
            final(self)@ == Map::<Seq<char>, CapabilitiesView>::empty(),
    {
        self.capabilities.clear();
        assert(self.bundles() =~= Seq::<CapabilitiesView>::empty());
        assert(self@ =~= Map::<Seq<char>, CapabilitiesView>::empty());
    }

    /// Check if a worker is registered
    pub fn contains_worker(&self, worker_id: &str) -> (present: bool)
        ensures
            present == self.ids().contains(worker_id@),
            present == self@.contains_key(worker_id@),
    {
        self.capabilities.contains_key(worker_id)
    }

    /// The number of registered workers.
    pub fn worker_count(&self) -> (n: usize)
        ensures
            n == self.ids().len(),
            n == self@.len(),
            self.is_keyed(),
    {
        let n = self.capabilities.len();
        proof {
            lemma_map_of_len(self.ids(), self.bundles());
        }
        n
    }

    /// Find workers with a specific capability at the time `now`, in the
    /// order of registration.
    pub fn find_with_capability_at<F: Fn(&str) -> bool>(
        &self,
        capability_type: &str,
        tool_checker: &F,
        now: u64,
    ) -> (workers: Vec<&Capabilities>)
        requires
            answers_any_name(tool_checker),
        ensures
            forall|available: Set<Seq<char>>| #[trigger]
                answers_match(tool_checker, available) ==> views_of_refs(workers@)
                    == self.bundles().filter(
                    has_capability_test(capability_type@, now, available),
                ),
    {
        let ghost bundles = self.bundles();
        let n = self.capabilities.len();
        let mut workers: Vec<&Capabilities> = Vec::new();
        proof {
            assert(views_of_refs(workers@) =~= Seq::<CapabilitiesView>::empty());
            assert(bundles.take(0) =~= Seq::<CapabilitiesView>::empty());
            assert forall|available: Set<Seq<char>>|
                bundles.take(0).filter(
                    #[trigger] has_capability_test(capability_type@, now, available),
                ) == Seq::<CapabilitiesView>::empty() by {
                lemma_filter_none(has_capability_test(capability_type@, now, available));
            }
        }
        let mut i: usize = 0;
        while i < n
            invariant
                i <= n,
                n == self.capabilities.values().len(),
                bundles == self.bundles(),
                answers_any_name(tool_checker),
                forall|available: Set<Seq<char>>| #[trigger]
                    answers_match(tool_checker, available) ==> views_of_refs(workers@)
                        == bundles.take(i as int).filter(
                        has_capability_test(capability_type@, now, available),
                    ),
            decreases n - i,
        {
            let caps = self.capabilities.value_at(i);
            let ghost found = workers@;
            let keep = caps.has_capability_at(capability_type, tool_checker, now);
            if keep {
                workers.push(caps);
            }
            proof {
                assert(bundles[i as int] == caps@);
                assert(views_of_refs(found.push(caps)) =~= views_of_refs(found).push(caps@));
                assert forall|available: Set<Seq<char>>| #[trigger]
                    answers_match(tool_checker, available) implies views_of_refs(workers@)
                    == bundles.take(i + 1).filter(
                    has_capability_test(capability_type@, now, available),
                ) by {
                    lemma_filter_next(
                        bundles,
                        has_capability_test(capability_type@, now, available),
                        i as int,
                    );
                }
            }
            i += 1;
        }
        assert(bundles.take(i as int) =~= bundles);
        workers
    }

    /// Find workers with a specific capability now, by the system clock.
    pub fn find_with_capability<F: Fn(&str) -> bool>(
        &self,
        capability_type: &str,
        tool_checker: &F,
    ) -> (workers: Vec<&Capabilities>)
        requires
            answers_any_name(tool_checker),
        ensures
            forall|available: Set<Seq<char>>| #[trigger]
                answers_match(tool_checker, available) ==> exists|now: u64|
                    views_of_refs(workers@) == self.bundles().filter(
                        #[trigger] has_capability_test(capability_type@, now, available),
                    ),
    {
        let now = unix_time_now();
        let workers = self.find_with_capability_at(capability_type, tool_checker, now);
        assert forall|available: Set<Seq<char>>| #[trigger]
            answers_match(tool_checker, available) implies exists|now: u64|
            views_of_refs(workers@) == self.bundles().filter(
                #[trigger] has_capability_test(capability_type@, now, available),
            ) by {
            assert(views_of_refs(workers@) == self.bundles().filter(
                has_capability_test(capability_type@, now, available),
            ));
        }
        workers
    }

    /// Find workers that have all required tools available at the time
    /// `now`, in the order of registration.
    pub fn find_workers_with_all_required_tools_at<F: Fn(&str) -> bool>(
        &self,
        tool_checker: &F,
        now: u64,
    ) -> (workers: Vec<&Capabilities>)
        requires
            answers_any_name(tool_checker),
        ensures
            forall|available: Set<Seq<char>>| #[trigger]
                answers_match(tool_checker, available) ==> views_of_refs(workers@)
                    == self.bundles().filter(has_all_required_tools_test(now, available)),
    {
        let ghost bundles = self.bundles();
        let n = self.capabilities.len();
        let mut workers: Vec<&Capabilities> = Vec::new();
        proof {
            assert(views_of_refs(workers@) =~= Seq::<CapabilitiesView>::empty());
            assert(bundles.take(0) =~= Seq::<CapabilitiesView>::empty());
            assert forall|available: Set<Seq<char>>|
                bundles.take(0).filter(#[trigger] has_all_required_tools_test(now, available))
                    == Seq::<CapabilitiesView>::empty() by {
                lemma_filter_none(has_all_required_tools_test(now, available));
            }
        }
        let mut i: usize = 0;
        while i < n
            invariant
                i <= n,
                n == self.capabilities.values().len(),
                bundles == self.bundles(),
                answers_any_name(tool_checker),
                forall|available: Set<Seq<char>>| #[trigger]
                    answers_match(tool_checker, available) ==> views_of_refs(workers@)
                        == bundles.take(i as int).filter(
                        has_all_required_tools_test(now, available),
                    ),
            decreases n - i,
        {
            let caps = self.capabilities.value_at(i);
            let ghost found = workers@;
            let keep = caps.has_all_required_tools_at(tool_checker, now);
            if keep {
                workers.push(caps);
            }
            proof {
                assert(bundles[i as int] == caps@);
                assert(views_of_refs(found.push(caps)) =~= views_of_refs(found).push(caps@));
                assert forall|available: Set<Seq<char>>| #[trigger]
                    answers_match(tool_checker, available) implies views_of_refs(workers@)
                    == bundles.take(i + 1).filter(has_all_required_tools_test(now, available)) by {
                    lemma_filter_next(
                        bundles,
                        has_all_required_tools_test(now, available),
                        i as int,
                    );
                }
            }
            i += 1;
        }
        assert(bundles.take(i as int) =~= bundles);
        workers
    }

    /// Find workers that have all required tools available now, by the
    /// system clock.
    pub fn find_workers_with_all_required_tools<F: Fn(&str) -> bool>(
        &self,
        tool_checker: &F,
    ) -> (workers: Vec<&Capabilities>)
        requires
            answers_any_name(tool_checker),
        ensures
            forall|available: Set<Seq<char>>| #[trigger]
                answers_match(tool_checker, available) ==> exists|now: u64|
                    views_of_refs(workers@) == self.bundles().filter(
                        #[trigger] has_all_required_tools_test(now, available),
                    ),
    {
        let now = unix_time_now();
        let workers = self.find_workers_with_all_required_tools_at(tool_checker, now);
        assert forall|available: Set<Seq<char>>| #[trigger]
            answers_match(tool_checker, available) implies exists|now: u64|
            views_of_refs(workers@) == self.bundles().filter(
                #[trigger] has_all_required_tools_test(now, available),
            ) by {
            assert(views_of_refs(workers@) == self.bundles().filter(
                has_all_required_tools_test(now, available),
            ));
        }
        workers
    }

    /// Find workers with verified capabilities at the time `now`, in the
    /// order of registration.
    pub fn find_verified_workers_at(&self, now: u64) -> (workers: Vec<&Capabilities>)
        ensures
            views_of_refs(workers@) == self.bundles().filter(is_verified_test(now)),
    {
        let ghost bundles = self.bundles();
        let ghost test = is_verified_test(now);
        let n = self.capabilities.len();
        let mut workers: Vec<&Capabilities> = Vec::new();
        proof {
            assert(views_of_refs(workers@) =~= Seq::<CapabilitiesView>::empty());
            assert(bundles.take(0) =~= Seq::<CapabilitiesView>::empty());
            lemma_filter_none(test);
        }
        let mut i: usize = 0;
        while i < n
            invariant
                i <= n,
                n == self.capabilities.values().len(),
                bundles == self.bundles(),
                test == is_verified_test(now),
                views_of_refs(workers@) == bundles.take(i as int).filter(test),
            decreases n - i,
        {
            let caps = self.capabilities.value_at(i);
            let ghost found = workers@;
            proof {
                assert(bundles[i as int] == caps@);
                assert(views_of_refs(found.push(caps)) =~= views_of_refs(found).push(caps@));
                lemma_filter_next(bundles, test, i as int);
            }
            if caps.verify_all_capabilities_at(now) {
                workers.push(caps);
            }
            i += 1;
        }
        assert(bundles.take(i as int) =~= bundles);
        workers
    }

    /// Find workers with verified capabilities now, by the system clock.
    pub fn find_verified_workers(&self) -> (workers: Vec<&Capabilities>)
        ensures
            exists|now: u64|
                views_of_refs(workers@) == self.bundles().filter(#[trigger] is_verified_test(now)),
    {
        let now = unix_time_now();
        let workers = self.find_verified_workers_at(now);
        assert(views_of_refs(workers@) == self.bundles().filter(is_verified_test(now)));
        workers
    }

    /// Find workers with specific permissions, in the order of registration.
    pub fn find_workers_with_permissions(
        &self,
        capability_type: &str,
        required_permission: &str,
    ) -> (workers: Vec<&Capabilities>)
        ensures
            views_of_refs(workers@) == self.bundles().filter(
                has_permission_test(capability_type@, required_permission@),
            ),
    {
        let ghost bundles = self.bundles();
        let ghost test = has_permission_test(capability_type@, required_permission@);
        let n = self.capabilities.len();
        let mut workers: Vec<&Capabilities> = Vec::new();
        proof {
            assert(views_of_refs(workers@) =~= Seq::<CapabilitiesView>::empty());
            assert(bundles.take(0) =~= Seq::<CapabilitiesView>::empty());
            lemma_filter_none(test);
        }
        let mut i: usize = 0;
        while i < n
            invariant
                i <= n,
                n == self.capabilities.values().len(),
                bundles == self.bundles(),
                test == has_permission_test(capability_type@, required_permission@),
                views_of_refs(workers@) == bundles.take(i as int).filter(test),
            decreases n - i,
        {
            let caps = self.capabilities.value_at(i);
            let ghost found = workers@;
            proof {
                assert(bundles[i as int] == caps@);
                assert(views_of_refs(found.push(caps)) =~= views_of_refs(found).push(caps@));
                lemma_filter_next(bundles, test, i as int);
            }
            if caps.has_required_permissions(capability_type, required_permission) {
                workers.push(caps);
            }
            i += 1;
        }
        assert(bundles.take(i as int) =~= bundles);
        workers
    }

    /// Get all workers with a specific flag, in the order of registration.
    pub fn find_workers_with_flag(&self, flag: &str) -> (workers: Vec<&Capabilities>)
        ensures
            views_of_refs(workers@) == self.bundles().filter(has_flag_test(flag@)),
    {
        let ghost bundles = self.bundles();
        let ghost test = has_flag_test(flag@);
        let n = self.capabilities.len();
        let mut workers: Vec<&Capabilities> = Vec::new();
        proof {
            assert(views_of_refs(workers@) =~= Seq::<CapabilitiesView>::empty());
            assert(bundles.take(0) =~= Seq::<CapabilitiesView>::empty());
            lemma_filter_none(test);
        }
        let mut i: usize = 0;
        while i < n
            invariant
                i <= n,
                n == self.capabilities.values().len(),
                bundles == self.bundles(),
                test == has_flag_test(flag@),
                views_of_refs(workers@) == bundles.take(i as int).filter(test),
            decreases n - i,
        {
            let caps = self.capabilities.value_at(i);
            let ghost found = workers@;
            proof {
                assert(bundles[i as int] == caps@);
                assert(views_of_refs(found.push(caps)) =~= views_of_refs(found).push(caps@));
                lemma_filter_next(bundles, test, i as int);
            }
            if caps.has_flag(flag) {
                workers.push(caps);
            }
            i += 1;
        }
        assert(bundles.take(i as int) =~= bundles);
        workers
    }

    /// Get workers with metadata matching a key-value pair, in the order of
    /// registration.
    pub fn find_workers_with_metadata(&self, key: &str, value: &str) -> (workers: Vec<
        &Capabilities,
    >)
        ensures
            views_of_refs(workers@) == self.bundles().filter(has_metadata_test(key@, value@)),
    {
        let ghost bundles = self.bundles();
        let ghost test = has_metadata_test(key@, value@);
        let n = self.capabilities.len();
        let mut workers: Vec<&Capabilities> = Vec::new();
        proof {
            assert(views_of_refs(workers@) =~= Seq::<CapabilitiesView>::empty());
            assert(bundles.take(0) =~= Seq::<CapabilitiesView>::empty());
            lemma_filter_none(test);
        }
        let mut i: usize = 0;
        while i < n
            invariant
                i <= n,
                n == self.capabilities.values().len(),
                bundles == self.bundles(),
                test == has_metadata_test(key@, value@),
                views_of_refs(workers@) == bundles.take(i as int).filter(test),
            decreases n - i,
        {
            let caps = self.capabilities.value_at(i);
            let ghost found = workers@;
            proof {
                assert(bundles[i as int] == caps@);
                assert(views_of_refs(found.push(caps)) =~= views_of_refs(found).push(caps@));
                lemma_filter_next(bundles, test, i as int);
            }
            let same = match caps.get_metadata(key) {
                Some(held) => str_eq(held.as_str(), value),
                None => false,
            };
            if same {
                workers.push(caps);
            }
            i += 1;
        }
        assert(bundles.take(i as int) =~= bundles);
        workers
    }

    /// Verify all workers have valid capabilities at the time `now`: for
    /// each worker id, in the order of registration, whether all its
    /// capabilities can be trusted.
    pub fn verify_all_workers_at(&self, now: u64) -> (results: KeyedStore<bool>)
        ensures
            results.keys() == self.ids(),
            results.values() == self.bundles().map_values(is_verified_test(now)),
    {
        let ghost ids = self.ids();
        let ghost expected = self.bundles().map_values(is_verified_test(now));
        let n = self.capabilities.len();
        let mut results: KeyedStore<bool> = KeyedStore::new();
        let mut i: usize = 0;
        while i < n
            invariant
                i <= n,
                n == ids.len(),
                n == self.capabilities.values().len(),
                ids == self.ids(),
                ids.no_duplicates(),
                expected == self.bundles().map_values(is_verified_test(now)),
                results.keys() == ids.take(i as int),
                results.values() == expected.take(i as int),
            decreases n - i,
        {
            let caps = self.capabilities.value_at(i);
            let verified = caps.verify_all_capabilities_at(now);
            proof {
                if ids.take(i as int).contains(ids[i as int]) {
                    let j = ids.take(i as int).index_of(ids[i as int]);
                    assert(ids[j] == ids[i as int]);
                }
                assert(expected[i as int] == verified);
            }
            results.insert(self.capabilities.key_at(i).clone(), verified);
            i += 1;
            proof {
                assert(results.keys() =~= ids.take(i as int));
                assert(results.values() =~= expected.take(i as int));
            }
        }
        proof {
            assert(ids.take(i as int) =~= ids);
            assert(expected.take(i as int) =~= expected);
        }
        results
    }

    /// Verify all workers have valid capabilities now, by the system clock.
    pub fn verify_all_workers(&self) -> (results: KeyedStore<bool>)
        ensures
            results.keys() == self.ids(),
            exists|now: u64|
                results.values() == self.bundles().map_values(#[trigger] is_verified_test(now)),
    {
        let now = unix_time_now();
        let results = self.verify_all_workers_at(now);
        assert(results.values() == self.bundles().map_values(is_verified_test(now)));
        results
    }

    /// Whether `report` holds, for each worker in the order of registration,
    /// the security reports on that worker's tools at `now`.
    pub open spec fn is_security_report(
        &self,
        report: KeyedStore<KeyedStore<CapabilitySecurityReport>>,
        now: u64,
    ) -> bool {
        &&& report.keys() == self.ids()
        &&& report.values().len() == self.bundles().len()
        &&& forall|i: int|
            0 <= i < self.bundles().len() ==> {
                &&& report_views(#[trigger] report.values()[i])
                    == self.bundles()[i].security_report(now)
                &&& report.values()[i].keys() == self.bundles()[i].reported_names()
            }
    }

    /// Get security report for all workers at the time `now`.
    pub fn get_security_report_at(&self, now: u64) -> (report: KeyedStore<
        KeyedStore<CapabilitySecurityReport>,
    >)
        ensures
            self.is_security_report(report, now),
    {
        let ghost ids = self.ids();
        let ghost bundles = self.bundles();
        let n = self.capabilities.len();
        let mut report: KeyedStore<KeyedStore<CapabilitySecurityReport>> = KeyedStore::new();
        let mut i: usize = 0;
        while i < n
            invariant
                i <= n,
                n == ids.len(),
                n == self.capabilities.values().len(),
                ids == self.ids(),
                bundles == self.bundles(),
                ids.no_duplicates(),
                report.keys() == ids.take(i as int),
                report.values().len() == i,
                forall|j: int|
                    0 <= j < i ==> {
                        &&& report_views(#[trigger] report.values()[j])
                            == bundles[j].security_report(now)
                        &&& report.values()[j].keys() == bundles[j].reported_names()
                    },
            decreases n - i,
        {
            let caps = self.capabilities.value_at(i);
            let worker_report = caps.get_security_report_at(now);
            proof {
                if ids.take(i as int).contains(ids[i as int]) {
                    let j = ids.take(i as int).index_of(ids[i as int]);
                    assert(ids[j] == ids[i as int]);
                }
                assert(bundles[i as int] == caps@);
            }
            report.insert(self.capabilities.key_at(i).clone(), worker_report);
            i += 1;
            proof {
                assert(report.keys() =~= ids.take(i as int));
            }
        }
        proof {
            assert(ids.take(i as int) =~= ids);
        }
        report
    }

    /// Get security report for all workers now, by the system clock.
    pub fn get_security_report(&self) -> (report: KeyedStore<KeyedStore<CapabilitySecurityReport>>)
        ensures
            exists|now: u64| #[trigger] self.is_security_report(report, now),
    {
        let now = unix_time_now();
        let report = self.get_security_report_at(now);
        assert(self.is_security_report(report, now));
        report
    }

    /// Get registry statistics at the time `now`.
    pub fn get_statistics_at(&self, now: u64) -> (statistics: RegistryStatistics)
        requires
            tool_count(self.bundles()) <= usize::MAX,
        ensures
            statistics@ == registry_statistics(self.bundles(), now),
    {
        let ghost bundles = self.bundles();
        let total_workers = self.capabilities.len();
        let verified_workers = self.find_verified_workers_at(now).len();
        let mut total_tools: usize = 0;
        let mut total_required_tools: usize = 0;
        let mut total_verified_tools: usize = 0;
        let mut i: usize = 0;
        proof {
            assert(bundles.take(0) =~= Seq::<CapabilitiesView>::empty());
        }
        while i < total_workers
            invariant
                i <= total_workers,
                total_workers == self.capabilities.values().len(),
                bundles == self.bundles(),
                tool_count(bundles) <= usize::MAX,
                total_tools == tool_count(bundles.take(i as int)),
                total_required_tools == required_tool_count(bundles.take(i as int)),
                total_verified_tools == attested_tool_count(bundles.take(i as int), now),
            decreases total_workers - i,
        {
            let caps = self.capabilities.value_at(i);
            proof {
                assert(bundles[i as int] == caps@);
                assert(bundles.take(i + 1).drop_last() =~= bundles.take(i as int));
                assert(bundles.take(i + 1).last() == caps@);
                lemma_tool_count_bounds(bundles, i as int, now);
                lemma_tool_count_bounds(bundles, i + 1, now);
                lemma_tool_count_bounds(bundles.take(i + 1), i + 1, now);
            }
            let stats = caps.get_statistics_at(now);
            total_tools += stats.total_tools;
            total_required_tools += stats.required_tools;
            total_verified_tools += stats.verified_tools;
            i += 1;
        }
        assert(bundles.take(i as int) =~= bundles);
        RegistryStatistics {
            total_workers,
            verified_workers,
            total_tools,
            total_required_tools,
            total_verified_tools,
        }
    }

    /// Get registry statistics now, by the system clock.
    pub fn get_statistics(&self) -> (statistics: RegistryStatistics)
        requires
            tool_count(self.bundles()) <= usize::MAX,
        ensures
            exists|now: u64| statistics@ == #[trigger] registry_statistics(self.bundles(), now),
    {
        let now = unix_time_now();
        let statistics = self.get_statistics_at(now);
        assert(statistics@ == registry_statistics(self.bundles(), now));
        statistics
    }

    /// Get all unique tool names across all workers: each tool name and
    /// alternative once, in the order of its first occurrence.
    pub fn get_all_tool_names(&self) -> (tool_names: Vec<String>)
        ensures
            tool_names.deep_view() == distinct(all_tool_names(self.bundles())),
            tool_names.deep_view().no_duplicates(),
            forall|name: Seq<char>|
                tool_names.deep_view().contains(name) <==> all_tool_names(self.bundles()).contains(
                    name,
                ),
    {
        let ghost bundles = self.bundles();
        let n = self.capabilities.len();
        let mut tool_names: Vec<String> = Vec::new();
        proof {
            assert(tool_names.deep_view() =~= Seq::<Seq<char>>::empty());
            assert(bundles.take(0) =~= Seq::<CapabilitiesView>::empty());
        }
        let mut i: usize = 0;
        while i < n
            invariant
                i <= n,
                n == self.capabilities.values().len(),
                bundles == self.bundles(),
                tool_names.deep_view() == distinct(all_tool_names(bundles.take(i as int))),
            decreases n - i,
        {
            let caps = self.capabilities.value_at(i);
            let names = caps.all_tools();
            proof {
                assert(bundles[i as int] == caps@);
                assert(bundles.take(i + 1).drop_last() =~= bundles.take(i as int));
                assert(bundles.take(i + 1).last() == caps@);
                lemma_distinct_onto_concat(
                    Seq::empty(),
                    all_tool_names(bundles.take(i as int)),
                    caps@.tool_names(),
                );
            }
            add_distinct(&mut tool_names, names);
            i += 1;
        }
        proof {
            assert(bundles.take(i as int) =~= bundles);
            lemma_distinct_onto(Seq::empty(), all_tool_names(bundles));
        }
        tool_names
    }
}

/// Whether `name` is among `names`.
fn contains_name(names: &Vec<String>, name: &str) -> (found: bool)
    ensures
        found == names.deep_view().contains(name@),
{
    let mut i: usize = 0;
    while i < names.len()
        invariant
            i <= names.len(),
            forall|j: int| 0 <= j < i ==> names.deep_view()[j] != name@,
        decreases names.len() - i,
    {
        if str_eq(names[i].as_str(), name) {
            assert(names.deep_view()[i as int] == name@);
            return true;
        }
        i += 1;
    }
    false
}

/// Adds to `out` those of `names` that are not in it yet.
fn add_distinct(out: &mut Vec<String>, names: Vec<String>)
    ensures
        final(out).deep_view() == distinct_onto(old(out).deep_view(), names.deep_view()),
{
    let ghost base = out.deep_view();
    let ghost views = names.deep_view();
    let mut names = names;
    let mut i: usize = 0;
    while i < names.len()
        invariant
            i <= names.len(),
            views == names.deep_view(),
            out.deep_view() == distinct_onto(base, views.take(i as int)),
        decreases names.len() - i,
    {
        proof {
            assert(views.take(i + 1).drop_last() =~= views.take(i as int));
            assert(views.take(i + 1).last() == names[i as int]@);
        }
        if !contains_name(out, names[i].as_str()) {
            let ghost so_far = out.deep_view();
            out.push(names[i].clone());
            assert(out.deep_view() =~= so_far.push(names[i as int]@));
        }
        i += 1;
    }
    assert(views.take(i as int) =~= views);
}

/// Statistics about the registry
#[derive(Debug)]
pub struct RegistryStatistics {
    pub total_workers: usize,
    pub verified_workers: usize,
    pub total_tools: usize,
    pub total_required_tools: usize,
    pub total_verified_tools: usize,
}

impl View for RegistryStatistics {
    type V = RegistryStatisticsView;

    open spec fn view(&self) -> RegistryStatisticsView {
        RegistryStatisticsView {
            total_workers: self.total_workers as nat,
            verified_workers: self.verified_workers as nat,
            total_tools: self.total_tools as nat,
            total_required_tools: self.total_required_tools as nat,
            total_verified_tools: self.total_verified_tools as nat,
        }
    }
}

impl Clone for RegistryStatistics {
    fn clone(&self) -> (copy: Self)
        ensures
            copy == *self,
    {
        RegistryStatistics {
            total_workers: self.total_workers,
            verified_workers: self.verified_workers,
            total_tools: self.total_tools,
            total_required_tools: self.total_required_tools,
            total_verified_tools: self.total_verified_tools,
        }
    }
}

impl Default for CapabilityRegistry {
    fn default() -> (registry: Self)
        ensures
            registry@ == Map::<Seq<char>, CapabilitiesView>::empty(),
    {
        Self::new()
    }
}

} // verus!
