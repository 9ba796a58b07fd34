//! Capability hashes, the issuing and checking of attestations, and a store
//! of attestations by tool name.

use crate::clock::unix_time_now;
use crate::constants::{
    ATTESTATION_EXPIRY_DAYS, CAPABILITY_HASH_LENGTH, DEFAULT_ATTESTATION_ALGORITHM,
};
use crate::digest::sha256_hex;
use crate::model::{all_acceptable, outdated_names, AttestationView};
use crate::store::{
    is_insertion, is_removal, lemma_mapped_insert, lemma_mapped_lookup, lemma_mapped_remove, map_of,
    KeyedStore,
};
use crate::text::{append_bool, append_decimal, append_joined, str_eq};
use crate::types::{CapabilityAttestation, ToolCapability};
use vstd::prelude::*;
use vstd::string::StringExecFns;

verus! {

impl CapabilityAttestation {
    /// Whether the attestation is older at `now` than the attestation window
    /// allows.
    pub fn is_outdated_at(&self, now: u64) -> (outdated: bool)
        ensures
            outdated == self@.is_outdated(now),
    {
        let window: u64 = ATTESTATION_EXPIRY_DAYS * 24 * 60 * 60;
        now > self.timestamp && now - self.timestamp > window
    }

    /// Whether the attestation can be accepted at `now` as far as it alone
    /// shows: dated no later than `now`, young enough, made with the default
    /// algorithm, and carrying a signature and a public key.
    pub fn is_acceptable_at(&self, now: u64) -> (acceptable: bool)
        ensures
            acceptable == self@.is_acceptable(now),
    {
        // An attestation from the future is not accepted
        if self.timestamp > now {
            return false;
        }
        // Check if attestation is not expired
        if self.is_outdated_at(now) {
            return false;
        }
        // Verify attestation algorithm
        if !str_eq(self.algorithm.as_str(), DEFAULT_ATTESTATION_ALGORITHM) {
            return false;
        }
        // Check that signature and public key are not empty
        !self.signature.as_str().is_empty() && !self.public_key.as_str().is_empty()
    }
}

impl ToolCapability {
    /// Generate capability hash for attestation
    pub fn generate_capability_hash(&self) -> (hash: String)
        ensures
            hash@ == self@.capability_hash(),
            hash@.len() == CAPABILITY_HASH_LENGTH,
    {
        let mut input = String::new();
        input.append(self.tool_name.as_str());
        append_bool(&mut input, self.required);
        append_joined(&mut input, &self.alternatives);
        append_bool(&mut input, self.permissions.filesystem_access);
        append_bool(&mut input, self.permissions.network_access);
        append_bool(&mut input, self.permissions.process_spawn);
        append_bool(&mut input, self.permissions.env_access);
        append_bool(&mut input, self.permissions.system_access);
        append_decimal(&mut input, self.permissions.memory_limit_mb);
        append_decimal(&mut input, self.permissions.cpu_limit_percent as u64);
        append_decimal(&mut input, self.permissions.timeout_seconds);
        append_decimal(&mut input, self.expiration.expires_at);
        assert(input@ =~= self@.hash_input());
        sha256_hex(input.as_str())
    }

    /// Create attestation for this capability, issued at the time `now`.
    pub fn create_attestation_at(
        &self,
        signer_private_key: &str,
        attester: String,
        now: u64,
    ) -> (attestation: CapabilityAttestation)
        ensures
            attestation@ == self@.attestation_at(signer_private_key@, attester@, now),
    {
        let capability_hash = self.generate_capability_hash();
        let mut signature = "signature_".to_owned();
        signature.append(capability_hash.as_str());
        signature.append("_");
        append_decimal(&mut signature, now);
        let mut public_key = "pubkey_".to_owned();
        public_key.append(signer_private_key);
        CapabilityAttestation {
            capability_hash,
            signature,
            public_key,
            timestamp: now,
            algorithm: DEFAULT_ATTESTATION_ALGORITHM.to_owned(),
            attester,
        }
    }

    /// Create attestation for this capability, issued now by the system
    /// clock.
    pub fn create_attestation(
        &self,
        signer_private_key: &str,
        attester: String,
    ) -> (attestation: CapabilityAttestation)
        ensures
            exists|now: u64|
                attestation@ == #[trigger] self@.attestation_at(
                    signer_private_key@,
                    attester@,
                    now,
                ),
            attestation@.capability_hash == self@.capability_hash(),
    {
        let now = unix_time_now();
        let attestation = self.create_attestation_at(signer_private_key, attester, now);
        assert(attestation@ == self@.attestation_at(signer_private_key@, attester@, now));
        attestation
    }

    /// Verify the capability hash matches the attestation
    pub fn verify_capability_hash(&self) -> (matches: bool)
        ensures
            matches == self@.hash_matches(),
    {
        match &self.attestation {
            Some(attestation) => {
                let current_hash = self.generate_capability_hash();
                str_eq(current_hash.as_str(), attestation.capability_hash.as_str())
            },
            None => false,
        }
    }

    /// Check if attestation is valid and not tampered with, at the time
    /// `now`.
    pub fn verify_attestation_integrity_at(&self, now: u64) -> (valid: bool)
        ensures
            valid == self@.attestation_is_valid(now),
    {
        match &self.attestation {
            Some(attestation) => {
                // An attestation from the future is not accepted
                if attestation.timestamp > now {
                    return false;
                }
                // Check if attestation is not expired
                if attestation.is_outdated_at(now) {
                    return false;
                }
                // Verify attestation algorithm
                if !str_eq(attestation.algorithm.as_str(), DEFAULT_ATTESTATION_ALGORITHM) {
                    return false;
                }
                // Verify capability hash matches
                if !self.verify_capability_hash() {
                    return false;
                }
                // A real deployment verifies the signature against the public
                // key here; this check only asks that both are present.
                !attestation.signature.as_str().is_empty()
                    && !attestation.public_key.as_str().is_empty()
            },
            None => false,
        }
    }

    /// Check if attestation is valid and not tampered with, now by the
    /// system clock.
    pub fn verify_attestation_integrity(&self) -> (valid: bool)
        ensures
            exists|now: u64| valid == #[trigger] self@.attestation_is_valid(now),
            self@.attestation is None ==> !valid,
            !self@.hash_matches() ==> !valid,
    {
        let now = unix_time_now();
        let valid = self.verify_attestation_integrity_at(now);
        assert(valid == self@.attestation_is_valid(now));
        valid
    }

    /// Verify capability attestation at the time `now`.
    pub fn verify_attestation_at(&self, now: u64) -> (valid: bool)
        ensures
            valid == self@.attestation_is_valid(now),
    {
        self.verify_attestation_integrity_at(now)
    }

    /// Verify capability attestation now, by the system clock.
    pub fn verify_attestation(&self) -> (valid: bool)
        ensures
            exists|now: u64| valid == #[trigger] self@.attestation_is_valid(now),
            self@.attestation is None ==> !valid,
            !self@.hash_matches() ==> !valid,
    {
        self.verify_attestation_integrity()
    }
}

/// Attestation manager for handling multiple attestations
pub struct AttestationManager {
    /// Tool names and their attestations
    attestations: KeyedStore<CapabilityAttestation>,
}

impl View for AttestationManager {
    type V = Map<Seq<char>, AttestationView>;

    /// The attestations by tool name.
    open spec fn view(&self) -> Map<Seq<char>, AttestationView> {
        map_of(self.tool_names(), self.attestations())
    }
}

impl AttestationManager {
    /// The tool names, in the order in which they first came in.
    pub closed spec fn tool_names(&self) -> Seq<Seq<char>> {
        self.attestations.keys()
    }

    /// What the attestations hold, in the order of their tool names.
    pub closed spec fn attestations(&self) -> Seq<AttestationView> {
        self.attestations.values().map_values(|a: CapabilityAttestation| a@)
    }

    /// Create a new attestation manager
    pub fn new() -> (manager: Self)
        ensures
            manager.tool_names() == Seq::<Seq<char>>::empty(),
            manager.attestations() == Seq::<AttestationView>::empty(),
            manager@ == Map::<Seq<char>, AttestationView>::empty(),
    {
        let manager = AttestationManager { attestations: KeyedStore::new() };
        assert(manager.attestations() =~= Seq::<AttestationView>::empty());
        assert(manager@ =~= Map::<Seq<char>, AttestationView>::empty());
        manager
    }

    /// Add an attestation for a tool. An attestation already held for the
    /// tool is replaced.
    pub fn add_attestation(&mut self, tool_name: String, attestation: CapabilityAttestation)
        ensures
            is_insertion(
                old(self).tool_names(),
                old(self).attestations(),
                tool_name@,
                attestation@,
                final(self).tool_names(),
                final(self).attestations(),
            ),
            final(self)@ == old(self)@.insert(tool_name@, attestation@),
    {
        let ghost each = |a: CapabilityAttestation| a@;
        let ghost keys = self.attestations.keys();
        let ghost values = self.attestations.values();
        self.attestations.insert(tool_name, attestation);
        proof {
            lemma_mapped_insert(
                keys,
                values,
                tool_name@,
                attestation,
                self.attestations.keys(),
                self.attestations.values(),
                each,
            );
            match crate::store::position_of(keys, tool_name@) {
                Some(i) => {
                    assert(self.attestations() =~= old(self).attestations().update(
                        i,
                        attestation@,
                    ));
                },
                None => {
                    assert(self.attestations() =~= old(self).attestations().push(attestation@));
                },
            }
        }
    }

    /// Get attestation for a tool
    pub fn get_attestation(&self, tool_name: &str) -> (attestation: Option<&CapabilityAttestation>)
        ensures
            match attestation {
                Some(a) => self@.contains_key(tool_name@) && a@ == self@[tool_name@],
                None => !self@.contains_key(tool_name@),
            },
    {
        let attestation = self.attestations.get(tool_name);
        proof {
            lemma_mapped_lookup(
                self.attestations.keys(),
                self.attestations.values(),
                tool_name@,
                |a: CapabilityAttestation| a@,
            );
        }
        attestation
    }

    /// Verify all attestations are valid at the time `now`.
    pub fn verify_all_attestations_at(&self, now: u64) -> (valid: bool)
        ensures
            valid == all_acceptable(self.attestations(), now),
    {
        let ghost views = self.attestations();
        let n = self.attestations.len();
        let mut i: usize = 0;
        while i < n
            invariant
                i <= n,
                n == self.attestations.values().len(),
                views == self.attestations(),
                forall|j: int| 0 <= j < i ==> (#[trigger] views[j]).is_acceptable(now),
            decreases n - i,
        {
            let attestation = self.attestations.value_at(i);
            assert(views[i as int] == attestation@);
            if !attestation.is_acceptable_at(now) {
                return false;
            }
            i += 1;
        }
        true
    }

    /// Verify all attestations are valid now, by the system clock.
    pub fn verify_all_attestations(&self) -> (valid: bool)
        ensures
            exists|now: u64| valid == #[trigger] all_acceptable(self.attestations(), now),
    {
        let now = unix_time_now();
        let valid = self.verify_all_attestations_at(now);
        assert(valid == all_acceptable(self.attestations(), now));
        valid
    }

    /// Get the names of the tools whose attestation is outdated at the time
    /// `now`, in the order in which the names came in.
    pub fn get_expired_attestations_at(&self, now: u64) -> (expired: Vec<String>)
        ensures
            expired.deep_view() == outdated_names(self.tool_names(), self.attestations(), now),
    {
        let ghost names = self.tool_names();
        let ghost views = self.attestations();
        let n = self.attestations.len();
        let mut expired: Vec<String> = Vec::new();
        assert(expired.deep_view() =~= Seq::<Seq<char>>::empty());
        let mut i: usize = 0;
        while i < n
            invariant
                i <= n,
                n == names.len(),
                n == views.len(),
                names == self.tool_names(),
                views == self.attestations(),
                expired.deep_view() == outdated_names(
                    names.take(i as int),
                    views.take(i as int),
                    now,
                ),
            decreases n - i,
        {
            let attestation = self.attestations.value_at(i);
            let ghost so_far = expired.deep_view();
            proof {
                assert(names.take(i + 1).drop_last() =~= names.take(i as int));
                assert(views.take(i + 1).drop_last() =~= views.take(i as int));
                assert(views.take(i + 1).last() == attestation@);
            }
            if attestation.is_outdated_at(now) {
                expired.push(self.attestations.key_at(i).clone());
                assert(expired.deep_view() =~= so_far.push(names[i as int]));
            }
            i += 1;
        }
        proof {
            assert(names.take(i as int) =~= names);
            assert(views.take(i as int) =~= views);
        }
        expired
    }

    /// Get expired attestations now, by the system clock.
    pub fn get_expired_attestations(&self) -> (expired: Vec<String>)
        ensures
            exists|now: u64|
                expired.deep_view() == #[trigger] outdated_names(
                    self.tool_names(),
                    self.attestations(),
                    now,
                ),
    {
        let now = unix_time_now();
        let expired = self.get_expired_attestations_at(now);
        assert(expired.deep_view() == outdated_names(self.tool_names(), self.attestations(), now));
        expired
    }

    /// Remove attestation for a tool
    pub fn remove_attestation(&mut self, tool_name: &str) -> (removed: Option<
        CapabilityAttestation,
    >)
        ensures
            is_removal(
                old(self).tool_names(),
                old(self).attestations(),
                tool_name@,
                final(self).tool_names(),
                final(self).attestations(),
            ),
            final(self)@ == old(self)@.remove(tool_name@),
            match removed {
                Some(a) => old(self)@.contains_key(tool_name@) && a@ == old(self)@[tool_name@],
                None => !old(self)@.contains_key(tool_name@),
            },
    {
        let ghost each = |a: CapabilityAttestation| a@;
        let ghost keys = self.attestations.keys();
        let ghost values = self.attestations.values();
        let removed = self.attestations.remove(tool_name);
        proof {
            lemma_mapped_lookup(keys, values, tool_name@, each);
            lemma_mapped_remove(
                keys,
                values,
                tool_name@,
                self.attestations.keys(),
                self.attestations.values(),
                each,
            );
            match crate::store::position_of(keys, tool_name@) {
                Some(i) => {
                    assert(self.attestations() =~= old(self).attestations().remove(i));
                },
                None => {},
            }
        }
        removed
    }

    /// Clear all attestations
    pub fn clear_all(&mut self)
        ensures
            final(self).tool_names() == Seq::<Seq<char>>::empty(),
            final(self).attestations() == Seq::<AttestationView>::empty(),
            final(self)@ == Map::<Seq<char>, AttestationView>::empty(),
    {
        self.attestations.clear();
        assert(self.attestations() =~= Seq::<AttestationView>::empty());
        assert(self@ =~= Map::<Seq<char>, AttestationView>::empty());
    }

    /// Get count of attestations
    pub fn count(&self) -> (n: usize)
        ensures
            n == self.tool_names().len(),
            n == self.attestations().len(),
            n == self@.len(),
    {
        let n = self.attestations.len();
        proof {
            crate::store::lemma_map_of_len(self.tool_names(), self.attestations());
        }
        n
    }
}

impl Default for AttestationManager {
    fn default() -> (manager: Self)
        ensures
            manager@ == Map::<Seq<char>, AttestationView>::empty(),
    {
        Self::new()
    }
}

} // verus!
