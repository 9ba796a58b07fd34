//! What holds of the library as a whole: statements about the capability
//! hash, attestation, expiry, revocation and the matching of required tools.

use crate::constants::attestation_window_seconds;
use crate::model::{
    all_required_satisfied, lemma_all_required_concat, AttestationView, CapabilitiesView,
    ExpirationView, ToolCapabilityView,
};
use crate::text::{bool_text, decimal_text, digit_char, joined_text};
use crate::types::{CapabilityCategory, CapabilityPermissions};
use vstd::prelude::*;
use vstd::utf8::{encode_utf8, encode_utf8_decode_utf8};

verus! {

/// Whether two capabilities agree in everything that the capability hash is
/// taken of.
pub open spec fn same_hashed_fields(a: ToolCapabilityView, b: ToolCapabilityView) -> bool {
    &&& a.tool_name == b.tool_name
    &&& a.required == b.required
    &&& a.alternatives == b.alternatives
    &&& a.permissions == b.permissions
    &&& a.expiration.expires_at == b.expiration.expires_at
}

/// The capability hash is a function of the hashed fields alone:
/// capabilities that agree in name, requiredness, alternatives, permissions,
/// limits and time of expiry have the same hash, whatever their attestation
/// or revocation.
pub proof fn law_hash_is_deterministic(a: ToolCapabilityView, b: ToolCapabilityView)
    requires
        same_hashed_fields(a, b),
    ensures
        a.hash_input() == b.hash_input(),
        a.capability_hash() == b.capability_hash(),
{
}

/// Appending to texts keeps them apart where either the texts or what is
/// appended differ, and not both.
pub proof fn lemma_append_keeps_apart(a: Seq<char>, b: Seq<char>, u: Seq<char>, v: Seq<char>)
    requires
        (a != b) != (u != v),
    ensures
        a + u != b + v,
{
    let left = a + u;
    let right = b + v;
    if left == right {
        if a == b {
            assert(u.len() == v.len()) by {
                assert(left.len() == a.len() + u.len());
                assert(right.len() == b.len() + v.len());
            }
            assert forall|i: int| 0 <= i < u.len() implies u[i] == v[i] by {
                assert(left[a.len() + i] == u[i]);
                assert(right[a.len() + i] == v[i]);
            }
            assert(u =~= v);
        } else {
            assert(a.len() == b.len()) by {
                assert(left.len() == a.len() + u.len());
                assert(right.len() == b.len() + v.len());
            }
            assert forall|i: int| 0 <= i < a.len() implies a[i] == b[i] by {
                assert(left[i] == a[i]);
                assert(right[i] == b[i]);
            }
            assert(a =~= b);
        }
    }
}

/// The decimal rendering of a number has a digit, and two digits or more
/// from ten on.
pub proof fn lemma_decimal_text_len(n: nat)
    ensures
        decimal_text(n).len() >= 1,
        n >= 10 ==> decimal_text(n).len() >= 2,
    decreases n,
{
    if n >= 10 {
        lemma_decimal_text_len(n / 10);
    }
}

/// Different numbers have different decimal renderings.
pub proof fn lemma_decimal_text_is_injective(a: nat, b: nat)
    requires
        decimal_text(a) == decimal_text(b),
    ensures
        a == b,
    decreases a,
{
    lemma_decimal_text_len(a);
    lemma_decimal_text_len(b);
    if a < 10 {
        assert(decimal_text(a).len() == 1);
        assert(b < 10);
        assert(decimal_text(a)[0] == digit_char(a));
        assert(decimal_text(b)[0] == digit_char(b));
    } else {
        assert(b >= 10);
        let x = decimal_text(a / 10);
        let y = decimal_text(b / 10);
        assert(x.push(digit_char(a % 10)).last() == digit_char(a % 10));
        assert(y.push(digit_char(b % 10)).last() == digit_char(b % 10));
        assert(digit_char(a % 10) == digit_char(b % 10));
        assert(x.push(digit_char(a % 10)).drop_last() =~= x);
        assert(y.push(digit_char(b % 10)).drop_last() =~= y);
        assert(x == y);
        lemma_decimal_text_is_injective(a / 10, b / 10);
    }
}

/// In how many of the parts that the capability hash is taken of two
/// capabilities differ. The alternatives count as one part, and as
/// different where their joined texts differ.
pub open spec fn hashed_parts_differing(a: ToolCapabilityView, b: ToolCapabilityView) -> nat {
    let one = |differs: bool| if differs { 1nat } else { 0nat };
    one(a.tool_name != b.tool_name) + one(a.required != b.required) + one(
        joined_text(a.alternatives) != joined_text(b.alternatives),
    ) + one(a.permissions.filesystem_access != b.permissions.filesystem_access) + one(
        a.permissions.network_access != b.permissions.network_access,
    ) + one(a.permissions.process_spawn != b.permissions.process_spawn) + one(
        a.permissions.env_access != b.permissions.env_access,
    ) + one(a.permissions.system_access != b.permissions.system_access) + one(
        a.permissions.memory_limit_mb != b.permissions.memory_limit_mb,
    ) + one(a.permissions.cpu_limit_percent != b.permissions.cpu_limit_percent) + one(
        a.permissions.timeout_seconds != b.permissions.timeout_seconds,
    ) + one(a.expiration.expires_at != b.expiration.expires_at)
}

/// A change in one hashed part changes what is hashed: where two
/// capabilities differ in exactly one of name, requiredness, joined
/// alternatives, a permission scope, a limit or the time of expiry, the
/// texts that their hashes are taken of differ, and so do the bytes of
/// those texts.
pub proof fn law_hash_input_tells_parts_apart(a: ToolCapabilityView, b: ToolCapabilityView)
    requires
        hashed_parts_differing(a, b) == 1,
    ensures
        a.hash_input() != b.hash_input(),
        encode_utf8(a.hash_input()) != encode_utf8(b.hash_input()),
{
    let p = a.permissions;
    let q = b.permissions;
    let t0 = a.tool_name;
    let t1 = bool_text(a.required);
    let t2 = joined_text(a.alternatives);
    let t3 = bool_text(p.filesystem_access);
    let t4 = bool_text(p.network_access);
    let t5 = bool_text(p.process_spawn);
    let t6 = bool_text(p.env_access);
    let t7 = bool_text(p.system_access);
    let t8 = decimal_text(p.memory_limit_mb as nat);
    let t9 = decimal_text(p.cpu_limit_percent as nat);
    let t10 = decimal_text(p.timeout_seconds as nat);
    let t11 = decimal_text(a.expiration.expires_at as nat);
    let u0 = b.tool_name;
    let u1 = bool_text(b.required);
    let u2 = joined_text(b.alternatives);
    let u3 = bool_text(q.filesystem_access);
    let u4 = bool_text(q.network_access);
    let u5 = bool_text(q.process_spawn);
    let u6 = bool_text(q.env_access);
    let u7 = bool_text(q.system_access);
    let u8 = decimal_text(q.memory_limit_mb as nat);
    let u9 = decimal_text(q.cpu_limit_percent as nat);
    let u10 = decimal_text(q.timeout_seconds as nat);
    let u11 = decimal_text(b.expiration.expires_at as nat);
    assert(bool_text(true).len() != bool_text(false).len());
    if p.memory_limit_mb != q.memory_limit_mb && t8 == u8 {
        lemma_decimal_text_is_injective(p.memory_limit_mb as nat, q.memory_limit_mb as nat);
    }
    if p.cpu_limit_percent != q.cpu_limit_percent && t9 == u9 {
        lemma_decimal_text_is_injective(p.cpu_limit_percent as nat, q.cpu_limit_percent as nat);
    }
    if p.timeout_seconds != q.timeout_seconds && t10 == u10 {
        lemma_decimal_text_is_injective(p.timeout_seconds as nat, q.timeout_seconds as nat);
    }
    if a.expiration.expires_at != b.expiration.expires_at && t11 == u11 {
        lemma_decimal_text_is_injective(
            a.expiration.expires_at as nat,
            b.expiration.expires_at as nat,
        );
    }
    let x1 = t0 + t1;
    let y1 = u0 + u1;
    if (t0 != u0) != (t1 != u1) {
        lemma_append_keeps_apart(t0, u0, t1, u1);
    }
    let x2 = x1 + t2;
    let y2 = y1 + u2;
    if (x1 != y1) != (t2 != u2) {
        lemma_append_keeps_apart(x1, y1, t2, u2);
    }
    let x3 = x2 + t3;
    let y3 = y2 + u3;
    if (x2 != y2) != (t3 != u3) {
        lemma_append_keeps_apart(x2, y2, t3, u3);
    }
    let x4 = x3 + t4;
    let y4 = y3 + u4;
    if (x3 != y3) != (t4 != u4) {
        lemma_append_keeps_apart(x3, y3, t4, u4);
    }
    let x5 = x4 + t5;
    let y5 = y4 + u5;
    if (x4 != y4) != (t5 != u5) {
        lemma_append_keeps_apart(x4, y4, t5, u5);
    }
    let x6 = x5 + t6;
    let y6 = y5 + u6;
    if (x5 != y5) != (t6 != u6) {
        lemma_append_keeps_apart(x5, y5, t6, u6);
    }
    let x7 = x6 + t7;
    let y7 = y6 + u7;
    if (x6 != y6) != (t7 != u7) {
        lemma_append_keeps_apart(x6, y6, t7, u7);
    }
    let x8 = x7 + t8;
    let y8 = y7 + u8;
    if (x7 != y7) != (t8 != u8) {
        lemma_append_keeps_apart(x7, y7, t8, u8);
    }
    let x9 = x8 + t9;
    let y9 = y8 + u9;
    if (x8 != y8) != (t9 != u9) {
        lemma_append_keeps_apart(x8, y8, t9, u9);
    }
    let x10 = x9 + t10;
    let y10 = y9 + u10;
    if (x9 != y9) != (t10 != u10) {
        lemma_append_keeps_apart(x9, y9, t10, u10);
    }
    let x11 = x10 + t11;
    let y11 = y10 + u11;
    if (x10 != y10) != (t11 != u11) {
        lemma_append_keeps_apart(x10, y10, t11, u11);
    }
    assert(x11 == a.hash_input());
    assert(y11 == b.hash_input());
    assert(x11 != y11);
    encode_utf8_decode_utf8(x11);
    encode_utf8_decode_utf8(y11);
}

/// An attestation issued for a capability matches it: once the attestation
/// is attached, the capability's hash is the attested one, and the
/// attestation holds from its issue to the end of the attestation window.
/// Before its issue it does not hold.
pub proof fn law_issued_attestation_matches(
    tool: ToolCapabilityView,
    signer_private_key: Seq<char>,
    attester: Seq<char>,
    issued: u64,
    now: u64,
)
    ensures
        tool.with_attestation(
            tool.attestation_at(signer_private_key, attester, issued),
        ).hash_matches(),
        tool.with_attestation(
            tool.attestation_at(signer_private_key, attester, issued),
        ).attestation_is_valid(now) <==> issued <= now && now - issued
            <= attestation_window_seconds(),
{
    let attestation = tool.attestation_at(signer_private_key, attester, issued);
    let attested = tool.with_attestation(attestation);
    law_hash_is_deterministic(tool, attested);
    reveal_strlit("signature_");
    reveal_strlit("pubkey_");
    assert(attestation.signature.len() > 0);
    assert(attestation.public_key.len() > 0);
}

/// A capability is expired exactly from the second after its time of
/// expiry: one that expires a second before `now` is expired at `now`, one
/// that expires at `now` or a second after is not.
pub proof fn law_expiry_boundary(tool: ToolCapabilityView, now: u64)
    ensures
        tool.is_expired(now) <==> now > tool.expiration.expires_at,
        tool.expiration.expires_at == now - 1 ==> tool.is_expired(now),
        tool.expiration.expires_at == now ==> !tool.is_expired(now),
        tool.expiration.expires_at == now + 1 ==> !tool.is_expired(now),
{
}

/// Revocation is permanent. A revoked capability stays revoked when its
/// alternatives, attestation, permissions or expiration are set and when it
/// is revoked again. A new expiration record changes its time of expiry and
/// leaves reason, time and revoker of the revocation as they are. A revoked
/// capability is satisfied at no time, whatever is available.
pub proof fn law_revocation_is_permanent(
    tool: ToolCapabilityView,
    alternatives: Seq<Seq<char>>,
    attestation: AttestationView,
    permissions: CapabilityPermissions,
    expiration: ExpirationView,
    reason: Seq<char>,
    revoked_by: Seq<char>,
    now: u64,
)
    requires
        tool.is_revoked(),
    ensures
        tool.with_alternatives(alternatives).is_revoked(),
        tool.with_attestation(attestation).is_revoked(),
        tool.with_permissions(permissions).is_revoked(),
        tool.revoke(reason, revoked_by, now).is_revoked(),
        tool.revoke(reason, revoked_by, now).expiration.is_consistent(),
        tool.with_expiration(expiration).is_revoked(),
        tool.with_expiration(expiration).expiration == (ExpirationView {
            expires_at: expiration.expires_at,
            ..tool.expiration
        }),
        forall|at: u64, available: Set<Seq<char>>| !#[trigger] tool.is_satisfied(at, available),
{
}

/// One of the operations that give a capability a new value.
pub enum ToolOperation {
    SetAlternatives { alternatives: Seq<Seq<char>> },
    SetAttestation { attestation: AttestationView },
    SetPermissions { permissions: CapabilityPermissions },
    SetExpiration { expiration: ExpirationView },
    Revoke { reason: Seq<char>, revoked_by: Seq<char>, now: u64 },
}

/// The capability after one operation.
pub open spec fn after_operation(
    tool: ToolCapabilityView,
    operation: ToolOperation,
) -> ToolCapabilityView {
    match operation {
        ToolOperation::SetAlternatives { alternatives } => tool.with_alternatives(alternatives),
        ToolOperation::SetAttestation { attestation } => tool.with_attestation(attestation),
        ToolOperation::SetPermissions { permissions } => tool.with_permissions(permissions),
        ToolOperation::SetExpiration { expiration } => tool.with_expiration(expiration),
        ToolOperation::Revoke { reason, revoked_by, now } => tool.revoke(reason, revoked_by, now),
    }
}

/// The capability after a run of operations, one after the other.
pub open spec fn after_operations(
    tool: ToolCapabilityView,
    operations: Seq<ToolOperation>,
) -> ToolCapabilityView
    decreases operations.len(),
{
    if operations.len() == 0 {
        tool
    } else {
        after_operation(after_operations(tool, operations.drop_last()), operations.last())
    }
}

/// Revocation is terminal: whatever operations follow, in whatever order, a
/// revoked capability is revoked after them. Where none of them is a
/// revocation, reason, time and revoker are still those of the revocation.
pub proof fn law_revocation_is_terminal(tool: ToolCapabilityView, operations: Seq<ToolOperation>)
    requires
        tool.is_revoked(),
    ensures
        after_operations(tool, operations).is_revoked(),
        (forall|i: int| 0 <= i < operations.len() ==> !(#[trigger] operations[i] is Revoke)) ==> {
            let after = after_operations(tool, operations).expiration;
            &&& after.revocation_reason == tool.expiration.revocation_reason
            &&& after.revoked_at == tool.expiration.revoked_at
            &&& after.revoked_by == tool.expiration.revoked_by
        },
    decreases operations.len(),
{
    if operations.len() > 0 {
        let earlier = operations.drop_last();
        law_revocation_is_terminal(tool, earlier);
        if forall|i: int| 0 <= i < operations.len() ==> !(#[trigger] operations[i] is Revoke) {
            assert forall|i: int| 0 <= i < earlier.len() implies !(#[trigger] earlier[i]
                is Revoke) by {
                assert(earlier[i] == operations[i]);
            }
            assert(!(operations[operations.len() - 1] is Revoke));
        }
    }
}

/// The revocation record stays consistent: where reason, time and revoker
/// of a capability are present exactly when it is revoked, that still holds
/// after its alternatives, attestation or permissions are set and after a
/// consistent expiration record is set, and it holds after every
/// revocation, whatever the record was before.
pub proof fn law_revocation_record_stays_consistent(
    tool: ToolCapabilityView,
    alternatives: Seq<Seq<char>>,
    attestation: AttestationView,
    permissions: CapabilityPermissions,
    expiration: ExpirationView,
    reason: Seq<char>,
    revoked_by: Seq<char>,
    now: u64,
)
    ensures
        tool.revoke(reason, revoked_by, now).expiration.is_consistent(),
        tool.expiration.is_consistent() ==> {
            &&& tool.with_alternatives(alternatives).expiration.is_consistent()
            &&& tool.with_attestation(attestation).expiration.is_consistent()
            &&& tool.with_permissions(permissions).expiration.is_consistent()
            &&& expiration.is_consistent() ==> tool.with_expiration(
                expiration,
            ).expiration.is_consistent()
        },
        ExpirationView::starting_at(now).is_consistent(),
{
}

/// Adding a tool to a bundle leaves the tools that the bundle holds
/// already as they are, revoked ones included.
pub proof fn law_adding_keeps_tools(
    bundle: CapabilitiesView,
    category: CapabilityCategory,
    tool: ToolCapabilityView,
    i: int,
)
    requires
        0 <= i < bundle.tools_in(category).len(),
    ensures
        bundle.with_tool(category, tool).tools_in(category)[i] == bundle.tools_in(category)[i],
        forall|other: CapabilityCategory|
            other != category ==> #[trigger] bundle.with_tool(category, tool).tools_in(other)
                == bundle.tools_in(other),
{
}

/// Optional tools never block: adding a tool that is not required leaves
/// the answer on the required tools as it was. Adding a required tool keeps
/// the answer exactly where that tool is satisfied.
pub proof fn law_optional_tools_never_block(
    bundle: CapabilitiesView,
    category: CapabilityCategory,
    tool: ToolCapabilityView,
    now: u64,
    available: Set<Seq<char>>,
)
    ensures
        bundle.with_tool(category, tool).has_all_required_tools(now, available) == (
        bundle.has_all_required_tools(now, available) && (tool.required ==> tool.is_satisfied(
            now,
            available,
        ))),
{
    let one = seq![tool];
    let a = bundle.static_analysis_tools;
    let b = bundle.security_scanning_tools;
    let c = bundle.dynamic_analysis_tools;
    let d = bundle.fuzzing_tools;
    let e = bundle.test_framework_tools;
    let after = bundle.with_tool(category, tool);
    let a2 = after.static_analysis_tools;
    let b2 = after.security_scanning_tools;
    let c2 = after.dynamic_analysis_tools;
    let d2 = after.fuzzing_tools;
    let e2 = after.test_framework_tools;
    assert(all_required_satisfied(one, now, available) == (tool.required ==> tool.is_satisfied(
        now,
        available,
    ))) by {
        assert(one[0] == tool);
    }
    lemma_all_required_concat(a, one, now, available);
    lemma_all_required_concat(b, one, now, available);
    lemma_all_required_concat(c, one, now, available);
    lemma_all_required_concat(d, one, now, available);
    lemma_all_required_concat(e, one, now, available);
    assert(a.push(tool) =~= a + one);
    assert(b.push(tool) =~= b + one);
    assert(c.push(tool) =~= c + one);
    assert(d.push(tool) =~= d + one);
    assert(e.push(tool) =~= e + one);
    lemma_all_required_concat(a, b, now, available);
    lemma_all_required_concat(a + b, c, now, available);
    lemma_all_required_concat(a + b + c, d, now, available);
    lemma_all_required_concat(a + b + c + d, e, now, available);
    lemma_all_required_concat(a2, b2, now, available);
    lemma_all_required_concat(a2 + b2, c2, now, available);
    lemma_all_required_concat(a2 + b2 + c2, d2, now, available);
    lemma_all_required_concat(a2 + b2 + c2 + d2, e2, now, available);
}

} // verus!
