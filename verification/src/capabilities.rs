//! The bundle of capabilities that one worker declares.

use crate::checker::{answers_any_name, answers_match};
use crate::clock::unix_time_now;
use crate::constants::{
    CAPABILITY_DYNAMIC_ANALYSIS, CAPABILITY_FUZZING, CAPABILITY_SECURITY_SCANNING,
    CAPABILITY_STATIC_ANALYSIS, CAPABILITY_TEST_FRAMEWORK,
};
use crate::model::{
    all_required_satisfied, all_revoked, all_trusted, any_grants, any_satisfied, category_named,
    count_attested, count_required, distinct_onto, is_revocation_of, is_trusted,
    lemma_all_required_concat, lemma_all_trusted_concat, lemma_count_attested_concat,
    lemma_count_required_concat, lemma_distinct_onto_concat, lemma_names_of_concat,
    lemma_reports_onto_concat, names_of, primary_names, reports_onto, CapabilitiesView,
    SecurityReportView, StatisticsView, ToolCapabilityView,
};
use crate::store::{lemma_mapped_insert, lemma_mapped_lookup, map_of, KeyedStore};
use crate::text::str_eq;
use crate::types::{CapabilityCategory, CapabilitySecurityReport, ToolCapability};
use vstd::prelude::*;

verus! {

/// What each of `tools` holds.
pub open spec fn tool_views(tools: Seq<ToolCapability>) -> Seq<ToolCapabilityView> {
    tools.map_values(|tool: ToolCapability| tool@)
}

/// The metadata of a bundle as a map from key to text.
pub open spec fn metadata_view(metadata: KeyedStore<String>) -> Map<Seq<char>, Seq<char>> {
    map_of(metadata.keys(), metadata.values().map_values(|held: String| held@))
}

/// Capabilities for a worker or component
#[derive(Debug)]
pub struct Capabilities {
    /// Identifier for this capability set
    pub id: String,
    /// Static analysis tools
    pub static_analysis_tools: Vec<ToolCapability>,
    /// Security scanning tools
    pub security_scanning_tools: Vec<ToolCapability>,
    /// Dynamic analysis tools
    pub dynamic_analysis_tools: Vec<ToolCapability>,
    /// Fuzzing tools
    pub fuzzing_tools: Vec<ToolCapability>,
    /// Test framework tools
    pub test_framework_tools: Vec<ToolCapability>,
    /// Additional capability flags
    pub flags: KeyedStore<bool>,
    /// Custom metadata
    pub metadata: KeyedStore<String>,
}

/// A copy of each of `tools`, in order.
fn clone_tools(tools: &Vec<ToolCapability>) -> (copy: Vec<ToolCapability>)
    ensures
        tool_views(copy@) == tool_views(tools@),
{
    let mut copy: Vec<ToolCapability> = Vec::new();
    let mut i: usize = 0;
    while i < tools.len()
        invariant
            i <= tools.len(),
            copy@.len() == i,
            forall|j: int| 0 <= j < i ==> copy@[j]@ == tools@[j]@,
        decreases tools.len() - i,
    {
        copy.push(tools[i].clone());
        i += 1;
    }
    assert(tool_views(copy@) =~= tool_views(tools@));
    copy
}

impl Clone for Capabilities {
    fn clone(&self) -> (copy: Self)
        ensures
            copy@ == self@,
    {
        let flags = self.flags.clone();
        let metadata = self.metadata.clone();
        proof {
            assert(flags.values() =~= self.flags.values());
            assert(metadata.values().map_values(|value: String| value@)
                =~= self.metadata.values().map_values(|value: String| value@));
        }
        Capabilities {
            id: self.id.clone(),
            static_analysis_tools: clone_tools(&self.static_analysis_tools),
            security_scanning_tools: clone_tools(&self.security_scanning_tools),
            dynamic_analysis_tools: clone_tools(&self.dynamic_analysis_tools),
            fuzzing_tools: clone_tools(&self.fuzzing_tools),
            test_framework_tools: clone_tools(&self.test_framework_tools),
            flags,
            metadata,
        }
    }
}

impl View for Capabilities {
    type V = CapabilitiesView;

    open spec fn view(&self) -> CapabilitiesView {
        CapabilitiesView {
            id: self.id@,
            static_analysis_tools: tool_views(self.static_analysis_tools@),
            security_scanning_tools: tool_views(self.security_scanning_tools@),
            dynamic_analysis_tools: tool_views(self.dynamic_analysis_tools@),
            fuzzing_tools: tool_views(self.fuzzing_tools@),
            test_framework_tools: tool_views(self.test_framework_tools@),
            flags: self.flags@,
            metadata: metadata_view(self.metadata),
        }
    }
}

/// The category with the given name, if the name is that of a category.
pub fn parse_category(name: &str) -> (category: Option<CapabilityCategory>)
    ensures
        category == category_named(name@),
{
    if str_eq(name, CAPABILITY_STATIC_ANALYSIS) {
        Some(CapabilityCategory::StaticAnalysis)
    } else if str_eq(name, CAPABILITY_SECURITY_SCANNING) {
        Some(CapabilityCategory::SecurityScanning)
    } else if str_eq(name, CAPABILITY_DYNAMIC_ANALYSIS) {
        Some(CapabilityCategory::DynamicAnalysis)
    } else if str_eq(name, CAPABILITY_FUZZING) {
        Some(CapabilityCategory::Fuzzing)
    } else if str_eq(name, CAPABILITY_TEST_FRAMEWORK) {
        Some(CapabilityCategory::TestFramework)
    } else {
        None
    }
}

/// Whether one of `tools` is satisfied at `now`.
fn any_satisfied_in<F: Fn(&str) -> bool>(
    tools: &Vec<ToolCapability>,
    tool_checker: &F,
    now: u64,
) -> (found: bool)
    requires
        answers_any_name(tool_checker),
    ensures
        forall|available: Set<Seq<char>>| #[trigger]
            answers_match(tool_checker, available) ==> found == any_satisfied(
                tool_views(tools@),
                now,
                available,
            ),
{
    let ghost views = tool_views(tools@);
    let mut i: usize = 0;
    while i < tools.len()
        invariant
            i <= tools.len(),
            views == tool_views(tools@),
            answers_any_name(tool_checker),
            forall|available: Set<Seq<char>>, j: int|
                #![trigger answers_match(tool_checker, available), views[j]]
                answers_match(tool_checker, available) && 0 <= j < i ==> !views[j].is_satisfied(
                    now,
                    available,
                ),
        decreases tools.len() - i,
    {
        if tools[i].is_satisfied_at(tool_checker, now) {
            assert forall|available: Set<Seq<char>>| #[trigger]
                answers_match(tool_checker, available) implies any_satisfied(
                views,
                now,
                available,
            ) by {
                assert(views[i as int].is_satisfied(now, available));
            }
            return true;
        }
        i += 1;
    }
    false
}

/// Whether every required tool among `tools` is satisfied at `now`.
fn required_satisfied_in<F: Fn(&str) -> bool>(
    tools: &Vec<ToolCapability>,
    tool_checker: &F,
    now: u64,
) -> (satisfied: bool)
    requires
        answers_any_name(tool_checker),
    ensures
        forall|available: Set<Seq<char>>| #[trigger]
            answers_match(tool_checker, available) ==> satisfied == all_required_satisfied(
                tool_views(tools@),
                now,
                available,
            ),
{
    let ghost views = tool_views(tools@);
    let mut i: usize = 0;
    while i < tools.len()
        invariant
            i <= tools.len(),
            views == tool_views(tools@),
            answers_any_name(tool_checker),
            forall|available: Set<Seq<char>>, j: int|
                #![trigger answers_match(tool_checker, available), views[j]]
                answers_match(tool_checker, available) && 0 <= j < i && views[j].required
                    ==> views[j].is_satisfied(now, available),
        decreases tools.len() - i,
    {
        if tools[i].required && !tools[i].is_satisfied_at(tool_checker, now) {
            assert forall|available: Set<Seq<char>>| #[trigger]
                answers_match(tool_checker, available) implies !all_required_satisfied(
                views,
                now,
                available,
            ) by {
                assert(views[i as int].required && !views[i as int].is_satisfied(now, available));
            }
            return false;
        }
        i += 1;
    }
    true
}

/// Whether every one of `tools` can be trusted at `now`.
fn all_trusted_in(tools: &Vec<ToolCapability>, now: u64) -> (trusted: bool)
    ensures
        trusted == all_trusted(tool_views(tools@), now),
{
    let ghost views = tool_views(tools@);
    let mut i: usize = 0;
    while i < tools.len()
        invariant
            i <= tools.len(),
            views == tool_views(tools@),
            forall|j: int| 0 <= j < i ==> is_trusted(#[trigger] views[j], now),
        decreases tools.len() - i,
    {
        let tool = &tools[i];
        assert(views[i as int] == tool@);
        // Check if capability is expired
        if tool.is_expired_at(now) {
            return false;
        }
        // Check if capability is revoked
        if tool.is_revoked() {
            return false;
        }
        // Check if capability is attested
        if !tool.verify_attestation_at(now) {
            return false;
        }
        i += 1;
    }
    true
}

/// Whether one of `tools` grants the permission called `permission`.
fn any_grants_in(tools: &Vec<ToolCapability>, permission: &str) -> (granted: bool)
    ensures
        granted == any_grants(tool_views(tools@), permission@),
{
    let ghost views = tool_views(tools@);
    let mut i: usize = 0;
    while i < tools.len()
        invariant
            i <= tools.len(),
            views == tool_views(tools@),
            forall|j: int| 0 <= j < i ==> !(#[trigger] views[j]).has_permission(permission@),
        decreases tools.len() - i,
    {
        if tools[i].has_permission(permission) {
            assert(views[i as int].has_permission(permission@));
            return true;
        }
        i += 1;
    }
    false
}

/// Appends the name of each of `tools`, followed by its alternatives.
fn append_names(out: &mut Vec<String>, tools: &Vec<ToolCapability>)
    ensures
        final(out).deep_view() == old(out).deep_view() + names_of(tool_views(tools@)),
{
    let ghost views = tool_views(tools@);
    let mut i: usize = 0;
    while i < tools.len()
        invariant
            i <= tools.len(),
            views == tool_views(tools@),
            out.deep_view() == old(out).deep_view() + names_of(views.take(i as int)),
        decreases tools.len() - i,
    {
        let tool = &tools[i];
        let ghost before = out.deep_view();
        proof {
            assert(views.take(i + 1).drop_last() =~= views.take(i as int));
            assert(views.take(i + 1).last() == tool@);
        }
        out.push(tool.tool_name.clone());
        assert(out.deep_view() =~= before.push(tool@.tool_name));
        let mut j: usize = 0;
        while j < tool.alternatives.len()
            invariant
                j <= tool.alternatives.len(),
                out.deep_view() == before.push(tool@.tool_name) + tool@.alternatives.take(
                    j as int,
                ),
            decreases tool.alternatives.len() - j,
        {
            let ghost so_far = out.deep_view();
            out.push(tool.alternatives[j].clone());
            assert(out.deep_view() =~= so_far.push(tool.alternatives[j as int]@));
            j += 1;
            assert(out.deep_view() =~= before.push(tool@.tool_name) + tool@.alternatives.take(
                j as int,
            ));
        }
        assert(tool@.alternatives.take(j as int) =~= tool@.alternatives);
        i += 1;
        assert(out.deep_view() =~= old(out).deep_view() + names_of(views.take(i as int)));
    }
    assert(views.take(i as int) =~= views);
}

/// What each report of a set of security reports holds, by tool name.
pub open spec fn report_views(reports: KeyedStore<CapabilitySecurityReport>) -> Map<
    Seq<char>,
    SecurityReportView,
> {
    map_of(reports.keys(), reports.values().map_values(|r: CapabilitySecurityReport| r@))
}

/// Revokes each of `tools` for the same reason and by the same revoker; the
/// clock is read once for each tool.
fn revoke_each(tools: &mut Vec<ToolCapability>, reason: &String, revoked_by: &String)
    ensures
        all_revoked(tool_views(old(tools)@), tool_views(final(tools)@), reason@, revoked_by@),
{
    let ghost before = tool_views(tools@);
    let mut i: usize = 0;
    while i < tools.len()
        invariant
            i <= tools.len(),
            tools@.len() == before.len(),
            forall|j: int|
                0 <= j < i ==> #[trigger] is_revocation_of(
                    before[j],
                    tools@[j]@,
                    reason@,
                    revoked_by@,
                ),
            forall|j: int| i <= j < tools@.len() ==> (#[trigger] tools@[j])@ == before[j],
        decreases tools.len() - i,
    {
        let ghost earlier = tools@;
        tools[i].revoke(reason.clone(), revoked_by.clone());
        proof {
            assert forall|j: int| 0 <= j < i + 1 implies #[trigger] is_revocation_of(
                before[j],
                tools@[j]@,
                reason@,
                revoked_by@,
            ) by {
                if j < i {
                    assert(tools@[j] == earlier[j]);
                    assert(is_revocation_of(before[j], earlier[j]@, reason@, revoked_by@));
                } else {
                    assert(earlier[j]@ == before[j]);
                }
            }
        }
        i += 1;
    }
    proof {
        let after = tool_views(tools@);
        assert forall|j: int| 0 <= j < before.len() implies #[trigger] is_revocation_of(
            before[j],
            after[j],
            reason@,
            revoked_by@,
        ) by {
            assert(is_revocation_of(before[j], tools@[j]@, reason@, revoked_by@));
        }
    }
}

/// Adds the security report on each of `tools` at `now`, under the tool's
/// name.
fn add_reports(
    reports: &mut KeyedStore<CapabilitySecurityReport>,
    tools: &Vec<ToolCapability>,
    now: u64,
)
    ensures
        report_views(*final(reports)) == reports_onto(
            report_views(*old(reports)),
            tool_views(tools@),
            now,
        ),
        final(reports).keys() == distinct_onto(
            old(reports).keys(),
            primary_names(tool_views(tools@)),
        ),
{
    let ghost views = tool_views(tools@);
    let ghost base = report_views(*reports);
    let ghost base_keys = reports.keys();
    let ghost names = primary_names(views);
    let ghost each = |r: CapabilitySecurityReport| r@;
    let mut i: usize = 0;
    while i < tools.len()
        invariant
            i <= tools.len(),
            views == tool_views(tools@),
            each == |r: CapabilitySecurityReport| r@,
            names == primary_names(views),
            report_views(*reports) == reports_onto(base, views.take(i as int), now),
            reports.keys() == distinct_onto(base_keys, names.take(i as int)),
        decreases tools.len() - i,
    {
        let tool = &tools[i];
        let security_report = CapabilitySecurityReport {
            tool_name: tool.tool_name.clone(),
            has_attestation: tool.attestation.is_some(),
            attestation_verified: tool.verify_attestation_at(now),
            is_expired: tool.is_expired_at(now),
            is_revoked: tool.is_revoked(),
            permissions: tool.permissions.clone(),
            expiration: tool.expiration.clone(),
        };
        let ghost before = *reports;
        proof {
            assert(views.take(i + 1).drop_last() =~= views.take(i as int));
            assert(views.take(i + 1).last() == tool@);
            assert(security_report@ == tool@.report(now));
            assert(names.take(i + 1).drop_last() =~= names.take(i as int));
            assert(names.take(i + 1).last() == tool@.tool_name);
        }
        reports.insert(tool.tool_name.clone(), security_report);
        proof {
            lemma_mapped_insert(
                before.keys(),
                before.values(),
                tool@.tool_name,
                security_report,
                reports.keys(),
                reports.values(),
                each,
            );
        }
        i += 1;
    }
    assert(views.take(i as int) =~= views);
    assert(names.take(i as int) =~= names);
}

/// How many of `tools` are required.
fn count_required_in(tools: &Vec<ToolCapability>) -> (count: usize)
    ensures
        count == count_required(tool_views(tools@)),
        count <= tools@.len(),
{
    let ghost views = tool_views(tools@);
    let mut count: usize = 0;
    let mut i: usize = 0;
    while i < tools.len()
        invariant
            i <= tools.len(),
            views == tool_views(tools@),
            count == count_required(views.take(i as int)),
            count <= i,
        decreases tools.len() - i,
    {
        proof {
            assert(views.take(i + 1).drop_last() =~= views.take(i as int));
            assert(views.take(i + 1).last() == tools@[i as int]@);
        }
        if tools[i].required {
            count += 1;
        }
        i += 1;
    }
    assert(views.take(i as int) =~= views);
    count
}

/// How many of `tools` carry an attestation that holds at `now`.
fn count_attested_in(tools: &Vec<ToolCapability>, now: u64) -> (count: usize)
    ensures
        count == count_attested(tool_views(tools@), now),
        count <= tools@.len(),
{
    let ghost views = tool_views(tools@);
    let mut count: usize = 0;
    let mut i: usize = 0;
    while i < tools.len()
        invariant
            i <= tools.len(),
            views == tool_views(tools@),
            count == count_attested(views.take(i as int), now),
            count <= i,
        decreases tools.len() - i,
    {
        proof {
            assert(views.take(i + 1).drop_last() =~= views.take(i as int));
            assert(views.take(i + 1).last() == tools@[i as int]@);
        }
        if tools[i].verify_attestation_at(now) {
            count += 1;
        }
        i += 1;
    }
    assert(views.take(i as int) =~= views);
    count
}

impl Capabilities {
    /// Create a new capability set
    pub fn new(id: &str) -> (caps: Self)
        ensures
            caps@ == CapabilitiesView::empty(id@),
    {
        let caps = Capabilities {
            id: id.to_owned(),
            static_analysis_tools: Vec::new(),
            security_scanning_tools: Vec::new(),
            dynamic_analysis_tools: Vec::new(),
            fuzzing_tools: Vec::new(),
            test_framework_tools: Vec::new(),
            flags: KeyedStore::new(),
            metadata: KeyedStore::new(),
        };
        proof {
            assert(tool_views(Seq::<ToolCapability>::empty()) =~= Seq::empty());
            assert(metadata_view(caps.metadata) =~= Map::empty());
            assert(caps@.metadata =~= CapabilitiesView::empty(id@).metadata);
        }
        caps
    }

    /// The tools of one category.
    pub fn tools_in(&self, category: CapabilityCategory) -> (tools: &Vec<ToolCapability>)
        ensures
            tool_views(tools@) == self@.tools_in(category),
    {
        match category {
            CapabilityCategory::StaticAnalysis => &self.static_analysis_tools,
            CapabilityCategory::SecurityScanning => &self.security_scanning_tools,
            CapabilityCategory::DynamicAnalysis => &self.dynamic_analysis_tools,
            CapabilityCategory::Fuzzing => &self.fuzzing_tools,
            CapabilityCategory::TestFramework => &self.test_framework_tools,
        }
    }

    /// Add a tool capability at the end of one category.
    pub fn with_capability(self, category: CapabilityCategory, tool: ToolCapability) -> (caps: Self)
        ensures
            caps@ == self@.with_tool(category, tool@),
    {
        let mut caps = self;
        proof {
            assert(tool_views(caps.static_analysis_tools@.push(tool)) =~= tool_views(
                caps.static_analysis_tools@,
            ).push(tool@));
            assert(tool_views(caps.security_scanning_tools@.push(tool)) =~= tool_views(
                caps.security_scanning_tools@,
            ).push(tool@));
            assert(tool_views(caps.dynamic_analysis_tools@.push(tool)) =~= tool_views(
                caps.dynamic_analysis_tools@,
            ).push(tool@));
            assert(tool_views(caps.fuzzing_tools@.push(tool)) =~= tool_views(
                caps.fuzzing_tools@,
            ).push(tool@));
            assert(tool_views(caps.test_framework_tools@.push(tool)) =~= tool_views(
                caps.test_framework_tools@,
            ).push(tool@));
        }
        match category {
            CapabilityCategory::StaticAnalysis => caps.static_analysis_tools.push(tool),
            CapabilityCategory::SecurityScanning => caps.security_scanning_tools.push(tool),
            CapabilityCategory::DynamicAnalysis => caps.dynamic_analysis_tools.push(tool),
            CapabilityCategory::Fuzzing => caps.fuzzing_tools.push(tool),
            CapabilityCategory::TestFramework => caps.test_framework_tools.push(tool),
        }
        caps
    }

    /// Add a tool made now, with default permissions and lifetime, to one
    /// category.
    pub fn with_new_tool(
        self,
        category: CapabilityCategory,
        tool: &str,
        required: bool,
    ) -> (caps: Self)
        ensures
            exists|now: u64|
                caps@ == self@.with_tool(
                    category,
                    #[trigger] ToolCapabilityView::with_defaults(tool@, required, now),
                ),
    {
        let made = ToolCapability::new(tool, required);
        let ghost now = choose|now: u64|
            made@ == ToolCapabilityView::with_defaults(tool@, required, now);
        let caps = self.with_capability(category, made);
        assert(caps@ == self@.with_tool(
            category,
            ToolCapabilityView::with_defaults(tool@, required, now),
        ));
        caps
    }

    /// Add a static analysis tool
    pub fn with_static_analysis(self, tool: &str, required: bool) -> (caps: Self)
        ensures
            exists|now: u64|
                caps@ == self@.with_tool(
                    CapabilityCategory::StaticAnalysis,
                    #[trigger] ToolCapabilityView::with_defaults(tool@, required, now),
                ),
    {
        self.with_new_tool(CapabilityCategory::StaticAnalysis, tool, required)
    }

    /// Add a security scanning tool
    pub fn with_security_tool(self, tool: &str, required: bool) -> (caps: Self)
        ensures
            exists|now: u64|
                caps@ == self@.with_tool(
                    CapabilityCategory::SecurityScanning,
                    #[trigger] ToolCapabilityView::with_defaults(tool@, required, now),
                ),
    {
        self.with_new_tool(CapabilityCategory::SecurityScanning, tool, required)
    }

    /// Add a dynamic analysis tool
    pub fn with_dynamic_tool(self, tool: &str, required: bool) -> (caps: Self)
        ensures
            exists|now: u64|
                caps@ == self@.with_tool(
                    CapabilityCategory::DynamicAnalysis,
                    #[trigger] ToolCapabilityView::with_defaults(tool@, required, now),
                ),
    {
        self.with_new_tool(CapabilityCategory::DynamicAnalysis, tool, required)
    }

    /// Add a fuzzing tool
    pub fn with_fuzzing_tool(self, tool: &str, required: bool) -> (caps: Self)
        ensures
            exists|now: u64|
                caps@ == self@.with_tool(
                    CapabilityCategory::Fuzzing,
                    #[trigger] ToolCapabilityView::with_defaults(tool@, required, now),
                ),
    {
        self.with_new_tool(CapabilityCategory::Fuzzing, tool, required)
    }

    /// Add a test framework tool
    pub fn with_test_framework(self, tool: &str, required: bool) -> (caps: Self)
        ensures
            exists|now: u64|
                caps@ == self@.with_tool(
                    CapabilityCategory::TestFramework,
                    #[trigger] ToolCapabilityView::with_defaults(tool@, required, now),
                ),
    {
        self.with_new_tool(CapabilityCategory::TestFramework, tool, required)
    }

    /// Add a generic tool; it goes to the static analysis tools.
    pub fn with_tool(self, tool: &str, required: bool) -> (caps: Self)
        ensures
            exists|now: u64|
                caps@ == self@.with_tool(
                    CapabilityCategory::StaticAnalysis,
                    #[trigger] ToolCapabilityView::with_defaults(tool@, required, now),
                ),
    {
        self.with_new_tool(CapabilityCategory::StaticAnalysis, tool, required)
    }

    /// Add an optional tool with alternatives to the static analysis tools.
    pub fn with_alternative(self, tool: &str, alternatives: Vec<&str>) -> (caps: Self)
        ensures
            exists|now: u64|
                caps@ == self@.with_tool(
                    CapabilityCategory::StaticAnalysis,
                    (#[trigger] ToolCapabilityView::with_defaults(
                        tool@,
                        false,
                        now,
                    )).with_alternatives(alternatives.deep_view()),
                ),
    {
        let mut owned: Vec<String> = Vec::new();
        let mut i: usize = 0;
        while i < alternatives.len()
            invariant
                i <= alternatives.len(),
                owned@.len() == i,
                forall|j: int| 0 <= j < i ==> owned@[j]@ == alternatives@[j]@,
            decreases alternatives.len() - i,
        {
            owned.push(alternatives[i].to_owned());
            i += 1;
        }
        assert(owned.deep_view() =~= alternatives.deep_view());
        let made = ToolCapability::new(tool, false);
        let ghost now = choose|now: u64|
            made@ == ToolCapabilityView::with_defaults(tool@, false, now);
        let caps = self.with_capability(
            CapabilityCategory::StaticAnalysis,
            made.with_alternatives(owned),
        );
        assert(caps@ == self@.with_tool(
            CapabilityCategory::StaticAnalysis,
            ToolCapabilityView::with_defaults(tool@, false, now).with_alternatives(
                alternatives.deep_view(),
            ),
        ));
        caps
    }

    /// Add a capability flag
    pub fn with_flag(self, flag: &str) -> (caps: Self)
        ensures
            caps@ == self@.with_flag(flag@),
    {
        let mut caps = self;
        caps.flags.insert(flag.to_owned(), true);
        caps
    }

    /// Add metadata
    pub fn with_metadata(self, key: &str, value: &str) -> (caps: Self)
        ensures
            caps@ == self@.with_metadata(key@, value@),
    {
        let mut caps = self;
        let owned = value.to_owned();
        let ghost before = caps.metadata;
        caps.metadata.insert(key.to_owned(), owned);
        proof {
            lemma_mapped_insert(
                before.keys(),
                before.values(),
                key@,
                owned,
                caps.metadata.keys(),
                caps.metadata.values(),
                |held: String| held@,
            );
        }
        caps
    }

    /// Check if a specific flag is set
    pub fn has_flag(&self, flag: &str) -> (set: bool)
        ensures
            set == self@.has_flag(flag@),
    {
        match self.flags.get(flag) {
            Some(value) => *value,
            None => false,
        }
    }

    /// Get metadata value
    pub fn get_metadata(&self, key: &str) -> (value: Option<&String>)
        ensures
            match value {
                Some(text) => self@.metadata_value(key@) == Some(text@),
                None => self@.metadata_value(key@) is None,
            },
    {
        let value = self.metadata.get(key);
        proof {
            lemma_mapped_lookup(
                self.metadata.keys(),
                self.metadata.values(),
                key@,
                |held: String| held@,
            );
        }
        value
    }

    /// Check if a capability is available at the time `now`.
    pub fn has_capability_at<F: Fn(&str) -> bool>(
        &self,
        capability_type: &str,
        tool_checker: &F,
        now: u64,
    ) -> (present: bool)
        requires
            answers_any_name(tool_checker),
        ensures
            forall|available: Set<Seq<char>>| #[trigger]
                answers_match(tool_checker, available) ==> present == self@.has_capability(
                    capability_type@,
                    now,
                    available,
                ),
            category_named(capability_type@) is None ==> !present,
    {
        match parse_category(capability_type) {
            // At least one tool must be satisfied
            Some(category) => any_satisfied_in(self.tools_in(category), tool_checker, now),
            None => false,
        }
    }

    /// Check if a capability is available now, by the system clock.
    pub fn has_capability<F: Fn(&str) -> bool>(
        &self,
        capability_type: &str,
        tool_checker: &F,
    ) -> (present: bool)
        requires
            answers_any_name(tool_checker),
        ensures
            forall|available: Set<Seq<char>>| #[trigger]
                answers_match(tool_checker, available) ==> exists|now: u64|
                    present == #[trigger] self@.has_capability(capability_type@, now, available),
            category_named(capability_type@) is None ==> !present,
    {
        let now = unix_time_now();
        let present = self.has_capability_at(capability_type, tool_checker, now);
        assert forall|available: Set<Seq<char>>| #[trigger]
            answers_match(tool_checker, available) implies exists|now: u64|
            present == #[trigger] self@.has_capability(capability_type@, now, available) by {
            assert(present == self@.has_capability(capability_type@, now, available));
        }
        present
    }

    /// Check if all required tools are available at the time `now`.
    pub fn has_all_required_tools_at<F: Fn(&str) -> bool>(
        &self,
        tool_checker: &F,
        now: u64,
    ) -> (all: bool)
        requires
            answers_any_name(tool_checker),
        ensures
            forall|available: Set<Seq<char>>| #[trigger]
                answers_match(tool_checker, available) ==> all == self@.has_all_required_tools(
                    now,
                    available,
                ),
    {
        let all = required_satisfied_in(&self.static_analysis_tools, tool_checker, now)
            && required_satisfied_in(&self.security_scanning_tools, tool_checker, now)
            && required_satisfied_in(&self.dynamic_analysis_tools, tool_checker, now)
            && required_satisfied_in(&self.fuzzing_tools, tool_checker, now)
            && required_satisfied_in(&self.test_framework_tools, tool_checker, now);
        assert forall|available: Set<Seq<char>>| #[trigger]
            answers_match(tool_checker, available) implies all == self@.has_all_required_tools(
            now,
            available,
        ) by {
            let v = self@;
            let a = v.static_analysis_tools;
            let b = v.security_scanning_tools;
            let c = v.dynamic_analysis_tools;
            let d = v.fuzzing_tools;
            let e = v.test_framework_tools;
            lemma_all_required_concat(a, b, now, available);
            lemma_all_required_concat(a + b, c, now, available);
            lemma_all_required_concat(a + b + c, d, now, available);
            lemma_all_required_concat(a + b + c + d, e, now, available);
        }
        all
    }

    /// Check if all required tools are available now, by the system clock.
    pub fn has_all_required_tools<F: Fn(&str) -> bool>(&self, tool_checker: &F) -> (all: bool)
        requires
            answers_any_name(tool_checker),
        ensures
            forall|available: Set<Seq<char>>| #[trigger]
                answers_match(tool_checker, available) ==> exists|now: u64|
                    all == #[trigger] self@.has_all_required_tools(now, available),
    {
        let now = unix_time_now();
        let all = self.has_all_required_tools_at(tool_checker, now);
        assert forall|available: Set<Seq<char>>| #[trigger]
            answers_match(tool_checker, available) implies exists|now: u64|
            all == #[trigger] self@.has_all_required_tools(now, available) by {
            assert(all == self@.has_all_required_tools(now, available));
        }
        all
    }

    /// Get all tool names (including alternatives)
    pub fn all_tools(&self) -> (names: Vec<String>)
        ensures
            names.deep_view() == self@.tool_names(),
    {
        let mut names: Vec<String> = Vec::new();
        assert(names.deep_view() =~= Seq::<Seq<char>>::empty());
        append_names(&mut names, &self.static_analysis_tools);
        append_names(&mut names, &self.security_scanning_tools);
        append_names(&mut names, &self.dynamic_analysis_tools);
        append_names(&mut names, &self.fuzzing_tools);
        append_names(&mut names, &self.test_framework_tools);
        proof {
            let v = self@;
            let a = v.static_analysis_tools;
            let b = v.security_scanning_tools;
            let c = v.dynamic_analysis_tools;
            let d = v.fuzzing_tools;
            let e = v.test_framework_tools;
            lemma_names_of_concat(a, b);
            lemma_names_of_concat(a + b, c);
            lemma_names_of_concat(a + b + c, d);
            lemma_names_of_concat(a + b + c + d, e);
            assert(names.deep_view() =~= self@.tool_names());
        }
        names
    }

    /// Verify all capabilities are attested and not expired/revoked, at the
    /// time `now`.
    pub fn verify_all_capabilities_at(&self, now: u64) -> (verified: bool)
        ensures
            verified == self@.is_verified(now),
    {
        let verified = all_trusted_in(&self.static_analysis_tools, now) && all_trusted_in(
            &self.security_scanning_tools,
            now,
        ) && all_trusted_in(&self.dynamic_analysis_tools, now) && all_trusted_in(
            &self.fuzzing_tools,
            now,
        ) && all_trusted_in(&self.test_framework_tools, now);
        proof {
            let v = self@;
            let a = v.static_analysis_tools;
            let b = v.security_scanning_tools;
            let c = v.dynamic_analysis_tools;
            let d = v.fuzzing_tools;
            let e = v.test_framework_tools;
            lemma_all_trusted_concat(a, b, now);
            lemma_all_trusted_concat(a + b, c, now);
            lemma_all_trusted_concat(a + b + c, d, now);
            lemma_all_trusted_concat(a + b + c + d, e, now);
        }
        verified
    }

    /// Verify all capabilities are attested and not expired/revoked, now by
    /// the system clock.
    pub fn verify_all_capabilities(&self) -> (verified: bool)
        ensures
            exists|now: u64| verified == #[trigger] self@.is_verified(now),
    {
        let now = unix_time_now();
        let verified = self.verify_all_capabilities_at(now);
        assert(verified == self@.is_verified(now));
        verified
    }

    /// Check if worker has required permissions for a capability
    pub fn has_required_permissions(
        &self,
        capability_type: &str,
        required_permission: &str,
    ) -> (present: bool)
        ensures
            present == self@.has_required_permissions(capability_type@, required_permission@),
    {
        match parse_category(capability_type) {
            // At least one tool must have the required permission
            Some(category) => any_grants_in(self.tools_in(category), required_permission),
            None => false,
        }
    }

    /// Revoke all capabilities, each with the same reason and revoker. Each
    /// tool gets the time at which it is reached as its time of revocation.
    pub fn revoke_all_capabilities(&mut self, reason: String, revoked_by: String)
        ensures
            old(self)@.revoked_as(final(self)@, reason@, revoked_by@),
    {
        revoke_each(&mut self.static_analysis_tools, &reason, &revoked_by);
        revoke_each(&mut self.security_scanning_tools, &reason, &revoked_by);
        revoke_each(&mut self.dynamic_analysis_tools, &reason, &revoked_by);
        revoke_each(&mut self.fuzzing_tools, &reason, &revoked_by);
        revoke_each(&mut self.test_framework_tools, &reason, &revoked_by);
    }

    /// Get security report for all capabilities at the time `now`, by tool
    /// name.
    pub fn get_security_report_at(&self, now: u64) -> (report: KeyedStore<CapabilitySecurityReport>)
        ensures
            report_views(report) == self@.security_report(now),
            report.keys() == self@.reported_names(),
    {
        let mut report: KeyedStore<CapabilitySecurityReport> = KeyedStore::new();
        assert(report_views(report) =~= Map::empty());
        add_reports(&mut report, &self.static_analysis_tools, now);
        add_reports(&mut report, &self.security_scanning_tools, now);
        add_reports(&mut report, &self.dynamic_analysis_tools, now);
        add_reports(&mut report, &self.fuzzing_tools, now);
        add_reports(&mut report, &self.test_framework_tools, now);
        proof {
            let v = self@;
            let a = v.static_analysis_tools;
            let b = v.security_scanning_tools;
            let c = v.dynamic_analysis_tools;
            let d = v.fuzzing_tools;
            let e = v.test_framework_tools;
            let base = Map::<Seq<char>, SecurityReportView>::empty();
            lemma_reports_onto_concat(base, a, b, now);
            lemma_reports_onto_concat(base, a + b, c, now);
            lemma_reports_onto_concat(base, a + b + c, d, now);
            lemma_reports_onto_concat(base, a + b + c + d, e, now);
            let none = Seq::<Seq<char>>::empty();
            assert(primary_names(a + b) =~= primary_names(a) + primary_names(b));
            assert(primary_names(a + b + c) =~= primary_names(a + b) + primary_names(c));
            assert(primary_names(a + b + c + d) =~= primary_names(a + b + c) + primary_names(d));
            assert(primary_names(a + b + c + d + e) =~= primary_names(a + b + c + d)
                + primary_names(e));
            lemma_distinct_onto_concat(none, primary_names(a), primary_names(b));
            lemma_distinct_onto_concat(none, primary_names(a + b), primary_names(c));
            lemma_distinct_onto_concat(none, primary_names(a + b + c), primary_names(d));
            lemma_distinct_onto_concat(none, primary_names(a + b + c + d), primary_names(e));
        }
        report
    }

    /// Get security report for all capabilities now, by the system clock.
    pub fn get_security_report(&self) -> (report: KeyedStore<CapabilitySecurityReport>)
        ensures
            exists|now: u64| report_views(report) == #[trigger] self@.security_report(now),
            report.keys() == self@.reported_names(),
    {
        let now = unix_time_now();
        let report = self.get_security_report_at(now);
        assert(report_views(report) == self@.security_report(now));
        report
    }

    /// Get capability statistics at the time `now`.
    pub fn get_statistics_at(&self, now: u64) -> (statistics: CapabilityStatistics)
        requires
            self@.all_tools().len() <= usize::MAX,
        ensures
            statistics@ == self@.statistics(now),
    {
        proof {
            let v = self@;
            let a = v.static_analysis_tools;
            let b = v.security_scanning_tools;
            let c = v.dynamic_analysis_tools;
            let d = v.fuzzing_tools;
            let e = v.test_framework_tools;
            lemma_count_required_concat(a, b);
            lemma_count_required_concat(a + b, c);
            lemma_count_required_concat(a + b + c, d);
            lemma_count_required_concat(a + b + c + d, e);
            lemma_count_attested_concat(a, b, now);
            lemma_count_attested_concat(a + b, c, now);
            lemma_count_attested_concat(a + b + c, d, now);
            lemma_count_attested_concat(a + b + c + d, e, now);
        }
        let total_tools = self.static_analysis_tools.len() + self.security_scanning_tools.len()
            + self.dynamic_analysis_tools.len() + self.fuzzing_tools.len()
            + self.test_framework_tools.len();
        let required_tools = count_required_in(&self.static_analysis_tools) + count_required_in(
            &self.security_scanning_tools,
        ) + count_required_in(&self.dynamic_analysis_tools) + count_required_in(
            &self.fuzzing_tools,
        ) + count_required_in(&self.test_framework_tools);
        let verified_tools = count_attested_in(&self.static_analysis_tools, now)
            + count_attested_in(&self.security_scanning_tools, now) + count_attested_in(
            &self.dynamic_analysis_tools,
            now,
        ) + count_attested_in(&self.fuzzing_tools, now) + count_attested_in(
            &self.test_framework_tools,
            now,
        );
        let metadata_count = self.metadata.len();
        proof {
            crate::store::lemma_map_of_len(
                self.metadata.keys(),
                self.metadata.values().map_values(|value: String| value@),
            );
        }
        CapabilityStatistics {
            total_tools,
            required_tools,
            verified_tools,
            flags_count: self.flags.len(),
            metadata_count,
        }
    }

    /// Get capability statistics now, by the system clock.
    pub fn get_statistics(&self) -> (statistics: CapabilityStatistics)
        requires
            self@.all_tools().len() <= usize::MAX,
        ensures
            exists|now: u64| statistics@ == #[trigger] self@.statistics(now),
    {
        let now = unix_time_now();
        let statistics = self.get_statistics_at(now);
        assert(statistics@ == self@.statistics(now));
        statistics
    }
}

/// Statistics about capabilities
#[derive(Debug)]
pub struct CapabilityStatistics {
    pub total_tools: usize,
    pub required_tools: usize,
    pub verified_tools: usize,
    pub flags_count: usize,
    pub metadata_count: usize,
}

impl View for CapabilityStatistics {
    type V = StatisticsView;

    open spec fn view(&self) -> StatisticsView {
        StatisticsView {
            total_tools: self.total_tools as nat,
            required_tools: self.required_tools as nat,
            verified_tools: self.verified_tools as nat,
            flags_count: self.flags_count as nat,
            metadata_count: self.metadata_count as nat,
        }
    }
}

impl Clone for CapabilityStatistics {
    fn clone(&self) -> (copy: Self)
        ensures
            copy == *self,
    {
        CapabilityStatistics {
            total_tools: self.total_tools,
            required_tools: self.required_tools,
            verified_tools: self.verified_tools,
            flags_count: self.flags_count,
            metadata_count: self.metadata_count,
        }
    }
}

} // verus!
