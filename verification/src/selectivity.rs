//! Retrieval selectivity planning: which (relation, object type) fanouts a
//! candidate entity's graph expansion is planned for, which lifecycle counts each
//! plan reads, when planning falls back to the conservative fanout, and how each
//! planning decision is counted.

use vstd::prelude::*;
use crate::domain::{MemoryId, ObjectType, RelationType};
use crate::graph::GraphExpansionFanoutOverride;
use crate::stats::{
    InMemoryRetrievalStatsStore, RetrievalStatsCounter, RetrievalStatsCounterKey,
    RetrievalStatsHealth, RetrievalStatsHealthState, counter_of, counter_value, key_selects, pair_selects,
};

verus! {

/// Which lifecycle states retrieval may return.
#[derive(Debug, Clone, Copy, PartialEq, Eq, Structural)]
pub struct RetrievalLifecyclePolicy {
    pub include_archived: bool,
    pub include_suppressed: bool,
    pub include_deleted: bool,
    pub include_non_current: bool,
    pub include_superseded: bool,
}

impl RetrievalLifecyclePolicy {
    /// The default: only active, current, unsuperseded memories.
    pub fn default() -> (p: RetrievalLifecyclePolicy)
        ensures
            !p.include_archived && !p.include_suppressed && !p.include_deleted && !p.include_non_current
                && !p.include_superseded,
    {
        RetrievalLifecyclePolicy {
            include_archived: false,
            include_suppressed: false,
            include_deleted: false,
            include_non_current: false,
            include_superseded: false,
        }
    }
}

/// Which edge count selectivity reads.
#[derive(Debug, Clone, Copy, PartialEq, Eq, Structural)]
pub enum SelectivityCountScope {
    Current,
    Active,
    Total,
}

/// The count scope a lifecycle policy implies: every edge once inactive objects may
/// be returned, the active ones once non-current or superseded ones may be, else
/// the current ones.
pub open spec fn scope_of(policy: RetrievalLifecyclePolicy) -> SelectivityCountScope {
    if policy.include_archived || policy.include_suppressed || policy.include_deleted {
        SelectivityCountScope::Total
    } else if policy.include_non_current || policy.include_superseded {
        SelectivityCountScope::Active
    } else {
        SelectivityCountScope::Current
    }
}

/// The count a scope reads from a counter.
pub open spec fn scoped_count(scope: SelectivityCountScope, c: RetrievalStatsCounter) -> u64 {
    match scope {
        SelectivityCountScope::Current => c.current_count,
        SelectivityCountScope::Active => c.active_count,
        SelectivityCountScope::Total => c.total_count,
    }
}

impl SelectivityCountScope {
    /// The count scope a lifecycle policy implies.
    pub fn from(policy: RetrievalLifecyclePolicy) -> (s: SelectivityCountScope)
        ensures
            s == scope_of(policy),
    {
        if policy.include_archived || policy.include_suppressed || policy.include_deleted {
            SelectivityCountScope::Total
        } else if policy.include_non_current || policy.include_superseded {
            SelectivityCountScope::Active
        } else {
            SelectivityCountScope::Current
        }
    }

    /// The count this scope reads from a counter.
    pub fn count(self, counter: RetrievalStatsCounter) -> (n: u64)
        ensures
            n == scoped_count(self, counter),
    {
        match self {
            SelectivityCountScope::Current => counter.current_count,
            SelectivityCountScope::Active => counter.active_count,
            SelectivityCountScope::Total => counter.total_count,
        }
    }
}

/// The outcome of planning one fanout.
#[derive(Debug, Clone, Copy, PartialEq, Eq, Structural)]
pub enum SelectivityDecision {
    HighSelectivity,
    LowSelectivitySupported,
    LowSelectivityRejected,
    ConservativeFallback,
}

/// How many fanouts were planned, by decision.
#[derive(Debug, Clone, Copy, PartialEq, Eq, Structural)]
pub struct SelectivityTelemetry {
    pub decision_count: usize,
    pub high_selectivity_count: usize,
    pub low_selectivity_supported_count: usize,
    pub low_selectivity_rejected_count: usize,
    pub fallback_count: usize,
}

impl SelectivityTelemetry {
    /// No decision counted yet.
    pub fn new() -> (t: SelectivityTelemetry)
        ensures
            t.decision_count == 0 && t.high_selectivity_count == 0 && t.low_selectivity_supported_count == 0
                && t.low_selectivity_rejected_count == 0 && t.fallback_count == 0,
    {
        SelectivityTelemetry {
            decision_count: 0,
            high_selectivity_count: 0,
            low_selectivity_supported_count: 0,
            low_selectivity_rejected_count: 0,
            fallback_count: 0,
        }
    }
}

/// Telemetry after one more decision of the given kind.
pub open spec fn counted(t: SelectivityTelemetry, d: SelectivityDecision) -> SelectivityTelemetry {
    let t1 = SelectivityTelemetry { decision_count: (t.decision_count + 1) as usize, ..t };
    match d {
        SelectivityDecision::HighSelectivity => SelectivityTelemetry {
            high_selectivity_count: (t.high_selectivity_count + 1) as usize,
            ..t1
        },
        SelectivityDecision::LowSelectivitySupported => SelectivityTelemetry {
            low_selectivity_supported_count: (t.low_selectivity_supported_count + 1) as usize,
            ..t1
        },
        SelectivityDecision::LowSelectivityRejected => SelectivityTelemetry {
            low_selectivity_rejected_count: (t.low_selectivity_rejected_count + 1) as usize,
            ..t1
        },
        SelectivityDecision::ConservativeFallback => SelectivityTelemetry {
            fallback_count: (t.fallback_count + 1) as usize,
            ..t1
        },
    }
}

/// Whether the telemetry can count one more decision of each kind.
pub open spec fn telemetry_has_room(t: SelectivityTelemetry) -> bool {
    &&& t.decision_count < usize::MAX
    &&& t.high_selectivity_count < usize::MAX
    &&& t.low_selectivity_supported_count < usize::MAX
    &&& t.low_selectivity_rejected_count < usize::MAX
    &&& t.fallback_count < usize::MAX
}

/// Counts one decision.
pub fn increment_telemetry(telemetry: &mut SelectivityTelemetry, decision: SelectivityDecision)
    requires
        telemetry_has_room(*old(telemetry)),
    ensures
        *final(telemetry) == counted(*old(telemetry), decision),
{
    telemetry.decision_count = telemetry.decision_count + 1;
    match decision {
        SelectivityDecision::HighSelectivity => {
            telemetry.high_selectivity_count = telemetry.high_selectivity_count + 1;
        },
        SelectivityDecision::LowSelectivitySupported => {
            telemetry.low_selectivity_supported_count = telemetry.low_selectivity_supported_count + 1;
        },
        SelectivityDecision::LowSelectivityRejected => {
            telemetry.low_selectivity_rejected_count = telemetry.low_selectivity_rejected_count + 1;
        },
        SelectivityDecision::ConservativeFallback => {
            telemetry.fallback_count = telemetry.fallback_count + 1;
        },
    }
}

/// The sum of the per-decision counts.
pub open spec fn decisions_by_kind(t: SelectivityTelemetry) -> int {
    t.high_selectivity_count + t.low_selectivity_supported_count + t.low_selectivity_rejected_count + t.fallback_count
}

/// Counting a decision counts it once overall and once under its kind, so the
/// per-kind counts keep adding up to the overall count.
pub proof fn law_telemetry_counts_add_up(t: SelectivityTelemetry, d: SelectivityDecision)
    requires
        telemetry_has_room(t),
    ensures
        counted(t, d).decision_count == t.decision_count + 1,
        decisions_by_kind(counted(t, d)) == decisions_by_kind(t) + 1,
        decisions_by_kind(t) == t.decision_count ==> decisions_by_kind(counted(t, d)) == counted(t, d).decision_count,
{
}

/// The fanout of one (relation, object type) pair that planning may tune, with its bounds.
#[derive(Debug, Clone, Copy, PartialEq, Eq, Structural)]
pub struct FanoutSpec {
    pub relation: RelationType,
    pub object_type: ObjectType,
    pub min_fanout: usize,
    pub max_fanout: usize,
}

/// The tunable fanouts: notions' derived memories, their episodes and thread memories.
pub open spec fn fanout_spec_list() -> Seq<FanoutSpec> {
    seq![
        FanoutSpec { relation: RelationType::About, object_type: ObjectType::DerivedMemory, min_fanout: 0, max_fanout: 20 },
        FanoutSpec { relation: RelationType::Involves, object_type: ObjectType::Episode, min_fanout: 0, max_fanout: 5 },
        FanoutSpec { relation: RelationType::PartOfThread, object_type: ObjectType::DerivedMemory, min_fanout: 0, max_fanout: 15 },
    ]
}

/// The tunable fanouts.
pub fn fanout_specs() -> (v: Vec<FanoutSpec>)
    ensures
        v@ == fanout_spec_list(),
{
    let v = vec![
        FanoutSpec { relation: RelationType::About, object_type: ObjectType::DerivedMemory, min_fanout: 0, max_fanout: 20 },
        FanoutSpec { relation: RelationType::Involves, object_type: ObjectType::Episode, min_fanout: 0, max_fanout: 5 },
        FanoutSpec { relation: RelationType::PartOfThread, object_type: ObjectType::DerivedMemory, min_fanout: 0, max_fanout: 15 },
    ];
    assert(v@ =~= fanout_spec_list());
    v
}

/// Whether a fanout lies within an expansion's type restrictions (an empty list
/// allows every type).
pub open spec fn spec_in_scope(spec: FanoutSpec, types: Seq<ObjectType>, relations: Seq<RelationType>) -> bool {
    (types.len() == 0 || types.contains(spec.object_type)) && (relations.len() == 0 || relations.contains(spec.relation))
}

/// Whether a fanout lies within an expansion's type restrictions.
pub fn spec_allowed_by_graph_scope(
    spec: &FanoutSpec,
    allowed_object_types: &Vec<ObjectType>,
    allowed_relation_types: &Vec<RelationType>,
) -> (b: bool)
    ensures
        b == spec_in_scope(*spec, allowed_object_types@, allowed_relation_types@),
{
    (allowed_object_types.len() == 0 || crate::seqs::contains_object_type(allowed_object_types, spec.object_type))
        && (allowed_relation_types.len() == 0 || crate::seqs::contains_relation(allowed_relation_types, spec.relation))
}

/// The fanout used when statistics cannot be trusted: at most one.
pub fn conservative_fallback_fanout(max_fanout: usize) -> (f: usize)
    ensures
        f == (if max_fanout < 1 { max_fanout } else { 1 }),
{
    if max_fanout < 1 {
        max_fanout
    } else {
        1
    }
}

/// The decision a planned fanout records: a fallback is a fallback; a zero fanout is
/// rejected; otherwise a high score (at least one half) is high selectivity, and a
/// low one is supported when the candidate's semantic support raised it.
pub open spec fn decision_of(score_is_high: bool, supported: bool, chosen_fanout: usize, fallback: bool) -> SelectivityDecision {
    if fallback {
        SelectivityDecision::ConservativeFallback
    } else if chosen_fanout == 0 {
        SelectivityDecision::LowSelectivityRejected
    } else if score_is_high {
        SelectivityDecision::HighSelectivity
    } else if supported {
        SelectivityDecision::LowSelectivitySupported
    } else {
        SelectivityDecision::LowSelectivityRejected
    }
}

/// The decision a planned fanout records, given whether its score is at least one
/// half and whether the semantic support factor exceeds one.
pub fn selectivity_decision(score_is_high: bool, supported: bool, chosen_fanout: usize, fallback: bool) -> (d: SelectivityDecision)
    ensures
        d == decision_of(score_is_high, supported, chosen_fanout, fallback),
{
    if fallback {
        return SelectivityDecision::ConservativeFallback;
    }
    if chosen_fanout == 0 {
        return SelectivityDecision::LowSelectivityRejected;
    }
    if score_is_high {
        SelectivityDecision::HighSelectivity
    } else if chosen_fanout > 0 && supported {
        SelectivityDecision::LowSelectivitySupported
    } else {
        SelectivityDecision::LowSelectivityRejected
    }
}

/// What selectivity planning read once per expansion: the statistics health, the
/// fanouts in scope, and the global counter of each when healthy.
#[derive(Debug)]
pub struct SelectivityStatsContext {
    pub health: RetrievalStatsHealth,
    pub specs: Vec<FanoutSpec>,
    pub global_counters: Vec<(RelationType, ObjectType, Option<RetrievalStatsCounter>)>,
}

/// The fanouts of `specs` within the type restrictions, in order.
pub open spec fn specs_in_scope(specs: Seq<FanoutSpec>, types: Seq<ObjectType>, relations: Seq<RelationType>) -> Seq<FanoutSpec>
    decreases specs.len(),
{
    if specs.len() == 0 {
        specs
    } else {
        let rest = specs_in_scope(specs.drop_last(), types, relations);
        if spec_in_scope(specs.last(), types, relations) {
            rest.push(specs.last())
        } else {
            rest
        }
    }
}

/// The first recorded global counter of the pair, if recorded and present.
pub open spec fn recorded_counter(
    cs: Seq<(RelationType, ObjectType, Option<RetrievalStatsCounter>)>,
    relation: RelationType,
    object_type: ObjectType,
) -> Option<RetrievalStatsCounter>
    decreases cs.len(),
{
    if cs.len() == 0 {
        None
    } else if cs[0].0 == relation && cs[0].1 == object_type {
        cs[0].2
    } else {
        recorded_counter(cs.drop_first(), relation, object_type)
    }
}

/// The fanouts within the type restrictions.
fn scoped_fanout_specs(allowed_object_types: &Vec<ObjectType>, allowed_relation_types: &Vec<RelationType>) -> (specs: Vec<FanoutSpec>)
    ensures
        specs@ == specs_in_scope(fanout_spec_list(), allowed_object_types@, allowed_relation_types@),
{
    let all = fanout_specs();
    let mut specs: Vec<FanoutSpec> = Vec::new();
    let mut i: usize = 0;
    proof {
        assert(all@.take(0) =~= Seq::<FanoutSpec>::empty());
    }
    while i < all.len()
        invariant
            i <= all@.len(),
            all@ == fanout_spec_list(),
            specs@ == specs_in_scope(all@.take(i as int), allowed_object_types@, allowed_relation_types@),
        decreases all@.len() - i,
    {
        let spec = all[i];
        proof {
            assert(all@.take(i + 1).drop_last() =~= all@.take(i as int));
            assert(all@.take(i + 1).last() == spec);
        }
        if spec_allowed_by_graph_scope(&spec, allowed_object_types, allowed_relation_types) {
            specs.push(spec);
        }
        i = i + 1;
    }
    proof {
        assert(all@.take(i as int) =~= all@);
    }
    specs
}

impl SelectivityStatsContext {
    /// The context when the statistics store could not be read (its health or a
    /// global counter): the fanouts within the type restrictions, no counters, and
    /// the statistics unhealthy with the read's error message. The store itself is
    /// to be marked unhealthy with the same message.
    pub fn unreadable(
        allowed_object_types: &Vec<ObjectType>,
        allowed_relation_types: &Vec<RelationType>,
        message: String,
    ) -> (c: SelectivityStatsContext)
        ensures
            c.health.state == RetrievalStatsHealthState::Unhealthy,
            c.health.last_error_message == Some(message),
            c.specs@ == specs_in_scope(fanout_spec_list(), allowed_object_types@, allowed_relation_types@),
            c.global_counters@.len() == 0,
    {
        let specs = scoped_fanout_specs(allowed_object_types, allowed_relation_types);
        SelectivityStatsContext {
            health: RetrievalStatsHealth { state: RetrievalStatsHealthState::Unhealthy, last_error_message: Some(message) },
            specs,
            global_counters: Vec::new(),
        }
    }

    /// Reads the context from a statistics store: the fanouts within the type
    /// restrictions, the store's health and, when it is healthy, the global counter
    /// of each fanout.
    pub fn load_with_scope(
        store: &InMemoryRetrievalStatsStore,
        allowed_object_types: &Vec<ObjectType>,
        allowed_relation_types: &Vec<RelationType>,
    ) -> (c: SelectivityStatsContext)
        ensures
            c.health == store.health_view(),
            c.specs@ == specs_in_scope(fanout_spec_list(), allowed_object_types@, allowed_relation_types@),
            c.health.state != RetrievalStatsHealthState::Healthy ==> c.global_counters@.len() == 0,
            c.health.state == RetrievalStatsHealthState::Healthy ==> {
                &&& c.global_counters@.len() == c.specs@.len()
                &&& forall|i: int| 0 <= i < c.specs@.len() ==> {
                    let g = #[trigger] c.global_counters@[i];
                    &&& g.0 == c.specs@[i].relation
                    &&& g.1 == c.specs@[i].object_type
                    &&& counter_of(g.2, store.edges_view(), pair_selects(g.0, g.1))
                }
            },
    {
        let specs = scoped_fanout_specs(allowed_object_types, allowed_relation_types);
        let health = store.health();
        let mut global_counters: Vec<(RelationType, ObjectType, Option<RetrievalStatsCounter>)> = Vec::new();
        if health.state == RetrievalStatsHealthState::Healthy {
            let mut j: usize = 0;
            while j < specs.len()
                invariant
                    j <= specs@.len(),
                    global_counters@.len() == j,
                    forall|k: int| 0 <= k < j ==> {
                        let g = #[trigger] global_counters@[k];
                        &&& g.0 == specs@[k].relation
                        &&& g.1 == specs@[k].object_type
                        &&& counter_of(g.2, store.edges_view(), pair_selects(g.0, g.1))
                    },
                decreases specs@.len() - j,
            {
                let spec = specs[j];
                let counter = store.global_counter(spec.relation, spec.object_type);
                global_counters.push((spec.relation, spec.object_type, counter));
                j = j + 1;
            }
        }
        SelectivityStatsContext { health, specs, global_counters }
    }

    /// The global counter read for a pair, if any.
    pub fn global_counter(&self, relation: RelationType, object_type: ObjectType) -> (c: Option<RetrievalStatsCounter>)
        ensures
            c == recorded_counter(self.global_counters@, relation, object_type),
    {
        let mut i: usize = 0;
        proof {
            assert(self.global_counters@.skip(0) =~= self.global_counters@);
        }
        while i < self.global_counters.len()
            invariant
                i <= self.global_counters@.len(),
                recorded_counter(self.global_counters@, relation, object_type) == recorded_counter(
                    self.global_counters@.skip(i as int),
                    relation,
                    object_type,
                ),
            decreases self.global_counters@.len() - i,
        {
            let g = self.global_counters[i];
            proof {
                assert(self.global_counters@.skip(i as int)[0] == g);
                assert(self.global_counters@.skip(i as int).drop_first() =~= self.global_counters@.skip(i + 1));
            }
            if g.0 == relation && g.1 == object_type {
                return g.2;
            }
            i = i + 1;
        }
        proof {
            assert(self.global_counters@.skip(i as int) =~= Seq::<(RelationType, ObjectType, Option<RetrievalStatsCounter>)>::empty());
        }
        None
    }
}

/// What planning one fanout reads: the fanout, its cap under the static cap, and
/// the entity's and the global count in scope, or a fallback when statistics are
/// unhealthy, missing, or empty globally.
#[derive(Debug, Clone, Copy, PartialEq, Eq, Structural)]
pub struct SelectivityInput {
    pub relation: RelationType,
    pub object_type: ObjectType,
    pub min_fanout: usize,
    pub max_fanout: usize,
    pub entity_count: Option<u64>,
    pub global_count: Option<u64>,
    pub fallback: bool,
}

/// The input of planning `spec` for an entity from its counter and the global one.
pub open spec fn input_of(
    spec: FanoutSpec,
    static_max_fanout: usize,
    healthy: bool,
    entity: Option<RetrievalStatsCounter>,
    global: Option<RetrievalStatsCounter>,
    scope: SelectivityCountScope,
) -> SelectivityInput {
    let max_fanout = if spec.max_fanout < static_max_fanout { spec.max_fanout } else { static_max_fanout };
    let base = SelectivityInput {
        relation: spec.relation,
        object_type: spec.object_type,
        min_fanout: spec.min_fanout,
        max_fanout,
        entity_count: None,
        global_count: None,
        fallback: true,
    };
    if !healthy {
        base
    } else {
        match (entity, global) {
            (Some(e), Some(g)) => if scoped_count(scope, g) > 0 {
                SelectivityInput {
                    entity_count: Some(scoped_count(scope, e)),
                    global_count: Some(scoped_count(scope, g)),
                    fallback: false,
                    ..base
                }
            } else {
                base
            },
            _ => base,
        }
    }
}

/// Reads what planning each fanout in scope needs for a candidate: nothing unless the
/// candidate is an entity; then, per fanout in order, its counts or a fallback.
pub fn selectivity_inputs(
    candidate_id: MemoryId,
    candidate_type: ObjectType,
    static_max_fanout: usize,
    store: &InMemoryRetrievalStatsStore,
    context: &SelectivityStatsContext,
    lifecycle_policy: RetrievalLifecyclePolicy,
) -> (v: Vec<SelectivityInput>)
    ensures
        candidate_type != ObjectType::Entity ==> v@.len() == 0,
        candidate_type == ObjectType::Entity ==> {
            &&& v@.len() == context.specs@.len()
            &&& forall|i: int| 0 <= i < v@.len() ==> #[trigger] v@[i] == input_of(
                context.specs@[i],
                static_max_fanout,
                context.health.state == RetrievalStatsHealthState::Healthy,
                counter_value(store.edges_view(), key_selects(RetrievalStatsCounterKey {
                    entity_id: candidate_id,
                    relation_kind: context.specs@[i].relation,
                    object_type: context.specs@[i].object_type,
                })),
                recorded_counter(context.global_counters@, context.specs@[i].relation, context.specs@[i].object_type),
                scope_of(lifecycle_policy),
            )
        },
{
    let mut out: Vec<SelectivityInput> = Vec::new();
    if candidate_type != ObjectType::Entity {
        return out;
    }
    let scope = SelectivityCountScope::from(lifecycle_policy);
    let healthy = context.health.state == RetrievalStatsHealthState::Healthy;
    let mut i: usize = 0;
    while i < context.specs.len()
        invariant
            i <= context.specs@.len(),
            out@.len() == i,
            scope == scope_of(lifecycle_policy),
            healthy == (context.health.state == RetrievalStatsHealthState::Healthy),
            forall|k: int| 0 <= k < i ==> #[trigger] out@[k] == input_of(
                context.specs@[k],
                static_max_fanout,
                context.health.state == RetrievalStatsHealthState::Healthy,
                counter_value(store.edges_view(), key_selects(RetrievalStatsCounterKey {
                    entity_id: candidate_id,
                    relation_kind: context.specs@[k].relation,
                    object_type: context.specs@[k].object_type,
                })),
                recorded_counter(context.global_counters@, context.specs@[k].relation, context.specs@[k].object_type),
                scope_of(lifecycle_policy),
            ),
        decreases context.specs@.len() - i,
    {
        let spec = context.specs[i];
        let key = RetrievalStatsCounterKey { entity_id: candidate_id, relation_kind: spec.relation, object_type: spec.object_type };
        let entity = store.counter(&key);
        let global = context.global_counter(spec.relation, spec.object_type);
        let max_fanout = if spec.max_fanout < static_max_fanout { spec.max_fanout } else { static_max_fanout };
        let mut input = SelectivityInput {
            relation: spec.relation,
            object_type: spec.object_type,
            min_fanout: spec.min_fanout,
            max_fanout,
            entity_count: None,
            global_count: None,
            fallback: true,
        };
        if healthy {
            match (entity, global) {
                (Some(e), Some(g)) => {
                    let global_count = scope.count(g);
                    if global_count > 0 {
                        input = SelectivityInput {
                            entity_count: Some(scope.count(e)),
                            global_count: Some(global_count),
                            fallback: false,
                            ..input
                        };
                    }
                },
                _ => {},
            }
        }
        let ghost prev = out@;
        out.push(input);
        proof {
            assert(out@[i as int] == input_of(spec, static_max_fanout, healthy, entity, global, scope));
            assert forall|k: int| 0 <= k < i implies out@[k] == prev[k] by {}
        }
        i = i + 1;
    }
    out
}

/// The fanout overrides and decision counts of a candidate's planning.
pub struct SelectivityPlan {
    pub fanout_overrides: Vec<GraphExpansionFanoutOverride>,
    pub telemetry: SelectivityTelemetry,
}

impl SelectivityPlan {
    /// A plan with no override and no decision.
    pub fn new() -> (p: SelectivityPlan)
        ensures
            p.fanout_overrides@.len() == 0,
            p.telemetry == (SelectivityTelemetry {
                decision_count: 0,
                high_selectivity_count: 0,
                low_selectivity_supported_count: 0,
                low_selectivity_rejected_count: 0,
                fallback_count: 0,
            }),
    {
        SelectivityPlan { fanout_overrides: Vec::new(), telemetry: SelectivityTelemetry::new() }
    }
}

/// Records the fanout chosen for one input: its decision is counted and the fanout
/// becomes the override of the input's pair. Returns the decision.
pub fn record_selectivity_choice(
    plan: &mut SelectivityPlan,
    input: &SelectivityInput,
    chosen_fanout: usize,
    score_is_high: bool,
    supported: bool,
) -> (d: SelectivityDecision)
    requires
        telemetry_has_room(old(plan).telemetry),
    ensures
        d == decision_of(score_is_high, supported, chosen_fanout, input.fallback),
        final(plan).telemetry == counted(old(plan).telemetry, d),
        final(plan).fanout_overrides@ == old(plan).fanout_overrides@.push(
            GraphExpansionFanoutOverride { relation: input.relation, object_type: input.object_type, max_fanout: chosen_fanout },
        ),
{
    let d = selectivity_decision(score_is_high, supported, chosen_fanout, input.fallback);
    increment_telemetry(&mut plan.telemetry, d);
    plan.fanout_overrides.push(
        GraphExpansionFanoutOverride { relation: input.relation, object_type: input.object_type, max_fanout: chosen_fanout },
    );
    d
}

/// Where loading a selectivity context from a store that may fail stands.
#[derive(Debug, Clone, Copy, PartialEq, Eq)]
pub enum ContextLoadPhase {
    ReadingHealth,
    ReadingCounters,
    MarkingUnhealthy,
}

/// What the caller reads or writes next while loading a selectivity context.
#[derive(Debug)]
pub enum ContextLoadAction {
    /// Read the store's health.
    ReadHealth,
    /// Read the global counter of this relation to this object type.
    ReadGlobalCounter(RelationType, ObjectType),
    /// Mark the store unhealthy with this message.
    MarkUnhealthy(String),
}

/// How the caller's last read or write ended.
#[derive(Debug)]
pub enum ContextLoadEvent {
    /// The health read gave this health.
    Health(RetrievalStatsHealth),
    /// The global counter read gave this counter.
    Counter(Option<RetrievalStatsCounter>),
    /// The read failed; the text of its error.
    Failed(String),
    /// The store was marked unhealthy, or failed to be.
    Marked,
}

/// A selectivity context being loaded: the phase and the context so far.
#[derive(Debug)]
pub struct ContextLoad {
    pub phase: ContextLoadPhase,
    pub context: SelectivityStatsContext,
}

/// The next step of a context load: a call to make, or the loaded context.
#[derive(Debug)]
pub enum ContextLoadNext {
    Act(ContextLoad, ContextLoadAction),
    Finished(SelectivityStatsContext),
}

/// Whether a context's global counters are those of its first fanouts, in order.
pub open spec fn counters_follow_specs(c: SelectivityStatsContext) -> bool {
    &&& c.global_counters@.len() <= c.specs@.len()
    &&& forall|i: int| 0 <= i < c.global_counters@.len() ==> (#[trigger] c.global_counters@[i]).0 == c.specs@[i].relation
        && c.global_counters@[i].1 == c.specs@[i].object_type
}

impl ContextLoad {
    /// Whether a load is consistent: its counters follow its fanouts, and while it
    /// reads counters it has read fewer than it has fanouts.
    pub open spec fn wf(&self) -> bool {
        &&& counters_follow_specs(self.context)
        &&& self.phase == ContextLoadPhase::ReadingCounters ==> self.context.global_counters@.len() < self.context.specs@.len()
        &&& self.phase == ContextLoadPhase::ReadingHealth ==> self.context.global_counters@.len() == 0
    }

    /// The action a load waits on.
    pub open spec fn pending(&self, a: ContextLoadAction) -> bool {
        match self.phase {
            ContextLoadPhase::ReadingHealth => a is ReadHealth,
            ContextLoadPhase::ReadingCounters => a matches ContextLoadAction::ReadGlobalCounter(r, t)
                && r == self.context.specs@[self.context.global_counters@.len() as int].relation
                && t == self.context.specs@[self.context.global_counters@.len() as int].object_type,
            ContextLoadPhase::MarkingUnhealthy => a matches ContextLoadAction::MarkUnhealthy(m)
                && Some(m) == self.context.health.last_error_message,
        }
    }

    /// Starts loading the context of a store that may fail to answer: the fanouts
    /// within the type restrictions, then the store's health is read.
    pub fn start(allowed_object_types: &Vec<ObjectType>, allowed_relation_types: &Vec<RelationType>) -> (r: (ContextLoad, ContextLoadAction))
        ensures
            r.0.wf(),
            r.0.phase == ContextLoadPhase::ReadingHealth,
            r.0.context.specs@ == specs_in_scope(fanout_spec_list(), allowed_object_types@, allowed_relation_types@),
            r.0.context.global_counters@.len() == 0,
            r.1 is ReadHealth,
    {
        let specs = scoped_fanout_specs(allowed_object_types, allowed_relation_types);
        (
            ContextLoad {
                phase: ContextLoadPhase::ReadingHealth,
                context: SelectivityStatsContext { health: RetrievalStatsHealth::default(), specs, global_counters: Vec::new() },
            },
            ContextLoadAction::ReadHealth,
        )
    }

    /// Takes the result of the last call. A healthy store's global counter of each
    /// fanout is read in turn; a store that is not healthy is read no further. A
    /// failed read ends the load with no counters and the statistics unhealthy with
    /// the read's error text, after the store is marked unhealthy with the same
    /// text (whatever that mark gives). An event that does not answer the pending
    /// call changes nothing and asks for that call again. The fanouts never change.
    pub fn step(self, event: ContextLoadEvent) -> (r: ContextLoadNext)
        requires
            self.wf(),
        ensures
            match r {
                ContextLoadNext::Act(n, a) => n.wf() && n.pending(a) && n.context.specs == self.context.specs,
                ContextLoadNext::Finished(c) => c.specs == self.context.specs && counters_follow_specs(c),
            },
            match (self.phase, event) {
                (ContextLoadPhase::ReadingHealth, ContextLoadEvent::Health(h)) =>
                    if h.state == RetrievalStatsHealthState::Healthy && self.context.specs@.len() > 0 {
                        r matches ContextLoadNext::Act(n, _) && n.phase == ContextLoadPhase::ReadingCounters
                            && n.context.health == h && n.context.global_counters@.len() == 0
                    } else {
                        r matches ContextLoadNext::Finished(c) && c.health == h && c.global_counters@.len() == 0
                    },
                (ContextLoadPhase::ReadingHealth, ContextLoadEvent::Failed(m)) => r matches ContextLoadNext::Act(n, _)
                    && n.phase == ContextLoadPhase::MarkingUnhealthy
                    && n.context.health.state == RetrievalStatsHealthState::Unhealthy
                    && n.context.health.last_error_message == Some(m) && n.context.global_counters@.len() == 0,
                (ContextLoadPhase::ReadingCounters, ContextLoadEvent::Counter(c)) => {
                    let k = self.context.global_counters@.len() as int;
                    let counters = self.context.global_counters@.push(
                        (self.context.specs@[k].relation, self.context.specs@[k].object_type, c),
                    );
                    if k + 1 < self.context.specs@.len() {
                        r matches ContextLoadNext::Act(n, _) && n.phase == ContextLoadPhase::ReadingCounters
                            && n.context.health == self.context.health && n.context.global_counters@ == counters
                    } else {
                        r matches ContextLoadNext::Finished(x) && x.health == self.context.health
                            && x.global_counters@ == counters
                    }
                },
                (ContextLoadPhase::ReadingCounters, ContextLoadEvent::Failed(m)) => r matches ContextLoadNext::Act(n, _)
                    && n.phase == ContextLoadPhase::MarkingUnhealthy
                    && n.context.health.state == RetrievalStatsHealthState::Unhealthy
                    && n.context.health.last_error_message == Some(m) && n.context.global_counters@.len() == 0,
                (ContextLoadPhase::MarkingUnhealthy, _) => r matches ContextLoadNext::Finished(c)
                    && c.health == self.context.health && c.global_counters@ == self.context.global_counters@,
                _ => r matches ContextLoadNext::Act(n, _) && n.phase == self.phase && n.context.health == self.context.health
                    && n.context.global_counters@ == self.context.global_counters@,
            },
    {
        let ContextLoad { phase, context } = self;
        let SelectivityStatsContext { health, specs, global_counters } = context;
        let mut global_counters = global_counters;
        match (phase, event) {
            (ContextLoadPhase::ReadingHealth, ContextLoadEvent::Health(h)) => {
                if h.state == RetrievalStatsHealthState::Healthy && specs.len() > 0 {
                    let first = specs[0];
                    ContextLoadNext::Act(
                        ContextLoad {
                            phase: ContextLoadPhase::ReadingCounters,
                            context: SelectivityStatsContext { health: h, specs, global_counters: Vec::new() },
                        },
                        ContextLoadAction::ReadGlobalCounter(first.relation, first.object_type),
                    )
                } else {
                    ContextLoadNext::Finished(SelectivityStatsContext { health: h, specs, global_counters: Vec::new() })
                }
            },
            (ContextLoadPhase::ReadingHealth, ContextLoadEvent::Failed(m)) | (ContextLoadPhase::ReadingCounters, ContextLoadEvent::Failed(m)) => {
                let mark = m.clone();
                proof {
                    assert(mark == m);
                }
                ContextLoadNext::Act(
                    ContextLoad {
                        phase: ContextLoadPhase::MarkingUnhealthy,
                        context: SelectivityStatsContext {
                            health: RetrievalStatsHealth { state: RetrievalStatsHealthState::Unhealthy, last_error_message: Some(m) },
                            specs,
                            global_counters: Vec::new(),
                        },
                    },
                    ContextLoadAction::MarkUnhealthy(mark),
                )
            },
            (ContextLoadPhase::ReadingCounters, ContextLoadEvent::Counter(c)) => {
                let k = global_counters.len();
                let spec = specs[k];
                global_counters.push((spec.relation, spec.object_type, c));
                if k < specs.len() - 1 {
                    let next = specs[k + 1];
                    ContextLoadNext::Act(
                        ContextLoad {
                            phase: ContextLoadPhase::ReadingCounters,
                            context: SelectivityStatsContext { health, specs, global_counters },
                        },
                        ContextLoadAction::ReadGlobalCounter(next.relation, next.object_type),
                    )
                } else {
                    ContextLoadNext::Finished(SelectivityStatsContext { health, specs, global_counters })
                }
            },
            (ContextLoadPhase::MarkingUnhealthy, _) => {
                ContextLoadNext::Finished(SelectivityStatsContext { health, specs, global_counters })
            },
            (phase, _) => {
                let action = match phase {
                    ContextLoadPhase::ReadingHealth => ContextLoadAction::ReadHealth,
                    ContextLoadPhase::ReadingCounters => {
                        let spec = specs[global_counters.len()];
                        ContextLoadAction::ReadGlobalCounter(spec.relation, spec.object_type)
                    },
                    ContextLoadPhase::MarkingUnhealthy => ContextLoadAction::ReadHealth,
                };
                ContextLoadNext::Act(
                    ContextLoad { phase, context: SelectivityStatsContext { health, specs, global_counters } },
                    action,
                )
            },
        }
    }
}


/// Selectivity counts what the expansion may return: every edge whenever the policy
/// may return inactive objects (archived, suppressed or deleted ones); the active
/// edges when it returns only active objects but non-current or superseded ones as
/// well; otherwise only the current edges.
pub proof fn law_count_scope_covers_the_policy(policy: RetrievalLifecyclePolicy)
    ensures
        (scope_of(policy) == SelectivityCountScope::Total)
            <==> (policy.include_archived || policy.include_suppressed || policy.include_deleted),
        (scope_of(policy) == SelectivityCountScope::Active) <==> (!policy.include_archived
            && !policy.include_suppressed && !policy.include_deleted
            && (policy.include_non_current || policy.include_superseded)),
        (scope_of(policy) == SelectivityCountScope::Current) <==> (!policy.include_archived
            && !policy.include_suppressed && !policy.include_deleted && !policy.include_non_current
            && !policy.include_superseded),
{
}

} // verus!
