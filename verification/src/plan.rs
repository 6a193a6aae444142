//! Planning the installation of a batch of rules: which filters are to be
//! handed to the engine, and which rules yield none.

use vstd::prelude::*;
use crate::condition::{warnings_of, CompileWarning};
use crate::descriptor::{compile_filter, descriptor_of, DescriptorModel, FilterDescriptor};
use crate::layer::Layer;
use crate::rule::{FilterRule, RuleFields, ValidationError};
use crate::selector::{layers_of, select_layers};
use crate::weight::{weight_step, WeightCounter};

verus! {

/// A filter to be installed for the rule at `rule_index` of the batch.
#[derive(Clone, Debug, PartialEq, Eq)]
pub struct PlannedFilter {
    pub rule_index: usize,
    pub descriptor: FilterDescriptor,
    pub warnings: Vec<CompileWarning>,
}

/// A planned filter as plain values.
pub struct PlannedModel {
    pub rule_index: usize,
    pub descriptor: DescriptorModel,
    pub warnings: Seq<CompileWarning>,
}

impl View for PlannedFilter {
    type V = PlannedModel;

    open spec fn view(&self) -> PlannedModel {
        PlannedModel {
            rule_index: self.rule_index,
            descriptor: self.descriptor@,
            warnings: self.warnings@,
        }
    }
}

/// Why no filter is planned for a rule, or for a rule at one layer.
#[derive(Clone, Copy, Debug, PartialEq, Eq, Structural)]
pub enum SkipReason {
    /// The rule failed validation; none of its filters is planned.
    Invalid(ValidationError),
    /// No weight is left for the rule's filter at this layer.
    WeightsExhausted(Layer),
}

/// A place in the batch at which no filter is planned.
#[derive(Clone, Copy, Debug, PartialEq, Eq, Structural)]
pub struct SkippedFilter {
    pub rule_index: usize,
    pub reason: SkipReason,
}

/// The plan for a batch of rules.
#[derive(Clone, Debug, PartialEq, Eq)]
pub struct InstallPlan {
    /// The filters to install, in the order of the rules and, for one
    /// rule, of its layers.
    pub filters: Vec<PlannedFilter>,
    /// What is left out, in the same order.
    pub skipped: Vec<SkippedFilter>,
}

/// The plain values of a list of planned filters.
pub open spec fn planned_models(filters: Seq<PlannedFilter>) -> Seq<PlannedModel> {
    filters.map_values(|f: PlannedFilter| f@)
}

/// The plain values of a batch of rules.
pub open spec fn rule_fields(rules: Seq<FilterRule>) -> Seq<RuleFields> {
    rules.map_values(|r: FilterRule| r@)
}

/// A plan in the making: what is planned and left out so far, and the
/// weight handed out last.
pub struct PlanState {
    pub filters: Seq<PlannedModel>,
    pub skipped: Seq<SkippedFilter>,
    pub weight: u64,
}

/// The plan after one more layer of a rule. The filter gets the next
/// weight; where the weights have run out, the layer is left out.
pub open spec fn plan_layer(rule: RuleFields, rule_index: usize, layer: Layer, state: PlanState)
    -> PlanState {
    let next = state.weight + weight_step(rule.remote is Some);
    if next <= u64::MAX {
        PlanState {
            filters: state.filters.push(
                PlannedModel {
                    rule_index,
                    descriptor: descriptor_of(rule, layer, next as u64),
                    warnings: warnings_of(rule, layer.point),
                },
            ),
            skipped: state.skipped,
            weight: next as u64,
        }
    } else {
        PlanState {
            filters: state.filters,
            skipped: state.skipped.push(
                SkippedFilter { rule_index, reason: SkipReason::WeightsExhausted(layer) },
            ),
            weight: state.weight,
        }
    }
}

/// The plan after the layers of a rule from index `from` on.
pub open spec fn plan_layers(
    rule: RuleFields,
    rule_index: usize,
    layers: Seq<Layer>,
    from: nat,
    state: PlanState,
) -> PlanState
    decreases layers.len() - from,
{
    if from >= layers.len() {
        state
    } else {
        plan_layers(
            rule,
            rule_index,
            layers,
            from + 1,
            plan_layer(rule, rule_index, layers[from as int], state),
        )
    }
}

/// The plan after one more rule: a rule that fails validation is left out
/// whole; any other is planned at each of its layers in turn.
pub open spec fn plan_rule(rule: RuleFields, rule_index: usize, state: PlanState) -> PlanState {
    match rule.validation() {
        Err(error) => PlanState {
            filters: state.filters,
            skipped: state.skipped.push(
                SkippedFilter { rule_index, reason: SkipReason::Invalid(error) },
            ),
            weight: state.weight,
        },
        Ok(_) => plan_layers(rule, rule_index, layers_of(rule), 0, state),
    }
}

/// The plan after the rules of a batch from index `from` on.
pub open spec fn plan_rules(rules: Seq<RuleFields>, from: nat, state: PlanState) -> PlanState
    decreases rules.len() - from,
{
    if from >= rules.len() {
        state
    } else {
        plan_rules(rules, from + 1, plan_rule(rules[from as int], from as usize, state))
    }
}

/// The plan for a whole batch, starting from the weight handed out last.
pub open spec fn plan_of(rules: Seq<RuleFields>, weight: u64) -> PlanState {
    plan_rules(rules, 0, PlanState { filters: Seq::empty(), skipped: Seq::empty(), weight })
}

impl InstallPlan {
    /// The plan together with the weight handed out last.
    pub open spec fn state(self, weight: u64) -> PlanState {
        PlanState { filters: planned_models(self.filters@), skipped: self.skipped@, weight }
    }

    /// Plans the filters of one rule.
    pub fn add_rule(&mut self, rule: &FilterRule, rule_index: usize, weights: &mut WeightCounter)
        ensures
            final(self).state(final(weights).value) == plan_rule(
                rule@,
                rule_index,
                old(self).state(old(weights).value),
            ),
    {
        match rule.validate() {
            Err(error) => {
                self.skipped.push(SkippedFilter { rule_index, reason: SkipReason::Invalid(error) });
            },
            Ok(_) => {
                let layers = select_layers(rule);
                let mut i: usize = 0;
                while i < layers.len()
                    invariant
                        i <= layers.len(),
                        layers@ == layers_of(rule@),
                        plan_layers(
                            rule@,
                            rule_index,
                            layers@,
                            i as nat,
                            self.state(weights.value),
                        ) == plan_rule(rule@, rule_index, old(self).state(old(weights).value)),
                    decreases layers.len() - i,
                {
                    let layer = layers[i];
                    let ghost before = self.state(weights.value);
                    match weights.next_weight(rule.remote.is_some()) {
                        Some(weight) => {
                            let compiled = compile_filter(rule, layer, weight);
                            let planned = PlannedFilter {
                                rule_index,
                                descriptor: compiled.descriptor,
                                warnings: compiled.warnings,
                            };
                            self.filters.push(planned);
                            assert(planned_models(self.filters@) =~= before.filters.push(planned@));
                        },
                        None => {
                            self.skipped.push(
                                SkippedFilter {
                                    rule_index,
                                    reason: SkipReason::WeightsExhausted(layer),
                                },
                            );
                        },
                    }
                    assert(self.state(weights.value) == plan_layer(
                        rule@,
                        rule_index,
                        layer,
                        before,
                    ));
                    i = i + 1;
                }
            },
        }
    }

    /// Plans the filters of a batch of rules, taking weights from `weights`.
    pub fn for_rules(rules: &[FilterRule], weights: &mut WeightCounter) -> (plan: InstallPlan)
        ensures
            plan.state(final(weights).value) == plan_of(rule_fields(rules@), old(weights).value),
    {
        let mut plan = InstallPlan { filters: Vec::new(), skipped: Vec::new() };
        assert(planned_models(plan.filters@) =~= Seq::empty());
        let mut i: usize = 0;
        while i < rules.len()
            invariant
                i <= rules.len(),
                plan_rules(rule_fields(rules@), i as nat, plan.state(weights.value)) == plan_of(
                    rule_fields(rules@),
                    old(weights).value,
                ),
            decreases rules.len() - i,
        {
            plan.add_rule(&rules[i], i, weights);
            i = i + 1;
        }
        plan
    }
}

/// Whether a planned filter is the filter of a valid rule of the batch at
/// one of the rule's layers.
pub open spec fn planned_for(rules: Seq<RuleFields>, filter: PlannedModel) -> bool {
    &&& filter.rule_index < rules.len()
    &&& rules[filter.rule_index as int].validation() is Ok
    &&& exists|k: int|
        0 <= k < layers_of(rules[filter.rule_index as int]).len() && filter.descriptor
            == descriptor_of(
            rules[filter.rule_index as int],
            #[trigger] layers_of(rules[filter.rule_index as int])[k],
            filter.descriptor.weight,
        )
}

/// Whether a plan in the making is in order: every filter belongs to a
/// valid rule of the batch, and the weights rise strictly from above
/// `floor` up to the weight handed out last.
pub open spec fn plan_in_order(rules: Seq<RuleFields>, state: PlanState, floor: u64) -> bool {
    &&& forall|i: int|
        0 <= i < state.filters.len() ==> planned_for(rules, #[trigger] state.filters[i])
    &&& forall|i: int|
        0 <= i < state.filters.len() ==> floor < (#[trigger] state.filters[i]).descriptor.weight
            <= state.weight
    &&& forall|i: int, j: int|
        0 <= i < j < state.filters.len() ==> (#[trigger] state.filters[i]).descriptor.weight < (
        #[trigger] state.filters[j]).descriptor.weight
}

/// Planning the layers of a valid rule keeps a plan in order.
pub proof fn lemma_plan_layers_in_order(
    rules: Seq<RuleFields>,
    rule_index: usize,
    from: nat,
    state: PlanState,
    floor: u64,
)
    requires
        rule_index < rules.len(),
        rules[rule_index as int].validation() is Ok,
        plan_in_order(rules, state, floor),
        floor <= state.weight,
    ensures
        plan_in_order(
            rules,
            plan_layers(
                rules[rule_index as int],
                rule_index,
                layers_of(rules[rule_index as int]),
                from,
                state,
            ),
            floor,
        ),
        state.weight <= plan_layers(
            rules[rule_index as int],
            rule_index,
            layers_of(rules[rule_index as int]),
            from,
            state,
        ).weight,
    decreases layers_of(rules[rule_index as int]).len() - from,
{
    let rule = rules[rule_index as int];
    let layers = layers_of(rule);
    if from < layers.len() {
        let next = plan_layer(rule, rule_index, layers[from as int], state);
        if state.weight + weight_step(rule.remote is Some) <= u64::MAX {
            let added = next.filters[state.filters.len() as int];
            assert(added.descriptor == descriptor_of(rule, layers[from as int], next.weight));
            assert(planned_for(rules, added));
            assert forall|i: int| 0 <= i < next.filters.len() implies planned_for(
                rules,
                #[trigger] next.filters[i],
            ) by {
                if i < state.filters.len() {
                    assert(next.filters[i] == state.filters[i]);
                }
            }
            assert forall|i: int| 0 <= i < next.filters.len() implies floor < (
            #[trigger] next.filters[i]).descriptor.weight <= next.weight by {
                if i < state.filters.len() {
                    assert(next.filters[i] == state.filters[i]);
                }
            }
            assert forall|i: int, j: int| 0 <= i < j < next.filters.len() implies (
            #[trigger] next.filters[i]).descriptor.weight < (
            #[trigger] next.filters[j]).descriptor.weight by {
                assert(next.filters[i] == state.filters[i]);
                if j < state.filters.len() {
                    assert(next.filters[j] == state.filters[j]);
                }
            }
        }
        lemma_plan_layers_in_order(rules, rule_index, from + 1, next, floor);
    }
}

/// Planning the rules of a batch keeps a plan in order.
pub proof fn lemma_plan_rules_in_order(
    rules: Seq<RuleFields>,
    from: nat,
    state: PlanState,
    floor: u64,
)
    requires
        rules.len() <= usize::MAX,
        plan_in_order(rules, state, floor),
        floor <= state.weight,
    ensures
        plan_in_order(rules, plan_rules(rules, from, state), floor),
        state.weight <= plan_rules(rules, from, state).weight,
    decreases rules.len() - from,
{
    if from < rules.len() {
        let rule = rules[from as int];
        let next = plan_rule(rule, from as usize, state);
        if rule.validation() is Ok {
            lemma_plan_layers_in_order(rules, from as usize, 0, state, floor);
        }
        lemma_plan_rules_in_order(rules, from + 1, next, floor);
    }
}

/// In the plan for a batch, every filter is the filter of a valid rule of
/// the batch at one of that rule's layers, and the weights of the filters
/// rise strictly, starting above the weight handed out before the batch.
pub proof fn lemma_plan_is_in_order(rules: Seq<RuleFields>, weight: u64)
    requires
        rules.len() <= usize::MAX,
    ensures
        plan_in_order(rules, plan_of(rules, weight), weight),
{
    lemma_plan_rules_in_order(
        rules,
        0,
        PlanState { filters: Seq::empty(), skipped: Seq::empty(), weight },
        weight,
    );
}

/// How many filters the valid rules among the first `n` of a batch have.
pub open spec fn valid_layer_count(rules: Seq<RuleFields>, n: nat) -> nat
    decreases n,
{
    if n == 0 {
        0
    } else {
        valid_layer_count(rules, (n - 1) as nat) + if rules[n - 1].validation() is Ok {
            layers_of(rules[n - 1]).len()
        } else {
            0nat
        }
    }
}

/// How far the filters of the valid rules among the first `n` of a batch
/// raise the weight.
pub open spec fn weight_needed(rules: Seq<RuleFields>, n: nat) -> nat
    decreases n,
{
    if n == 0 {
        0
    } else {
        weight_needed(rules, (n - 1) as nat) + if rules[n - 1].validation() is Ok {
            (layers_of(rules[n - 1]).len() * weight_step(rules[n - 1].remote is Some)) as nat
        } else {
            0nat
        }
    }
}

/// The rules among the first `n` of a batch that fail validation, each
/// with its index and the reason, in order.
pub open spec fn invalid_rules(rules: Seq<RuleFields>, n: nat) -> Seq<SkippedFilter>
    decreases n,
{
    if n == 0 {
        Seq::empty()
    } else {
        let before = invalid_rules(rules, (n - 1) as nat);
        match rules[n - 1].validation() {
            Err(error) => before.push(
                SkippedFilter { rule_index: (n - 1) as usize, reason: SkipReason::Invalid(error) },
            ),
            Ok(_) => before,
        }
    }
}

/// More rules never need less weight.
pub proof fn lemma_weight_needed_grows(rules: Seq<RuleFields>, a: nat, b: nat)
    requires
        a <= b,
    ensures
        weight_needed(rules, a) <= weight_needed(rules, b),
    decreases b - a,
{
    if a < b {
        lemma_weight_needed_grows(rules, a, (b - 1) as nat);
    }
}

/// Where the weights last, every remaining layer of a rule gets its
/// filter and none is left out.
pub proof fn lemma_layers_all_planned(
    rule: RuleFields,
    rule_index: usize,
    layers: Seq<Layer>,
    from: nat,
    state: PlanState,
)
    requires
        from <= layers.len(),
        state.weight + (layers.len() - from) * weight_step(rule.remote is Some) <= u64::MAX,
    ensures
        plan_layers(rule, rule_index, layers, from, state).filters.len() == state.filters.len()
            + layers.len() - from,
        plan_layers(rule, rule_index, layers, from, state).skipped == state.skipped,
        plan_layers(rule, rule_index, layers, from, state).weight == state.weight + (layers.len()
            - from) * weight_step(rule.remote is Some),
    decreases layers.len() - from,
{
    let step = weight_step(rule.remote is Some);
    if from < layers.len() {
        let left = layers.len() - from;
        assert(left * step == step + (left - 1) * step) by (nonlinear_arith);
        assert((left - 1) * step >= 0) by (nonlinear_arith)
            requires
                left >= 1,
                step >= 1,
        ;
        let next = plan_layer(rule, rule_index, layers[from as int], state);
        assert(next.weight == state.weight + step);
        lemma_layers_all_planned(rule, rule_index, layers, from + 1, next);
    } else {
        assert((layers.len() - from) * step == 0) by (nonlinear_arith)
            requires
                layers.len() - from == 0,
        ;
    }
}

/// Where the weights last, planning the rest of a batch plans every
/// filter of every valid rule and leaves out the invalid rules only.
pub proof fn lemma_rules_all_planned(
    rules: Seq<RuleFields>,
    from: nat,
    state: PlanState,
    weight: u64,
)
    requires
        rules.len() <= usize::MAX,
        from <= rules.len(),
        weight + weight_needed(rules, rules.len()) <= u64::MAX,
        state.filters.len() == valid_layer_count(rules, from),
        state.skipped == invalid_rules(rules, from),
        state.weight == weight + weight_needed(rules, from),
    ensures
        plan_rules(rules, from, state).filters.len() == valid_layer_count(rules, rules.len()),
        plan_rules(rules, from, state).skipped == invalid_rules(rules, rules.len()),
        plan_rules(rules, from, state).weight == weight + weight_needed(rules, rules.len()),
    decreases rules.len() - from,
{
    if from < rules.len() {
        let rule = rules[from as int];
        lemma_weight_needed_grows(rules, from + 1, rules.len());
        if rule.validation() is Ok {
            lemma_layers_all_planned(rule, from as usize, layers_of(rule), 0, state);
        }
        lemma_rules_all_planned(rules, from + 1, plan_rule(rule, from as usize, state), weight);
    }
}

/// Where the weights last, the plan for a batch holds a filter for every
/// layer of every valid rule, and leaves out exactly the rules that fail
/// validation, each with the reason: a rule that fails validation does
/// not stop the batch and is not handed to the engine.
pub proof fn lemma_plan_leaves_out_invalid_rules_only(rules: Seq<RuleFields>, weight: u64)
    requires
        rules.len() <= usize::MAX,
        weight + weight_needed(rules, rules.len()) <= u64::MAX,
    ensures
        plan_of(rules, weight).filters.len() == valid_layer_count(rules, rules.len()),
        plan_of(rules, weight).skipped == invalid_rules(rules, rules.len()),
        plan_of(rules, weight).weight == weight + weight_needed(rules, rules.len()),
        forall|i: int|
            0 <= i < plan_of(rules, weight).filters.len() ==> planned_for(
                rules,
                #[trigger] plan_of(rules, weight).filters[i],
            ),
{
    lemma_rules_all_planned(
        rules,
        0,
        PlanState { filters: Seq::empty(), skipped: Seq::empty(), weight },
        weight,
    );
    lemma_plan_is_in_order(rules, weight);
}

} // verus!
