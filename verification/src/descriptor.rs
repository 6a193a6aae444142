//! The unit that is handed to the filtering engine: a layer, the
//! conditions evaluated there, the action and the weight.

use vstd::prelude::*;
use vstd::string::StringExecFns;
use crate::condition::{
    compile_conditions, condition_models, conditions_of, warnings_of, CompileWarning, Condition,
    ConditionModel, Side,
};
use crate::layer::Layer;
use crate::rule::{FilterAction, FilterRule, RuleFields};

verus! {

/// One filter, ready to be installed.
#[derive(Clone, Debug, PartialEq, Eq)]
pub struct FilterDescriptor {
    /// The name shown for the filter: that of its rule.
    pub name: String,
    /// The description shown for the filter.
    pub description: String,
    pub layer: Layer,
    pub conditions: Vec<Condition>,
    pub action: FilterAction,
    /// The engine's priority of the filter among those of its layer.
    pub weight: u64,
}

/// A filter descriptor as plain values.
pub struct DescriptorModel {
    pub name: Seq<char>,
    pub description: Seq<char>,
    pub layer: Layer,
    pub conditions: Seq<ConditionModel>,
    pub action: FilterAction,
    pub weight: u64,
}

impl View for FilterDescriptor {
    type V = DescriptorModel;

    open spec fn view(&self) -> DescriptorModel {
        DescriptorModel {
            name: self.name@,
            description: self.description@,
            layer: self.layer,
            conditions: condition_models(self.conditions@),
            action: self.action,
            weight: self.weight,
        }
    }
}

/// The description of the filters of the rule named `name`.
pub open spec fn filter_description(name: Seq<char>) -> Seq<char> {
    "控制 "@ + name + " 的网络流量"@
}

/// The filter that a rule compiles to at a layer, given its weight.
pub open spec fn descriptor_of(rule: RuleFields, layer: Layer, weight: u64) -> DescriptorModel {
    DescriptorModel {
        name: rule.name,
        description: filter_description(rule.name),
        layer,
        conditions: conditions_of(rule, layer.point),
        action: rule.action,
        weight,
    }
}

/// Whether a filter carries an identity condition.
pub open spec fn has_identity(conditions: Seq<ConditionModel>) -> bool {
    exists|i: int| 0 <= i < conditions.len() && (#[trigger] conditions[i]) is Identity
}

/// Whether a filter carries a condition on the remote address.
pub open spec fn on_remote_address(condition: ConditionModel) -> bool {
    match condition {
        ConditionModel::AddressV4 { side, .. } => side == Side::Remote,
        ConditionModel::AddressV6 { side, .. } => side == Side::Remote,
        ConditionModel::AddressRangeV4 { side, .. } => side == Side::Remote,
        _ => false,
    }
}

/// Whether a filter carries a condition on the remote address.
pub open spec fn has_remote_address(conditions: Seq<ConditionModel>) -> bool {
    exists|i: int| 0 <= i < conditions.len() && on_remote_address(#[trigger] conditions[i])
}

/// A filter and the warnings that go with it.
#[derive(Clone, Debug, PartialEq, Eq)]
pub struct CompiledFilter {
    pub descriptor: FilterDescriptor,
    pub warnings: Vec<CompileWarning>,
}

/// Compiles `rule` into its filter at `layer`, with the given weight.
pub fn compile_filter(rule: &FilterRule, layer: Layer, weight: u64) -> (filter: CompiledFilter)
    ensures
        filter.descriptor@ == descriptor_of(rule@, layer, weight),
        filter.warnings@ == warnings_of(rule@, layer.point),
{
    let compiled = compile_conditions(rule, layer);
    let mut description = "控制 ".to_owned();
    description.append(rule.name.as_str());
    description.append(" 的网络流量");
    CompiledFilter {
        descriptor: FilterDescriptor {
            name: rule.name.clone(),
            description,
            layer,
            conditions: compiled.conditions,
            action: rule.action,
            weight,
        },
        warnings: compiled.warnings,
    }
}

impl FilterDescriptor {
    /// Whether the filter carries an identity condition.
    pub fn has_identity(&self) -> (found: bool)
        ensures
            found == has_identity(self@.conditions),
    {
        let mut i: usize = 0;
        while i < self.conditions.len()
            invariant
                i <= self.conditions.len(),
                forall|k: int| 0 <= k < i ==> !((#[trigger] self@.conditions[k]) is Identity),
            decreases self.conditions.len() - i,
        {
            if let Condition::Identity(_) = &self.conditions[i] {
                assert(self@.conditions[i as int] is Identity);
                return true;
            }
            assert(!(self@.conditions[i as int] is Identity));
            i = i + 1;
        }
        false
    }

    /// Whether the filter carries a condition on the remote address.
    pub fn has_remote_address(&self) -> (found: bool)
        ensures
            found == has_remote_address(self@.conditions),
    {
        let mut i: usize = 0;
        while i < self.conditions.len()
            invariant
                i <= self.conditions.len(),
                forall|k: int| 0 <= k < i ==> !on_remote_address(#[trigger] self@.conditions[k]),
            decreases self.conditions.len() - i,
        {
            let remote = match &self.conditions[i] {
                Condition::AddressV4 { side, .. } => matches!(side, Side::Remote),
                Condition::AddressV6 { side, .. } => matches!(side, Side::Remote),
                Condition::AddressRangeV4 { side, .. } => matches!(side, Side::Remote),
                _ => false,
            };
            assert(remote == on_remote_address(self@.conditions[i as int]));
            if remote {
                return true;
            }
            i = i + 1;
        }
        false
    }
}

} // verus!
