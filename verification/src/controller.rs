//! The controller: the one owner of an engine session and of the filters
//! installed through it.
//!
//! The controller decides and keeps the books; it does not talk to the
//! engine. Whoever does hands each answer of the engine back to it.

use vstd::prelude::*;
use crate::condition::warnings_of;
use crate::descriptor::{
    compile_filter, descriptor_of, has_identity, has_remote_address, CompiledFilter,
};
use crate::config::{rules_of_configs, RuleConfig};
use crate::engine::{engine_error_of, EngineError, ENGINE_SUCCESS};
use crate::layer::{layer_name, Layer};
use crate::plan::{plan_of, planned_models, rule_fields, InstallPlan, PlannedModel};
use crate::rule::FilterRule;
use crate::selector::{layers_of, select_layers};
use crate::weight::{weight_step, WeightCounter};

verus! {

/// Where a controller stands in its life.
#[derive(Clone, Copy, Debug, PartialEq, Eq, Structural)]
pub enum SessionState {
    /// No session has been opened yet.
    Uninitialized,
    /// The session is open: filters can be installed and removed.
    Initialized,
    /// The session has been closed for good.
    Closed,
}

/// A filter that the engine refused, with what is known of it.
#[derive(Clone, Copy, Debug, PartialEq, Eq, Structural)]
pub struct PointRejection {
    pub rule_index: usize,
    pub layer: Layer,
    pub error: EngineError,
    pub condition_count: usize,
    pub has_identity: bool,
    pub has_remote_address: bool,
}

/// What became of a batch: the filters installed and those refused.
#[derive(Clone, Debug, PartialEq, Eq)]
pub struct InstallReport {
    /// The engine's identifiers of the filters installed, in plan order.
    pub filter_ids: Vec<u64>,
    /// For each installed filter, the index in the batch of the rule that
    /// it belongs to.
    pub rule_indices: Vec<usize>,
    /// The filters that the engine refused, in plan order.
    pub rejections: Vec<PointRejection>,
}

/// Why an operation of the controller failed.
#[derive(Clone, Debug, PartialEq, Eq)]
pub enum WfpError {
    /// The controller is not in a state that allows the operation.
    InvalidState(SessionState),
    /// The engine could not open or close the session.
    SessionFailure(EngineError),
    /// Not one filter of the batch was installed.
    NothingInstalled(Vec<PointRejection>),
    /// Not one of the filters was deleted.
    NothingDeleted,
    /// The engine refused the request.
    EngineRejection(EngineError),
}

/// The engine's answer to a request to add a filter: the identifier of the
/// new filter, or the code of the refusal.
pub type AddReply = Result<u64, u32>;

/// How many of the planned filters have been answered for.
pub open spec fn answered(planned: nat, replies: nat) -> nat {
    if planned <= replies {
        planned
    } else {
        replies
    }
}

/// The identifiers among the first `n` answers, in order.
pub open spec fn installed_ids(replies: Seq<AddReply>, n: nat) -> Seq<u64>
    decreases n,
{
    if n == 0 {
        Seq::empty()
    } else {
        let before = installed_ids(replies, (n - 1) as nat);
        match replies[n - 1] {
            Ok(id) => before.push(id),
            Err(_) => before,
        }
    }
}

/// The rules of the filters installed among the first `n` answers, by
/// their indices in the batch, in order.
pub open spec fn installed_rules(filters: Seq<PlannedModel>, replies: Seq<AddReply>, n: nat) -> Seq<
    usize,
>
    decreases n,
{
    if n == 0 {
        Seq::empty()
    } else {
        let before = installed_rules(filters, replies, (n - 1) as nat);
        match replies[n - 1] {
            Ok(_) => before.push(filters[n - 1].rule_index),
            Err(_) => before,
        }
    }
}

/// The record of a filter that the engine refused with `code`.
pub open spec fn rejection_of(filter: PlannedModel, code: u32) -> PointRejection {
    PointRejection {
        rule_index: filter.rule_index,
        layer: filter.descriptor.layer,
        error: engine_error_of(code),
        condition_count: filter.descriptor.conditions.len() as usize,
        has_identity: has_identity(filter.descriptor.conditions),
        has_remote_address: has_remote_address(filter.descriptor.conditions),
    }
}

/// The records of the refusals among the first `n` answers, in order.
pub open spec fn rejections_of(filters: Seq<PlannedModel>, replies: Seq<AddReply>, n: nat) -> Seq<
    PointRejection,
>
    decreases n,
{
    if n == 0 {
        Seq::empty()
    } else {
        let before = rejections_of(filters, replies, (n - 1) as nat);
        match replies[n - 1] {
            Ok(_) => before,
            Err(code) => before.push(rejection_of(filters[n - 1], code)),
        }
    }
}

/// The index of the first `id` in `ids`, or the length of `ids` if there
/// is none.
pub open spec fn first_position(ids: Seq<u64>, id: u64) -> int
    decreases ids.len(),
{
    if ids.len() == 0 {
        0
    } else if ids[0] == id {
        0
    } else {
        1 + first_position(ids.drop_first(), id)
    }
}

/// The list without the first `id` in it; the list itself if there is none.
pub open spec fn without_first(ids: Seq<u64>, id: u64) -> Seq<u64> {
    let i = first_position(ids, id);
    if 0 <= i < ids.len() {
        ids.remove(i)
    } else {
        ids
    }
}

/// What `first_position` finds: nothing before it is `id`, and it is
/// `id` unless the list ran out.
pub proof fn lemma_first_position(ids: Seq<u64>, id: u64)
    ensures
        0 <= first_position(ids, id) <= ids.len(),
        forall|j: int| 0 <= j < first_position(ids, id) ==> ids[j] != id,
        first_position(ids, id) < ids.len() ==> ids[first_position(ids, id)] == id,
    decreases ids.len(),
{
    if ids.len() != 0 && ids[0] != id {
        let rest = ids.drop_first();
        lemma_first_position(rest, id);
        assert forall|j: int| 0 <= j < first_position(ids, id) implies ids[j] != id by {
            if j > 0 {
                assert(ids[j] == rest[j - 1]);
            }
        }
        assert(first_position(rest, id) < rest.len() ==> rest[first_position(rest, id)]
            == ids[first_position(ids, id)]);
    }
}

/// The tracked filters after the first `n` of the deletions asked for:
/// each filter that the engine deleted (code of success) is struck once.
pub open spec fn after_deletes(ids: Seq<u64>, targets: Seq<u64>, codes: Seq<u32>, n: nat) -> Seq<
    u64,
>
    decreases n,
{
    if n == 0 {
        ids
    } else {
        let before = after_deletes(ids, targets, codes, (n - 1) as nat);
        if codes[n - 1] == ENGINE_SUCCESS {
            without_first(before, targets[n - 1])
        } else {
            before
        }
    }
}

/// Whether none of the first `n` filters asked for is tracked.
pub open spec fn none_tracked(ids: Seq<u64>, targets: Seq<u64>, n: nat) -> bool {
    forall|i: int| 0 <= i < n ==> !ids.contains(#[trigger] targets[i])
}

/// How many of the first `n` deletions the engine carried out.
pub open spec fn deleted_count(codes: Seq<u32>, n: nat) -> nat
    decreases n,
{
    if n == 0 {
        0
    } else {
        deleted_count(codes, (n - 1) as nat) + if codes[n - 1] == ENGINE_SUCCESS {
            1nat
        } else {
            0nat
        }
    }
}

/// Those of the first `n` tracked filters whose deletion the engine
/// refused, `codes[i]` being its answer for `ids[i]`.
pub open spec fn refused_deletes(ids: Seq<u64>, codes: Seq<u32>, n: nat) -> Seq<u64>
    decreases n,
{
    if n == 0 {
        Seq::empty()
    } else {
        let before = refused_deletes(ids, codes, (n - 1) as nat);
        if n - 1 < codes.len() && codes[n - 1] != ENGINE_SUCCESS {
            before.push(ids[n - 1])
        } else {
            before
        }
    }
}

/// Those of the first `n` tracked filters that the engine did not delete:
/// it refused, or it was not asked.
pub open spec fn surviving(ids: Seq<u64>, codes: Seq<u32>, n: nat) -> Seq<u64>
    decreases n,
{
    if n == 0 {
        Seq::empty()
    } else {
        let before = surviving(ids, codes, (n - 1) as nat);
        if n - 1 < codes.len() && codes[n - 1] == ENGINE_SUCCESS {
            before
        } else {
            before.push(ids[n - 1])
        }
    }
}

/// Whether a rule failed as a whole: of its filters that were answered
/// for, at least one, the engine installed none.
pub open spec fn rule_failed(
    filters: Seq<PlannedModel>,
    replies: Seq<AddReply>,
    rule_index: usize,
) -> bool {
    let n = answered(filters.len(), replies.len());
    &&& exists|i: int| 0 <= i < n && (#[trigger] filters[i]).rule_index == rule_index
    &&& forall|i: int|
        0 <= i < n && (#[trigger] filters[i]).rule_index == rule_index ==> replies[i] is Err
}

/// The controller of one engine session.
#[derive(Clone, Debug, PartialEq, Eq)]
pub struct WfpController {
    pub state: SessionState,
    /// The engine's identifiers of the filters that are installed, oldest first.
    pub filter_ids: Vec<u64>,
    /// The source of the filters' weights.
    pub weights: WeightCounter,
}

impl WfpController {
    /// A controller without a session and without filters.
    pub fn new() -> (controller: WfpController)
        ensures
            controller.state == SessionState::Uninitialized,
            controller.filter_ids@.len() == 0,
            controller.weights.value == crate::weight::INITIAL_WEIGHT,
    {
        WfpController {
            state: SessionState::Uninitialized,
            filter_ids: Vec::new(),
            weights: WeightCounter::new(),
        }
    }

    /// Takes note of the engine's answer to the opening of the session.
    ///
    /// Only a controller that has had no session can get one. On success
    /// the controller is initialized; on any failure it is left as it was.
    pub fn initialize(&mut self, open_code: u32) -> (result: Result<(), WfpError>)
        ensures
            final(self).filter_ids == old(self).filter_ids,
            final(self).weights == old(self).weights,
            old(self).state != SessionState::Uninitialized ==> result == Err::<(), WfpError>(
                WfpError::InvalidState(old(self).state),
            ) && final(self).state == old(self).state,
            old(self).state == SessionState::Uninitialized && open_code == ENGINE_SUCCESS
                ==> result == Ok::<(), WfpError>(()) && final(self).state
                == SessionState::Initialized,
            old(self).state == SessionState::Uninitialized && open_code != ENGINE_SUCCESS
                ==> result == Err::<(), WfpError>(
                WfpError::SessionFailure(engine_error_of(open_code)),
            ) && final(self).state == SessionState::Uninitialized,
    {
        match self.state {
            SessionState::Uninitialized => {
                if open_code == ENGINE_SUCCESS {
                    self.state = SessionState::Initialized;
                    Ok(())
                } else {
                    Err(WfpError::SessionFailure(EngineError::from_code(open_code)))
                }
            },
            state => Err(WfpError::InvalidState(state)),
        }
    }

    /// The layers at which `rule` is installed.
    pub fn get_layers_for_rule(&self, rule: &FilterRule) -> (layers: Vec<Layer>)
        ensures
            layers@ == layers_of(rule@),
    {
        select_layers(rule)
    }

    /// The name of a layer.
    pub fn get_layer_name(&self, layer: &Layer) -> (name: &'static str)
        ensures
            name@ == layer_name(*layer),
    {
        layer.name()
    }

    /// Compiles the filter of `rule` at `layer` and gives it the next
    /// weight. There is no filter only where the weights have run out.
    pub fn add_advanced_network_filter(&mut self, rule: &FilterRule, layer: Layer) -> (filter:
        Option<CompiledFilter>)
        ensures
            final(self).state == old(self).state,
            final(self).filter_ids == old(self).filter_ids,
            old(self).weights.value + weight_step(rule@.remote is Some) <= u64::MAX ==> filter
                is Some && final(self).weights.value == old(self).weights.value + weight_step(
                rule@.remote is Some,
            ) && filter->0.descriptor@ == descriptor_of(rule@, layer, final(self).weights.value)
                && filter->0.warnings@ == warnings_of(rule@, layer.point),
            old(self).weights.value + weight_step(rule@.remote is Some) > u64::MAX ==> filter
                is None && final(self).weights == old(self).weights,
    {
        match self.weights.next_weight(rule.remote.is_some()) {
            Some(weight) => Some(compile_filter(rule, layer, weight)),
            None => None,
        }
    }

    /// Plans the installation of a batch of rules: validates each rule,
    /// selects its layers and compiles its filter at each of them, with
    /// weights in increasing order. Nothing is planned without a session.
    pub fn add_advanced_filters(&mut self, rules: &[FilterRule]) -> (result: Result<
        InstallPlan,
        WfpError,
    >)
        ensures
            final(self).state == old(self).state,
            final(self).filter_ids == old(self).filter_ids,
            old(self).state != SessionState::Initialized ==> result == Err::<InstallPlan, WfpError>(
                WfpError::InvalidState(old(self).state),
            ) && final(self).weights == old(self).weights,
            old(self).state == SessionState::Initialized ==> result is Ok && result->Ok_0.state(
                final(self).weights.value,
            ) == plan_of(rule_fields(rules@), old(self).weights.value),
    {
        match self.state {
            SessionState::Initialized => {
                let mut weights = self.weights;
                let plan = InstallPlan::for_rules(rules, &mut weights);
                self.weights = weights;
                Ok(plan)
            },
            state => Err(WfpError::InvalidState(state)),
        }
    }

    /// Takes note of the engine's answers to the filters of a plan,
    /// `replies[i]` being the answer for `plan.filters[i]`. Filters
    /// without an answer count as not handed in.
    ///
    /// The identifiers of the installed filters are kept for their later
    /// removal. The batch succeeds if at least one filter was installed.
    pub fn confirm_filters(&mut self, plan: &InstallPlan, replies: &Vec<AddReply>) -> (result:
        Result<InstallReport, WfpError>)
        ensures
            final(self).state == old(self).state,
            final(self).weights == old(self).weights,
            old(self).state != SessionState::Initialized ==> result == Err::<
                InstallReport,
                WfpError,
            >(WfpError::InvalidState(old(self).state)) && final(self).filter_ids == old(self).filter_ids,
            old(self).state == SessionState::Initialized ==> ({
                let n = answered(plan.filters@.len(), replies@.len());
                let ids = installed_ids(replies@, n);
                let rejections = rejections_of(planned_models(plan.filters@), replies@, n);
                &&& final(self).filter_ids@ == old(self).filter_ids@ + ids
                &&& ids.len() > 0 ==> result is Ok && result->Ok_0.filter_ids@ == ids
                    && result->Ok_0.rule_indices@ == installed_rules(
                    planned_models(plan.filters@),
                    replies@,
                    n,
                ) && result->Ok_0.rejections@ == rejections
                &&& ids.len() == 0 ==> (result matches Err(WfpError::NothingInstalled(r)) && r@
                    == rejections)
            }),
    {
        match self.state {
            SessionState::Initialized => {},
            state => {
                return Err(WfpError::InvalidState(state));
            },
        }
        let n = if plan.filters.len() <= replies.len() {
            plan.filters.len()
        } else {
            replies.len()
        };
        let mut ids: Vec<u64> = Vec::new();
        let mut rule_indices: Vec<usize> = Vec::new();
        let mut rejections: Vec<PointRejection> = Vec::new();
        let mut i: usize = 0;
        while i < n
            invariant
                i <= n,
                n == answered(plan.filters@.len(), replies@.len()),
                self.state == old(self).state,
                self.weights == old(self).weights,
                ids@ == installed_ids(replies@, i as nat),
                rule_indices@ == installed_rules(
                    planned_models(plan.filters@),
                    replies@,
                    i as nat,
                ),
                rejections@ == rejections_of(planned_models(plan.filters@), replies@, i as nat),
                self.filter_ids@ == old(self).filter_ids@ + ids@,
            decreases n - i,
        {
            match replies[i] {
                Ok(id) => {
                    assert(planned_models(plan.filters@)[i as int] == plan.filters@[i as int]@);
                    self.filter_ids.push(id);
                    ids.push(id);
                    rule_indices.push(plan.filters[i].rule_index);
                    assert(self.filter_ids@ =~= old(self).filter_ids@ + ids@);
                },
                Err(code) => {
                    let filter = &plan.filters[i];
                    assert(planned_models(plan.filters@)[i as int] == filter@);
                    rejections.push(
                        PointRejection {
                            rule_index: filter.rule_index,
                            layer: filter.descriptor.layer,
                            error: EngineError::from_code(code),
                            condition_count: filter.descriptor.conditions.len(),
                            has_identity: filter.descriptor.has_identity(),
                            has_remote_address: filter.descriptor.has_remote_address(),
                        },
                    );
                },
            }
            i = i + 1;
        }
        if ids.len() > 0 {
            Ok(InstallReport { filter_ids: ids, rule_indices, rejections })
        } else {
            Err(WfpError::NothingInstalled(rejections))
        }
    }
}

impl WfpController {
    /// Strikes the first `filter_id` from the tracked filters, if there is one.
    fn forget(&mut self, filter_id: u64)
        ensures
            final(self).state == old(self).state,
            final(self).weights == old(self).weights,
            final(self).filter_ids@ == without_first(old(self).filter_ids@, filter_id),
    {
        proof {
            lemma_first_position(self.filter_ids@, filter_id);
        }
        let mut i: usize = 0;
        while i < self.filter_ids.len()
            invariant
                i <= self.filter_ids.len(),
                self.filter_ids == old(self).filter_ids,
                self.state == old(self).state,
                self.weights == old(self).weights,
                forall|j: int| 0 <= j < i ==> self.filter_ids@[j] != filter_id,
                i <= first_position(self.filter_ids@, filter_id),
            decreases self.filter_ids.len() - i,
        {
            if self.filter_ids[i] == filter_id {
                proof {
                    lemma_first_position(self.filter_ids@, filter_id);
                }
                self.filter_ids.remove(i);
                return ;
            }
            proof {
                lemma_first_position(self.filter_ids@, filter_id);
            }
            i = i + 1;
        }
        proof {
            lemma_first_position(self.filter_ids@, filter_id);
        }
    }

    /// Whether a filter is tracked.
    pub fn is_tracked(&self, filter_id: u64) -> (found: bool)
        ensures
            found == self.filter_ids@.contains(filter_id),
    {
        let mut i: usize = 0;
        while i < self.filter_ids.len()
            invariant
                i <= self.filter_ids.len(),
                forall|j: int| 0 <= j < i ==> self.filter_ids@[j] != filter_id,
            decreases self.filter_ids.len() - i,
        {
            if self.filter_ids[i] == filter_id {
                return true;
            }
            i = i + 1;
        }
        false
    }

    /// Takes note of the engine's answers to the deletion of filters,
    /// `codes[i]` being the answer for `filter_ids[i]`. Filters without an
    /// answer count as not asked for.
    ///
    /// Each deleted filter is struck from the tracked ones. Returns how
    /// many the engine deleted. To remove what is already removed is no
    /// error: where the engine deleted none and none of the filters asked
    /// for is tracked, the answer is zero and the books stay as they are.
    /// It is an error where nothing was asked for, and where the engine
    /// deleted none although one of the filters is tracked.
    pub fn delete_filters(&mut self, filter_ids: &[u64], codes: &[u32]) -> (result: Result<
        u32,
        WfpError,
    >)
        requires
            filter_ids@.len() <= u32::MAX,
        ensures
            final(self).state == old(self).state,
            final(self).weights == old(self).weights,
            old(self).state != SessionState::Initialized ==> result == Err::<u32, WfpError>(
                WfpError::InvalidState(old(self).state),
            ) && final(self).filter_ids == old(self).filter_ids,
            old(self).state == SessionState::Initialized ==> ({
                let n = answered(filter_ids@.len(), codes@.len());
                let gone = n > 0 && none_tracked(old(self).filter_ids@, filter_ids@, n);
                &&& final(self).filter_ids@ == after_deletes(
                    old(self).filter_ids@,
                    filter_ids@,
                    codes@,
                    n,
                )
                &&& deleted_count(codes@, n) > 0 ==> result == Ok::<u32, WfpError>(
                    deleted_count(codes@, n) as u32,
                )
                &&& deleted_count(codes@, n) == 0 ==> final(self).filter_ids@ == old(self).filter_ids@
                &&& deleted_count(codes@, n) == 0 && gone ==> result == Ok::<u32, WfpError>(0u32)
                &&& deleted_count(codes@, n) == 0 && !gone ==> result == Err::<u32, WfpError>(
                    WfpError::NothingDeleted,
                )
            }),
    {
        match self.state {
            SessionState::Initialized => {},
            state => {
                return Err(WfpError::InvalidState(state));
            },
        }
        let n = if filter_ids.len() <= codes.len() {
            filter_ids.len()
        } else {
            codes.len()
        };
        let mut deleted: u32 = 0;
        let mut i: usize = 0;
        while i < n
            invariant
                i <= n,
                n == answered(filter_ids@.len(), codes@.len()),
                filter_ids@.len() <= u32::MAX,
                self.state == old(self).state,
                self.weights == old(self).weights,
                deleted == deleted_count(codes@, i as nat),
                deleted <= i,
                deleted == 0 ==> self.filter_ids@ == old(self).filter_ids@,
                self.filter_ids@ == after_deletes(
                    old(self).filter_ids@,
                    filter_ids@,
                    codes@,
                    i as nat,
                ),
            decreases n - i,
        {
            if codes[i] == ENGINE_SUCCESS {
                self.forget(filter_ids[i]);
                deleted = deleted + 1;
            }
            i = i + 1;
        }
        if deleted > 0 {
            return Ok(deleted);
        }
        if n == 0 {
            return Err(WfpError::NothingDeleted);
        }
        let mut k: usize = 0;
        while k < n
            invariant
                k <= n,
                0 < n <= filter_ids@.len(),
                n == answered(filter_ids@.len(), codes@.len()),
                old(self).state == SessionState::Initialized,
                self.state == old(self).state,
                self.weights == old(self).weights,
                deleted_count(codes@, n as nat) == 0,
                self.filter_ids@ == old(self).filter_ids@,
                self.filter_ids@ == after_deletes(
                    old(self).filter_ids@,
                    filter_ids@,
                    codes@,
                    n as nat,
                ),
                none_tracked(old(self).filter_ids@, filter_ids@, k as nat),
            decreases n - k,
        {
            if self.is_tracked(filter_ids[k]) {
                assert(!none_tracked(old(self).filter_ids@, filter_ids@, n as nat));
                return Err(WfpError::NothingDeleted);
            }
            k = k + 1;
        }
        Ok(0)
    }

    /// Takes note of the engine's answer to the deletion of one filter.
    /// A deleted filter is struck from the tracked ones. To remove what is
    /// already removed is no error: whatever the engine answers for a
    /// filter that is not tracked, the books stay as they are. A refusal
    /// for a tracked filter is an error.
    pub fn remove_filter(&mut self, filter_id: u64, code: u32) -> (result: Result<(), WfpError>)
        ensures
            final(self).state == old(self).state,
            final(self).weights == old(self).weights,
            old(self).state != SessionState::Initialized ==> result == Err::<(), WfpError>(
                WfpError::InvalidState(old(self).state),
            ) && final(self).filter_ids == old(self).filter_ids,
            old(self).state == SessionState::Initialized && code == ENGINE_SUCCESS ==> result
                == Ok::<(), WfpError>(()) && final(self).filter_ids@ == without_first(
                old(self).filter_ids@,
                filter_id,
            ),
            old(self).state == SessionState::Initialized && code != ENGINE_SUCCESS && !old(self).filter_ids@.contains(filter_id) ==> result == Ok::<(), WfpError>(()) && final(self).filter_ids == old(self).filter_ids,
            old(self).state == SessionState::Initialized && code != ENGINE_SUCCESS && old(self).filter_ids@.contains(filter_id) ==> result == Err::<(), WfpError>(
                WfpError::EngineRejection(engine_error_of(code)),
            ) && final(self).filter_ids == old(self).filter_ids,
    {
        match self.state {
            SessionState::Initialized => {},
            state => {
                return Err(WfpError::InvalidState(state));
            },
        }
        if code == ENGINE_SUCCESS {
            self.forget(filter_id);
            Ok(())
        } else if self.is_tracked(filter_id) {
            Err(WfpError::EngineRejection(EngineError::from_code(code)))
        } else {
            Ok(())
        }
    }

    /// Takes note of the end of the session: of the engine's answers to
    /// the deletion of every tracked filter, `delete_codes[i]` being the
    /// answer for `filter_ids[i]`, and of its answer to the closing of the
    /// session.
    ///
    /// A deletion that the engine refused does not stand in the way: the
    /// filters concerned are returned. Once the session is closed nothing
    /// is tracked any more. If the engine did not close the session, the
    /// controller stays initialized and keeps the filters that were not
    /// deleted.
    pub fn cleanup(&mut self, delete_codes: &[u32], close_code: u32) -> (result: Result<
        Vec<u64>,
        WfpError,
    >)
        ensures
            final(self).weights == old(self).weights,
            old(self).state != SessionState::Initialized ==> result == Err::<Vec<u64>, WfpError>(
                WfpError::InvalidState(old(self).state),
            ) && final(self).filter_ids == old(self).filter_ids && final(self).state == old(self).state,
            old(self).state == SessionState::Initialized && close_code == ENGINE_SUCCESS ==> result
                is Ok && result->Ok_0@ == refused_deletes(
                old(self).filter_ids@,
                delete_codes@,
                old(self).filter_ids@.len(),
            ) && final(self).filter_ids@.len() == 0 && final(self).state == SessionState::Closed,
            old(self).state == SessionState::Initialized && close_code != ENGINE_SUCCESS ==> result
                == Err::<Vec<u64>, WfpError>(WfpError::SessionFailure(engine_error_of(close_code)))
                && final(self).filter_ids@ == surviving(
                old(self).filter_ids@,
                delete_codes@,
                old(self).filter_ids@.len(),
            ) && final(self).state == SessionState::Initialized,
    {
        match self.state {
            SessionState::Initialized => {},
            state => {
                return Err(WfpError::InvalidState(state));
            },
        }
        let mut refused: Vec<u64> = Vec::new();
        let mut kept: Vec<u64> = Vec::new();
        let mut i: usize = 0;
        while i < self.filter_ids.len()
            invariant
                i <= self.filter_ids.len(),
                self.filter_ids == old(self).filter_ids,
                self.state == old(self).state,
                self.weights == old(self).weights,
                refused@ == refused_deletes(self.filter_ids@, delete_codes@, i as nat),
                kept@ == surviving(self.filter_ids@, delete_codes@, i as nat),
            decreases self.filter_ids.len() - i,
        {
            let id = self.filter_ids[i];
            if i < delete_codes.len() && delete_codes[i] == ENGINE_SUCCESS {
            } else {
                kept.push(id);
                if i < delete_codes.len() {
                    refused.push(id);
                }
            }
            i = i + 1;
        }
        if close_code == ENGINE_SUCCESS {
            self.filter_ids = Vec::new();
            self.state = SessionState::Closed;
            Ok(refused)
        } else {
            self.filter_ids = kept;
            Err(WfpError::SessionFailure(EngineError::from_code(close_code)))
        }
    }

    /// The rules behind the tracked filters. The controller keeps
    /// identifiers, not rules, so there are none to give.
    pub fn get_rules(&self) -> (rules: Vec<FilterRule>)
        ensures
            rules@.len() == 0,
    {
        Vec::new()
    }

    /// The identifiers of the tracked filters. The controller does not
    /// keep them apart by rule: every rule is given them all.
    pub fn get_filter_ids(&self, rule: &FilterRule) -> (ids: Vec<u64>)
        ensures
            ids@ == self.filter_ids@,
    {
        self.filter_ids.clone()
    }
}

impl WfpController {
    /// Writes out the rules behind the tracked filters, as made at the
    /// time `created_at`.
    pub fn export_rules(&self, created_at: &str) -> (config: RuleConfig)
        ensures
            config.version@ == "1.0"@,
            config.rules@.len() == 0,
            config.groups@.len() == 0,
            config.metadata.created_at@ == created_at@,
            config.metadata.created_by@ == "AstralWFP"@,
            crate::rule::text_of(config.metadata.description) == Some("导出的WFP规则配置"@),
            config.metadata.tags@.len() == 2,
            config.metadata.tags@[0]@ == "wfp"@,
            config.metadata.tags@[1]@ == "firewall"@,
    {
        let rules = self.get_rules();
        let config = RuleConfig::from_rules(rules.as_slice(), created_at);
        assert(config.rules@.len() == crate::config::config_fields(config.rules@).len());
        config
    }

    /// Reads the rules of a written-out set back and plans their
    /// installation.
    pub fn import_rules(&mut self, config: &RuleConfig) -> (result: Result<InstallPlan, WfpError>)
        ensures
            final(self).state == old(self).state,
            final(self).filter_ids == old(self).filter_ids,
            old(self).state != SessionState::Initialized ==> result == Err::<InstallPlan, WfpError>(
                WfpError::InvalidState(old(self).state),
            ) && final(self).weights == old(self).weights,
            old(self).state == SessionState::Initialized ==> result is Ok && result->Ok_0.state(
                final(self).weights.value,
            ) == plan_of(rules_of_configs(config.rules@), old(self).weights.value),
    {
        let rules = config.to_rules();
        self.add_advanced_filters(rules.as_slice())
    }
}

impl InstallPlan {
    /// Whether the rule at `rule_index` of the batch failed as a whole,
    /// given the engine's answers to the filters of the plan: of its
    /// filters that were answered for, at least one, none was installed.
    pub fn rule_failed(&self, replies: &Vec<AddReply>, rule_index: usize) -> (failed: bool)
        ensures
            failed == rule_failed(planned_models(self.filters@), replies@, rule_index),
    {
        let n = if self.filters.len() <= replies.len() {
            self.filters.len()
        } else {
            replies.len()
        };
        let ghost models = planned_models(self.filters@);
        let mut seen = false;
        let mut i: usize = 0;
        while i < n
            invariant
                i <= n,
                n == answered(self.filters@.len(), replies@.len()),
                models == planned_models(self.filters@),
                seen == exists|k: int| 0 <= k < i && (#[trigger] models[k]).rule_index == rule_index,
                forall|k: int|
                    0 <= k < i && (#[trigger] models[k]).rule_index == rule_index
                        ==> replies@[k] is Err,
            decreases n - i,
        {
            assert(models[i as int] == self.filters@[i as int]@);
            if self.filters[i].rule_index == rule_index {
                if replies[i].is_ok() {
                    assert(!(replies@[i as int] is Err));
                    return false;
                }
                seen = true;
            }
            i = i + 1;
        }
        seen
    }
}

/// Where the engine installs every filter it is handed, every filter has
/// its identifier, none is refused, and no rule fails as a whole.
pub proof fn lemma_all_installed(filters: Seq<PlannedModel>, replies: Seq<AddReply>, n: nat)
    requires
        n <= filters.len(),
        n <= replies.len(),
        forall|i: int| 0 <= i < n ==> (#[trigger] replies[i]) is Ok,
    ensures
        installed_ids(replies, n).len() == n,
        forall|i: int| 0 <= i < n ==> (#[trigger] installed_ids(replies, n)[i]) == replies[i]->Ok_0,
        installed_rules(filters, replies, n).len() == n,
        forall|i: int|
            0 <= i < n ==> (#[trigger] installed_rules(filters, replies, n)[i])
                == filters[i].rule_index,
        rejections_of(filters, replies, n) == Seq::<PointRejection>::empty(),
    decreases n,
{
    if n > 0 {
        lemma_all_installed(filters, replies, (n - 1) as nat);
        assert(replies[n - 1] is Ok);
    }
}

/// A rule that fails validation does not stop the batch. Where the
/// weights last and the engine installs every filter it is handed, the
/// filters installed are those of all layers of all valid rules, the
/// engine has refused nothing, no rule has failed at the engine, and the
/// rules that fail validation are reported as such, each with its reason.
pub proof fn lemma_invalid_rule_does_not_stop_the_batch(
    rules: Seq<crate::rule::RuleFields>,
    weight: u64,
    replies: Seq<AddReply>,
)
    requires
        rules.len() <= usize::MAX,
        weight + crate::plan::weight_needed(rules, rules.len()) <= u64::MAX,
        replies.len() == plan_of(rules, weight).filters.len(),
        forall|i: int| 0 <= i < replies.len() ==> (#[trigger] replies[i]) is Ok,
    ensures
        ({
            let plan = plan_of(rules, weight);
            let n = answered(plan.filters.len(), replies.len());
            &&& n == crate::plan::valid_layer_count(rules, rules.len())
            &&& installed_ids(replies, n).len() == n
            &&& rejections_of(plan.filters, replies, n) == Seq::<PointRejection>::empty()
            &&& plan.skipped == crate::plan::invalid_rules(rules, rules.len())
            &&& forall|r: usize| !rule_failed(plan.filters, replies, r)
        }),
{
    let plan = plan_of(rules, weight);
    crate::plan::lemma_plan_leaves_out_invalid_rules_only(rules, weight);
    lemma_all_installed(plan.filters, replies, replies.len());
}

} // verus!
