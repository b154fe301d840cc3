//! Safe writes: a write reads the current state, skips a no-op, mutates at
//! most once and confirms the result by reading the state again. The
//! decisions are a state machine; the caller performs the reads and the
//! mutation and hands their results back as events.
use crate::failure::{Detail, DetailModel, ToolFailure, ToolFailureModel};
use vstd::prelude::*;

verus! {

/// The state that a write asks for.
#[derive(Clone, Copy, Debug, PartialEq, Eq, Structural)]
pub enum RequestedState {
    Enabled,
    Disabled,
}

/// The requested state as a flag.
pub open spec fn requested_bool(r: RequestedState) -> bool {
    r == RequestedState::Enabled
}

impl RequestedState {
    /// The requested state as a flag: enabled is `true`.
    pub fn as_bool(self) -> (r: bool)
        ensures
            r == requested_bool(self),
    {
        match self {
            RequestedState::Enabled => true,
            RequestedState::Disabled => false,
        }
    }
}

/// The outcome of a confirmed write.
#[derive(Clone, Copy, Debug, PartialEq, Eq, Structural)]
pub struct WriteOutcome {
    pub requested: bool,
    pub changed: bool,
    pub previous_state: bool,
    pub final_state: bool,
}

/// A write in progress: what it asks for and the state it found.
#[derive(Clone, Copy, Debug, PartialEq, Eq, Structural)]
pub struct WriteSafety {
    requested: RequestedState,
    previous_state: bool,
}

/// What a write in progress holds.
pub struct WriteSafetyModel {
    pub requested: RequestedState,
    pub previous_state: bool,
}

impl View for WriteSafety {
    type V = WriteSafetyModel;

    closed spec fn view(&self) -> WriteSafetyModel {
        WriteSafetyModel { requested: self.requested, previous_state: self.previous_state }
    }
}

/// Whether the found state differs from the requested one.
pub open spec fn spec_needs_mutation(s: WriteSafetyModel) -> bool {
    requested_bool(s.requested) != s.previous_state
}

/// The failure of a write whose final state is not the requested one.
pub open spec fn postcondition_failure(s: WriteSafetyModel, final_state: bool) -> ToolFailureModel {
    ToolFailureModel {
        code: "write_postcondition_failed"@,
        message: "Bugboard did not reach the requested state."@,
        details: seq![
            ("requested"@, DetailModel::Flag(requested_bool(s.requested))),
            ("previous_state"@, DetailModel::Flag(s.previous_state)),
            ("final_state"@, DetailModel::Flag(final_state)),
        ],
        delivery_uncertain: false,
    }
}

/// What `WriteSafety::finish` gives: the outcome when the final state is the
/// requested one, the postcondition failure otherwise.
pub open spec fn spec_finish(s: WriteSafetyModel, final_state: bool) -> Result<
    WriteOutcome,
    ToolFailureModel,
> {
    if final_state != requested_bool(s.requested) {
        Err(postcondition_failure(s, final_state))
    } else {
        Ok(
            WriteOutcome {
                requested: requested_bool(s.requested),
                changed: s.previous_state != final_state,
                previous_state: s.previous_state,
                final_state,
            },
        )
    }
}

/// A result with its failure taken by its view.
pub open spec fn failure_view<T>(r: Result<T, ToolFailure>) -> Result<T, ToolFailureModel> {
    match r {
        Ok(t) => Ok(t),
        Err(f) => Err(f@),
    }
}

impl WriteSafety {
    /// A write of `requested` that found `previous_state`.
    pub fn new(requested: RequestedState, previous_state: bool) -> (r: WriteSafety)
        ensures
            r@ == (WriteSafetyModel { requested, previous_state }),
    {
        WriteSafety { requested, previous_state }
    }

    /// Whether the found state differs from the requested one.
    pub fn needs_mutation(self) -> (r: bool)
        ensures
            r == spec_needs_mutation(self@),
    {
        self.requested.as_bool() != self.previous_state
    }

    /// The outcome of the write once `final_state` was read.
    pub fn finish(self, final_state: bool) -> (r: Result<WriteOutcome, ToolFailure>)
        ensures
            failure_view(r) == spec_finish(self@, final_state),
    {
        let requested = self.requested.as_bool();
        if final_state != requested {
            let mut details: Vec<(String, Detail)> = Vec::new();
            details.push((String::from_str("requested"), Detail::Flag(requested)));
            details.push((String::from_str("previous_state"), Detail::Flag(self.previous_state)));
            details.push((String::from_str("final_state"), Detail::Flag(final_state)));
            let failure = ToolFailure::new(
                "write_postcondition_failed",
                "Bugboard did not reach the requested state.",
                details,
            );
            assert(failure@.details =~= postcondition_failure(self@, final_state).details);
            return Err(failure);
        }
        Ok(
            WriteOutcome {
                requested,
                changed: self.previous_state != final_state,
                previous_state: self.previous_state,
                final_state,
            },
        )
    }
}

/// What a write gives once the mutation was attempted and the state read
/// again: the read state decides. A failed read reports the mutation's own
/// failure when its delivery is certain, the read's failure otherwise. A
/// mutation whose delivery is uncertain counts as done when the state reads
/// as requested; one that certainly failed is reported as it failed.
pub open spec fn spec_resolve(
    s: WriteSafetyModel,
    mutation: Result<(), ToolFailureModel>,
    final_read: Result<bool, ToolFailureModel>,
) -> Result<WriteOutcome, ToolFailureModel> {
    match final_read {
        Err(read_error) => match mutation {
            Err(me) => if !me.delivery_uncertain {
                Err(me)
            } else {
                Err(read_error)
            },
            Ok(()) => Err(read_error),
        },
        Ok(final_state) => {
            let outcome = spec_finish(s, final_state);
            match mutation {
                Ok(()) => outcome,
                Err(e) => match outcome {
                    Ok(o) => if e.delivery_uncertain {
                        Ok(o)
                    } else {
                        Err(e)
                    },
                    Err(p) => if !e.delivery_uncertain {
                        Err(e)
                    } else {
                        Err(p)
                    },
                },
            }
        },
    }
}

/// The outcome of a write after its mutation and the read that follows it.
pub fn resolve_after_mutation(
    safety: WriteSafety,
    mutation: Result<(), ToolFailure>,
    final_read: Result<bool, ToolFailure>,
) -> (r: Result<WriteOutcome, ToolFailure>)
    ensures
        failure_view(r) == spec_resolve(safety@, failure_view(mutation), failure_view(final_read)),
{
    let final_state = match final_read {
        Ok(state) => state,
        Err(read_error) => {
            return match mutation {
                Err(mutation_error) => {
                    if !mutation_error.mutation_delivery_is_uncertain() {
                        Err(mutation_error)
                    } else {
                        Err(read_error)
                    }
                },
                Ok(()) => Err(read_error),
            };
        },
    };
    let outcome = safety.finish(final_state);
    match mutation {
        Ok(()) => outcome,
        Err(error) => match outcome {
            Ok(o) => {
                if error.mutation_delivery_is_uncertain() {
                    Ok(o)
                } else {
                    Err(error)
                }
            },
            Err(postcondition) => {
                if !error.mutation_delivery_is_uncertain() {
                    Err(error)
                } else {
                    Err(postcondition)
                }
            },
        },
    }
}

/// Where a write stands: waiting for the first read, for the mutation, for
/// the confirming read, or done.
pub enum WriteStage {
    ReadInitial,
    Mutate(WriteSafety),
    ReadFinal(WriteSafety, Result<(), ToolFailure>),
    Done,
}

/// A write of one requested state, driven by events.
pub struct WriteFlow {
    requested: RequestedState,
    stage: WriteStage,
}

/// What the caller observed: the state read, or the mutation's result.
pub enum WriteEvent {
    StateRead(Result<bool, ToolFailure>),
    Mutated(Result<(), ToolFailure>),
}

/// What the caller is to do next: read the state, mutate it once, or report
/// the write's result.
pub enum WriteAction {
    ReadState,
    Mutate(RequestedState),
    Finish(Result<WriteOutcome, ToolFailure>),
}

/// What a stage holds.
pub enum StageModel {
    ReadInitial,
    Mutate(WriteSafetyModel),
    ReadFinal(WriteSafetyModel, Result<(), ToolFailureModel>),
    Done,
}

/// What a write flow holds.
pub struct FlowModel {
    pub requested: RequestedState,
    pub stage: StageModel,
}

/// What an event holds.
pub enum EventModel {
    StateRead(Result<bool, ToolFailureModel>),
    Mutated(Result<(), ToolFailureModel>),
}

/// What an action holds.
pub enum ActionModel {
    ReadState,
    Mutate(RequestedState),
    Finish(Result<WriteOutcome, ToolFailureModel>),
}

impl View for WriteStage {
    type V = StageModel;

    open spec fn view(&self) -> StageModel {
        match self {
            WriteStage::ReadInitial => StageModel::ReadInitial,
            WriteStage::Mutate(s) => StageModel::Mutate(s@),
            WriteStage::ReadFinal(s, m) => StageModel::ReadFinal(s@, failure_view(*m)),
            WriteStage::Done => StageModel::Done,
        }
    }
}

impl View for WriteFlow {
    type V = FlowModel;

    closed spec fn view(&self) -> FlowModel {
        FlowModel { requested: self.requested, stage: self.stage@ }
    }
}

impl View for WriteEvent {
    type V = EventModel;

    open spec fn view(&self) -> EventModel {
        match self {
            WriteEvent::StateRead(r) => EventModel::StateRead(failure_view(*r)),
            WriteEvent::Mutated(r) => EventModel::Mutated(failure_view(*r)),
        }
    }
}

impl View for WriteAction {
    type V = ActionModel;

    open spec fn view(&self) -> ActionModel {
        match self {
            WriteAction::ReadState => ActionModel::ReadState,
            WriteAction::Mutate(r) => ActionModel::Mutate(*r),
            WriteAction::Finish(r) => ActionModel::Finish(failure_view(*r)),
        }
    }
}

/// The events that a stage waits for: a read before and after the
/// mutation, the mutation's result in between, and nothing once done.
pub open spec fn accepts(stage: StageModel, event: EventModel) -> bool {
    match (stage, event) {
        (StageModel::ReadInitial, EventModel::StateRead(_)) => true,
        (StageModel::Mutate(_), EventModel::Mutated(_)) => true,
        (StageModel::ReadFinal(_, _), EventModel::StateRead(_)) => true,
        _ => false,
    }
}

/// The flow of a write that has just begun.
pub open spec fn spec_start(requested: RequestedState) -> FlowModel {
    FlowModel { requested, stage: StageModel::ReadInitial }
}

/// One step of a write: the next flow and what to do.
pub open spec fn spec_step(flow: FlowModel, event: EventModel) -> (FlowModel, ActionModel) {
    match (flow.stage, event) {
        (StageModel::ReadInitial, EventModel::StateRead(Err(e))) => (
            FlowModel { stage: StageModel::Done, ..flow },
            ActionModel::Finish(Err(e)),
        ),
        (StageModel::ReadInitial, EventModel::StateRead(Ok(previous_state))) => {
            let s = WriteSafetyModel { requested: flow.requested, previous_state };
            if spec_needs_mutation(s) {
                (FlowModel { stage: StageModel::Mutate(s), ..flow }, ActionModel::Mutate(flow.requested))
            } else {
                (
                    FlowModel { stage: StageModel::Done, ..flow },
                    ActionModel::Finish(spec_finish(s, previous_state)),
                )
            }
        },
        (StageModel::Mutate(s), EventModel::Mutated(m)) => (
            FlowModel { stage: StageModel::ReadFinal(s, m), ..flow },
            ActionModel::ReadState,
        ),
        (StageModel::ReadFinal(s, m), EventModel::StateRead(f)) => (
            FlowModel { stage: StageModel::Done, ..flow },
            ActionModel::Finish(spec_resolve(s, m, f)),
        ),
        _ => (flow, ActionModel::ReadState),
    }
}

impl WriteFlow {
    /// A write of `requested`; its first action reads the current state.
    pub fn start(requested: RequestedState) -> (r: (WriteFlow, WriteAction))
        ensures
            r.0@ == spec_start(requested),
            r.1@ == ActionModel::ReadState,
    {
        (WriteFlow { requested, stage: WriteStage::ReadInitial }, WriteAction::ReadState)
    }

    /// Whether the flow waits for `event`'s kind of event.
    pub fn accepts(&self, event: &WriteEvent) -> (r: bool)
        ensures
            r == accepts(self@.stage, event@),
    {
        match (&self.stage, event) {
            (WriteStage::ReadInitial, WriteEvent::StateRead(_)) => true,
            (WriteStage::Mutate(_), WriteEvent::Mutated(_)) => true,
            (WriteStage::ReadFinal(_, _), WriteEvent::StateRead(_)) => true,
            _ => false,
        }
    }

    /// Whether the write is over.
    pub fn is_done(&self) -> (r: bool)
        ensures
            r == (self@.stage is Done),
    {
        match self.stage {
            WriteStage::Done => true,
            _ => false,
        }
    }

    /// The next flow and action once `event` happened.
    pub fn step(self, event: WriteEvent) -> (r: (WriteFlow, WriteAction))
        requires
            accepts(self@.stage, event@),
        ensures
            (r.0@, r.1@) == spec_step(self@, event@),
    {
        let requested = self.requested;
        match (self.stage, event) {
            (WriteStage::ReadInitial, WriteEvent::StateRead(Err(e))) => (
                WriteFlow { requested, stage: WriteStage::Done },
                WriteAction::Finish(Err(e)),
            ),
            (WriteStage::ReadInitial, WriteEvent::StateRead(Ok(previous_state))) => {
                let safety = WriteSafety::new(requested, previous_state);
                if safety.needs_mutation() {
                    (
                        WriteFlow { requested, stage: WriteStage::Mutate(safety) },
                        WriteAction::Mutate(requested),
                    )
                } else {
                    (
                        WriteFlow { requested, stage: WriteStage::Done },
                        WriteAction::Finish(safety.finish(previous_state)),
                    )
                }
            },
            (WriteStage::Mutate(safety), WriteEvent::Mutated(m)) => (
                WriteFlow { requested, stage: WriteStage::ReadFinal(safety, m) },
                WriteAction::ReadState,
            ),
            (WriteStage::ReadFinal(safety, m), WriteEvent::StateRead(f)) => (
                WriteFlow { requested, stage: WriteStage::Done },
                WriteAction::Finish(resolve_after_mutation(safety, m, f)),
            ),
            (stage, _) => (WriteFlow { requested, stage }, WriteAction::ReadState),
        }
    }
}

/// The actions of a write driven by `events`, until an event comes that the
/// flow does not wait for.
pub open spec fn run(flow: FlowModel, events: Seq<EventModel>) -> Seq<ActionModel>
    decreases events.len(),
{
    if events.len() == 0 || !accepts(flow.stage, events[0]) {
        Seq::empty()
    } else {
        let (next, action) = spec_step(flow, events[0]);
        seq![action] + run(next, events.drop_first())
    }
}

/// How many mutations `actions` ask for.
pub open spec fn mutation_count(actions: Seq<ActionModel>) -> nat
    decreases actions.len(),
{
    if actions.len() == 0 {
        0
    } else {
        (if actions[0] is Mutate {
            1nat
        } else {
            0nat
        }) + mutation_count(actions.drop_first())
    }
}

proof fn lemma_no_mutation_after_start(flow: FlowModel, events: Seq<EventModel>)
    requires
        !(flow.stage is ReadInitial),
    ensures
        mutation_count(run(flow, events)) == 0,
    decreases events.len(),
{
    if events.len() > 0 && accepts(flow.stage, events[0]) {
        let (next, action) = spec_step(flow, events[0]);
        lemma_no_mutation_after_start(next, events.drop_first());
        let actions = run(flow, events);
        assert(actions.drop_first() == run(next, events.drop_first()));
    }
}

/// A write never retries on its own: whatever the reads and the mutation
/// report, a write asks for at most one mutation.
pub proof fn lemma_write_mutates_at_most_once(requested: RequestedState, events: Seq<EventModel>)
    ensures
        mutation_count(run(spec_start(requested), events)) <= 1,
{
    let flow = spec_start(requested);
    if events.len() > 0 && accepts(flow.stage, events[0]) {
        let (next, action) = spec_step(flow, events[0]);
        lemma_no_mutation_after_start(next, events.drop_first());
        let actions = run(flow, events);
        assert(actions.drop_first() == run(next, events.drop_first()));
    }
}

/// A write that finds the requested state already in place skips the
/// mutation and reports an unchanged outcome at once.
pub proof fn lemma_noop_write_skips_mutation(requested: RequestedState)
    ensures
        spec_step(spec_start(requested), EventModel::StateRead(Ok(requested_bool(requested))))
            == (FlowModel { requested, stage: StageModel::Done }, ActionModel::Finish(
            Ok(
                WriteOutcome {
                    requested: requested_bool(requested),
                    changed: false,
                    previous_state: requested_bool(requested),
                    final_state: requested_bool(requested),
                },
            ),
        )),
{
}

/// A flow's stage belongs to the write it was started for.
pub open spec fn flow_wf(flow: FlowModel) -> bool {
    &&& (flow.stage matches StageModel::Mutate(s) ==> s.requested == flow.requested)
    &&& (flow.stage matches StageModel::ReadFinal(s, _) ==> s.requested == flow.requested)
}

/// Every flow reached from a start is well formed.
pub proof fn lemma_flow_wf_preserved(flow: FlowModel, event: EventModel)
    ensures
        flow_wf(spec_start(flow.requested)),
        flow_wf(flow) ==> flow_wf(spec_step(flow, event).0),
{
}

/// A write reports success only after a read confirmed the requested
/// state: every successful outcome that a step reports has its final state
/// equal to the requested one, and it says it changed the state exactly
/// when the final state differs from the one found first.
pub proof fn lemma_success_is_confirmed(flow: FlowModel, event: EventModel)
    requires
        flow_wf(flow),
    ensures
        spec_step(flow, event).1 matches ActionModel::Finish(Ok(o)) ==> {
            &&& o.final_state == requested_bool(flow.requested)
            &&& o.requested == requested_bool(flow.requested)
            &&& o.changed == (o.previous_state != o.final_state)
        },
{
}

/// The read after the mutation decides: when it shows the requested state,
/// the write succeeds unless the mutation certainly failed, and when it
/// fails, a mutation failure of certain delivery is what is reported.
pub proof fn lemma_final_read_decides(
    s: WriteSafetyModel,
    mutation: Result<(), ToolFailureModel>,
    final_read: Result<bool, ToolFailureModel>,
)
    ensures
        (final_read == Ok::<bool, ToolFailureModel>(requested_bool(s.requested)) && !(
        mutation matches Err(e) && !e.delivery_uncertain)) ==> spec_resolve(
            s,
            mutation,
            final_read,
        ) is Ok,
        (mutation matches Err(e) && !e.delivery_uncertain) ==> spec_resolve(s, mutation, final_read)
            == Err::<WriteOutcome, ToolFailureModel>(mutation->Err_0),
{
}

} // verus!
