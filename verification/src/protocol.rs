//! The invocation protocol: what is asked of the execution engine, in which
//! order, and what each of its answers leads to.
//!
//! A run goes through validation, instantiation, resolution of the entry
//! point, and the call, and ends with the values that the guest returned or
//! with the error of the stage that failed. Validation and resolution are
//! done here. Instantiation and the call are the engine's: a driver owns
//! the engine, performs each [`Directive`] on it and reports what happened
//! as an [`EngineEvent`], and the protocol decides what follows.

use crate::error::{InvocationError, InvocationErrorView};
use crate::request::EntryPointView;
use vstd::prelude::*;

verus! {

/// A value that a guest function returns, of one of the kinds that the
/// engine defines. A float is held as its bits. Of a reference only its
/// kind is held, and whether it is null.
#[derive(Clone, Copy, Debug, PartialEq, Eq, Structural)]
pub enum Value {
    I32(i32),
    I64(i64),
    F32(u32),
    F64(u64),
    V128(u128),
    FuncRef { null: bool },
    ExternRef { null: bool },
}

/// What a successful run yields: the values of the guest function's result
/// type, in order. No values at all is a result like any other.
pub type InvocationResult = Vec<Value>;

/// What an instantiated module offers to be called.
#[derive(Debug, PartialEq, Eq)]
pub struct ModuleSurface {
    /// The names of the exported functions.
    pub exports: Vec<String>,
    /// The name of the export that the module designates as its default
    /// entry, where it designates one.
    pub default_entry: Option<String>,
}

/// `ModuleSurface` over mathematical text.
pub struct SurfaceView {
    pub exports: Seq<Seq<char>>,
    pub default_entry: Option<Seq<char>>,
}

impl View for ModuleSurface {
    type V = SurfaceView;

    open spec fn view(&self) -> SurfaceView {
        SurfaceView {
            exports: self.exports.deep_view(),
            default_entry: match self.default_entry {
                Some(name) => Some(name@),
                None => None,
            },
        }
    }
}

/// What the engine reports back.
#[derive(Debug, PartialEq, Eq)]
pub enum EngineEvent {
    /// The module is instantiated and offers this surface.
    Instantiated(ModuleSurface),
    /// The module could not be linked or instantiated.
    InstantiationFailed,
    /// The function returned these values.
    Returned(Vec<Value>),
    /// The function faulted.
    Trapped,
}

/// `EngineEvent` as mathematical values.
pub enum EventView {
    Instantiated(SurfaceView),
    InstantiationFailed,
    Returned(Seq<Value>),
    Trapped,
}

impl View for EngineEvent {
    type V = EventView;

    open spec fn view(&self) -> EventView {
        match self {
            EngineEvent::Instantiated(surface) => EventView::Instantiated(surface@),
            EngineEvent::InstantiationFailed => EventView::InstantiationFailed,
            EngineEvent::Returned(values) => EventView::Returned(values@),
            EngineEvent::Trapped => EventView::Trapped,
        }
    }
}

/// What the driver is to do next.
#[derive(Debug, PartialEq, Eq)]
pub enum Directive {
    /// Instantiate the module, with the request's arguments and environment
    /// bound for the guest.
    Instantiate,
    /// Call the export of this name.
    Call(String),
    /// Nothing more: the run has its outcome.
    Finish,
}

/// `Directive` over mathematical text.
pub enum DirectiveView {
    Instantiate,
    Call(Seq<char>),
    Finish,
}

impl View for Directive {
    type V = DirectiveView;

    open spec fn view(&self) -> DirectiveView {
        match self {
            Directive::Instantiate => DirectiveView::Instantiate,
            Directive::Call(name) => DirectiveView::Call(name@),
            Directive::Finish => DirectiveView::Finish,
        }
    }
}

/// How far a run has come.
#[derive(Debug, PartialEq, Eq)]
pub enum Phase {
    /// The module is valid and yet to be instantiated.
    Instantiating,
    /// The entry point is resolved to this export, which is yet to return.
    Calling(String),
    /// The run is over, with this outcome.
    Finished(Result<Vec<Value>, InvocationError>),
}

/// `Phase` as mathematical values.
pub enum PhaseView {
    Instantiating,
    Calling(Seq<char>),
    Finished(Result<Seq<Value>, InvocationErrorView>),
}

/// An outcome as mathematical values.
pub open spec fn outcome_view(outcome: Result<Vec<Value>, InvocationError>) -> Result<
    Seq<Value>,
    InvocationErrorView,
> {
    match outcome {
        Ok(values) => Ok(values@),
        Err(e) => Err(e@),
    }
}

impl View for Phase {
    type V = PhaseView;

    open spec fn view(&self) -> PhaseView {
        match self {
            Phase::Instantiating => PhaseView::Instantiating,
            Phase::Calling(name) => PhaseView::Calling(name@),
            Phase::Finished(outcome) => PhaseView::Finished(outcome_view(*outcome)),
        }
    }
}

/// Where a run starts, after validation: a valid module is to be
/// instantiated, and for any other the run is over at once.
pub open spec fn start(valid: bool) -> PhaseView {
    if valid {
        PhaseView::Instantiating
    } else {
        PhaseView::Finished(Err(InvocationErrorView::InvalidModule))
    }
}

/// The name that `entry` asks for on `surface`: the name given, or the one
/// that the module designates. `None` where the default is asked for and the
/// module designates none.
pub open spec fn target(entry: EntryPointView, surface: SurfaceView) -> Option<Seq<char>> {
    match entry {
        EntryPointView::Named(name) => Some(name),
        EntryPointView::DefaultEntry => surface.default_entry,
    }
}

/// The export that `entry` resolves to on `surface`. The name asked for must
/// be that of an export, character for character. Where it is not, or where
/// no name is to be had, the function is not found.
pub open spec fn resolution(entry: EntryPointView, surface: SurfaceView) -> Result<
    Seq<char>,
    InvocationErrorView,
> {
    match target(entry, surface) {
        Some(name) => if surface.exports.contains(name) {
            Ok(name)
        } else {
            Err(InvocationErrorView::FunctionNotFound(name))
        },
        None => Err(InvocationErrorView::FunctionNotFound(Seq::empty())),
    }
}

/// Whether `event` is an answer to what `phase` has asked of the engine.
pub open spec fn answers(phase: PhaseView, event: EventView) -> bool {
    match phase {
        PhaseView::Instantiating => event is Instantiated || event is InstantiationFailed,
        PhaseView::Calling(_) => event is Returned || event is Trapped,
        PhaseView::Finished(_) => false,
    }
}

/// The phase that follows `phase` on `event`. An event that is no answer to
/// what was asked changes nothing; a finished run stays as it is.
pub open spec fn next(phase: PhaseView, entry: EntryPointView, event: EventView) -> PhaseView {
    match (phase, event) {
        (PhaseView::Instantiating, EventView::Instantiated(surface)) => match resolution(
            entry,
            surface,
        ) {
            Ok(name) => PhaseView::Calling(name),
            Err(e) => PhaseView::Finished(Err(e)),
        },
        (PhaseView::Instantiating, EventView::InstantiationFailed) => PhaseView::Finished(
            Err(InvocationErrorView::InstantiationFailed),
        ),
        (PhaseView::Calling(_), EventView::Returned(values)) => PhaseView::Finished(Ok(values)),
        (PhaseView::Calling(_), EventView::Trapped) => PhaseView::Finished(
            Err(InvocationErrorView::Trap),
        ),
        _ => phase,
    }
}

/// What `phase` asks of the driver.
pub open spec fn directive_of(phase: PhaseView) -> DirectiveView {
    match phase {
        PhaseView::Instantiating => DirectiveView::Instantiate,
        PhaseView::Calling(name) => DirectiveView::Call(name),
        PhaseView::Finished(_) => DirectiveView::Finish,
    }
}

/// How many answers a run in `phase` can still take.
pub open spec fn answers_left(phase: PhaseView) -> nat {
    match phase {
        PhaseView::Instantiating => 2,
        PhaseView::Calling(_) => 1,
        PhaseView::Finished(_) => 0,
    }
}

/// The phase that a run in `phase` is in after `events`, in their order.
pub open spec fn run_from(phase: PhaseView, entry: EntryPointView, events: Seq<EventView>) -> PhaseView
    decreases events.len(),
{
    if events.len() == 0 {
        phase
    } else {
        next(run_from(phase, entry, events.drop_last()), entry, events.last())
    }
}

/// The phase that a run is in after `events`, from its start: `valid` is
/// what validation said of the module.
pub open spec fn run(valid: bool, entry: EntryPointView, events: Seq<EventView>) -> PhaseView {
    run_from(start(valid), entry, events)
}

/// Whether `event` reports an instantiated module on which `entry` resolves
/// to the export `name`.
pub open spec fn resolves_to(event: EventView, entry: EntryPointView, name: Seq<char>) -> bool {
    event matches EventView::Instantiated(surface) && resolution(entry, surface) == Ok::<
        Seq<char>,
        InvocationErrorView,
    >(name)
}

/// An event moves a run on exactly when it answers what was asked, and each
/// answer brings the run closer to its end: a run takes two answers at
/// most.
pub proof fn lemma_answers_move_on(phase: PhaseView, entry: EntryPointView, event: EventView)
    ensures
        answers(phase, event) <==> next(phase, entry, event) != phase,
        answers(phase, event) ==> answers_left(next(phase, entry, event)) < answers_left(phase),
{
}

/// A run over two stretches of events is the run over the second stretch
/// from where the first one led.
pub proof fn lemma_run_from_concat(
    phase: PhaseView,
    entry: EntryPointView,
    first: Seq<EventView>,
    second: Seq<EventView>,
)
    ensures
        run_from(phase, entry, first + second) == run_from(
            run_from(phase, entry, first),
            entry,
            second,
        ),
    decreases second.len(),
{
    if second.len() == 0 {
        assert(first + second =~= first);
    } else {
        lemma_run_from_concat(phase, entry, first, second.drop_last());
        assert((first + second).drop_last() =~= first + second.drop_last());
    }
}

/// A finished run stays finished: its outcome is produced once, and no
/// event changes it.
pub proof fn lemma_finished_is_final(
    outcome: Result<Seq<Value>, InvocationErrorView>,
    entry: EntryPointView,
    events: Seq<EventView>,
)
    ensures
        run_from(PhaseView::Finished(outcome), entry, events) == PhaseView::Finished(outcome),
    decreases events.len(),
{
    if events.len() > 0 {
        lemma_finished_is_final(outcome, entry, events.drop_last());
    }
}

/// A module that is not valid ends the run with `InvalidModule` before the
/// engine is asked for anything, and whatever is reported changes nothing:
/// at every point of such a run the driver is told to finish, so the module
/// is never instantiated and no guest code runs.
pub proof fn lemma_invalid_module_runs_nothing(entry: EntryPointView, events: Seq<EventView>)
    ensures
        run(false, entry, events) == PhaseView::Finished(Err(InvocationErrorView::InvalidModule)),
        directive_of(run(false, entry, events)) is Finish,
{
    lemma_finished_is_final(Err(InvocationErrorView::InvalidModule), entry, events);
}

/// A module that cannot be instantiated ends the run with
/// `InstantiationFailed`, whatever is reported afterwards.
pub proof fn lemma_failed_instantiation(entry: EntryPointView, rest: Seq<EventView>)
    ensures
        run(true, entry, seq![EventView::InstantiationFailed] + rest) == PhaseView::Finished(
            Err(InvocationErrorView::InstantiationFailed),
        ),
{
    let head = seq![EventView::InstantiationFailed];
    lemma_run_one(entry, head);
    lemma_run_from_concat(start(true), entry, head, rest);
    lemma_finished_is_final(Err(InvocationErrorView::InstantiationFailed), entry, rest);
}

/// A named function that an instantiated module does not export ends the
/// run with `FunctionNotFound` and that name, whatever is reported
/// afterwards: the guest is not called, so the run ends neither in a trap
/// nor, the module being instantiated, in an instantiation failure.
pub proof fn lemma_missing_export_is_not_found(
    name: Seq<char>,
    surface: SurfaceView,
    rest: Seq<EventView>,
)
    requires
        !surface.exports.contains(name),
    ensures
        run(true, EntryPointView::Named(name), seq![EventView::Instantiated(surface)] + rest)
            == PhaseView::Finished(Err(InvocationErrorView::FunctionNotFound(name))),
{
    let entry = EntryPointView::Named(name);
    let head = seq![EventView::Instantiated(surface)];
    lemma_run_one(entry, head);
    lemma_run_from_concat(start(true), entry, head, rest);
    lemma_finished_is_final(Err(InvocationErrorView::FunctionNotFound(name)), entry, rest);
}

/// The two answers of a run that goes well lead to the values that the
/// guest returned, exactly and in their order, an empty sequence included.
pub proof fn lemma_returned_values_are_the_result(
    entry: EntryPointView,
    surface: SurfaceView,
    values: Seq<Value>,
)
    requires
        resolution(entry, surface) is Ok,
    ensures
        run(true, entry, seq![EventView::Instantiated(surface), EventView::Returned(values)])
            == PhaseView::Finished(Ok(values)),
{
    lemma_run_two(entry, seq![EventView::Instantiated(surface), EventView::Returned(values)]);
}

/// A guest that faults ends the run with `Trap`, which is none of the
/// errors that a run can end with before the call.
pub proof fn lemma_fault_is_trap(entry: EntryPointView, surface: SurfaceView)
    requires
        resolution(entry, surface) is Ok,
    ensures
        run(true, entry, seq![EventView::Instantiated(surface), EventView::Trapped])
            == PhaseView::Finished(Err(InvocationErrorView::Trap)),
{
    lemma_run_two(entry, seq![EventView::Instantiated(surface), EventView::Trapped]);
}

/// The driver is asked to call an export only of a module that is valid and
/// was instantiated, and only the export that the entry point resolves to
/// on the surface reported.
pub proof fn lemma_call_follows_resolution(
    valid: bool,
    entry: EntryPointView,
    events: Seq<EventView>,
    name: Seq<char>,
)
    requires
        run(valid, entry, events) == PhaseView::Calling(name),
    ensures
        valid,
        exists|j: int| 0 <= j < events.len() && resolves_to(#[trigger] events[j], entry, name),
    decreases events.len(),
{
    if events.len() > 0 {
        let front = events.drop_last();
        if run(valid, entry, front) == PhaseView::Calling(name) {
            lemma_call_follows_resolution(valid, entry, front, name);
            let j = choose|j: int|
                0 <= j < front.len() && resolves_to(#[trigger] front[j], entry, name);
            assert(events[j] == front[j]);
        } else {
            lemma_instantiating_is_valid(valid, entry, front);
            assert(events[events.len() - 1] == events.last());
        }
    }
}

/// Values come only from a call: a run that ends well was calling an export
/// when the values were reported, and ends with just these values.
pub proof fn lemma_values_follow_call(
    valid: bool,
    entry: EntryPointView,
    events: Seq<EventView>,
    values: Seq<Value>,
)
    requires
        run(valid, entry, events) == PhaseView::Finished(
            Ok::<Seq<Value>, InvocationErrorView>(values),
        ),
    ensures
        exists|k: int|
            0 <= k < events.len() && run(valid, entry, events.take(k)) is Calling
                && #[trigger] events[k] == EventView::Returned(values),
    decreases events.len(),
{
    if events.len() > 0 {
        let front = events.drop_last();
        let k = events.len() - 1;
        if run(valid, entry, front) is Finished {
            lemma_values_follow_call(valid, entry, front, values);
            let k0 = choose|k0: int|
                0 <= k0 < front.len() && run(valid, entry, front.take(k0)) is Calling
                    && #[trigger] front[k0] == EventView::Returned(values);
            assert(events.take(k0) =~= front.take(k0));
            assert(events[k0] == front[k0]);
        } else {
            assert(events.take(k) =~= front);
            assert(events[k] == events.last());
        }
    }
}

/// A module is to be instantiated only if it is valid.
proof fn lemma_instantiating_is_valid(valid: bool, entry: EntryPointView, events: Seq<EventView>)
    requires
        run(valid, entry, events) is Instantiating,
    ensures
        valid,
    decreases events.len(),
{
    if events.len() > 0 {
        lemma_instantiating_is_valid(valid, entry, events.drop_last());
    }
}

proof fn lemma_run_one(entry: EntryPointView, events: Seq<EventView>)
    requires
        events.len() == 1,
    ensures
        run(true, entry, events) == next(PhaseView::Instantiating, entry, events[0]),
{
    reveal_with_fuel(run_from, 2);
}

proof fn lemma_run_two(entry: EntryPointView, events: Seq<EventView>)
    requires
        events.len() == 2,
    ensures
        run(true, entry, events) == next(
            next(PhaseView::Instantiating, entry, events[0]),
            entry,
            events[1],
        ),
{
    lemma_run_one(entry, events.drop_last());
}

} // verus!
