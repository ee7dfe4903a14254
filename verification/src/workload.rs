//! The workload invoker: one run, from the request to its outcome.
//!
//! The invoker takes the request, validates the module and follows the
//! protocol. Its driver asks it what to do, does that on the engine, and
//! hands back what the engine reported, until the invoker says that the run
//! is over.

use crate::error::{InvocationError, InvocationErrorView};
use crate::features::Flags;
use crate::protocol::{
    directive_of, next, outcome_view, resolution, start, Directive, EngineEvent,
    InvocationResult, ModuleSurface, Phase, PhaseView,
};
use crate::request::{EntryPoint, InvocationRequest, RequestView};
use crate::text::same_text;
use vstd::prelude::*;

verus! {

/// Whether `module` is a valid WebAssembly binary under the capabilities
/// that `flags` switch on: the verdict of the validator on the whole of it.
pub uninterp spec fn is_valid_module(module: Seq<u8>, flags: Flags) -> bool;

/// `wasmparser::Validator::validate_all`, on a validator that was given
/// `flags` as its `WasmFeatures`. It parses and validates the bytes as one
/// module and depends on the bytes and the features alone; `Ok` is the
/// verdict that `is_valid_module` names.
#[verifier::external_body]
fn validate_module(module: &Vec<u8>, flags: Flags) -> (valid: bool)
    ensures
        valid == is_valid_module(module@, flags),
{
    let features = wasmparser::WasmFeatures {
        reference_types: flags.reference_types,
        multi_value: flags.multi_value,
        bulk_memory: flags.bulk_memory,
        module_linking: flags.module_linking,
        simd: flags.simd,
        threads: flags.threads,
        tail_call: flags.tail_call,
        deterministic_only: flags.deterministic_only,
        multi_memory: flags.multi_memory,
        exceptions: flags.exceptions,
        memory64: flags.memory64,
    };
    wasmparser::Validator::new().wasm_features(features).validate_all(module).is_ok()
}

/// Resolves `entry` on `surface`, by exact name.
pub fn resolve(entry: &EntryPoint, surface: &ModuleSurface) -> (r: Result<String, InvocationError>)
    ensures
        match r {
            Ok(name) => resolution(entry@, surface@) == Ok::<Seq<char>, InvocationErrorView>(name@),
            Err(e) => resolution(entry@, surface@) == Err::<Seq<char>, InvocationErrorView>(e@),
        },
{
    let name: &String = match entry {
        EntryPoint::Named(name) => name,
        EntryPoint::DefaultEntry => match &surface.default_entry {
            Some(name) => name,
            None => {
                return Err(InvocationError::FunctionNotFound(String::new()));
            },
        },
    };
    let exports = &surface.exports;
    let mut i: usize = 0;
    while i < exports.len() && !same_text(exports[i].as_str(), name.as_str())
        invariant
            i <= exports.len(),
            forall|j: int| 0 <= j < i ==> exports.deep_view()[j] != name@,
        decreases exports.len() - i,
    {
        i += 1;
    }
    if i < exports.len() {
        assert(exports.deep_view()[i as int] == name@);
        Ok(name.clone())
    } else {
        Err(InvocationError::FunctionNotFound(name.clone()))
    }
}

/// One run in progress: the request and how far the run has come.
#[derive(Debug)]
pub struct Invoker {
    request: InvocationRequest,
    phase: Phase,
}

/// `Invoker` as mathematical values.
pub struct InvokerView {
    pub request: RequestView,
    pub phase: PhaseView,
}

impl View for Invoker {
    type V = InvokerView;

    closed spec fn view(&self) -> InvokerView {
        InvokerView { request: self.request@, phase: self.phase@ }
    }
}

impl Invoker {
    /// Takes the request and validates its module under its capabilities.
    /// A valid module is to be instantiated next. For any other the run is
    /// over, with `InvalidModule`, before the engine is asked for anything.
    pub fn new(request: InvocationRequest) -> (invoker: Invoker)
        ensures
            invoker@ == (InvokerView {
                request: request@,
                phase: start(is_valid_module(request@.module, request@.features)),
            }),
    {
        let valid = validate_module(request.module(), request.features().flags());
        Invoker::validated(request, valid)
    }

    /// Takes a request of whose module validation has said `valid`.
    pub fn validated(request: InvocationRequest, valid: bool) -> (invoker: Invoker)
        ensures
            invoker@ == (InvokerView { request: request@, phase: start(valid) }),
    {
        if valid {
            Invoker { request, phase: Phase::Instantiating }
        } else {
            Invoker { request, phase: Phase::Finished(Err(InvocationError::InvalidModule)) }
        }
    }

    /// The request, for the driver to take the module, the capabilities, the
    /// arguments and the environment from.
    pub fn request(&self) -> (request: &InvocationRequest)
        ensures
            request@ == self@.request,
    {
        &self.request
    }

    /// How far the run has come.
    pub fn phase(&self) -> (phase: &Phase)
        ensures
            phase@ == self@.phase,
    {
        &self.phase
    }

    /// What the driver is to do next.
    pub fn directive(&self) -> (directive: Directive)
        ensures
            directive@ == directive_of(self@.phase),
    {
        match &self.phase {
            Phase::Instantiating => Directive::Instantiate,
            Phase::Calling(name) => Directive::Call(name.clone()),
            Phase::Finished(_) => Directive::Finish,
        }
    }

    /// Takes in what the engine reported and says what to do next. The
    /// request stays as it is. An event that is no answer to what was asked
    /// changes nothing, and the same directive is given again.
    pub fn advance(&mut self, event: EngineEvent) -> (directive: Directive)
        ensures
            final(self)@ == (InvokerView {
                request: old(self)@.request,
                phase: next(old(self)@.phase, old(self)@.request.entry, event@),
            }),
            directive@ == directive_of(final(self)@.phase),
    {
        let following: Option<Phase> = match (&self.phase, event) {
            (Phase::Instantiating, EngineEvent::Instantiated(surface)) => {
                match resolve(self.request.entry(), &surface) {
                    Ok(name) => Some(Phase::Calling(name)),
                    Err(e) => Some(Phase::Finished(Err(e))),
                }
            },
            (Phase::Instantiating, EngineEvent::InstantiationFailed) => Some(
                Phase::Finished(Err(InvocationError::InstantiationFailed)),
            ),
            (Phase::Calling(_), EngineEvent::Returned(values)) => Some(Phase::Finished(Ok(values))),
            (Phase::Calling(_), EngineEvent::Trapped) => Some(
                Phase::Finished(Err(InvocationError::Trap)),
            ),
            _ => None,
        };
        match following {
            Some(phase) => {
                self.phase = phase;
            },
            None => {},
        }
        self.directive()
    }

    /// Whether the run is over.
    pub fn is_finished(&self) -> (finished: bool)
        ensures
            finished == (self@.phase is Finished),
    {
        match &self.phase {
            Phase::Finished(_) => true,
            _ => false,
        }
    }

    /// The outcome of the run, once it is over: the values that the guest
    /// returned, exactly and in order, or the error of the stage that
    /// failed. `None` while the run is not over.
    pub fn into_outcome(self) -> (outcome: Option<Result<InvocationResult, InvocationError>>)
        ensures
            match outcome {
                Some(result) => self@.phase == PhaseView::Finished(outcome_view(result)),
                None => !(self@.phase is Finished),
            },
    {
        match self.phase {
            Phase::Finished(result) => Some(result),
            _ => None,
        }
    }
}

} // verus!
