//! What one run is asked to do: the module, the capabilities, the entry
//! point, and the arguments and environment that the guest is to see.

use crate::args::collect_args;
use crate::env::EnvBinding;
use crate::features::{FeatureSet, Flags};
use vstd::prelude::*;

verus! {

/// The function that a run invokes.
#[derive(Debug, PartialEq, Eq)]
pub enum EntryPoint {
    /// The export of exactly this name.
    Named(String),
    /// The export that the module designates as its default.
    DefaultEntry,
}

/// `EntryPoint` over mathematical text.
pub enum EntryPointView {
    Named(Seq<char>),
    DefaultEntry,
}

impl View for EntryPoint {
    type V = EntryPointView;

    open spec fn view(&self) -> EntryPointView {
        match self {
            EntryPoint::Named(name) => EntryPointView::Named(name@),
            EntryPoint::DefaultEntry => EntryPointView::DefaultEntry,
        }
    }
}

impl EntryPoint {
    /// The entry point for an optional function name: the named export
    /// where a name is given, the module's default where none is.
    pub fn from_option(function: Option<String>) -> (entry: EntryPoint)
        ensures
            entry@ == match function {
                Some(name) => EntryPointView::Named(name@),
                None => EntryPointView::DefaultEntry,
            },
    {
        match function {
            Some(name) => EntryPoint::Named(name),
            None => EntryPoint::DefaultEntry,
        }
    }
}

/// `InvocationRequest` as mathematical values.
pub struct RequestView {
    pub module: Seq<u8>,
    pub features: Flags,
    pub entry: EntryPointView,
    pub args: Seq<Seq<char>>,
    pub env: Seq<(Seq<char>, Seq<char>)>,
}

/// All that one run is given. It is made once and read from then on: the
/// parts can be looked at but not changed.
#[derive(Debug)]
pub struct InvocationRequest {
    module: Vec<u8>,
    features: FeatureSet,
    entry: EntryPoint,
    args: Vec<String>,
    env: EnvBinding,
}

impl View for InvocationRequest {
    type V = RequestView;

    closed spec fn view(&self) -> RequestView {
        RequestView {
            module: self.module@,
            features: self.features@,
            entry: self.entry@,
            args: self.args.deep_view(),
            env: self.env@,
        }
    }
}

impl InvocationRequest {
    /// Puts a request together. The arguments are taken as they come.
    pub fn new(
        module: Vec<u8>,
        features: FeatureSet,
        function: Option<String>,
        args: Vec<String>,
        env: EnvBinding,
    ) -> (request: InvocationRequest)
        ensures
            request@ == (RequestView {
                module: module@,
                features: features@,
                entry: match function {
                    Some(name) => EntryPointView::Named(name@),
                    None => EntryPointView::DefaultEntry,
                },
                args: args.deep_view(),
                env: env@,
            }),
    {
        InvocationRequest {
            module,
            features,
            entry: EntryPoint::from_option(function),
            args: collect_args(args),
            env,
        }
    }

    /// The bytes of the module.
    pub fn module(&self) -> (bytes: &Vec<u8>)
        ensures
            bytes@ == self@.module,
    {
        &self.module
    }

    /// The capabilities to configure the engine with.
    pub fn features(&self) -> (set: FeatureSet)
        ensures
            set@ == self@.features,
    {
        self.features
    }

    /// The function to invoke.
    pub fn entry(&self) -> (entry: &EntryPoint)
        ensures
            entry@ == self@.entry,
    {
        &self.entry
    }

    /// The guest's arguments, in order.
    pub fn args(&self) -> (args: &Vec<String>)
        ensures
            args.deep_view() == self@.args,
    {
        &self.args
    }

    /// The guest's environment.
    pub fn env(&self) -> (env: &EnvBinding)
        ensures
            env@ == self@.env,
    {
        &self.env
    }
}

} // verus!
