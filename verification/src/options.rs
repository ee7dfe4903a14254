//! The options of one run, as the command line gives them, and the request
//! that is made of them.

use crate::env::{all_named, bind_environment, bound_all};
use crate::error::{ParseError, ParseErrorView};
use crate::features::{baseline, FeatureSet, Flags};
use crate::request::{EntryPointView, InvocationRequest, RequestView};
use std::path::PathBuf;
use vstd::prelude::*;

verus! {

/// `std::path::PathBuf`: a path that is carried to the place where the
/// module is opened. Nothing here looks inside it.
#[verifier::external_type_specification]
#[verifier::external_body]
pub struct ExPathBuf(PathBuf);

/// Options that change how the engine behaves.
#[derive(Debug)]
struct WasmtimeOptions {
    /// The capabilities asked for, where any were.
    wasm_features: Option<FeatureSet>,
}

/// The options for running a module directly.
#[derive(Debug)]
pub struct RunOptions {
    /// Environment variables to pass to the program, as `(name, value)`.
    pub envs: Vec<(String, String)>,
    /// Name of the function to invoke.
    invoke: Option<String>,
    wasmtime: WasmtimeOptions,
    /// Path of the module to run.
    pub module: PathBuf,
    /// Arguments to pass to the module.
    pub args: Vec<String>,
}

/// `RunOptions` as mathematical values.
pub struct RunOptionsView {
    pub envs: Seq<(Seq<char>, Seq<char>)>,
    pub invoke: Option<Seq<char>>,
    pub wasm_features: Option<Flags>,
    pub module: PathBuf,
    pub args: Seq<Seq<char>>,
}

impl View for RunOptions {
    type V = RunOptionsView;

    closed spec fn view(&self) -> RunOptionsView {
        RunOptionsView {
            envs: self.envs.deep_view(),
            invoke: match self.invoke {
                Some(name) => Some(name@),
                None => None,
            },
            wasm_features: match self.wasmtime.wasm_features {
                Some(set) => Some(set@),
                None => None,
            },
            module: self.module,
            args: self.args.deep_view(),
        }
    }
}

impl RunOptionsView {
    /// The capabilities of the run: those asked for, or the validator's
    /// defaults where none were.
    pub open spec fn features(self) -> Flags {
        match self.wasm_features {
            Some(flags) => flags,
            None => baseline(),
        }
    }

    /// The entry point of the run: the function named, or the module's
    /// default where none was.
    pub open spec fn entry(self) -> EntryPointView {
        match self.invoke {
            Some(name) => EntryPointView::Named(name),
            None => EntryPointView::DefaultEntry,
        }
    }
}

impl RunOptions {
    /// The options with every part given.
    pub fn new(
        envs: Vec<(String, String)>,
        invoke: Option<String>,
        wasm_features: Option<FeatureSet>,
        module: PathBuf,
        args: Vec<String>,
    ) -> (options: RunOptions)
        ensures
            options@ == (RunOptionsView {
                envs: envs.deep_view(),
                invoke: match invoke {
                    Some(name) => Some(name@),
                    None => None,
                },
                wasm_features: match wasm_features {
                    Some(set) => Some(set@),
                    None => None,
                },
                module: module,
                args: args.deep_view(),
            }),
    {
        RunOptions { envs, invoke, wasmtime: WasmtimeOptions { wasm_features }, module, args }
    }

    /// Name of the function to invoke, where one was given.
    pub fn invoke(&self) -> (name: Option<&String>)
        ensures
            match name {
                Some(n) => self@.invoke == Some(n@),
                None => self@.invoke is None,
            },
    {
        self.invoke.as_ref()
    }

    /// The capabilities asked for, where any were.
    pub fn wasm_features(&self) -> (set: Option<FeatureSet>)
        ensures
            match set {
                Some(s) => self@.wasm_features == Some(s@),
                None => self@.wasm_features is None,
            },
    {
        self.wasmtime.wasm_features
    }

    /// The request for this run. The options give the capabilities, the
    /// entry point and the arguments; the caller supplies the module's bytes
    /// and the environment that the host passes on. The guest's environment
    /// is that environment with the options' variables bound on top of it.
    /// An empty variable name, in either, has the request refused.
    pub fn into_request(self, module: Vec<u8>, inherited: &Vec<(String, String)>) -> (r: Result<
        InvocationRequest,
        ParseError,
    >)
        ensures
            match r {
                Ok(request) => {
                    &&& all_named(inherited.deep_view() + self@.envs)
                    &&& request@ == (RequestView {
                        module: module@,
                        features: self@.features(),
                        entry: self@.entry(),
                        args: self@.args,
                        env: bound_all(
                            Seq::<(Seq<char>, Seq<char>)>::empty(),
                            inherited.deep_view() + self@.envs,
                        ),
                    })
                },
                Err(e) => {
                    &&& !all_named(inherited.deep_view() + self@.envs)
                    &&& e@ == ParseErrorView::EmptyName
                },
            },
    {
        let env = match bind_environment(inherited, &self.envs) {
            Ok(env) => env,
            Err(e) => {
                return Err(e);
            },
        };
        let features = match self.wasmtime.wasm_features {
            Some(set) => set,
            None => FeatureSet::default(),
        };
        Ok(InvocationRequest::new(module, features, self.invoke, self.args, env))
    }
}

} // verus!
