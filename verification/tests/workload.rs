use enarx_wasmldr::env::EnvBinding;
use enarx_wasmldr::error::{InvocationError, Stage};
use enarx_wasmldr::features::{parse_wasm_features, FeatureSet};
use enarx_wasmldr::protocol::{Directive, EngineEvent, ModuleSurface, Phase, Value};
use enarx_wasmldr::request::{EntryPoint, InvocationRequest};
use enarx_wasmldr::workload::{resolve, Invoker};

/// A module with one function, exported as `answer`, that returns the
/// 32-bit integer 1.
const RETURN_1: [u8; 39] = [
    0x00, 0x61, 0x73, 0x6d, 0x01, 0x00, 0x00, 0x00, // header
    0x01, 0x05, 0x01, 0x60, 0x00, 0x01, 0x7f, // types: () -> i32
    0x03, 0x02, 0x01, 0x00, // functions: one, of type 0
    0x07, 0x0a, 0x01, 0x06, 0x61, 0x6e, 0x73, 0x77, 0x65, 0x72, 0x00, 0x00, // export "answer"
    0x0a, 0x06, 0x01, 0x04, 0x00, 0x41, 0x01, 0x0b, // code: i32.const 1
];

/// A module with one function, exported as `boom`, that executes
/// `unreachable`.
const TRAPS: [u8; 35] = [
    0x00, 0x61, 0x73, 0x6d, 0x01, 0x00, 0x00, 0x00, // header
    0x01, 0x04, 0x01, 0x60, 0x00, 0x00, // types: () -> ()
    0x03, 0x02, 0x01, 0x00, // functions: one, of type 0
    0x07, 0x08, 0x01, 0x04, 0x62, 0x6f, 0x6f, 0x6d, 0x00, 0x00, // export "boom"
    0x0a, 0x05, 0x01, 0x03, 0x00, 0x00, 0x0b, // code: unreachable
];

/// A module that declares two memories.
const TWO_MEMORIES: [u8; 15] = [
    0x00, 0x61, 0x73, 0x6d, 0x01, 0x00, 0x00, 0x00, // header
    0x05, 0x05, 0x02, 0x00, 0x01, 0x00, 0x01, // memories: two, of one page each
];

fn return_1() -> Vec<u8> {
    RETURN_1.to_vec()
}

fn traps() -> Vec<u8> {
    TRAPS.to_vec()
}

fn request_for(module: Vec<u8>, features: FeatureSet, function: Option<&str>) -> InvocationRequest {
    InvocationRequest::new(
        module,
        features,
        function.map(|f| f.to_string()),
        Vec::new(),
        EnvBinding::new(),
    )
}

fn request(function: Option<&str>) -> InvocationRequest {
    request_for(return_1(), FeatureSet::default(), function)
}

fn surface(exports: &[&str], default_entry: Option<&str>) -> ModuleSurface {
    ModuleSurface {
        exports: exports.iter().map(|e| e.to_string()).collect(),
        default_entry: default_entry.map(|e| e.to_string()),
    }
}

/// Runs a request against an engine that reports `script`, event by event,
/// and hands back every directive given and the outcome.
fn drive(
    request: InvocationRequest,
    script: Vec<EngineEvent>,
) -> (Vec<Directive>, Option<Result<Vec<Value>, InvocationError>>) {
    let mut invoker = Invoker::new(request);
    let mut given = vec![invoker.directive()];
    for event in script {
        given.push(invoker.advance(event));
    }
    (given, invoker.into_outcome())
}

#[test]
fn run_returns_the_constant_of_the_guest() {
    let (given, outcome) = drive(
        request(Some("answer")),
        vec![
            EngineEvent::Instantiated(surface(&["answer"], None)),
            EngineEvent::Returned(vec![Value::I32(1)]),
        ],
    );
    assert_eq!(
        given,
        vec![Directive::Instantiate, Directive::Call("answer".to_string()), Directive::Finish]
    );
    assert_eq!(outcome, Some(Ok(vec![Value::I32(1)])));
}

#[test]
fn run_fails_with_function_not_found() {
    let (given, outcome) = drive(
        request(Some("missing")),
        vec![EngineEvent::Instantiated(surface(&["answer"], None))],
    );
    assert_eq!(given, vec![Directive::Instantiate, Directive::Finish]);
    assert_eq!(outcome, Some(Err(InvocationError::FunctionNotFound("missing".to_string()))));
}

#[test]
fn run_fails_with_invalid_module_for_truncated_bytes() {
    // Cut anywhere but after a whole section: there the rest may be a module
    // of its own.
    let after_a_section = [8, 15, 19, 31];
    for cut in 0..return_1().len() {
        if after_a_section.contains(&cut) {
            continue;
        }
        let module = return_1()[..cut].to_vec();
        let (given, outcome) = drive(
            request_for(module, FeatureSet::default(), Some("answer")),
            vec![
                EngineEvent::Instantiated(surface(&["answer"], None)),
                EngineEvent::Returned(vec![Value::I32(1)]),
            ],
        );
        assert_eq!(given, vec![Directive::Finish, Directive::Finish, Directive::Finish]);
        assert_eq!(outcome, Some(Err(InvocationError::InvalidModule)));
    }
}

#[test]
fn run_fails_with_invalid_module_for_corrupted_bytes() {
    let mut wrong_magic = return_1();
    wrong_magic[1] = 0x62;
    let mut wrong_version = return_1();
    wrong_version[4] = 0x02;
    let mut wrong_type = return_1();
    wrong_type[14] = 0x7e; // declared to return i64, returns i32
    let mut wrong_index = return_1();
    wrong_index[30] = 0x01; // exports a function that is not there
    let mut trailing = return_1();
    trailing.push(0x00);
    let garbage = b"not a module at all".to_vec();
    for module in [wrong_magic, wrong_version, wrong_type, wrong_index, trailing, garbage] {
        let (given, outcome) = drive(
            request_for(module, FeatureSet::default(), Some("answer")),
            Vec::new(),
        );
        assert_eq!(given, vec![Directive::Finish]);
        assert_eq!(outcome, Some(Err(InvocationError::InvalidModule)));
    }
}

#[test]
fn run_accepts_valid_modules() {
    let header_alone = RETURN_1[..8].to_vec();
    let types_alone = RETURN_1[..15].to_vec();
    for module in [return_1(), traps(), header_alone, types_alone] {
        let invoker = Invoker::new(request_for(module, FeatureSet::default(), None));
        assert_eq!(invoker.phase(), &Phase::Instantiating);
        assert_eq!(invoker.directive(), Directive::Instantiate);
        assert!(!invoker.is_finished());
    }
}

#[test]
fn run_validates_under_the_capabilities_enabled() {
    let plain = FeatureSet::default();
    let invoker = Invoker::new(request_for(TWO_MEMORIES.to_vec(), plain, None));
    assert_eq!(invoker.into_outcome(), Some(Err(InvocationError::InvalidModule)));
    for asked in ["multi-memory", "module-linking", "all"] {
        let features = parse_wasm_features(asked).unwrap();
        let invoker = Invoker::new(request_for(TWO_MEMORIES.to_vec(), features, None));
        assert_eq!(invoker.directive(), Directive::Instantiate);
    }
}

#[test]
fn run_fails_with_trap() {
    let (given, outcome) = drive(
        request_for(traps(), FeatureSet::default(), Some("boom")),
        vec![EngineEvent::Instantiated(surface(&["boom"], None)), EngineEvent::Trapped],
    );
    assert_eq!(
        given,
        vec![Directive::Instantiate, Directive::Call("boom".to_string()), Directive::Finish]
    );
    assert_eq!(outcome, Some(Err(InvocationError::Trap)));
}

#[test]
fn run_fails_with_instantiation_failed() {
    let (given, outcome) =
        drive(request(Some("answer")), vec![EngineEvent::InstantiationFailed]);
    assert_eq!(given, vec![Directive::Instantiate, Directive::Finish]);
    assert_eq!(outcome, Some(Err(InvocationError::InstantiationFailed)));
}

#[test]
fn run_keeps_the_order_of_the_values() {
    let values = vec![
        Value::I64(-7),
        Value::I32(3),
        Value::F32(0x3f80_0000),
        Value::F64(0x4000_0000_0000_0000),
        Value::V128(1 << 100),
        Value::FuncRef { null: true },
        Value::ExternRef { null: false },
        Value::I32(3),
    ];
    let (_, outcome) = drive(
        request(Some("answer")),
        vec![
            EngineEvent::Instantiated(surface(&["answer"], None)),
            EngineEvent::Returned(values.clone()),
        ],
    );
    assert_eq!(outcome, Some(Ok(values)));
}

#[test]
fn run_with_no_values_is_a_success() {
    let (_, outcome) = drive(
        request(Some("answer")),
        vec![
            EngineEvent::Instantiated(surface(&["answer"], None)),
            EngineEvent::Returned(Vec::new()),
        ],
    );
    assert_eq!(outcome, Some(Ok(Vec::new())));
}

#[test]
fn run_calls_the_designated_default() {
    let (given, outcome) = drive(
        request(None),
        vec![
            EngineEvent::Instantiated(surface(&["helper", "_start"], Some("_start"))),
            EngineEvent::Returned(vec![Value::I32(0)]),
        ],
    );
    assert_eq!(given[1], Directive::Call("_start".to_string()));
    assert_eq!(outcome, Some(Ok(vec![Value::I32(0)])));
}

#[test]
fn run_without_a_default_finds_no_function() {
    let (given, outcome) =
        drive(request(None), vec![EngineEvent::Instantiated(surface(&["helper"], None))]);
    assert_eq!(given, vec![Directive::Instantiate, Directive::Finish]);
    assert_eq!(outcome, Some(Err(InvocationError::FunctionNotFound(String::new()))));
}

#[test]
fn run_ignores_a_default_when_a_name_is_given() {
    let (given, _) = drive(
        request(Some("helper")),
        vec![EngineEvent::Instantiated(surface(&["helper", "_start"], Some("_start")))],
    );
    assert_eq!(given[1], Directive::Call("helper".to_string()));
}

#[test]
fn run_is_not_over_before_the_engine_answers() {
    let (given, outcome) = drive(request(Some("answer")), Vec::new());
    assert_eq!(given, vec![Directive::Instantiate]);
    assert_eq!(outcome, None);
    let (_, outcome) = drive(
        request(Some("answer")),
        vec![EngineEvent::Instantiated(surface(&["answer"], None))],
    );
    assert_eq!(outcome, None);
}

#[test]
fn run_passes_over_events_out_of_turn() {
    let (given, outcome) = drive(
        request(Some("answer")),
        vec![
            EngineEvent::Returned(vec![Value::I32(9)]),
            EngineEvent::Trapped,
            EngineEvent::Instantiated(surface(&["answer"], None)),
            EngineEvent::Instantiated(surface(&[], None)),
            EngineEvent::InstantiationFailed,
            EngineEvent::Returned(vec![Value::I32(1)]),
        ],
    );
    assert_eq!(
        given,
        vec![
            Directive::Instantiate,
            Directive::Instantiate,
            Directive::Instantiate,
            Directive::Call("answer".to_string()),
            Directive::Call("answer".to_string()),
            Directive::Call("answer".to_string()),
            Directive::Finish,
        ]
    );
    assert_eq!(outcome, Some(Ok(vec![Value::I32(1)])));
}

#[test]
fn run_that_is_over_stays_as_it_is() {
    let (given, outcome) = drive(
        request(Some("answer")),
        vec![
            EngineEvent::InstantiationFailed,
            EngineEvent::Instantiated(surface(&["answer"], None)),
            EngineEvent::Returned(vec![Value::I32(1)]),
            EngineEvent::Trapped,
        ],
    );
    assert_eq!(
        given,
        vec![
            Directive::Instantiate,
            Directive::Finish,
            Directive::Finish,
            Directive::Finish,
            Directive::Finish,
        ]
    );
    assert_eq!(outcome, Some(Err(InvocationError::InstantiationFailed)));
}

#[test]
fn invoker_goes_by_the_verdict_it_is_given() {
    let invoker = Invoker::validated(request(Some("answer")), false);
    assert!(invoker.is_finished());
    assert_eq!(invoker.directive(), Directive::Finish);
    assert_eq!(invoker.into_outcome(), Some(Err(InvocationError::InvalidModule)));
    let invoker = Invoker::validated(request(Some("answer")), true);
    assert_eq!(invoker.phase(), &Phase::Instantiating);
    assert_eq!(invoker.into_outcome(), None);
}

#[test]
fn invoker_keeps_the_request() {
    let mut invoker = Invoker::new(request(Some("answer")));
    assert!(!invoker.is_finished());
    assert_eq!(invoker.request().module(), &return_1());
    assert_eq!(invoker.request().entry(), &EntryPoint::Named("answer".to_string()));
    invoker.advance(EngineEvent::InstantiationFailed);
    assert!(invoker.is_finished());
    assert_eq!(invoker.request().module(), &return_1());
    assert_eq!(invoker.request().entry(), &EntryPoint::Named("answer".to_string()));
}

#[test]
fn resolve_goes_by_the_exact_name() {
    let s = surface(&["main", "Main2", ""], None);
    let named = |n: &str| EntryPoint::Named(n.to_string());
    let missing = |n: &str| Err(InvocationError::FunctionNotFound(n.to_string()));
    assert_eq!(resolve(&named("main"), &s), Ok("main".to_string()));
    assert_eq!(resolve(&named("Main2"), &s), Ok("Main2".to_string()));
    assert_eq!(resolve(&named(""), &s), Ok(String::new()));
    assert_eq!(resolve(&named("Main"), &s), missing("Main"));
    assert_eq!(resolve(&named("MAIN"), &s), missing("MAIN"));
    assert_eq!(resolve(&named(" main"), &s), missing(" main"));
    assert_eq!(resolve(&named("main "), &s), missing("main "));
    assert_eq!(resolve(&named("mai"), &s), missing("mai"));
}

#[test]
fn resolve_on_a_module_without_exports() {
    let s = surface(&[], None);
    assert_eq!(
        resolve(&EntryPoint::Named("f".to_string()), &s),
        Err(InvocationError::FunctionNotFound("f".to_string()))
    );
    assert_eq!(
        resolve(&EntryPoint::DefaultEntry, &s),
        Err(InvocationError::FunctionNotFound(String::new()))
    );
}

#[test]
fn resolve_checks_that_the_default_is_exported() {
    let s = surface(&["a"], Some("b"));
    assert_eq!(
        resolve(&EntryPoint::DefaultEntry, &s),
        Err(InvocationError::FunctionNotFound("b".to_string()))
    );
    let s = surface(&["a", "b"], Some("b"));
    assert_eq!(resolve(&EntryPoint::DefaultEntry, &s), Ok("b".to_string()));
}

#[test]
fn each_error_has_its_stage() {
    assert_eq!(InvocationError::InvalidModule.stage(), Stage::Validation);
    assert_eq!(InvocationError::InstantiationFailed.stage(), Stage::Instantiation);
    assert_eq!(InvocationError::FunctionNotFound("f".to_string()).stage(), Stage::Resolution);
    assert_eq!(InvocationError::Trap.stage(), Stage::Execution);
}

#[test]
fn entry_point_from_an_optional_name() {
    assert_eq!(
        EntryPoint::from_option(Some("f".to_string())),
        EntryPoint::Named("f".to_string())
    );
    assert_eq!(EntryPoint::from_option(None), EntryPoint::DefaultEntry);
}
