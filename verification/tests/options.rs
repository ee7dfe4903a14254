use enarx_wasmldr::args::collect_args;
use enarx_wasmldr::error::ParseError;
use enarx_wasmldr::features::{parse_wasm_features, FeatureSet};
use enarx_wasmldr::options::RunOptions;
use enarx_wasmldr::request::EntryPoint;
use std::path::PathBuf;

fn strings(list: &[&str]) -> Vec<String> {
    list.iter().map(|s| s.to_string()).collect()
}

fn pairs(list: &[(&str, &str)]) -> Vec<(String, String)> {
    list.iter().map(|(n, v)| (n.to_string(), v.to_string())).collect()
}

#[test]
fn args_pass_through_in_order() {
    let raw = strings(&["--flag", "", "b a", "--flag", "=", "\u{1F600}"]);
    assert_eq!(collect_args(raw.clone()), raw);
    assert_eq!(collect_args(Vec::new()), Vec::<String>::new());
}

#[test]
fn options_hold_what_they_were_given() {
    let features = parse_wasm_features("multi-memory").unwrap();
    let options = RunOptions::new(
        pairs(&[("A", "1")]),
        Some("f".to_string()),
        Some(features),
        PathBuf::from("guest.wasm"),
        strings(&["x", "y"]),
    );
    assert_eq!(options.envs, pairs(&[("A", "1")]));
    assert_eq!(options.invoke(), Some(&"f".to_string()));
    assert_eq!(options.wasm_features(), Some(features));
    assert_eq!(options.module, PathBuf::from("guest.wasm"));
    assert_eq!(options.args, strings(&["x", "y"]));
}

#[test]
fn request_takes_its_parts_from_the_options() {
    let features = parse_wasm_features("module-linking").unwrap();
    let options = RunOptions::new(
        pairs(&[("PATH", "/guest"), ("EXTRA", "1")]),
        Some("f".to_string()),
        Some(features),
        PathBuf::from("guest.wasm"),
        strings(&["b", "a", "b"]),
    );
    let inherited = pairs(&[("HOME", "/root"), ("PATH", "/bin")]);
    let request = options.into_request(vec![1, 2, 3], &inherited).unwrap();
    assert_eq!(request.module(), &vec![1u8, 2, 3]);
    assert_eq!(request.features(), features);
    assert_eq!(request.entry(), &EntryPoint::Named("f".to_string()));
    assert_eq!(request.args(), &strings(&["b", "a", "b"]));
    assert_eq!(
        request.env().entries(),
        &pairs(&[("HOME", "/root"), ("PATH", "/guest"), ("EXTRA", "1")])
    );
}

#[test]
fn request_falls_back_to_defaults() {
    let options = RunOptions::new(Vec::new(), None, None, PathBuf::from("m"), Vec::new());
    assert_eq!(options.invoke(), None);
    assert_eq!(options.wasm_features(), None);
    let request = options.into_request(Vec::new(), &Vec::new()).unwrap();
    assert_eq!(request.features(), FeatureSet::default());
    assert_eq!(request.entry(), &EntryPoint::DefaultEntry);
    assert!(request.module().is_empty());
    assert!(request.args().is_empty());
    assert_eq!(request.env().len(), 0);
}

#[test]
fn request_is_refused_for_an_empty_variable_name() {
    let options = RunOptions::new(
        pairs(&[("", "1")]),
        None,
        None,
        PathBuf::from("m"),
        Vec::new(),
    );
    let r = options.into_request(Vec::new(), &pairs(&[("A", "1")]));
    assert!(matches!(r, Err(ParseError::EmptyName)));
    let options = RunOptions::new(Vec::new(), None, None, PathBuf::from("m"), Vec::new());
    let r = options.into_request(Vec::new(), &pairs(&[("", "1")]));
    assert!(matches!(r, Err(ParseError::EmptyName)));
}
