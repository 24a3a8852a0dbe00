use serde_ipc::dispatch::{
    decode_chain, decode_request, error_envelope, marshal, ok_envelope, respond, result_text,
    ChainStep, FFIDescriptor,
};
use serde_ipc::error::ErrorKind;
use serde_ipc::handle::{pack, split, parse_handle};
use serde_ipc::registry::FFIManagerStub;
use serde_ipc::service::{ContextKind, Material, MetaFunc, Metadata, Param, Service};

fn strings(items: &[&str]) -> Vec<String> {
    items.iter().map(|item| item.to_string()).collect()
}

fn function(name: &str, labels: &[&str]) -> MetaFunc {
    MetaFunc {
        name: name.to_string(),
        restype: "str".to_string(),
        args: labels
            .iter()
            .map(|label| Param { label: label.to_string(), kind: "str".to_string() })
            .collect(),
    }
}

fn scripted(name: &str, func: Vec<MetaFunc>) -> Service {
    let metadata = Metadata {
        name: name.to_string(),
        class: "python".to_string(),
        version: "1".to_string(),
        func,
    };
    Service::load(&"svc.py".to_string(), &metadata, Material::Source(String::new())).ok().unwrap()
}

fn math_registry() -> (FFIManagerStub, String) {
    let mut stub = FFIManagerStub::new(String::new());
    let math = scripted(
        "math",
        vec![function("add", &["a", "b"]), function("double", &["x"]), function("zero", &[])],
    );
    let handle = stub.register_with(&"math".to_string(), Some(math), 3, 4).unwrap();
    (stub, handle)
}

fn descriptor(handle: &str, function: &str, args: &[&str]) -> FFIDescriptor {
    (handle.to_string(), function.to_string(), strings(args))
}

#[test]
fn marshal_takes_the_value_under_the_sole_key() {
    let args = strings(&[r#"{"a":"2"}"#, r#"{"b":3}"#, r#"{"c":{"x":[1,2]}}"#, r#"{"d":null}"#]);
    assert_eq!(marshal(&args, None), Ok(strings(&[r#""2""#, "3", r#"{"x":[1,2]}"#, "null"])));
}

#[test]
fn marshal_writes_compact_text() {
    let args = strings(&["{ \"a\" : [ 1 , 2 ,\n 3 ] }", "{\"b\": {\"z\": 1, \"y\": \"q\"}}"]);
    assert_eq!(marshal(&args, None), Ok(strings(&["[1,2,3]", r#"{"y":"q","z":1}"#])));
}

#[test]
fn marshal_of_no_arguments_is_empty() {
    assert_eq!(marshal(&Vec::new(), None), Ok(Vec::new()));
    assert_eq!(marshal(&Vec::new(), Some(&Vec::new())), Ok(Vec::new()));
}

#[test]
fn marshal_refuses_what_is_no_single_key_object() {
    for bad in ["", "{", "2", r#""a""#, "[1]", "{}", r#"{"a":1,"b":2}"#, "null", r#"{"a":1} x"#] {
        assert_eq!(marshal(&strings(&[bad]), None), Err(ErrorKind::MarshalFailure), "{}", bad);
        assert_eq!(
            marshal(&strings(&[r#"{"ok":1}"#, bad]), None),
            Err(ErrorKind::MarshalFailure),
            "{}",
            bad
        );
        assert_eq!(
            marshal(&strings(&[bad, r#"{"ok":1}"#]), None),
            Err(ErrorKind::MarshalFailure),
            "{}",
            bad
        );
    }
}

#[test]
fn a_reference_is_replaced_by_the_earlier_result() {
    let results = strings(&[r#""14""#, "[1,2]"]);
    let args = strings(&[r#"{"y":{"$ref":0}}"#, r#"{"z":{"$ref":1}}"#, r#"{"w":7}"#]);
    assert_eq!(marshal(&args, Some(&results)), Ok(strings(&[r#""14""#, "[1,2]", "7"])));
}

#[test]
fn a_reference_to_no_earlier_step_fails() {
    let results = strings(&[r#""14""#]);
    assert_eq!(
        marshal(&strings(&[r#"{"y":{"$ref":1}}"#]), Some(&results)),
        Err(ErrorKind::MarshalFailure)
    );
    assert_eq!(
        marshal(&strings(&[r#"{"y":{"$ref":0}}"#]), Some(&Vec::new())),
        Err(ErrorKind::MarshalFailure)
    );
    assert_eq!(
        marshal(&strings(&[r#"{"y":{"$ref":18446744073709551615}}"#]), Some(&results)),
        Err(ErrorKind::MarshalFailure)
    );
}

#[test]
fn only_an_object_with_the_sole_key_ref_and_a_number_refers() {
    let results = strings(&["1"]);
    let plain = [
        r#"{"y":{"$ref":"0"}}"#,
        r#"{"y":{"$ref":-1}}"#,
        r#"{"y":{"$ref":0.5}}"#,
        r#"{"y":{"$ref":0,"more":1}}"#,
        r#"{"y":{"ref":0}}"#,
        r#"{"y":"$ref"}"#,
    ];
    for arg in plain {
        let passed = marshal(&strings(&[arg]), Some(&results)).unwrap();
        assert_eq!(passed, marshal(&strings(&[arg]), None).unwrap(), "{}", arg);
        assert_ne!(passed, strings(&["1"]), "{}", arg);
    }
}

#[test]
fn outside_a_chain_a_reference_is_a_payload() {
    assert_eq!(
        marshal(&strings(&[r#"{"y":{"$ref":0}}"#]), None),
        Ok(strings(&[r#"{"$ref":0}"#]))
    );
}

#[test]
fn execute_plans_a_call() {
    let (stub, handle) = math_registry();
    let plan = stub
        .execute(&descriptor(&handle, "add", &[r#"{"a":"2"}"#, r#"{"b":"3"}"#]))
        .ok()
        .unwrap();
    assert_eq!(plan.service, 3);
    assert_eq!(plan.usage, 4);
    assert_eq!(plan.kind, ContextKind::Python);
    assert_eq!(plan.function, "add");
    assert_eq!(plan.args, strings(&[r#""2""#, r#""3""#]));
}

#[test]
fn execute_plans_a_call_without_arguments() {
    let (stub, handle) = math_registry();
    let plan = stub.execute(&descriptor(&handle, "zero", &[])).ok().unwrap();
    assert_eq!(plan.function, "zero");
    assert!(plan.args.is_empty());
}

#[test]
fn execute_refuses_an_invalid_handle() {
    let (stub, _) = math_registry();
    for handle in ["", "0", "+0", "000", "abc", "-3", "1.5", "18446744073709551616"] {
        assert_eq!(
            stub.execute(&descriptor(handle, "add", &[r#"{"a":1}"#, r#"{"b":2}"#])).err(),
            Some(ErrorKind::InvalidHandle),
            "{}",
            handle
        );
    }
}

#[test]
fn execute_refuses_a_stale_handle() {
    let (mut stub, handle) = math_registry();
    let args = [r#"{"a":1}"#, r#"{"b":2}"#];
    let other_usage = pack(3, 5).to_string();
    let other_service = pack(4, 4).to_string();
    assert_eq!(
        stub.execute(&descriptor(&other_usage, "add", &args)).err(),
        Some(ErrorKind::StaleHandle)
    );
    assert_eq!(
        stub.execute(&descriptor(&other_service, "add", &args)).err(),
        Some(ErrorKind::StaleHandle)
    );
    assert!(stub.execute(&descriptor(&handle, "add", &args)).is_ok());
    stub.unregister(&"math".to_string(), &handle);
    assert_eq!(stub.execute(&descriptor(&handle, "add", &args)).err(), Some(ErrorKind::StaleHandle));
}

#[test]
fn execute_checks_the_function_before_the_arguments() {
    let (stub, handle) = math_registry();
    assert_eq!(
        stub.execute(&descriptor(&handle, "sub", &["not json"])).err(),
        Some(ErrorKind::UnknownFunction)
    );
    assert_eq!(
        stub.execute(&descriptor(&handle, "add", &["not json"])).err(),
        Some(ErrorKind::ArityMismatch)
    );
    assert_eq!(
        stub.execute(&descriptor(&handle, "add", &[r#"{"a":1}"#, "not json"])).err(),
        Some(ErrorKind::MarshalFailure)
    );
}

#[test]
fn three_arguments_for_two_parameters_are_a_mismatch() {
    let (stub, handle) = math_registry();
    let args = [r#"{"a":1}"#, r#"{"b":2}"#, r#"{"c":3}"#];
    assert_eq!(stub.execute(&descriptor(&handle, "add", &args)).err(), Some(ErrorKind::ArityMismatch));
    assert!(stub.lookup("math").is_some());
    assert!(stub.execute(&descriptor(&handle, "add", &args[..2])).is_ok());
}

#[test]
fn the_handle_is_judged_before_the_function() {
    let (stub, _) = math_registry();
    assert_eq!(stub.execute(&descriptor("x", "sub", &[])).err(), Some(ErrorKind::InvalidHandle));
    assert_eq!(
        stub.execute(&descriptor(&pack(9, 9).to_string(), "sub", &[])).err(),
        Some(ErrorKind::StaleHandle)
    );
}

#[test]
fn a_chain_runs_step_by_step() {
    let mut stub = FFIManagerStub::new(String::new());
    let doubler = scripted("doubler", vec![function("double", &["x"])]);
    let counter = scripted("counter", vec![function("inc", &["y"])]);
    let first = stub.register_with(&"doubler".to_string(), Some(doubler), 1, 1).unwrap();
    let second = stub.register_with(&"counter".to_string(), Some(counter), 2, 1).unwrap();
    let chain = vec![
        descriptor(&first, "double", &[r#"{"x":"7"}"#]),
        descriptor(&second, "inc", &[r#"{"y":{"$ref":0}}"#]),
    ];
    let mut results: Vec<String> = Vec::new();
    match stub.chain_execute(&chain, &results).ok().unwrap() {
        ChainStep::Call(plan) => {
            assert_eq!((plan.service, plan.function.as_str()), (1, "double"));
            assert_eq!(plan.args, strings(&[r#""7""#]));
        },
        ChainStep::Done(_) => panic!("the chain ended early"),
    }
    results.push(result_text(ContextKind::CDLL, "14"));
    match stub.chain_execute(&chain, &results).ok().unwrap() {
        ChainStep::Call(plan) => {
            assert_eq!((plan.service, plan.function.as_str()), (2, "inc"));
            assert_eq!(plan.args, strings(&[r#""14""#]));
        },
        ChainStep::Done(_) => panic!("the chain ended early"),
    }
    results.push(result_text(ContextKind::CDLL, "15"));
    match stub.chain_execute(&chain, &results).ok().unwrap() {
        ChainStep::Done(result) => assert_eq!(result, r#""15""#),
        ChainStep::Call(_) => panic!("the chain went on"),
    }
}

#[test]
fn a_failing_step_ends_the_chain_with_its_error() {
    let (stub, handle) = math_registry();
    let chain = vec![
        descriptor(&handle, "double", &[r#"{"x":1}"#]),
        descriptor(&handle, "double", &[r#"{"x":{"$ref":1}}"#]),
        descriptor(&handle, "nothing", &[]),
    ];
    assert!(stub.chain_execute(&chain, &Vec::new()).is_ok());
    assert_eq!(
        stub.chain_execute(&chain, &strings(&["2"])).err(),
        Some(ErrorKind::MarshalFailure)
    );
    assert_eq!(
        stub.chain_execute(&chain, &strings(&["2", "4"])).err(),
        Some(ErrorKind::UnknownFunction)
    );
}

#[test]
fn an_empty_chain_is_done_at_once() {
    let (stub, _) = math_registry();
    match stub.chain_execute(&Vec::new(), &Vec::new()).ok().unwrap() {
        ChainStep::Done(result) => assert_eq!(result, ""),
        ChainStep::Call(_) => panic!("nothing to call"),
    }
}

#[test]
fn a_c_string_result_is_a_json_string() {
    assert_eq!(result_text(ContextKind::CDLL, "5"), r#""5""#);
    assert_eq!(result_text(ContextKind::CDLL, "[1,2]"), r#""[1,2]""#);
    assert_eq!(result_text(ContextKind::CDLL, "say \"hi\"\n"), r#""say \"hi\"\n""#);
}

#[test]
fn another_result_is_parsed_where_it_parses() {
    for kind in [ContextKind::Rust, ContextKind::Python] {
        assert_eq!(result_text(kind, "5"), "5");
        assert_eq!(result_text(kind, " { \"a\" : [1, 2] } "), r#"{"a":[1,2]}"#);
        assert_eq!(result_text(kind, r#""text""#), r#""text""#);
        assert_eq!(result_text(kind, "plain text"), r#""plain text""#);
        assert_eq!(result_text(kind, ""), r#""""#);
        assert_eq!(result_text(kind, "{broken"), r#""{broken""#);
    }
}

#[test]
fn the_ok_envelope_carries_id_and_result() {
    let envelope = ok_envelope("1", &result_text(ContextKind::CDLL, "5"));
    assert_eq!(envelope, r#"{"id":"1","ok":true,"result":"5"}"#);
    let value: serde_json::Value = serde_json::from_str(&envelope).unwrap();
    assert_eq!(value["id"], "1");
    assert_eq!(value["ok"], true);
    assert_eq!(value["result"], "5");
    let envelope = ok_envelope("a\"b", &result_text(ContextKind::Python, "{\"k\": [1]}"));
    assert_eq!(envelope, r#"{"id":"a\"b","ok":true,"result":{"k":[1]}}"#);
    let value: serde_json::Value = serde_json::from_str(&envelope).unwrap();
    assert_eq!(value["id"], "a\"b");
    assert_eq!(value["result"]["k"][0], 1);
}

#[test]
fn the_error_envelope_carries_kind_and_message() {
    let envelope = error_envelope("7", ErrorKind::StaleHandle, "no such \"usage\"");
    assert_eq!(
        envelope,
        r#"{"id":"7","ok":false,"error":{"kind":"stale_handle","message":"no such \"usage\""}}"#
    );
    let value: serde_json::Value = serde_json::from_str(&envelope).unwrap();
    assert_eq!(value["ok"], false);
    assert_eq!(value["error"]["kind"], "stale_handle");
    assert_eq!(value["error"]["message"], "no such \"usage\"");
    assert!(value.get("result").is_none());
}

#[test]
fn a_request_envelope_gives_its_descriptor() {
    let raw = r#"{"id":"1","sig":"12884901892","func":"add","args":[{"a":"2"},{"b": "3"}]}"#;
    let (id, read) = decode_request(raw);
    assert_eq!(id, "1");
    let (handle, function, args) = read.ok().unwrap();
    assert_eq!(handle, "12884901892");
    assert_eq!(split(parse_handle(&handle).unwrap()), (3, 4));
    assert_eq!(function, "add");
    assert_eq!(args, strings(&[r#"{"a":"2"}"#, r#"{"b":"3"}"#]));
}

#[test]
fn a_decoded_request_can_be_planned() {
    let (stub, handle) = math_registry();
    let raw = format!(
        r#"{{"id":"r","sig":"{}","func":"add","args":[{{"a":"2"}},{{"b":"3"}}]}}"#,
        handle
    );
    let (_, read) = decode_request(&raw);
    let plan = stub.execute(&read.ok().unwrap()).ok().unwrap();
    assert_eq!(plan.args, strings(&[r#""2""#, r#""3""#]));
}

#[test]
fn a_request_without_a_field_fails_by_that_field() {
    let cases = [
        (r#"{"id":"1","func":"f","args":[]}"#, "1", ErrorKind::InvalidHandle),
        (r#"{"id":"2","sig":5,"func":"f","args":[]}"#, "2", ErrorKind::InvalidHandle),
        (r#"{"id":"3","sig":"5","args":[]}"#, "3", ErrorKind::UnknownFunction),
        (r#"{"id":"4","sig":"5","func":["f"],"args":[]}"#, "4", ErrorKind::UnknownFunction),
        (r#"{"id":"5","sig":"5","func":"f"}"#, "5", ErrorKind::MarshalFailure),
        (r#"{"id":"6","sig":"5","func":"f","args":{"a":1}}"#, "6", ErrorKind::MarshalFailure),
        (r#"{"sig":"5","func":"f","args":"x"}"#, "", ErrorKind::MarshalFailure),
        (r#"["id","1"]"#, "", ErrorKind::MarshalFailure),
        ("not json", "", ErrorKind::MarshalFailure),
        ("", "", ErrorKind::MarshalFailure),
    ];
    for (raw, id, kind) in cases {
        let (found, read) = decode_request(raw);
        assert_eq!(found, id, "{}", raw);
        assert_eq!(read.err(), Some(kind), "{}", raw);
    }
}

#[test]
fn a_request_without_an_id_has_the_empty_id() {
    let (id, read) = decode_request(r#"{"sig":"5","func":"f","args":[]}"#);
    assert_eq!(id, "");
    assert_eq!(read, Ok(("5".to_string(), "f".to_string(), Vec::new())));
    let (id, _) = decode_request(r#"{"id":17,"sig":"5","func":"f","args":[]}"#);
    assert_eq!(id, "");
}

#[test]
fn a_chain_envelope_gives_its_steps() {
    let raw = r#"{"id":"c","sig_func_args_table":[
        {"sig":"1","func":"double","args":[{"x":"7"}]},
        {"sig":"2","func":"inc","args":[{"y":{"$ref":0}}]}]}"#;
    let (id, read) = decode_chain(raw);
    assert_eq!(id, "c");
    assert_eq!(
        read,
        Ok(vec![
            descriptor("1", "double", &[r#"{"x":"7"}"#]),
            descriptor("2", "inc", &[r#"{"y":{"$ref":0}}"#]),
        ])
    );
    assert_eq!(decode_chain(r#"{"id":"e","sig_func_args_table":[]}"#), ("e".to_string(), Ok(vec![])));
}

#[test]
fn a_chain_envelope_fails_by_its_first_bad_step() {
    let cases = [
        (r#"{"id":"1"}"#, "1", ErrorKind::MarshalFailure),
        (r#"{"id":"2","sig_func_args_table":{}}"#, "2", ErrorKind::MarshalFailure),
        (r#"{"id":"3","sig_func_args_table":[1]}"#, "3", ErrorKind::MarshalFailure),
        (
            r#"{"id":"4","sig_func_args_table":[{"sig":"1","func":"f","args":[]},{"func":"g","args":[]}]}"#,
            "4",
            ErrorKind::InvalidHandle,
        ),
        (
            r#"{"id":"5","sig_func_args_table":[{"sig":"1","args":[]},{"func":"g","args":[]}]}"#,
            "5",
            ErrorKind::UnknownFunction,
        ),
        ("[]", "", ErrorKind::MarshalFailure),
        ("{", "", ErrorKind::MarshalFailure),
    ];
    for (raw, id, kind) in cases {
        let (found, read) = decode_chain(raw);
        assert_eq!(found, id, "{}", raw);
        assert_eq!(read.err(), Some(kind), "{}", raw);
    }
}

#[test]
fn a_plan_pins_the_service_it_calls() {
    let (mut stub, handle) = math_registry();
    let plan = stub.execute(&descriptor(&handle, "zero", &[])).ok().unwrap();
    stub.unregister(&"math".to_string(), &handle);
    assert_eq!(stub.lookup("math"), None);
    assert_eq!(plan.pinned.kind(), ContextKind::Python);
    assert_eq!(plan.pinned.check_call("double", 1), Ok(()));
}

#[test]
fn a_plan_never_has_more_than_five_arguments() {
    let mut stub = FFIManagerStub::new(String::new());
    let labels = ["a", "b", "c", "d", "e", "f"];
    let wide = scripted("wide", vec![function("five", &labels[..5]), function("six", &labels)]);
    let handle = stub.register_with(&"wide".to_string(), Some(wide), 1, 1).unwrap();
    let args: Vec<String> = labels.iter().map(|label| format!(r#"{{"{}":1}}"#, label)).collect();
    let five: Vec<&str> = args[..5].iter().map(|arg| arg.as_str()).collect();
    let six: Vec<&str> = args.iter().map(|arg| arg.as_str()).collect();
    let plan = stub.execute(&descriptor(&handle, "five", &five)).ok().unwrap();
    assert_eq!(plan.args, strings(&["1", "1", "1", "1", "1"]));
    assert_eq!(
        stub.execute(&descriptor(&handle, "six", &six)).err(),
        Some(ErrorKind::UnknownFunction)
    );
    assert_eq!(
        stub.execute(&descriptor(&handle, "five", &six)).err(),
        Some(ErrorKind::ArityMismatch)
    );
}

#[test]
fn respond_answers_by_the_outcome_of_the_call() {
    assert_eq!(
        respond("1", ContextKind::CDLL, &Ok("5".to_string())),
        r#"{"id":"1","ok":true,"result":"5"}"#
    );
    assert_eq!(
        respond("1", ContextKind::Rust, &Ok("5".to_string())),
        r#"{"id":"1","ok":true,"result":5}"#
    );
    assert_eq!(
        respond("2", ContextKind::Python, &Err(ErrorKind::CalleeError)),
        r#"{"id":"2","ok":false,"error":{"kind":"callee_error","message":"callee_error"}}"#
    );
    assert_eq!(
        respond("", ContextKind::CDLL, &Err(ErrorKind::AbiFailure)),
        r#"{"id":"","ok":false,"error":{"kind":"abi_failure","message":"abi_failure"}}"#
    );
}
