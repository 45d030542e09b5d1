use gul::runtime::ffi::{FfiBridge, Reply, Request};
use gul::runtime::value::{deep_copies, BridgeError, Value};

fn sample() -> Value {
    Value::Dict(vec![
        ("n".to_string(), Value::Int(-3)),
        ("f".to_string(), Value::Float(9.81f64.to_bits())),
        (
            "l".to_string(),
            Value::List(vec![Value::Str("a".to_string()), Value::Bool(true), Value::Unit]),
        ),
        ("d".to_string(), Value::Dict(vec![])),
        ("n".to_string(), Value::List(vec![])),
    ])
}

#[test]
fn deep_copy_is_equal_and_shares_nothing() {
    let value = sample();
    let copy = value.deep_copy();
    assert_eq!(copy, value);
    drop(value);
    assert_eq!(copy, sample());
    match &copy {
        Value::Dict(entries) => match &entries[1].1 {
            Value::Float(bits) => assert_eq!(f64::from_bits(*bits), 9.81),
            other => panic!("not a float: {:?}", other),
        },
        other => panic!("not a dictionary: {:?}", other),
    }
    assert_eq!(deep_copies(&[Value::Int(1), sample()]), vec![Value::Int(1), sample()]);
    assert_eq!(deep_copies(&[]), Vec::<Value>::new());
}

#[test]
fn language_without_adapter_is_refused() {
    let mut bridge = FfiBridge::new();
    assert_eq!(
        bridge.call("ruby", "f", &[]),
        Err(BridgeError::UnregisteredLanguage("ruby".to_string()))
    );
    assert_eq!(
        bridge.call("Python", "f", &[]),
        Err(BridgeError::UnregisteredLanguage("Python".to_string()))
    );
    assert_eq!(bridge.call("", "f", &[]), Err(BridgeError::UnregisteredLanguage(String::new())));
    assert!(bridge.registered().is_empty());
}

#[test]
fn adapters_are_set_up_at_the_first_call_of_their_language() {
    let mut bridge = FfiBridge::new();
    assert!(bridge.registered().is_empty());
    let args = vec![Value::Int(1), sample()];
    assert_eq!(
        bridge.call("python", "area", &args),
        Ok(Request {
            language: "python".to_string(),
            function_name: "area".to_string(),
            args: vec![Value::Int(1), sample()],
        })
    );
    assert_eq!(bridge.registered(), ["python".to_string()]);
    assert!(bridge.call("rust", "f", &[]).is_ok());
    assert!(bridge.call("python", "g", &[]).is_ok());
    assert!(bridge.call("c", "f", &[]).is_ok());
    assert!(bridge.call("js", "f", &[]).is_ok());
    assert!(bridge.call("ts", "f", &[]).is_ok());
    assert!(bridge.call("rust", "f", &[]).is_ok());
    assert_eq!(
        bridge.registered(),
        ["python".to_string(), "rust".to_string(), "c".to_string(), "js".to_string(), "ts".to_string()]
    );
}

#[test]
fn values_without_sql_type_do_not_cross_into_sql() {
    let mut bridge = FfiBridge::new();
    for bad in [Value::Unit, Value::List(vec![]), Value::Dict(vec![])] {
        assert_eq!(
            bridge.call("sql", "q", &[Value::Int(1), bad]),
            Err(BridgeError::MarshalFailure("sql".to_string()))
        );
    }
    assert!(bridge.registered().is_empty());
    let args = [
        Value::Int(1),
        Value::Str("a".to_string()),
        Value::Bool(false),
        Value::Float(0.5f64.to_bits()),
    ];
    assert_eq!(bridge.call("sql", "q", &args).unwrap().args, args);
    assert_eq!(bridge.registered(), ["sql".to_string()]);
    // other languages take every value
    assert!(bridge.call("python", "f", &[Value::Unit]).is_ok());
}

#[test]
fn replies_become_results() {
    let bridge = FfiBridge::new();
    assert_eq!(bridge.complete(Reply::Returned(sample())), Ok(sample()));
    assert_eq!(
        bridge.complete(Reply::Raised("ZeroDivisionError".to_string())),
        Err(BridgeError::RemoteFailure("ZeroDivisionError".to_string()))
    );
    assert_eq!(bridge.complete(Reply::TimedOut), Err(BridgeError::Timeout));
}
