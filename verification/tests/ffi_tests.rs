use gul::runtime::ffi::FfiBridge;

#[test]
fn calls_without_a_runtime_answer_empty() {
    let bridge = FfiBridge::new();
    assert_eq!(bridge.call_rust("f", vec!["1".to_string()]), Ok(String::new()));
    assert_eq!(bridge.call_c("f", vec![]), Ok(String::new()));
    assert_eq!(bridge.call_python("f", vec![]), Ok(String::new()));
    assert_eq!(bridge.call_js("f", vec!["a".to_string(), "b".to_string()]), Ok(String::new()));
    assert_eq!(bridge.execute_sql("SELECT 1"), Ok(String::new()));
}
