use gul::interop::sql::SqlBridge;
use gul::runtime::value::{BridgeError, Value};

#[test]
fn test_sql_bridge_creation() {
    let bridge = SqlBridge::new();
    assert!(bridge.is_ok(), "SqlBridge should be created successfully");
}

#[test]
fn test_type_mapping_integer() {
    let bridge = SqlBridge::new().unwrap();
    let sql_type = "INTEGER";

    let gul_type = bridge.map_result_type(sql_type).unwrap();
    assert_eq!(gul_type, "int", "INTEGER should map to int");
}

#[test]
fn test_type_mapping_varchar() {
    let bridge = SqlBridge::new().unwrap();
    let sql_type = "VARCHAR";

    let gul_type = bridge.map_result_type(sql_type).unwrap();
    assert_eq!(gul_type, "str", "VARCHAR should map to str");
}

#[test]
fn test_type_mapping_boolean() {
    let bridge = SqlBridge::new().unwrap();
    let sql_type = "BOOLEAN";

    let gul_type = bridge.map_result_type(sql_type).unwrap();
    assert_eq!(gul_type, "bool", "BOOLEAN should map to bool");
}

#[test]
fn test_type_mapping_float() {
    let bridge = SqlBridge::new().unwrap();
    let sql_type = "REAL";

    let gul_type = bridge.map_result_type(sql_type).unwrap();
    assert_eq!(gul_type, "float", "REAL should map to float");
}

#[test]
fn any_other_type_is_a_marshal_failure() {
    let bridge = SqlBridge::new().unwrap();
    for other in ["integer", "INT", "", " INTEGER", "VARCHAR(100)", "TEXT", "int", "REAL "] {
        assert_eq!(
            bridge.map_result_type(other),
            Err(BridgeError::MarshalFailure(other.to_string()))
        );
    }
}

#[test]
fn values_map_to_sql_types_and_back() {
    let bridge = SqlBridge::new().unwrap();
    let cases = [
        (Value::Int(7), "INTEGER", "int"),
        (Value::Str("x".to_string()), "VARCHAR", "str"),
        (Value::Bool(true), "BOOLEAN", "bool"),
        (Value::Float(1.5f64.to_bits()), "REAL", "float"),
    ];
    for (value, sql_type, name) in cases {
        assert_eq!(bridge.sql_type_of(&value), Ok(sql_type.to_string()));
        assert_eq!(bridge.map_result_type(sql_type), Ok(name.to_string()));
    }
    assert_eq!(
        bridge.sql_type_of(&Value::List(vec![])),
        Err(BridgeError::MarshalFailure("list".to_string()))
    );
    assert_eq!(
        bridge.sql_type_of(&Value::Dict(vec![])),
        Err(BridgeError::MarshalFailure("dict".to_string()))
    );
    assert_eq!(
        bridge.sql_type_of(&Value::Unit),
        Err(BridgeError::MarshalFailure("unit".to_string()))
    );
}
