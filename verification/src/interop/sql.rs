//! The adapter to SQL: how its types and the bridge's values map to each
//! other.

use vstd::prelude::*;
use crate::runtime::value::{BridgeError, Value, ValueView};
use crate::text::str_eq;

verus! {

/// The type of the language that an SQL type maps to: an exact lookup in a
/// table of four.
pub open spec fn mapped_type(sql_type: Seq<char>) -> Option<Seq<char>> {
    if sql_type == "INTEGER"@ {
        Some("int"@)
    } else if sql_type == "VARCHAR"@ {
        Some("str"@)
    } else if sql_type == "BOOLEAN"@ {
        Some("bool"@)
    } else if sql_type == "REAL"@ {
        Some("float"@)
    } else {
        None
    }
}

/// The SQL type that holds a value: integers, texts, booleans and floats
/// have one, the other values have none.
pub open spec fn sql_type_for(value: ValueView) -> Option<Seq<char>> {
    match value {
        ValueView::Int(_) => Some("INTEGER"@),
        ValueView::Str(_) => Some("VARCHAR"@),
        ValueView::Bool(_) => Some("BOOLEAN"@),
        ValueView::Float(_) => Some("REAL"@),
        _ => None,
    }
}

/// The name of the type of a value in the language.
pub open spec fn kind_name(value: ValueView) -> Seq<char> {
    match value {
        ValueView::Int(_) => "int"@,
        ValueView::Float(_) => "float"@,
        ValueView::Str(_) => "str"@,
        ValueView::Bool(_) => "bool"@,
        ValueView::List(_) => "list"@,
        ValueView::Dict(_) => "dict"@,
        ValueView::Unit => "unit"@,
    }
}

/// The adapter to SQL.
pub struct SqlBridge {}

impl SqlBridge {
    pub fn new() -> (bridge: Result<SqlBridge, BridgeError>)
        ensures
            bridge is Ok,
    {
        Ok(SqlBridge {  })
    }

    /// The type of the language for an SQL type. The lookup is exact:
    /// `INTEGER`, `VARCHAR`, `BOOLEAN` and `REAL`, spelled so, map to `int`,
    /// `str`, `bool` and `float`; anything else is a marshal failure that
    /// carries the type as it was given.
    pub fn map_result_type(&self, sql_type: &str) -> (result: Result<String, BridgeError>)
        ensures
            match result {
                Ok(name) => mapped_type(sql_type@) == Some(name@),
                Err(BridgeError::MarshalFailure(what)) => mapped_type(sql_type@) is None && what@
                    == sql_type@,
                Err(_) => false,
            },
    {
        if str_eq(sql_type, "INTEGER") {
            Ok(String::from_str("int"))
        } else if str_eq(sql_type, "VARCHAR") {
            Ok(String::from_str("str"))
        } else if str_eq(sql_type, "BOOLEAN") {
            Ok(String::from_str("bool"))
        } else if str_eq(sql_type, "REAL") {
            Ok(String::from_str("float"))
        } else {
            Err(BridgeError::MarshalFailure(String::from_str(sql_type)))
        }
    }

    /// The SQL type that holds a value. A list, a dictionary or the unit
    /// value is a marshal failure that carries the name of its type.
    pub fn sql_type_of(&self, value: &Value) -> (result: Result<String, BridgeError>)
        ensures
            match result {
                Ok(name) => sql_type_for(value@) == Some(name@),
                Err(BridgeError::MarshalFailure(what)) => sql_type_for(value@) is None && what@
                    == kind_name(value@),
                Err(_) => false,
            },
    {
        match value {
            Value::Int(_) => Ok(String::from_str("INTEGER")),
            Value::Str(_) => Ok(String::from_str("VARCHAR")),
            Value::Bool(_) => Ok(String::from_str("BOOLEAN")),
            Value::Float(_) => Ok(String::from_str("REAL")),
            Value::List(_) => Err(BridgeError::MarshalFailure(String::from_str("list"))),
            Value::Dict(_) => Err(BridgeError::MarshalFailure(String::from_str("dict"))),
            Value::Unit => Err(BridgeError::MarshalFailure(String::from_str("unit"))),
        }
    }
}

/// The two mappings fit together: the SQL type that holds a value maps
/// back to the name of the value's type.
pub proof fn sql_types_round_trip(value: ValueView)
    requires
        sql_type_for(value) is Some,
    ensures
        mapped_type(sql_type_for(value)->0) == Some(kind_name(value)),
{
    reveal_strlit("INTEGER");
    reveal_strlit("VARCHAR");
    reveal_strlit("BOOLEAN");
    reveal_strlit("REAL");
    assert("INTEGER"@[0] == 'I' && "VARCHAR"@[0] == 'V' && "BOOLEAN"@[0] == 'B' && "REAL"@[0]
        == 'R');
}

} // verus!
