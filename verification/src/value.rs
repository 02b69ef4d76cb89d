use vstd::prelude::*;

verus! {

/// A configuration value: a tagged union that keeps the type of what it
/// holds. The merge of defaults never looks inside a value.
#[derive(Debug, PartialEq)]
pub enum ConfigValue {
    /// A text.
    String(String),
    /// A signed 64-bit integer.
    Integer(i64),
    /// A 64-bit floating-point number, held as its IEEE 754 bit pattern.
    Float(u64),
    /// A truth value.
    Boolean(bool),
    /// A date or time, held in its textual form.
    Datetime(String),
    /// A sequence of values.
    Array(Vec<ConfigValue>),
    /// A nested table: keys with their values, in order.
    Table(Vec<(String, ConfigValue)>),
}

/// The name of the type of a value.
pub open spec fn kind_name(v: ConfigValue) -> Seq<char> {
    match v {
        ConfigValue::String(_) => "string"@,
        ConfigValue::Integer(_) => "integer"@,
        ConfigValue::Float(_) => "float"@,
        ConfigValue::Boolean(_) => "boolean"@,
        ConfigValue::Datetime(_) => "datetime"@,
        ConfigValue::Array(_) => "array"@,
        ConfigValue::Table(_) => "table"@,
    }
}

impl ConfigValue {
    /// The name of the type of this value, for display.
    pub fn type_str(&self) -> (r: &'static str)
        ensures
            r@ == kind_name(*self),
    {
        match self {
            ConfigValue::String(_) => "string",
            ConfigValue::Integer(_) => "integer",
            ConfigValue::Float(_) => "float",
            ConfigValue::Boolean(_) => "boolean",
            ConfigValue::Datetime(_) => "datetime",
            ConfigValue::Array(_) => "array",
            ConfigValue::Table(_) => "table",
        }
    }
}

} // verus!
