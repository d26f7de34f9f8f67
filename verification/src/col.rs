//! A named value of a result row.
use vstd::prelude::*;
use opentelemetry::Value;
use crate::otel::{clone_value, otel_integer, otel_is_float, otel_text, value_from_integer, value_from_text, value_is_float};

verus! {

/// A floating-point reading, held as the `Value::F64` that carries it; the library never
/// reads the number, it only hands it on.
pub struct FloatValue {
    value: Value,
}

impl FloatValue {
    /// The value held.
    pub closed spec fn view(&self) -> Value {
        self.value
    }

    /// Only floating-point values are held.
    #[verifier::type_invariant]
    spec fn holds_float(self) -> bool {
        otel_is_float(self.value)
    }

    /// Wraps a floating-point value; `None` for a value of another kind.
    pub fn new(value: Value) -> (r: Option<FloatValue>)
        ensures
            r is Some <==> otel_is_float(value),
            r matches Some(f) ==> f@ == value,
    {
        if value_is_float(&value) {
            Some(FloatValue { value })
        } else {
            None
        }
    }

    /// Gets the value, a floating-point one.
    pub fn as_value(&self) -> (r: &Value)
        ensures
            *r == self@,
            otel_is_float(*r),
    {
        proof {
            use_type_invariant(self);
        }
        &self.value
    }
}

/// The value of a column.
pub enum ColumnValue {
    /// An integer reading.
    Integer(i64),
    /// A floating-point reading.
    Float(FloatValue),
    /// A text value.
    Text(String),
}

/// A column value with its text as a sequence of characters.
pub enum ColumnValueView {
    Integer(i64),
    Float(Value),
    Text(Seq<char>),
}

impl View for ColumnValue {
    type V = ColumnValueView;

    open spec fn view(&self) -> ColumnValueView {
        match self {
            ColumnValue::Integer(i) => ColumnValueView::Integer(*i),
            ColumnValue::Float(v) => ColumnValueView::Float(v@),
            ColumnValue::Text(s) => ColumnValueView::Text(s@),
        }
    }
}

/// The opentelemetry value that a column value stands for.
pub open spec fn otel_value_of(v: ColumnValueView) -> Value {
    match v {
        ColumnValueView::Integer(i) => otel_integer(i),
        ColumnValueView::Float(x) => x,
        ColumnValueView::Text(s) => otel_text(s),
    }
}

/// An integer column stands for `Value::from` of that very integer, a text column for
/// `Value::from` of that very text, and a float column for the value it holds.
pub proof fn law_column_values(i: i64, t: Seq<char>, x: Value)
    ensures
        otel_value_of(ColumnValueView::Integer(i)) == otel_integer(i),
        otel_value_of(ColumnValueView::Text(t)) == otel_text(t),
        otel_value_of(ColumnValueView::Float(x)) == x,
{
}

impl ColumnValue {
    /// Converts to the opentelemetry value.
    pub fn to_value(&self) -> (r: Value)
        ensures
            r == otel_value_of(self@),
    {
        match self {
            ColumnValue::Integer(i) => value_from_integer(*i),
            ColumnValue::Float(v) => clone_value(v.as_value()),
            ColumnValue::Text(s) => value_from_text(s.clone()),
        }
    }
}

/// A metrics value(with name) container.
pub struct Column {
    name: String,
    value: ColumnValue,
}

/// A column's name and value.
pub struct ColumnView {
    pub name: Seq<char>,
    pub value: ColumnValueView,
}

impl View for Column {
    type V = ColumnView;

    closed spec fn view(&self) -> ColumnView {
        ColumnView { name: self.name@, value: self.value@ }
    }
}

impl Column {
    /// Gets a name.
    pub fn as_name(&self) -> (r: &str)
        ensures
            r@ == self@.name,
    {
        self.name.as_str()
    }

    /// Gets a value.
    pub fn as_value(&self) -> (r: &ColumnValue)
        ensures
            r@ == self@.value,
    {
        &self.value
    }

    /// Creates a new name/value container.
    pub fn new(name: String, value: ColumnValue) -> (c: Self)
        ensures
            c@ == (ColumnView { name: name@, value: value@ }),
    {
        Self { name, value }
    }

    /// Creates a new name/integer container.
    pub fn new_integer(name: String, value: i64) -> (c: Self)
        ensures
            c@ == (ColumnView { name: name@, value: ColumnValueView::Integer(value) }),
    {
        Self { name, value: ColumnValue::Integer(value) }
    }

    /// Creates a new name/string container.
    pub fn new_string(name: String, value: String) -> (c: Self)
        ensures
            c@ == (ColumnView { name: name@, value: ColumnValueView::Text(value@) }),
    {
        Self { name, value: ColumnValue::Text(value) }
    }

    /// Gets the value as an opentelemetry value.
    pub fn to_value(&self) -> (r: Value)
        ensures
            r == otel_value_of(self@.value),
    {
        self.value.to_value()
    }
}

} // verus!
