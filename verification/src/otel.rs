//! The calls into opentelemetry that the library makes, with what is assumed of them.
use vstd::prelude::*;
use opentelemetry::metrics::{InstrumentBuilder, Meter, MetricsError, ObservableGauge, Unit};
use opentelemetry::{Context, KeyValue, Value};

verus! {

/// Declares `opentelemetry::Value` (an attribute value); opaque to the proofs.
#[verifier::external_type_specification]
#[verifier::external_body]
pub struct ExValue(Value);

/// Declares `opentelemetry::KeyValue` (an attribute); opaque to the proofs.
#[verifier::external_type_specification]
#[verifier::external_body]
pub struct ExKeyValue(KeyValue);

/// Declares `opentelemetry::metrics::Unit`; opaque to the proofs.
#[verifier::external_type_specification]
#[verifier::external_body]
pub struct ExUnit(Unit);

/// Declares `opentelemetry::metrics::Meter`, which creates instruments; opaque to the proofs.
#[verifier::external_type_specification]
#[verifier::external_body]
pub struct ExMeter(Meter);

/// Declares `opentelemetry::metrics::MetricsError`; opaque to the proofs.
#[verifier::external_type_specification]
#[verifier::external_body]
pub struct ExMetricsError(MetricsError);

/// Declares `opentelemetry::Context`; opaque to the proofs.
#[verifier::external_type_specification]
#[verifier::external_body]
pub struct ExContext(Context);

/// Declares `opentelemetry::metrics::ObservableGauge`; opaque to the proofs.
#[verifier::external_type_specification]
#[verifier::external_body]
#[verifier::reject_recursive_types(T)]
pub struct ExObservableGauge<T>(ObservableGauge<T>);

/// Declares `opentelemetry::metrics::InstrumentBuilder`; opaque to the proofs.
#[verifier::external_type_specification]
#[verifier::external_body]
#[verifier::reject_recursive_types(T)]
pub struct ExInstrumentBuilder<'a, T>(InstrumentBuilder<'a, T>);

/// The value that `Value::from` makes of an `i64`.
pub uninterp spec fn otel_integer(i: i64) -> Value;

/// The value that `Value::from` makes of a `String` with the given text.
pub uninterp spec fn otel_text(s: Seq<char>) -> Value;

/// The attribute that `KeyValue::new` makes of a key with the given text and a value.
pub uninterp spec fn otel_key_value(key: Seq<char>, value: Value) -> KeyValue;

/// The unit that `Unit::new` makes of a `String` with the given text.
pub uninterp spec fn otel_unit(s: Seq<char>) -> Unit;

/// Calls `opentelemetry::Value::from::<i64>`, which wraps the integer as `Value::I64`.
/// Claimed: the result depends on the integer alone.
#[verifier::external_body]
pub(crate) fn value_from_integer(i: i64) -> (v: Value)
    ensures
        v == otel_integer(i),
{
    Value::from(i)
}

/// Calls `opentelemetry::Value::from::<String>`, which wraps the text as `Value::String`.
/// Claimed: the result depends on the text alone.
#[verifier::external_body]
pub(crate) fn value_from_text(s: String) -> (v: Value)
    ensures
        v == otel_text(s@),
{
    Value::from(s)
}

/// Calls the derived `Clone` of `opentelemetry::Value`.
/// Claimed: the copy equals the original, as vstd claims of `String::clone`.
#[verifier::external_body]
pub(crate) fn clone_value(v: &Value) -> (r: Value)
    ensures
        r == *v,
{
    v.clone()
}

/// Whether a value is a floating-point one (`Value::F64`).
pub uninterp spec fn otel_is_float(v: Value) -> bool;

/// Tells the variants of `opentelemetry::Value` apart: true for `Value::F64` alone.
#[verifier::external_body]
pub(crate) fn value_is_float(v: &Value) -> (r: bool)
    ensures
        r == otel_is_float(*v),
{
    match v {
        Value::Bool(_) => false,
        Value::I64(_) => false,
        Value::F64(_) => true,
        Value::String(_) => false,
        Value::Array(_) => false,
    }
}

/// Calls `opentelemetry::KeyValue::new`, which stores the key (as a `Key`) and the value.
/// Claimed: the result depends on the key's text and the value alone.
#[verifier::external_body]
pub(crate) fn key_value(key: String, value: Value) -> (kv: KeyValue)
    ensures
        kv == otel_key_value(key@, value),
{
    KeyValue::new(key, value)
}

/// Calls `opentelemetry::metrics::Unit::new`, which stores the text.
/// Claimed: the result depends on the text alone.
#[verifier::external_body]
pub(crate) fn unit_new(s: String) -> (u: Unit)
    ensures
        u == otel_unit(s@),
{
    Unit::new(s)
}

/// What an integer-gauge builder holds: the meter it came from, the gauge's name, its
/// description and its unit, each absent until set.
pub uninterp spec fn builder_fields(
    b: InstrumentBuilder<'_, ObservableGauge<i64>>,
) -> (Meter, Seq<char>, Option<Seq<char>>, Option<Unit>);

/// Calls `Meter::i64_observable_gauge`, which starts a builder on this meter with the
/// given name and no description or unit.
#[verifier::external_body]
pub(crate) fn i64_observable_gauge<'a>(m: &'a Meter, name: String) -> (b: InstrumentBuilder<'a, ObservableGauge<i64>>)
    ensures
        builder_fields(b) == (*m, name@, None::<Seq<char>>, None::<Unit>),
{
    m.i64_observable_gauge(name)
}

/// Calls `InstrumentBuilder::with_description`, which sets the description and keeps
/// the rest.
#[verifier::external_body]
pub(crate) fn with_description<'a>(
    b: InstrumentBuilder<'a, ObservableGauge<i64>>,
    description: String,
) -> (r: InstrumentBuilder<'a, ObservableGauge<i64>>)
    ensures
        builder_fields(r) == (builder_fields(b).0, builder_fields(b).1, Some(description@), builder_fields(b).3),
{
    b.with_description(description)
}

/// Calls `InstrumentBuilder::with_unit`, which sets the unit and keeps the rest.
#[verifier::external_body]
pub(crate) fn with_unit<'a>(
    b: InstrumentBuilder<'a, ObservableGauge<i64>>,
    unit: Unit,
) -> (r: InstrumentBuilder<'a, ObservableGauge<i64>>)
    ensures
        builder_fields(r) == (builder_fields(b).0, builder_fields(b).1, builder_fields(b).2, Some(unit)),
{
    b.with_unit(unit)
}

/// Calls `InstrumentBuilder::try_init`, which asks the meter's provider for the gauge
/// that the builder describes. The provider decides: it refuses, for one, a name already
/// registered with another number kind. Nothing is claimed of the gauge or of the error;
/// the receipt is the builder's fields, that is, what was handed to the provider.
#[verifier::external_body]
pub(crate) fn try_init<'a>(b: InstrumentBuilder<'a, ObservableGauge<i64>>) -> (r: (
    Result<ObservableGauge<i64>, MetricsError>,
    Ghost<(Meter, Seq<char>, Option<Seq<char>>, Option<Unit>)>,
))
    ensures
        r.1@ == builder_fields(b),
{
    let receipt = Ghost(builder_fields(b));
    (b.try_init(), receipt)
}

/// Calls `ObservableGauge::<i64>::observe`, which records a reading with its attributes.
/// Nothing is claimed of the effect, which is on the meter's state; the receipt is what
/// was handed to the gauge: the gauge, the context, the value and the attributes.
#[verifier::external_body]
pub(crate) fn observe_integer(g: &ObservableGauge<i64>, cx: &Context, value: i64, attributes: &[KeyValue]) -> (r: Ghost<
    (ObservableGauge<i64>, Context, i64, Seq<KeyValue>),
>)
    ensures
        r@ == (*g, *cx, value, attributes@),
{
    let receipt = Ghost((*g, *cx, value, attributes@));
    g.observe(cx, value, attributes);
    receipt
}

} // verus!
