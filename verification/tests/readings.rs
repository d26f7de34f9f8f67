use opentelemetry::metrics::{Meter, MeterProvider, ObservableGauge, Unit};
use opentelemetry::sdk::export::metrics::aggregation;
use opentelemetry::sdk::metrics::{controllers, processors, selectors};
use opentelemetry::{Context, KeyValue, Value};
use rs_postgres_stat2otel::col::{Column, ColumnValue, FloatValue};
use rs_postgres_stat2otel::evt::Event;
use rs_postgres_stat2otel::gauge::{Gauge, RawGauge};
use rs_postgres_stat2otel::label::Label;
use rs_postgres_stat2otel::metrics::{FloatInstrument, Metrics, MetricsCollection, Reading};
use rs_postgres_stat2otel::multi::RawMulti;
use rs_postgres_stat2otel::query::CustomQuery;
use rs_postgres_stat2otel::row::Row;
use rs_postgres_stat2otel::single::RawSingle;

struct NoFloat;

impl FloatInstrument for NoFloat {
    fn build(_meter: &Meter, _name: &str, _description: &str, _unit: Option<Unit>) -> Option<Self> {
        Some(NoFloat)
    }

    fn observe(&self, _cx: &Context, _value: &Value, _attributes: &[KeyValue]) {}
}

struct RealFloat(ObservableGauge<f64>);

impl FloatInstrument for RealFloat {
    fn build(meter: &Meter, name: &str, description: &str, unit: Option<Unit>) -> Option<Self> {
        let b = meter.f64_observable_gauge(name.to_string()).with_description(description.to_string());
        let b = match unit {
            None => b,
            Some(u) => b.with_unit(u),
        };
        b.try_init().ok().map(RealFloat)
    }

    fn observe(&self, cx: &Context, value: &Value, attributes: &[KeyValue]) {
        if let Value::F64(f) = value {
            self.0.observe(cx, *f, attributes)
        }
    }
}

fn gauge(name: &str, typ: &str) -> Gauge {
    Gauge::from_raw(RawGauge::new(name.into(), typ.into(), "d".into(), "".into())).ok().unwrap()
}

fn raw(name: &str, typ: &str) -> RawGauge {
    RawGauge::new(name.into(), typ.into(), "d".into(), "".into())
}

fn meter() -> Meter {
    opentelemetry::global::meter("readings-test")
}

fn sdk_meter() -> Meter {
    let controller = controllers::basic(processors::factory(
        selectors::simple::inexpensive(),
        aggregation::cumulative_temporality_selector(),
    ))
    .build();
    controller.meter("readings-sdk-test")
}

#[test]
fn readings_follow_gauge_types() {
    let gs = vec![gauge("a", "i64"), gauge("b", "f64"), gauge("c", "i32")];
    let m: Metrics<NoFloat> = Metrics::new(&meter(), &gs).ok().unwrap();
    let row = Row::new(vec![
        Column::new_integer("a".into(), 1),
        Column::new_integer("b".into(), 2),
        Column::new("b".into(), ColumnValue::Float(FloatValue::new(Value::F64(2.5)).unwrap())),
        Column::new_string("c".into(), "x".into()),
        Column::new_integer("c".into(), 3),
        Column::new_integer("z".into(), 4),
    ]);
    let rs = m.readings(&row);
    assert_eq!(rs, vec![Reading::Integer(0, 1), Reading::Float(2), Reading::Integer(4, 3)]);
    let _ = m.observe_single(&Context::current(), &row, &[Label::new("c".into(), "".into())]);
    let _ = m.observe(&Context::current(), &[row], &[]);
}

#[test]
fn readings_empty_without_gauges() {
    let m: Metrics<NoFloat> = Metrics::new(&meter(), &[]).ok().unwrap();
    let row = Row::new(vec![Column::new_integer("a".into(), 1)]);
    assert!(m.readings(&row).is_empty());
}

#[test]
fn same_name_both_types() {
    let gs = vec![gauge("v", "i64"), gauge("v", "f64")];
    let m: Metrics<NoFloat> = Metrics::new(&meter(), &gs).ok().unwrap();
    let row = Row::new(vec![
        Column::new("v".into(), ColumnValue::Float(FloatValue::new(Value::F64(0.5)).unwrap())),
        Column::new_integer("v".into(), 9),
    ]);
    assert_eq!(m.readings(&row), vec![Reading::Float(0), Reading::Integer(1, 9)]);
}

#[test]
fn sdk_builds_and_records() {
    let gs = vec![gauge("a", "i64"), gauge("b", "f64"), gauge("a", "i64")];
    let m: Metrics<RealFloat> = Metrics::new(&sdk_meter(), &gs).ok().unwrap();
    let row = Row::new(vec![
        Column::new_integer("a".into(), 1),
        Column::new("b".into(), ColumnValue::Float(FloatValue::new(Value::F64(2.5)).unwrap())),
    ]);
    assert_eq!(m.readings(&row), vec![Reading::Integer(0, 1), Reading::Float(1)]);
    let _ = m.observe_single(&Context::current(), &row, &[]);
}

#[test]
fn sdk_refuses_name_of_other_kind() {
    let gs = vec![gauge("v", "i64"), gauge("v", "f64")];
    match Metrics::<RealFloat>::new(&sdk_meter(), &gs) {
        Err(Event::InvalidGauge(msg)) => assert_eq!(msg, "Unable to create gauge: v"),
        _ => panic!("expected a refusal"),
    }
    let gs = vec![gauge("w", "f64"), gauge("w", "i32")];
    match Metrics::<RealFloat>::new(&sdk_meter(), &gs) {
        Err(Event::InvalidGauge(msg)) => assert_eq!(msg, "Unable to create gauge: w"),
        _ => panic!("expected a refusal"),
    }
}

#[test]
fn collection_refusal_across_queries() {
    let q = CustomQuery::new(
        Some(vec![RawMulti::new("m".into(), vec![], vec![raw("x", "f64")])]),
        Some(vec![RawSingle::new("s".into(), None, vec![raw("x", "i64")])]),
    );
    match MetricsCollection::<RealFloat>::new(&sdk_meter(), q) {
        Err(Event::InvalidGauge(msg)) => assert_eq!(msg, "Unable to create gauge: x"),
        _ => panic!("expected a refusal"),
    }
}

#[test]
fn to_integer_gauge_builds() {
    let g = gauge("n", "i64");
    let built = g.to_integer_gauge(&sdk_meter()).ok().unwrap();
    built.as_gauge().observe(&Context::current(), 3, &[]);
    let _ = built.into_gauge();
}

#[test]
fn collection_skips_invalid_queries() {
    let q = CustomQuery::new(
        Some(vec![
            RawMulti::new("m1".into(), vec![], vec![raw("x", "bogus")]),
            RawMulti::new("m2".into(), vec![Label::new("l".into(), "".into())], vec![raw("y", "f64")]),
        ]),
        Some(vec![
            RawSingle::new("s1".into(), None, vec![raw("a", "i64")]),
            RawSingle::new("s2".into(), None, vec![raw("a", "i64"), raw("b", "u8")]),
            RawSingle::new("s3".into(), None, vec![]),
        ]),
    );
    let mc: MetricsCollection<NoFloat> = MetricsCollection::new(&meter(), q).ok().unwrap();
    assert_eq!(mc.single_len(), 2);
    assert_eq!(mc.single_at(0).as_query(), "s1");
    assert_eq!(mc.single_at(1).as_query(), "s3");
    assert_eq!(mc.multi_len(), 1);
    assert_eq!(mc.multi_at(0).as_query(), "m2");
    let cx = Context::current();
    let row = Row::new(vec![Column::new_integer("a".into(), 5)]);
    let _ = mc.observe_single_at(0, Some(&row), &cx);
    let _ = mc.observe_single_at(1, None, &cx);
    let _ = mc.observe_multi_at(0, &[row], &cx);
}

#[test]
fn collection_of_empty_config() {
    let mc: MetricsCollection<NoFloat> = MetricsCollection::new(&meter(), CustomQuery::new(None, None)).ok().unwrap();
    assert_eq!(mc.single_len(), 0);
    assert_eq!(mc.multi_len(), 0);
}
