use rs_postgres_stat2otel::evt::Event;
use rs_postgres_stat2otel::gauge::{Gauge, GaugeType, RawGauge};
use rs_postgres_stat2otel::label::Label;
use rs_postgres_stat2otel::multi::{Multi, RawMulti};
use rs_postgres_stat2otel::query::CustomQuery;
use rs_postgres_stat2otel::single::{RawSingle, Single};

fn raw(name: &str, typ: &str, unit: &str) -> RawGauge {
    RawGauge::new(name.into(), typ.into(), format!("about {}", name), unit.into())
}

fn invalid_gauge_message(e: Event) -> String {
    match e {
        Event::InvalidGauge(m) => m,
        other => panic!("unexpected event {:?}", other),
    }
}

#[test]
fn gauge_type_names() {
    assert_eq!(GaugeType::parse("f64").unwrap(), GaugeType::Float);
    assert_eq!(GaugeType::parse("i64").unwrap(), GaugeType::Integer);
    assert_eq!(GaugeType::parse("i32").unwrap(), GaugeType::Integer);
    assert_eq!(GaugeType::try_from("i32").unwrap(), GaugeType::Integer);
}

#[test]
fn gauge_type_unknown() {
    let e = GaugeType::parse("u64").unwrap_err();
    assert_eq!(invalid_gauge_message(e), "Unknown gauge type: u64");
    let e = GaugeType::try_from("F64").unwrap_err();
    assert_eq!(invalid_gauge_message(e), "Unknown gauge type: F64");
    let e = GaugeType::parse("").unwrap_err();
    assert_eq!(invalid_gauge_message(e), "Unknown gauge type: ");
}

#[test]
fn gauge_from_raw_keeps_fields() {
    let g: Gauge = Gauge::try_from(raw("elapsed", "f64", "seconds")).unwrap();
    assert_eq!(g.as_name(), "elapsed");
    assert_eq!(g.as_type(), GaugeType::Float);
    assert_eq!(g.as_desc(), "about elapsed");
    assert_eq!(g.as_unit(), "seconds");
    let u = g.to_unit().unwrap();
    assert_eq!(u.as_str(), "seconds");
}

#[test]
fn gauge_without_unit() {
    let g: Gauge = Gauge::from_raw(raw("n", "i64", "")).unwrap();
    assert!(g.to_unit().is_none());
}

#[test]
fn gauge_from_raw_unknown_type() {
    let e = Gauge::from_raw(raw("n", "int", "")).err().unwrap();
    assert_eq!(invalid_gauge_message(e), "Unknown gauge type: int");
}

#[test]
fn single_reports_first_bad_gauge() {
    let rs = RawSingle::new(
        "select 1".into(),
        None,
        vec![raw("a", "i64", ""), raw("b", "bad1", ""), raw("c", "bad2", "")],
    );
    let e = Single::from_raw(rs).err().unwrap();
    assert_eq!(invalid_gauge_message(e), "Unknown gauge type: bad1");
}

#[test]
fn single_labels() {
    let rs = RawSingle::new(
        "q".into(),
        Some(vec![Label::new("l".into(), "d".into())]),
        vec![raw("a", "i64", "")],
    );
    let mut s = Single::try_from(rs).unwrap();
    assert_eq!(s.as_label().len(), 1);
    assert_eq!(s.as_label()[0].as_name(), "l");
    let taken = s.take_label().unwrap();
    assert_eq!(taken.len(), 1);
    assert_eq!(s.as_label().len(), 0);
    assert!(s.take_label().is_none());
}

#[test]
fn single_without_gauges() {
    let s = Single::from_raw(RawSingle::new("q".into(), None, vec![])).ok().unwrap();
    assert_eq!(s.as_query(), "q");
    assert_eq!(s.as_gauge().len(), 0);
    assert_eq!(s.as_label().len(), 0);
}

#[test]
fn multi_keeps_order() {
    let rm = RawMulti::new(
        "q".into(),
        vec![Label::new("x".into(), "dx".into()), Label::new("y".into(), "dy".into())],
        vec![raw("a", "i32", ""), raw("b", "f64", "ms")],
    );
    let m = Multi::from_raw(rm).ok().unwrap();
    assert_eq!(m.as_query(), "q");
    assert_eq!(m.as_label()[1].as_desc(), "dy");
    assert_eq!(m.as_gauge()[0].as_type(), GaugeType::Integer);
    assert_eq!(m.as_gauge()[1].as_type(), GaugeType::Float);
    assert_eq!(m.as_gauge()[1].as_unit(), "ms");
}

#[test]
fn multi_bad_gauge() {
    let rm = RawMulti::new("q".into(), vec![], vec![raw("a", "f32", "")]);
    let e = Multi::try_from(rm).err().unwrap();
    assert_eq!(invalid_gauge_message(e), "Unknown gauge type: f32");
}

#[test]
fn custom_query_take_once() {
    let mut q = CustomQuery::new(Some(vec![]), Some(vec![RawSingle::new("q".into(), None, vec![])]));
    assert_eq!(q.take_single().unwrap().len(), 1);
    assert!(q.take_single().is_none());
    assert_eq!(q.take_multi().unwrap().len(), 0);
    assert!(q.take_multi().is_none());
}
