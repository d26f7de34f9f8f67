use opentelemetry::Value;
use rs_postgres_stat2otel::col::{Column, ColumnValue, FloatValue};
use rs_postgres_stat2otel::evt::Event;
use rs_postgres_stat2otel::label::Label;
use rs_postgres_stat2otel::row::Row;

fn row() -> Row {
    Row::new(vec![
        Column::new_string("datname".into(), "postgres".into()),
        Column::new_integer("pid".into(), 42),
        Column::new("elapsed".into(), ColumnValue::Float(FloatValue::new(Value::F64(1.5)).unwrap())),
        Column::new_integer("pid".into(), 43),
    ])
}

#[test]
fn column_values() {
    let c = Column::new_integer("n".into(), -7);
    assert_eq!(c.as_name(), "n");
    assert_eq!(c.to_value(), Value::I64(-7));
    let s = Column::new_string("s".into(), "abc".into());
    assert_eq!(s.to_value(), Value::from("abc".to_string()));
    match s.as_value() {
        ColumnValue::Text(t) => assert_eq!(t, "abc"),
        _ => panic!("not text"),
    }
}

#[test]
fn to_map_later_column_wins() {
    let m = row().to_map();
    assert_eq!(m.get("pid"), Some(&Value::I64(43)));
    assert_eq!(m.get("datname"), Some(&Value::from("postgres".to_string())));
    assert_eq!(m.get("elapsed"), Some(&Value::F64(1.5)));
    assert_eq!(m.get("missing"), None);
}

#[test]
fn as_columns_keeps_all() {
    let r = row();
    assert_eq!(r.as_columns().len(), 4);
    assert_eq!(r.as_columns()[3].as_name(), "pid");
}

#[test]
fn to_kv_present() {
    let m = row().to_map();
    let kv = Label::new("datname".into(), "db".into()).to_kv(&m).ok().unwrap();
    assert_eq!(kv.key.as_str(), "datname");
    assert_eq!(kv.value, Value::from("postgres".to_string()));
    let kv = Label::new("pid".into(), "process".into()).to_kv(&m).ok().unwrap();
    assert_eq!(kv.value, Value::I64(43));
}

#[test]
fn to_kv_missing() {
    let m = row().to_map();
    match Label::new("state".into(), "".into()).to_kv(&m) {
        Err(Event::LabelValueNotFound(msg)) => assert_eq!(msg, "Value for label missing: state"),
        _ => panic!("expected a missing label"),
    }
}

#[test]
fn to_attrs_skips_missing() {
    let m = row().to_map();
    let labels = vec![
        Label::new("state".into(), "".into()),
        Label::new("elapsed".into(), "".into()),
        Label::new("datname".into(), "".into()),
    ];
    let attrs = Label::to_attrs(&labels, &m);
    assert_eq!(attrs.len(), 2);
    assert_eq!(attrs[0].key.as_str(), "elapsed");
    assert_eq!(attrs[0].value, Value::F64(1.5));
    assert_eq!(attrs[1].key.as_str(), "datname");
}

#[test]
fn to_attrs_none() {
    let m = Row::new(vec![]).to_map();
    let labels = vec![Label::new("a".into(), "".into())];
    assert!(Label::to_attrs(&labels, &m).is_empty());
}

#[test]
fn float_value_holds_floats_only() {
    let f = FloatValue::new(Value::F64(2.25)).unwrap();
    assert_eq!(f.as_value(), &Value::F64(2.25));
    assert!(FloatValue::new(Value::I64(2)).is_none());
    assert!(FloatValue::new(Value::Bool(true)).is_none());
    assert!(FloatValue::new(Value::from("x")).is_none());
    let c = Column::new("f".into(), ColumnValue::Float(f));
    assert_eq!(c.to_value(), Value::F64(2.25));
}

#[test]
fn to_map_one_entry_per_name() {
    assert_eq!(row().to_map().len(), 3);
    assert_eq!(Row::new(vec![]).to_map().len(), 0);
}
