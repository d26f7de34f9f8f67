//! Gauges registered by name, and the readings that a row gives them.
use vstd::prelude::*;
use opentelemetry::metrics::{Meter, ObservableGauge, Unit};
use opentelemetry::{Context, KeyValue, Value};
use crate::col::{otel_value_of, ColumnValue, ColumnValueView, ColumnView};
use crate::gauge::{gauge_request, gauge_views, refused, refused_message, Built, Gauge, GaugeRequest, GaugeType, GaugeView};
use crate::multi::{multi_of, Multi, MultiView, RawMulti, RawMultiView};
use crate::query::CustomQuery;
use crate::single::{labels_of, single_of, RawSingle, RawSingleView, Single, SingleView};
use crate::evt::{outcome, Event, EventView};
use crate::label::{attributes_of, label_views, law_attributes_members, Label, LabelView};
use crate::lemmas::{lemma_map_push, lemma_take_first};
use crate::otel::{observe_integer, otel_key_value};
use crate::row::{row_map, Row};
use crate::table::Table;

verus! {

/// A gauge that records floating-point readings. Floating point stays outside this
/// crate, so the caller supplies the type (for opentelemetry, one holding an
/// `ObservableGauge<f64>`).
pub trait FloatInstrument: Sized {
    /// Creates the gauge named `name`, described by `description`, with `unit` when given;
    /// `None` when the meter's provider refuses it.
    fn build(meter: &Meter, name: &str, description: &str, unit: Option<Unit>) -> Option<Self>;

    /// Records the floating-point reading that `value` carries.
    fn observe(&self, cx: &Context, value: &Value, attributes: &[KeyValue]);
}

/// The gauges of type `t` among `gs`, by name: each name maps to the position of the
/// last gauge of that type with that name, since a later gauge replaces an earlier one.
pub open spec fn registry(gs: Seq<GaugeView>, t: GaugeType) -> Map<Seq<char>, int>
    decreases gs.len(),
{
    if gs.len() == 0 {
        Map::empty()
    } else {
        let r = registry(gs.drop_last(), t);
        if gs.last().typ == t {
            r.insert(gs.last().name, gs.len() - 1)
        } else {
            r
        }
    }
}

/// A gauge registered under a name: the gauge, the position of the config it was built
/// from, and what it was built from.
pub struct Registration<G> {
    pub gauge: G,
    pub source: int,
    pub request: GaugeRequest,
}

/// A gauge built for a config: its type and what it was built from.
pub type Build = (GaugeType, GaugeRequest);

/// The gauges of a `Metrics` by name, and every gauge built for it, in order.
pub struct MetricsView<F> {
    pub integer: Map<Seq<char>, Registration<ObservableGauge<i64>>>,
    pub float: Map<Seq<char>, Registration<F>>,
    pub builds: Seq<Build>,
}

/// The gauges that a list of configs asks for on a meter: one per config, in order.
pub open spec fn builds_of(m: Meter, gs: Seq<GaugeView>) -> Seq<Build> {
    gs.map_values(|g: GaugeView| (g.typ, gauge_request(m, g)))
}

/// A list of configs asks for exactly one gauge per config, in order: of the config's
/// type, built from its request.
pub proof fn law_builds_of(m: Meter, gs: Seq<GaugeView>)
    ensures
        builds_of(m, gs).len() == gs.len(),
        forall|i: int| 0 <= i < gs.len() ==> #[trigger] builds_of(m, gs)[i] == (gs[i].typ, gauge_request(m, gs[i])),
{
}

/// The registrations `reg` follow the name-to-position map `r`: the same names, each
/// gauge built from the config at its position.
pub open spec fn registered_as<G>(
    reg: Map<Seq<char>, Registration<G>>,
    r: Map<Seq<char>, int>,
    m: Meter,
    gs: Seq<GaugeView>,
) -> bool {
    &&& reg.dom() == r.dom()
    &&& forall|k: Seq<char>| #[trigger] reg.contains_key(k) ==> reg[k].source == r[k]
        && reg[k].request == gauge_request(m, gs[r[k]])
}

/// The gauges of a `Metrics` were built on meter `m` from the configs `gs`: under each
/// name, for each type, the gauge built from the last config of that type and name; and
/// one gauge built per config, in order.
pub open spec fn built_from<F>(mv: MetricsView<F>, m: Meter, gs: Seq<GaugeView>) -> bool {
    &&& registered_as(mv.integer, registry(gs, GaugeType::Integer), m, gs)
    &&& registered_as(mv.float, registry(gs, GaugeType::Float), m, gs)
    &&& mv.builds == builds_of(m, gs)
}

/// The event is the refusal of one of the configs.
pub open spec fn refused_in(e: EventView, gs: Seq<GaugeView>) -> bool {
    exists|k: int| 0 <= k < gs.len() && e == EventView::InvalidGauge(refused_message(#[trigger] gs[k].name))
}

/// A reading that a row gives: the column's position, and for an integer gauge its value.
#[derive(PartialEq, Eq, Structural, Debug, Clone, Copy)]
pub enum Reading {
    Integer(usize, i64),
    Float(usize),
}

/// The reading that the column at position `i` gives, if a gauge of its kind has its name.
pub open spec fn reading_at<F>(cols: Seq<ColumnView>, i: int, m: MetricsView<F>) -> Option<Reading> {
    match cols[i].value {
        ColumnValueView::Integer(v) => if m.integer.contains_key(cols[i].name) {
            Some(Reading::Integer(i as usize, v))
        } else {
            None
        },
        ColumnValueView::Float(_) => if m.float.contains_key(cols[i].name) {
            Some(Reading::Float(i as usize))
        } else {
            None
        },
        ColumnValueView::Text(_) => None,
    }
}

/// The readings of the first `n` columns, in column order.
pub open spec fn readings_upto<F>(cols: Seq<ColumnView>, m: MetricsView<F>, n: nat) -> Seq<Reading>
    decreases n,
{
    if n == 0 {
        Seq::empty()
    } else {
        let r = readings_upto(cols, m, (n - 1) as nat);
        match reading_at(cols, n - 1, m) {
            Some(x) => r.push(x),
            None => r,
        }
    }
}

/// The readings of a row, in column order.
pub open spec fn readings_of<F>(cols: Seq<ColumnView>, m: MetricsView<F>) -> Seq<Reading> {
    readings_upto(cols, m, cols.len())
}

/// A name is registered for a type exactly when some config of that type has the name;
/// it maps to the last such config.
pub proof fn law_registry(gs: Seq<GaugeView>, t: GaugeType, k: Seq<char>)
    ensures
        registry(gs, t).contains_key(k) <==> exists|j: int|
            0 <= j < gs.len() && #[trigger] gs[j].name == k && gs[j].typ == t,
        registry(gs, t).contains_key(k) ==> {
            let j = registry(gs, t)[k];
            &&& 0 <= j < gs.len()
            &&& gs[j].name == k
            &&& gs[j].typ == t
            &&& forall|j2: int| j < j2 < gs.len() ==> !(#[trigger] gs[j2].name == k && gs[j2].typ == t)
        },
    decreases gs.len(),
{
    if gs.len() > 0 {
        let init = gs.drop_last();
        law_registry(init, t, k);
        let last = gs.len() - 1;
        if exists|j: int| 0 <= j < gs.len() && #[trigger] gs[j].name == k && gs[j].typ == t {
            let j = choose|j: int| 0 <= j < gs.len() && #[trigger] gs[j].name == k && gs[j].typ == t;
            if j < last {
                assert(init[j].name == k && init[j].typ == t);
            }
        }
        if exists|j: int| 0 <= j < init.len() && #[trigger] init[j].name == k && init[j].typ == t {
            let j = choose|j: int| 0 <= j < init.len() && #[trigger] init[j].name == k && init[j].typ == t;
            assert(gs[j].name == k && gs[j].typ == t);
        }
        if registry(gs, t).contains_key(k) {
            let j = registry(gs, t)[k];
            if !(gs[last].name == k && gs[last].typ == t) {
                assert forall|j2: int| j < j2 < gs.len() implies !(#[trigger] gs[j2].name == k && gs[j2].typ == t) by {
                    if j2 < last {
                        assert(init[j2] == gs[j2]);
                    }
                }
                assert(init[j] == gs[j]);
            }
        }
    }
}

/// The readings of the first `n` columns are exactly the readings that those columns give.
proof fn lemma_readings_upto<F>(cols: Seq<ColumnView>, m: MetricsView<F>, n: nat, r: Reading)
    requires
        n <= cols.len(),
    ensures
        readings_upto(cols, m, n).contains(r) <==> exists|i: int| 0 <= i < n && #[trigger] reading_at(cols, i, m) == Some(r),
    decreases n,
{
    if n > 0 {
        lemma_readings_upto(cols, m, (n - 1) as nat, r);
        let prev = readings_upto(cols, m, (n - 1) as nat);
        let cur = readings_upto(cols, m, n);
        if cur.contains(r) {
            if prev.contains(r) {
            } else {
                let k = choose|k: int| 0 <= k < cur.len() && cur[k] == r;
                match reading_at(cols, n - 1, m) {
                    Some(x) => {
                        if k < prev.len() {
                            assert(prev[k] == r);
                        }
                    },
                    None => {},
                }
            }
        }
        if exists|i: int| 0 <= i < n && #[trigger] reading_at(cols, i, m) == Some(r) {
            let i = choose|i: int| 0 <= i < n && #[trigger] reading_at(cols, i, m) == Some(r);
            if i < n - 1 {
                let k = choose|k: int| 0 <= k < prev.len() && prev[k] == r;
                match reading_at(cols, n - 1, m) {
                    Some(x) => assert(cur[k] == r),
                    None => {},
                }
            } else {
                assert(cur[cur.len() - 1] == r);
            }
        }
    }
}

/// A row's readings are exactly the readings that its columns give: each integer
/// column whose name has an integer gauge, and each float column whose name has a float
/// gauge.
pub proof fn law_readings<F>(cols: Seq<ColumnView>, m: MetricsView<F>, r: Reading)
    ensures
        readings_of(cols, m).contains(r) <==> exists|i: int| 0 <= i < cols.len() && #[trigger] reading_at(cols, i, m) == Some(r),
{
    lemma_readings_upto(cols, m, cols.len(), r);
}

/// The position of the column that a reading comes from.
pub open spec fn reading_column(r: Reading) -> usize {
    match r {
        Reading::Integer(i, _) => i,
        Reading::Float(i) => i,
    }
}

/// The readings of the first `n` columns come from those columns, in increasing order.
proof fn lemma_readings_upto_order<F>(cols: Seq<ColumnView>, m: MetricsView<F>, n: nat)
    requires
        n <= cols.len() <= usize::MAX,
    ensures
        forall|a: int| 0 <= a < readings_upto(cols, m, n).len() ==> reading_column(#[trigger] readings_upto(cols, m, n)[a]) < n,
        forall|a: int, b: int| 0 <= a < b < readings_upto(cols, m, n).len() ==> reading_column(
            #[trigger] readings_upto(cols, m, n)[a],
        ) < reading_column(#[trigger] readings_upto(cols, m, n)[b]),
    decreases n,
{
    if n > 0 {
        lemma_readings_upto_order(cols, m, (n - 1) as nat);
        let prev = readings_upto(cols, m, (n - 1) as nat);
        let cur = readings_upto(cols, m, n);
        match reading_at(cols, n - 1, m) {
            Some(x) => {
                assert(reading_column(x) == n - 1);
                assert(cur == prev.push(x));
                assert forall|a: int| 0 <= a < cur.len() implies reading_column(#[trigger] cur[a]) < n by {
                    if a < prev.len() {
                        assert(cur[a] == prev[a]);
                    }
                }
                assert forall|a: int, b: int| 0 <= a < b < cur.len() implies reading_column(#[trigger] cur[a]) < reading_column(
                    #[trigger] cur[b],
                ) by {
                    assert(cur[a] == prev[a]);
                    if b < prev.len() {
                        assert(cur[b] == prev[b]);
                    }
                }
            },
            None => {},
        }
    }
}

/// A row's readings, stated on the columns: every integer column whose name has an
/// integer gauge gives a reading of its value, whatever the value; every float column
/// whose name has a float gauge gives a reading; no other reading is given; and the
/// readings follow the order of their columns.
pub proof fn law_readings_columns<F>(cols: Seq<ColumnView>, m: MetricsView<F>)
    requires
        cols.len() <= usize::MAX,
    ensures
        forall|i: usize, v: i64|
            i < cols.len() && cols[i as int].value == ColumnValueView::Integer(v) && m.integer.contains_key(cols[i as int].name)
                ==> #[trigger] readings_of(cols, m).contains(Reading::Integer(i, v)),
        forall|i: usize|
            i < cols.len() && cols[i as int].value is Float && m.float.contains_key(cols[i as int].name)
                ==> #[trigger] readings_of(cols, m).contains(Reading::Float(i)),
        forall|r: Reading| #[trigger] readings_of(cols, m).contains(r) ==> match r {
            Reading::Integer(i, v) => i < cols.len() && cols[i as int].value == ColumnValueView::Integer(v)
                && m.integer.contains_key(cols[i as int].name),
            Reading::Float(i) => i < cols.len() && cols[i as int].value is Float && m.float.contains_key(cols[i as int].name),
        },
        forall|a: int, b: int| 0 <= a < b < readings_of(cols, m).len() ==> reading_column(
            #[trigger] readings_of(cols, m)[a],
        ) < reading_column(#[trigger] readings_of(cols, m)[b]),
{
    lemma_readings_upto_order(cols, m, cols.len());
    assert forall|i: usize, v: i64|
        i < cols.len() && cols[i as int].value == ColumnValueView::Integer(v) && m.integer.contains_key(cols[i as int].name)
            implies #[trigger] readings_of(cols, m).contains(Reading::Integer(i, v)) by {
        law_readings(cols, m, Reading::Integer(i, v));
        assert(reading_at(cols, i as int, m) == Some(Reading::Integer(i, v)));
    }
    assert forall|i: usize|
        i < cols.len() && cols[i as int].value is Float && m.float.contains_key(cols[i as int].name)
            implies #[trigger] readings_of(cols, m).contains(Reading::Float(i)) by {
        law_readings(cols, m, Reading::Float(i));
        assert(reading_at(cols, i as int, m) == Some(Reading::Float(i)));
    }
    assert forall|r: Reading| #[trigger] readings_of(cols, m).contains(r) implies match r {
        Reading::Integer(i, v) => i < cols.len() && cols[i as int].value == ColumnValueView::Integer(v)
            && m.integer.contains_key(cols[i as int].name),
        Reading::Float(i) => i < cols.len() && cols[i as int].value is Float && m.float.contains_key(cols[i as int].name),
    } by {
        law_readings(cols, m, r);
        let k = choose|k: int| 0 <= k < cols.len() && #[trigger] reading_at(cols, k, m) == Some(r);
        assert((k as usize) as int == k);
    }
}

/// What a `Metrics` records for one reading: the gauge, the context, the value, and the
/// attributes, as handed to the gauge.
pub enum Recording<F> {
    Integer(ObservableGauge<i64>, Context, i64, Seq<KeyValue>),
    Float(F, Context, Value, Seq<KeyValue>),
}

/// What recording a reading of a row hands to its gauge.
pub open spec fn recording_at<F>(
    m: MetricsView<F>,
    cols: Seq<ColumnView>,
    r: Reading,
    cx: Context,
    attrs: Seq<KeyValue>,
) -> Recording<F> {
    match r {
        Reading::Integer(j, v) => Recording::Integer(m.integer[cols[j as int].name].gauge, cx, v, attrs),
        Reading::Float(j) => Recording::Float(
            m.float[cols[j as int].name].gauge,
            cx,
            otel_value_of(cols[j as int].value),
            attrs,
        ),
    }
}

/// What recording a row hands to the gauges: its readings, in column order, each with
/// the attributes of the labels whose values the row holds.
pub open spec fn row_recordings<F>(
    m: MetricsView<F>,
    cols: Seq<ColumnView>,
    labels: Seq<LabelView>,
    cx: Context,
) -> Seq<Recording<F>> {
    readings_of(cols, m).map_values(
        |r: Reading| recording_at(m, cols, r, cx, attributes_of(labels, row_map(cols))),
    )
}

/// The attributes that a recording hands to its gauge.
pub open spec fn recording_attributes<F>(r: Recording<F>) -> Seq<KeyValue> {
    match r {
        Recording::Integer(_, _, _, a) => a,
        Recording::Float(_, _, _, a) => a,
    }
}

/// Recording a row makes one recording per reading, in order: an integer reading hands
/// its value to the integer gauge of its column's name, a float reading hands the float
/// value of its column to the float gauge of that name, each in the given context. Every
/// recording carries the same attributes: for each label whose name is a column of the
/// row, the label's name with the row's value under it, and no other attribute.
pub proof fn law_row_recordings<F>(m: MetricsView<F>, cols: Seq<ColumnView>, labels: Seq<LabelView>, cx: Context)
    requires
        cols.len() <= usize::MAX,
    ensures
        row_recordings(m, cols, labels, cx).len() == readings_of(cols, m).len(),
        forall|k: int| 0 <= k < readings_of(cols, m).len() ==> match #[trigger] readings_of(cols, m)[k] {
            Reading::Integer(i, v) => row_recordings(m, cols, labels, cx)[k] matches Recording::Integer(g, c, x, _)
                && g == m.integer[cols[i as int].name].gauge && c == cx && x == v,
            Reading::Float(i) => row_recordings(m, cols, labels, cx)[k] matches Recording::Float(g, c, x, _)
                && g == m.float[cols[i as int].name].gauge && c == cx && cols[i as int].value == ColumnValueView::Float(x),
        },
        forall|k: int| 0 <= k < row_recordings(m, cols, labels, cx).len() ==> recording_attributes(
            #[trigger] row_recordings(m, cols, labels, cx)[k],
        ) == attributes_of(labels, row_map(cols)),
        forall|k: int, j: int|
            0 <= k < row_recordings(m, cols, labels, cx).len() && 0 <= j < labels.len() && row_map(cols).contains_key(
                labels[j].name,
            ) ==> recording_attributes(#[trigger] row_recordings(m, cols, labels, cx)[k]).contains(
                otel_key_value(#[trigger] labels[j].name, row_map(cols)[labels[j].name]),
            ),
        forall|k: int, kv: KeyValue|
            0 <= k < row_recordings(m, cols, labels, cx).len() && #[trigger] recording_attributes(
                row_recordings(m, cols, labels, cx)[k],
            ).contains(kv) ==> exists|j: int|
                0 <= j < labels.len() && row_map(cols).contains_key(#[trigger] labels[j].name) && kv == otel_key_value(
                    labels[j].name,
                    row_map(cols)[labels[j].name],
                ),
{
    let rr = row_recordings(m, cols, labels, cx);
    let rs = readings_of(cols, m);
    let rm = row_map(cols);
    let attrs = attributes_of(labels, rm);
    assert forall|k: int| 0 <= k < rs.len() implies match #[trigger] rs[k] {
        Reading::Integer(i, v) => rr[k] matches Recording::Integer(g, c, x, _)
            && g == m.integer[cols[i as int].name].gauge && c == cx && x == v,
        Reading::Float(i) => rr[k] matches Recording::Float(g, c, x, _)
            && g == m.float[cols[i as int].name].gauge && c == cx && cols[i as int].value == ColumnValueView::Float(x),
    } by {
        assert(rs.contains(rs[k]));
        law_readings(cols, m, rs[k]);
        let q = choose|q: int| 0 <= q < cols.len() && #[trigger] reading_at(cols, q, m) == Some(rs[k]);
        match rs[k] {
            Reading::Float(i) => {
                assert(cols[q].value is Float);
                assert(i as int == q);
            },
            _ => {},
        }
    }
    assert forall|k: int, j: int|
        0 <= k < rr.len() && 0 <= j < labels.len() && rm.contains_key(labels[j].name)
            implies recording_attributes(#[trigger] rr[k]).contains(
            otel_key_value(#[trigger] labels[j].name, rm[labels[j].name]),
        ) by {
        law_attributes_members(labels, rm, otel_key_value(labels[j].name, rm[labels[j].name]));
    }
    assert forall|k: int, kv: KeyValue|
        0 <= k < rr.len() && #[trigger] recording_attributes(rr[k]).contains(kv) implies exists|j: int|
            0 <= j < labels.len() && rm.contains_key(#[trigger] labels[j].name) && kv == otel_key_value(
                labels[j].name,
                rm[labels[j].name],
            ) by {
        law_attributes_members(labels, rm, kv);
    }
}

/// What recording rows hands to the gauges: those of each row in turn.
pub open spec fn rows_recordings<F>(
    m: MetricsView<F>,
    rows: Seq<Seq<ColumnView>>,
    labels: Seq<LabelView>,
    cx: Context,
) -> Seq<Recording<F>>
    decreases rows.len(),
{
    if rows.len() == 0 {
        Seq::empty()
    } else {
        rows_recordings(m, rows.drop_last(), labels, cx) + row_recordings(m, rows.last(), labels, cx)
    }
}

/// Recording two lists of rows hands what recording the first hands, then what
/// recording the second hands.
pub proof fn law_rows_recordings_concat<F>(
    m: MetricsView<F>,
    a: Seq<Seq<ColumnView>>,
    b: Seq<Seq<ColumnView>>,
    labels: Seq<LabelView>,
    cx: Context,
)
    ensures
        rows_recordings(m, a + b, labels, cx) == rows_recordings(m, a, labels, cx) + rows_recordings(m, b, labels, cx),
    decreases b.len(),
{
    if b.len() > 0 {
        law_rows_recordings_concat(m, a, b.drop_last(), labels, cx);
        assert((a + b).drop_last() =~= a + b.drop_last());
        assert((a + b).last() == b.last());
        assert(rows_recordings(m, a + b, labels, cx) =~= rows_recordings(m, a, labels, cx) + rows_recordings(m, b, labels, cx));
    } else {
        assert(a + b =~= a);
        assert(rows_recordings(m, a + b, labels, cx) =~= rows_recordings(m, a, labels, cx) + rows_recordings(m, b, labels, cx));
    }
}

/// Recording one row hands what recording that row alone hands; recording no rows
/// hands nothing.
pub proof fn law_rows_recordings_one<F>(m: MetricsView<F>, r: Seq<ColumnView>, labels: Seq<LabelView>, cx: Context)
    ensures
        rows_recordings(m, seq![r], labels, cx) == row_recordings(m, r, labels, cx),
        rows_recordings(m, Seq::<Seq<ColumnView>>::empty(), labels, cx) == Seq::<Recording<F>>::empty(),
{
    assert(seq![r].drop_last() =~= Seq::<Seq<ColumnView>>::empty());
    assert(seq![r].last() == r);
    assert(rows_recordings(m, Seq::<Seq<ColumnView>>::empty(), labels, cx) == Seq::<Recording<F>>::empty());
    assert(rows_recordings(m, seq![r], labels, cx) =~= row_recordings(m, r, labels, cx));
}

/// The views of a list of rows.
pub open spec fn row_views(rows: Seq<Row>) -> Seq<Seq<ColumnView>> {
    rows.map_values(|r: Row| r@)
}

/// The registrations of a table of built gauges.
pub open spec fn registrations<G>(t: Map<Seq<char>, (Built<G>, Ghost<int>)>) -> Map<Seq<char>, Registration<G>> {
    t.map_values(
        |e: (Built<G>, Ghost<int>)| Registration { gauge: e.0@.gauge, source: e.1@, request: e.0@.request },
    )
}

/// Records a reading on an integer gauge; gives back what it handed.
fn record_integer<F>(g: &ObservableGauge<i64>, c: &Context, v: i64, attrs: &[KeyValue]) -> (r: Ghost<Recording<F>>)
    ensures
        r@ == Recording::<F>::Integer(*g, *c, v, attrs@),
{
    let receipt = observe_integer(g, c, v, attrs);
    Ghost(Recording::Integer(receipt@.0, receipt@.1, receipt@.2, receipt@.3))
}

/// Calls the caller's `FloatInstrument::build`, whose body lies outside this crate, and
/// passes the arguments on unchanged. Nothing is claimed of the gauge; the receipt is
/// what was handed: the meter, the name, the description and the unit.
#[verifier::external_body]
fn float_build<F: FloatInstrument>(meter: &Meter, name: &str, description: &str, unit: Option<Unit>) -> (r: (
    Option<F>,
    Ghost<GaugeRequest>,
))
    ensures
        r.1@ == (GaugeRequest { meter: *meter, name: name@, description: Some(description@), unit }),
{
    let receipt = Ghost(GaugeRequest { meter: *meter, name: name@, description: Some(description@), unit });
    (F::build(meter, name, description, unit), receipt)
}

/// Calls the caller's `FloatInstrument::observe`, whose body lies outside this crate, and
/// passes the arguments on unchanged. Nothing is claimed of the effect; the receipt is
/// what was handed: the gauge, the context, the value and the attributes.
#[verifier::external_body]
fn float_observe<F: FloatInstrument>(f: &F, cx: &Context, value: &Value, attributes: &[KeyValue]) -> (r: Ghost<
    (F, Context, Value, Seq<KeyValue>),
>)
    ensures
        r@ == (*f, *cx, *value, attributes@),
{
    let receipt = Ghost((*f, *cx, *value, attributes@));
    f.observe(cx, value, attributes);
    receipt
}

/// Records a reading on a float gauge; gives back what was handed to it.
fn record_float<F: FloatInstrument>(f: &F, c: &Context, v: &Value, attrs: &[KeyValue]) -> (r: Ghost<Recording<F>>)
    ensures
        r@ == Recording::<F>::Float(*f, *c, *v, attrs@),
{
    let receipt = float_observe(f, c, v, attrs);
    Ghost(Recording::Float(receipt@.0, receipt@.1, receipt@.2, receipt@.3))
}

/// Builds the float gauge of a config: named after it, described by its description,
/// and with its unit when that is not empty.
fn build_float<F: FloatInstrument>(meter: &Meter, g: &Gauge) -> (r: Result<Built<F>, Event>)
    ensures
        match r {
            Ok(b) => b@.request == gauge_request(*meter, g@),
            Err(e) => e@ == EventView::InvalidGauge(refused_message(g@.name)),
        },
{
    let (made, receipt) = float_build::<F>(meter, g.as_name(), g.as_desc(), g.to_unit());
    match made {
        Some(f) => Ok(Built::new(f, receipt)),
        None => Err(refused(g.as_name())),
    }
}

/// Integer and float gauges by name.
pub struct Metrics<F> {
    integer: Table<(Built<ObservableGauge<i64>>, Ghost<int>)>,
    float: Table<(Built<F>, Ghost<int>)>,
    builds: Ghost<Seq<Build>>,
}

impl<F> Metrics<F> {
    /// The gauges by name, and every gauge built, in order.
    pub closed spec fn view(&self) -> MetricsView<F> {
        MetricsView {
            integer: registrations(self.integer@),
            float: registrations(self.float@),
            builds: self.builds@,
        }
    }
}

impl<F: FloatInstrument> Metrics<F> {
    /// The readings that a row gives: each integer column whose name has an integer
    /// gauge, and each float column whose name has a float gauge, in column order.
    pub fn readings(&self, row: &Row) -> (r: Vec<Reading>)
        ensures
            r@ == readings_of(row@, self@),
    {
        let cols = row.as_columns();
        let mut out: Vec<Reading> = Vec::new();
        proof {
            assert(self@.integer.dom() =~= self.integer@.dom());
            assert(self@.float.dom() =~= self.float@.dom());
        }
        for i in 0..cols.len()
            invariant
                cols@.map_values(|c: crate::col::Column| c@) == row@,
                self.integer@.dom() == self@.integer.dom(),
                self.float@.dom() == self@.float.dom(),
                out@ == readings_upto(row@, self@, i as nat),
        {
            let col = &cols[i];
            proof {
                assert(row@[i as int] == col@);
            }
            match col.as_value() {
                ColumnValue::Integer(v) => {
                    if self.integer.get(col.as_name()).is_some() {
                        out.push(Reading::Integer(i, *v));
                    }
                },
                ColumnValue::Float(_) => {
                    if self.float.get(col.as_name()).is_some() {
                        out.push(Reading::Float(i));
                    }
                },
                ColumnValue::Text(_) => {},
            }
        }
        out
    }

    /// Records one reading of a row on its gauge; gives back what it handed.
    fn record(&self, c: &Context, row: &Row, reading: Reading, attrs: &[KeyValue]) -> (r: Ghost<Recording<F>>)
        requires
            readings_of(row@, self@).contains(reading),
        ensures
            r@ == recording_at(self@, row@, reading, *c, attrs@),
    {
        let cols = row.as_columns();
        let n = cols.len();
        proof {
            law_readings(row@, self@, reading);
            assert(cols@.map_values(|c: crate::col::Column| c@).len() == cols@.len());
        }
        let ghost i = choose|i: int| 0 <= i < row@.len() && #[trigger] reading_at(row@, i, self@) == Some(reading);
        proof {
            assert(0 <= i < n);
            assert((i as usize) as int == i);
        }
        match reading {
            Reading::Integer(j, v) => {
                proof {
                    assert(j as int == i);
                    assert(row@[i] == cols@[i]@);
                    assert(self.integer@.contains_key(row@[i].name));
                }
                let col = &cols[j];
                let e = self.integer.get(col.as_name()).unwrap();
                record_integer(e.0.as_gauge(), c, v, attrs)
            },
            Reading::Float(j) => {
                proof {
                    assert(j as int == i);
                    assert(row@[i] == cols@[i]@);
                    assert(self.float@.contains_key(row@[i].name));
                }
                let col = &cols[j];
                let e = self.float.get(col.as_name()).unwrap();
                match col.as_value() {
                    ColumnValue::Float(v) => record_float(e.0.as_gauge(), c, v.as_value(), attrs),
                    _ => {
                        proof {
                            assert(false);
                        }
                        Ghost(arbitrary())
                    },
                }
            },
        }
    }

    /// Records the readings of a row (see `readings`) on the gauges of their names, each
    /// with the attributes of the labels whose values the row holds; gives back what it
    /// handed to the gauges.
    pub fn observe_single(&self, c: &Context, row: &Row, labels: &[Label]) -> (log: Ghost<Seq<Recording<F>>>)
        ensures
            log@ == row_recordings(self@, row@, label_views(labels@), *c),
    {
        let m: Table<Value> = row.to_map();
        let attrs: Vec<KeyValue> = Label::to_attrs(labels, &m);
        let rs = self.readings(row);
        let ghost f = |r: Reading| recording_at(self@, row@, r, *c, attrs@);
        let ghost mut log: Seq<Recording<F>> = Seq::empty();
        proof {
            assert(rs@.take(0).map_values(f) =~= log);
        }
        for k in 0..rs.len()
            invariant
                rs@ == readings_of(row@, self@),
                f == (|r: Reading| recording_at(self@, row@, r, *c, attrs@)),
                log == rs@.take(k as int).map_values(f),
        {
            proof {
                assert(rs@.contains(rs@[k as int]));
            }
            let g = self.record(c, row, rs[k], attrs.as_slice());
            proof {
                assert(rs@.take(k + 1) =~= rs@.take(k as int).push(rs@[k as int]));
                lemma_map_push(rs@.take(k as int), rs@[k as int], f);
                log = log.push(g@);
            }
        }
        proof {
            assert(rs@.take(rs@.len() as int) =~= rs@);
        }
        Ghost(log)
    }

    /// Records the readings of each row in turn; gives back what it handed to the gauges.
    pub fn observe(&self, c: &Context, rows: &[Row], labels: &[Label]) -> (log: Ghost<Seq<Recording<F>>>)
        ensures
            log@ == rows_recordings(self@, row_views(rows@), label_views(labels@), *c),
    {
        let ghost rv = row_views(rows@);
        let ghost mut log: Seq<Recording<F>> = Seq::empty();
        proof {
            assert(rv.take(0) =~= Seq::<Seq<ColumnView>>::empty());
        }
        for i in 0..rows.len()
            invariant
                rv == row_views(rows@),
                log == rows_recordings(self@, rv.take(i as int), label_views(labels@), *c),
        {
            let g = self.observe_single(c, &rows[i], labels);
            proof {
                assert(rv.take(i + 1).drop_last() =~= rv.take(i as int));
                assert(rv.take(i + 1).last() == rows@[i as int]@);
                log = log + g@;
            }
        }
        proof {
            assert(rv.take(rows@.len() as int) =~= rv);
        }
        Ghost(log)
    }

    /// Creates the gauges of the given configs, in order: an integer gauge for each
    /// integer config and a float gauge for each float config, a later one replacing an
    /// earlier one of the same type and name. Stops with the refusal of the first gauge
    /// that the meter's provider refuses.
    pub fn new(meter: &Meter, gs: &[Gauge]) -> (r: Result<Self, Event>)
        ensures
            match r {
                Ok(m) => built_from(m@, *meter, gauge_views(gs@)),
                Err(e) => refused_in(e@, gauge_views(gs@)),
            },
    {
        let mut integer: Table<(Built<ObservableGauge<i64>>, Ghost<int>)> = Table::new();
        let mut float: Table<(Built<F>, Ghost<int>)> = Table::new();
        let ghost gv = gauge_views(gs@);
        let ghost mut builds: Seq<Build> = Seq::empty();
        proof {
            assert(registrations(integer@) =~= Map::empty());
            assert(registrations(float@) =~= Map::empty());
            assert(gv.take(0) =~= Seq::<GaugeView>::empty());
            assert(builds_of(*meter, gv.take(0)) =~= builds);
        }
        for i in 0..gs.len()
            invariant
                gv == gauge_views(gs@),
                registered_as(registrations(integer@), registry(gv.take(i as int), GaugeType::Integer), *meter, gv),
                registered_as(registrations(float@), registry(gv.take(i as int), GaugeType::Float), *meter, gv),
                builds == builds_of(*meter, gv.take(i as int)),
        {
            let g = &gs[i];
            proof {
                assert(gv.take(i + 1).drop_last() =~= gv.take(i as int));
                assert(gv.take(i + 1).last() == g@);
                assert(gv[i as int] == g@);
                assert(builds_of(*meter, gv.take(i + 1)) =~= builds_of(*meter, gv.take(i as int)).push(
                    (g@.typ, gauge_request(*meter, g@)),
                ));
            }
            match g.as_type() {
                GaugeType::Integer => match g.to_integer_gauge(meter) {
                    Ok(b) => {
                        let ghost old_table = integer@;
                        let ghost request = b@.request;
                        let entry = (b, Ghost(i as int));
                        let ghost reg = Registration { gauge: entry.0@.gauge, source: i as int, request };
                        integer.insert(String::from_str(g.as_name()), entry);
                        proof {
                            assert(registrations(integer@) =~= registrations(old_table).insert(g@.name, reg));
                            builds = builds.push((GaugeType::Integer, request));
                        }
                    },
                    Err(e) => {
                        proof {
                            assert(gv[i as int].name == g@.name);
                        }
                        return Err(e);
                    },
                },
                GaugeType::Float => match build_float::<F>(meter, g) {
                    Ok(b) => {
                        let ghost old_table = float@;
                        let ghost request = b@.request;
                        let entry = (b, Ghost(i as int));
                        let ghost reg = Registration { gauge: entry.0@.gauge, source: i as int, request };
                        float.insert(String::from_str(g.as_name()), entry);
                        proof {
                            assert(registrations(float@) =~= registrations(old_table).insert(g@.name, reg));
                            builds = builds.push((GaugeType::Float, request));
                        }
                    },
                    Err(e) => {
                        proof {
                            assert(gv[i as int].name == g@.name);
                        }
                        return Err(e);
                    },
                },
            }
        }
        proof {
            assert(gv.take(gs@.len() as int) =~= gv);
        }
        let r = Metrics { integer, float, builds: Ghost(builds) };
        proof {
            assert(r@.integer == registrations(integer@));
        }
        Ok(r)
    }
}

/// The serialized items of a list that may be absent; absent counts as empty.
pub open spec fn or_empty<T>(o: Option<Seq<T>>) -> Seq<T> {
    match o {
        Some(s) => s,
        None => Seq::empty(),
    }
}

/// The gauges that a list of queries asks for on a meter: those of each query in turn.
pub open spec fn builds_of_queries(m: Meter, gss: Seq<Seq<GaugeView>>) -> Seq<Build>
    decreases gss.len(),
{
    if gss.len() == 0 {
        Seq::empty()
    } else {
        builds_of_queries(m, gss.drop_last()) + builds_of(m, gss.last())
    }
}

/// The gauge configs of each `Single`.
pub open spec fn single_gauges(ss: Seq<SingleView>) -> Seq<Seq<GaugeView>> {
    ss.map_values(|s: SingleView| s.gauge)
}

/// The gauge configs of each `Multi`.
pub open spec fn multi_gauges(ms: Seq<MultiView>) -> Seq<Seq<GaugeView>> {
    ms.map_values(|m: MultiView| m.gauge)
}

/// Each query paired with gauges built on meter `m` from its gauge configs, in order.
pub open spec fn paired_with<Q, F>(ps: Seq<(Q, MetricsView<F>)>, qs: Seq<Q>, gss: Seq<Seq<GaugeView>>, m: Meter) -> bool {
    &&& ps.len() == qs.len()
    &&& forall|i: int| 0 <= i < ps.len() ==> #[trigger] ps[i].0 == qs[i] && built_from(ps[i].1, m, gss[i])
}

/// The event is the refusal of a gauge config of one of the queries.
pub open spec fn refused_in_queries(e: EventView, gss: Seq<Seq<GaugeView>>) -> bool {
    exists|i: int| 0 <= i < gss.len() && #[trigger] refused_in(e, gss[i])
}

/// The queries of a collection, each with the gauges built for it, and every gauge
/// built, in order.
pub struct MetricsCollectionView<F> {
    pub single: Seq<(SingleView, MetricsView<F>)>,
    pub multi: Seq<(MultiView, MetricsView<F>)>,
    pub builds: Seq<Build>,
}

/// All the queries of a config, with their gauges.
pub struct MetricsCollection<F> {
    single: Vec<(Single, Metrics<F>)>,
    multi: Vec<(Multi, Metrics<F>)>,
    builds: Ghost<Seq<Build>>,
}

impl<F> MetricsCollection<F> {
    /// The queries, each with its gauges, and every gauge built.
    pub closed spec fn view(&self) -> MetricsCollectionView<F> {
        MetricsCollectionView {
            single: self.single@.map_values(|p: (Single, Metrics<F>)| (p.0@, p.1@)),
            multi: self.multi@.map_values(|p: (Multi, Metrics<F>)| (p.0@, p.1@)),
            builds: self.builds@,
        }
    }
}

/// A query with gauge configs, converted from its serialized form: a `Single` or a
/// `Multi`.
pub trait Query: View + Sized {
    /// The serialized form.
    type Raw: View;

    /// What converting a serialized query gives.
    spec fn converted(r: <Self::Raw as View>::V) -> Result<Self::V, EventView>;

    /// The gauge configs of a query.
    spec fn gauge_configs(v: Self::V) -> Seq<GaugeView>;

    /// Converts a serialized query.
    fn convert(r: Self::Raw) -> (c: Result<Self, Event>)
        ensures
            outcome(c) == Self::converted(r@);

    /// Gets the gauge configs.
    fn gauges(&self) -> (r: &[Gauge])
        ensures
            gauge_views(r@) == Self::gauge_configs(self@);
}

impl Query for Single {
    type Raw = RawSingle;

    open spec fn converted(r: RawSingleView) -> Result<SingleView, EventView> {
        single_of(r)
    }

    open spec fn gauge_configs(v: SingleView) -> Seq<GaugeView> {
        v.gauge
    }

    fn convert(r: RawSingle) -> (c: Result<Single, Event>) {
        Single::from_raw(r)
    }

    fn gauges(&self) -> (r: &[Gauge]) {
        self.as_gauge()
    }
}

impl Query for Multi {
    type Raw = RawMulti;

    open spec fn converted(r: RawMultiView) -> Result<MultiView, EventView> {
        multi_of(r)
    }

    open spec fn gauge_configs(v: MultiView) -> Seq<GaugeView> {
        v.gauge
    }

    fn convert(r: RawMulti) -> (c: Result<Multi, Event>) {
        Multi::from_raw(r)
    }

    fn gauges(&self) -> (r: &[Gauge]) {
        self.as_gauge()
    }
}

/// The queries that a list of serialized ones gives: those that convert, in order.
pub open spec fn kept<Q: Query>(rs: Seq<<Q::Raw as View>::V>) -> Seq<Q::V> {
    rs.filter_map(|r: <Q::Raw as View>::V| match Q::converted(r) {
        Ok(q) => Some(q),
        Err(_) => None,
    })
}

/// The `Single`s that a list of serialized ones gives: those that convert, in order.
pub open spec fn kept_singles(rs: Seq<RawSingleView>) -> Seq<SingleView> {
    kept::<Single>(rs)
}

/// The `Multi`s that a list of serialized ones gives: those that convert, in order.
pub open spec fn kept_multis(rs: Seq<RawMultiView>) -> Seq<MultiView> {
    kept::<Multi>(rs)
}

/// When every serialized query converts, all of them are kept, in order.
pub proof fn law_kept_all_valid<Q: Query>(rs: Seq<<Q::Raw as View>::V>)
    requires
        forall|i: int| 0 <= i < rs.len() ==> #[trigger] Q::converted(rs[i]) is Ok,
    ensures
        kept::<Q>(rs).len() == rs.len(),
        forall|i: int| 0 <= i < rs.len() ==> Ok::<Q::V, EventView>(#[trigger] kept::<Q>(rs)[i]) == Q::converted(rs[i]),
    decreases rs.len(),
{
    if rs.len() > 0 {
        let init = rs.drop_last();
        assert forall|i: int| 0 <= i < init.len() implies #[trigger] Q::converted(init[i]) is Ok by {
            assert(init[i] == rs[i]);
        }
        law_kept_all_valid::<Q>(init);
        assert(Q::converted(rs[rs.len() - 1]) is Ok);
        assert forall|i: int| 0 <= i < rs.len() implies Ok::<Q::V, EventView>(#[trigger] kept::<Q>(rs)[i]) == Q::converted(rs[i]) by {
            if i < rs.len() - 1 {
                assert(init[i] == rs[i]);
                assert(kept::<Q>(rs)[i] == kept::<Q>(init)[i]);
            }
        }
    }
}

/// A serialized query that does not convert is left out: the queries kept are the
/// others.
pub proof fn law_kept_skip_invalid<Q: Query>(rs: Seq<<Q::Raw as View>::V>, r: <Q::Raw as View>::V)
    requires
        Q::converted(r) is Err,
    ensures
        kept::<Q>(rs.push(r)) == kept::<Q>(rs),
{
    assert(rs.push(r).drop_last() =~= rs);
}

/// Converts serialized queries in order, leaving out those that fail.
fn keep<Q: Query>(rs: Vec<Q::Raw>) -> (r: Vec<Q>)
    ensures
        r@.map_values(|q: Q| q@) == kept::<Q>(rs@.map_values(|x: Q::Raw| x@)),
{
    let ghost all = rs@.map_values(|x: Q::Raw| x@);
    let ghost f = |r: <Q::Raw as View>::V| match Q::converted(r) {
        Ok(q) => Some(q),
        Err(_) => None,
    };
    let mut rest = rs;
    let mut out: Vec<Q> = Vec::new();
    let ghost mut i: int = 0;
    proof {
        assert(all.skip(0) =~= all);
        assert(all.take(0).filter_map(f) =~= Seq::<Q::V>::empty());
        assert(out@.map_values(|q: Q| q@) =~= Seq::<Q::V>::empty());
    }
    while rest.len() > 0
        invariant
            0 <= i <= all.len(),
            all == rs@.map_values(|x: Q::Raw| x@),
            f == (|r: <Q::Raw as View>::V| match Q::converted(r) {
                Ok(q) => Some(q),
                Err(_) => None,
            }),
            rest@.map_values(|x: Q::Raw| x@) == all.skip(i),
            out@.map_values(|q: Q| q@) == all.take(i).filter_map(f),
        decreases rest@.len(),
    {
        let ghost before_rest = rest@;
        let ghost before_out = out@;
        let raw = rest.remove(0);
        proof {
            lemma_take_first(before_rest, rest@, |x: Q::Raw| x@, all, i);
            all.lemma_filter_map_take_succ(f, i);
        }
        match Q::convert(raw) {
            Ok(q) => {
                out.push(q);
                proof {
                    lemma_map_push(before_out, out@.last(), |q: Q| q@);
                }
            },
            Err(_) => {},
        }
        proof {
            i = i + 1;
        }
    }
    proof {
        assert(all.take(i) =~= all);
    }
    out
}

/// The gauge configs of each query.
pub open spec fn query_gauges<Q: Query>(qs: Seq<Q::V>) -> Seq<Seq<GaugeView>> {
    qs.map_values(|q: Q::V| Q::gauge_configs(q))
}

/// Builds the gauges of each query in turn, pairing each query with them; stops with
/// the first refusal. Gives back every gauge built, in order.
fn build_queries<Q: Query, F: FloatInstrument>(meter: &Meter, qs: Vec<Q>) -> (r: Result<
    (Vec<(Q, Metrics<F>)>, Ghost<Seq<Build>>),
    Event,
>)
    ensures
        match r {
            Ok(p) => {
                &&& paired_with(p.0@.map_values(|x: (Q, Metrics<F>)| (x.0@, x.1@)), qs@.map_values(|q: Q| q@), query_gauges::<Q>(qs@.map_values(|q: Q| q@)), *meter)
                &&& p.1@ == builds_of_queries(*meter, query_gauges::<Q>(qs@.map_values(|q: Q| q@)))
            },
            Err(e) => refused_in_queries(e@, query_gauges::<Q>(qs@.map_values(|q: Q| q@))),
        },
{
    let ghost qv = qs@.map_values(|q: Q| q@);
    let ghost gs = query_gauges::<Q>(qv);
    let ghost mut builds: Seq<Build> = Seq::empty();
    let mut out: Vec<(Q, Metrics<F>)> = Vec::new();
    let mut rest = qs;
    let ghost mut i: int = 0;
    proof {
        assert(qv.skip(0) =~= qv);
        assert(gs.take(0) =~= Seq::<Seq<GaugeView>>::empty());
    }
    while rest.len() > 0
        invariant
            0 <= i <= qv.len(),
            qv == qs@.map_values(|q: Q| q@),
            gs == query_gauges::<Q>(qv),
            rest@.map_values(|q: Q| q@) == qv.skip(i),
            paired_with(out@.map_values(|x: (Q, Metrics<F>)| (x.0@, x.1@)), qv.take(i), gs.take(i), *meter),
            builds == builds_of_queries(*meter, gs.take(i)),
        decreases rest@.len(),
    {
        let ghost before_rest = rest@;
        let ghost before = out@;
        let q = rest.remove(0);
        proof {
            lemma_take_first(before_rest, rest@, |q: Q| q@, qv, i);
            assert(gs.take(i + 1).drop_last() =~= gs.take(i));
            assert(gs[i] == Q::gauge_configs(q@));
        }
        let m = match Metrics::new(meter, q.gauges()) {
            Ok(m) => m,
            Err(e) => {
                proof {
                    assert(refused_in(e@, gs[i]));
                }
                return Err(e);
            },
        };
        let ghost mb = m@.builds;
        out.push((q, m));
        proof {
            lemma_map_push(before, out@.last(), |x: (Q, Metrics<F>)| (x.0@, x.1@));
            assert(qv.take(i + 1) =~= qv.take(i).push(qv[i]));
            assert(gs.take(i + 1) =~= gs.take(i).push(gs[i]));
            let ps = out@.map_values(|x: (Q, Metrics<F>)| (x.0@, x.1@));
            assert forall|j: int| 0 <= j < ps.len() implies #[trigger] ps[j].0 == qv.take(i + 1)[j] && built_from(ps[j].1, *meter, gs.take(i + 1)[j]) by {
                if j < i {
                    let prev = before.map_values(|x: (Q, Metrics<F>)| (x.0@, x.1@));
                    assert(ps[j] == prev[j]);
                }
            }
            builds = builds + mb;
            i = i + 1;
        }
    }
    proof {
        assert(qv.take(i) =~= qv);
        assert(gs.take(i) =~= gs);
    }
    Ok((out, Ghost(builds)))
}

impl<F: FloatInstrument> MetricsCollection<F> {
    /// Builds the gauges of each `Single` in turn, then of each `Multi`; stops with the
    /// first refusal.
    fn new_sm(meter: &Meter, vs: Vec<Single>, vm: Vec<Multi>) -> (r: Result<Self, Event>)
        ensures
            match r {
                Ok(c) => {
                    &&& paired_with(c@.single, vs@.map_values(|s: Single| s@), single_gauges(vs@.map_values(|s: Single| s@)), *meter)
                    &&& paired_with(c@.multi, vm@.map_values(|m: Multi| m@), multi_gauges(vm@.map_values(|m: Multi| m@)), *meter)
                    &&& c@.builds == builds_of_queries(*meter, single_gauges(vs@.map_values(|s: Single| s@)))
                        + builds_of_queries(*meter, multi_gauges(vm@.map_values(|m: Multi| m@)))
                },
                Err(e) => refused_in_queries(e@, single_gauges(vs@.map_values(|s: Single| s@)))
                    || refused_in_queries(e@, multi_gauges(vm@.map_values(|m: Multi| m@))),
            },
    {
        let ghost sv = vs@.map_values(|s: Single| s@);
        let ghost mv = vm@.map_values(|m: Multi| m@);
        let (single, sb) = match build_queries::<Single, F>(meter, vs) {
            Ok(p) => p,
            Err(e) => {
                proof {
                    assert(query_gauges::<Single>(sv) =~= single_gauges(sv));
                }
                return Err(e);
            },
        };
        let (multi, mb) = match build_queries::<Multi, F>(meter, vm) {
            Ok(p) => p,
            Err(e) => {
                proof {
                    assert(query_gauges::<Multi>(mv) =~= multi_gauges(mv));
                }
                return Err(e);
            },
        };
        proof {
            assert(query_gauges::<Single>(sv) =~= single_gauges(sv));
            assert(query_gauges::<Multi>(mv) =~= multi_gauges(mv));
        }
        Ok(Self { single, multi, builds: Ghost(sb@ + mb@) })
    }

    /// Creates the gauges of every query of a config: of each `Single` in turn, then of
    /// each `Multi`. Queries whose gauge configs do not convert are left out, and no gauge
    /// is built for them; an absent list counts as empty. Stops with the first gauge that
    /// the meter's provider refuses.
    pub fn new(meter: &Meter, q: CustomQuery) -> (r: Result<Self, Event>)
        ensures
            match r {
                Ok(c) => {
                    &&& paired_with(c@.single, kept_singles(or_empty(q@.single)), single_gauges(kept_singles(or_empty(q@.single))), *meter)
                    &&& paired_with(c@.multi, kept_multis(or_empty(q@.multi)), multi_gauges(kept_multis(or_empty(q@.multi))), *meter)
                    &&& c@.builds == builds_of_queries(*meter, single_gauges(kept_singles(or_empty(q@.single))))
                        + builds_of_queries(*meter, multi_gauges(kept_multis(or_empty(q@.multi))))
                },
                Err(e) => refused_in_queries(e@, single_gauges(kept_singles(or_empty(q@.single))))
                    || refused_in_queries(e@, multi_gauges(kept_multis(or_empty(q@.multi)))),
            },
    {
        let ghost q0 = q@;
        let mut q = q;
        let rs: Vec<RawSingle> = match q.take_single() {
            Some(v) => v,
            None => Vec::new(),
        };
        let rm: Vec<RawMulti> = match q.take_multi() {
            Some(v) => v,
            None => Vec::new(),
        };
        proof {
            assert(rs@.map_values(|x: RawSingle| x@) =~= or_empty(q0.single));
            assert(rm@.map_values(|x: RawMulti| x@) =~= or_empty(q0.multi));
        }
        let vs: Vec<Single> = keep::<Single>(rs);
        let vm: Vec<Multi> = keep::<Multi>(rm);
        Self::new_sm(meter, vs, vm)
    }

    /// The number of `Single` queries.
    pub fn single_len(&self) -> (n: usize)
        ensures
            n == self@.single.len(),
    {
        self.single.len()
    }

    /// The `Single` query at a position.
    pub fn single_at(&self, i: usize) -> (s: &Single)
        requires
            i < self@.single.len(),
        ensures
            s@ == self@.single[i as int].0,
    {
        &self.single[i].0
    }

    /// Records the row that the `Single` query at a position gave, if it gave one, with
    /// that query's gauges and labels; gives back what it handed to the gauges.
    pub fn observe_single_at(&self, i: usize, row: Option<&Row>, c: &Context) -> (log: Ghost<Seq<Recording<F>>>)
        requires
            i < self@.single.len(),
        ensures
            log@ == match row {
                None => Seq::<Recording<F>>::empty(),
                Some(row) => row_recordings(self@.single[i as int].1, row@, labels_of(self@.single[i as int].0), *c),
            },
    {
        let (s, m) = &self.single[i];
        match row {
            None => Ghost(Seq::empty()),
            Some(row) => m.observe_single(c, row, s.as_label()),
        }
    }

    /// The number of `Multi` queries.
    pub fn multi_len(&self) -> (n: usize)
        ensures
            n == self@.multi.len(),
    {
        self.multi.len()
    }

    /// The `Multi` query at a position.
    pub fn multi_at(&self, i: usize) -> (m: &Multi)
        requires
            i < self@.multi.len(),
        ensures
            m@ == self@.multi[i as int].0,
    {
        &self.multi[i].0
    }

    /// Records the rows that the `Multi` query at a position gave, in order, with that
    /// query's gauges and labels; gives back what it handed to the gauges.
    pub fn observe_multi_at(&self, i: usize, rows: &[Row], c: &Context) -> (log: Ghost<Seq<Recording<F>>>)
        requires
            i < self@.multi.len(),
        ensures
            log@ == rows_recordings(self@.multi[i as int].1, row_views(rows@), self@.multi[i as int].0.label, *c),
    {
        let (multi, m) = &self.multi[i];
        let l: &[Label] = multi.as_label();
        m.observe(c, rows, l)
    }
}

} // verus!
