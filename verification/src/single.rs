//! Single set of metrics items / single request
//!
//! A query must return one row.
use vstd::prelude::*;
use crate::evt::{outcome, Event, EventView};
use crate::gauge::{gauge_views, gauges_from_raw, gauges_of, raw_gauge_views, Gauge, GaugeView, RawGauge, RawGaugeView};
use crate::label::{label_views, Label, LabelView};

verus! {

/// The views of labels that may be absent.
pub open spec fn optional_label_views(l: Option<Vec<Label>>) -> Option<Seq<LabelView>> {
    match l {
        Some(v) => Some(label_views(v@)),
        None => None,
    }
}

/// Single gets gauge items from single row.
pub struct Single {
    query: String,
    label: Option<Vec<Label>>,
    gauge: Vec<Gauge>,
}

/// The query, labels and gauges of a `Single`.
pub struct SingleView {
    pub query: Seq<char>,
    pub label: Option<Seq<LabelView>>,
    pub gauge: Seq<GaugeView>,
}

impl View for Single {
    type V = SingleView;

    closed spec fn view(&self) -> SingleView {
        SingleView {
            query: self.query@,
            label: optional_label_views(self.label),
            gauge: gauge_views(self.gauge@),
        }
    }
}

/// Raw(serialized) Single.
pub struct RawSingle {
    query: String,
    label: Option<Vec<Label>>,
    gauge: Vec<RawGauge>,
}

/// The query, labels and serialized gauges of a `RawSingle`.
pub struct RawSingleView {
    pub query: Seq<char>,
    pub label: Option<Seq<LabelView>>,
    pub gauge: Seq<RawGaugeView>,
}

impl View for RawSingle {
    type V = RawSingleView;

    closed spec fn view(&self) -> RawSingleView {
        RawSingleView {
            query: self.query@,
            label: optional_label_views(self.label),
            gauge: raw_gauge_views(self.gauge@),
        }
    }
}

/// The labels of a `Single`; none when they are absent.
pub open spec fn labels_of(s: SingleView) -> Seq<LabelView> {
    match s.label {
        Some(l) => l,
        None => Seq::<LabelView>::empty(),
    }
}

/// A `Single` observes with the labels it was configured with, and with none when it
/// has none.
pub proof fn law_labels_of(s: SingleView)
    ensures
        s.label matches Some(l) ==> labels_of(s) == l,
        s.label is None ==> labels_of(s) == Seq::<LabelView>::empty(),
{
}

/// What converting a serialized `Single` gives: every gauge must convert.
pub open spec fn single_of(r: RawSingleView) -> Result<SingleView, EventView> {
    match gauges_of(r.gauge) {
        Ok(gs) => Ok(SingleView { query: r.query, label: r.label, gauge: gs }),
        Err(e) => Err(e),
    }
}

impl RawSingle {
    /// Creates a serialized `Single` from its fields.
    pub fn new(query: String, label: Option<Vec<Label>>, gauge: Vec<RawGauge>) -> (r: Self)
        ensures
            r@ == (RawSingleView {
                query: query@,
                label: optional_label_views(label),
                gauge: raw_gauge_views(gauge@),
            }),
    {
        RawSingle { query, label, gauge }
    }
}

impl Single {
    /// Converts a serialized `Single`; fails with the error of its first gauge that fails.
    pub fn from_raw(r: RawSingle) -> (s: Result<Single, Event>)
        ensures
            outcome(s) == single_of(r@),
    {
        let query: String = r.query;
        let label: Option<Vec<Label>> = r.label;
        match gauges_from_raw(r.gauge) {
            Ok(gauge) => Ok(Single { query, label, gauge }),
            Err(e) => Err(e),
        }
    }

    /// Gets the query string to get a metrics row.
    pub fn as_query(&self) -> (r: &str)
        ensures
            r@ == self@.query,
    {
        self.query.as_str()
    }

    /// Takes all labels if exists.
    pub fn take_label(&mut self) -> (r: Option<Vec<Label>>)
        ensures
            optional_label_views(r) == old(self)@.label,
            final(self)@ == (SingleView { label: None, ..old(self)@ }),
    {
        self.label.take()
    }

    /// Gets all labels(can be empty).
    pub fn as_label(&self) -> (r: &[Label])
        ensures
            label_views(r@) == labels_of(self@),
    {
        match &self.label {
            None => {
                let empty: &[Label] = &[];
                assert(label_views(empty@) =~= Seq::<LabelView>::empty());
                empty
            },
            Some(l) => l.as_slice(),
        }
    }

    /// Gets all gauge items.
    pub fn as_gauge(&self) -> (r: &[Gauge])
        ensures
            gauge_views(r@) == self@.gauge,
    {
        self.gauge.as_slice()
    }
}

impl TryFrom<RawSingle> for Single {
    type Error = Event;

    fn try_from(r: RawSingle) -> (s: Result<Self, Self::Error>)
        ensures
            outcome(s) == single_of(r@),
    {
        Single::from_raw(r)
    }
}

/// The conversion's contract stands in the `ensures` of its `try_from` above: an `Event`
/// holds a `String`, which no spec value can equal, so the trait's own specification,
/// which asks for such a value, is switched off.
impl vstd::std_specs::convert::TryFromSpecImpl<RawSingle> for Single {
    open spec fn obeys_try_from_spec() -> bool {
        false
    }

    open spec fn try_from_spec(r: RawSingle) -> Result<Self, Event> {
        arbitrary()
    }
}

} // verus!
