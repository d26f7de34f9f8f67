//! Multi gets gauge items from many rows (labels required).
use vstd::prelude::*;
use crate::evt::{outcome, Event, EventView};
use crate::gauge::{gauge_views, gauges_from_raw, gauges_of, raw_gauge_views, Gauge, GaugeView, RawGauge, RawGaugeView};
use crate::label::{label_views, Label, LabelView};

verus! {

/// Multi gets gauge items from many rows(Label required).
pub struct Multi {
    query: String,
    label: Vec<Label>,
    gauge: Vec<Gauge>,
}

/// The query, labels and gauges of a `Multi`.
pub struct MultiView {
    pub query: Seq<char>,
    pub label: Seq<LabelView>,
    pub gauge: Seq<GaugeView>,
}

impl View for Multi {
    type V = MultiView;

    closed spec fn view(&self) -> MultiView {
        MultiView {
            query: self.query@,
            label: label_views(self.label@),
            gauge: gauge_views(self.gauge@),
        }
    }
}

/// Raw(serialized) Multi.
pub struct RawMulti {
    query: String,
    label: Vec<Label>,
    gauge: Vec<RawGauge>,
}

/// The query, labels and serialized gauges of a `RawMulti`.
pub struct RawMultiView {
    pub query: Seq<char>,
    pub label: Seq<LabelView>,
    pub gauge: Seq<RawGaugeView>,
}

impl View for RawMulti {
    type V = RawMultiView;

    closed spec fn view(&self) -> RawMultiView {
        RawMultiView {
            query: self.query@,
            label: label_views(self.label@),
            gauge: raw_gauge_views(self.gauge@),
        }
    }
}

/// What converting a serialized `Multi` gives: every gauge must convert.
pub open spec fn multi_of(r: RawMultiView) -> Result<MultiView, EventView> {
    match gauges_of(r.gauge) {
        Ok(gs) => Ok(MultiView { query: r.query, label: r.label, gauge: gs }),
        Err(e) => Err(e),
    }
}

impl RawMulti {
    /// Creates a serialized `Multi` from its fields.
    pub fn new(query: String, label: Vec<Label>, gauge: Vec<RawGauge>) -> (r: Self)
        ensures
            r@ == (RawMultiView {
                query: query@,
                label: label_views(label@),
                gauge: raw_gauge_views(gauge@),
            }),
    {
        RawMulti { query, label, gauge }
    }
}

impl Multi {
    /// Converts a serialized `Multi`; fails with the error of its first gauge that fails.
    pub fn from_raw(r: RawMulti) -> (m: Result<Multi, Event>)
        ensures
            outcome(m) == multi_of(r@),
    {
        let query: String = r.query;
        let label: Vec<Label> = r.label;
        match gauges_from_raw(r.gauge) {
            Ok(gauge) => Ok(Multi { query, label, gauge }),
            Err(e) => Err(e),
        }
    }

    /// Gets query string to get metrics rows.
    pub fn as_query(&self) -> (r: &str)
        ensures
            r@ == self@.query,
    {
        self.query.as_str()
    }

    /// Gets labels.
    pub fn as_label(&self) -> (r: &[Label])
        ensures
            label_views(r@) == self@.label,
    {
        self.label.as_slice()
    }

    /// Gets gauges.
    pub fn as_gauge(&self) -> (r: &[Gauge])
        ensures
            gauge_views(r@) == self@.gauge,
    {
        self.gauge.as_slice()
    }
}

impl TryFrom<RawMulti> for Multi {
    type Error = Event;

    fn try_from(r: RawMulti) -> (m: Result<Self, Self::Error>)
        ensures
            outcome(m) == multi_of(r@),
    {
        Multi::from_raw(r)
    }
}

/// The conversion's contract stands in the `ensures` of its `try_from` above: an `Event`
/// holds a `String`, which no spec value can equal, so the trait's own specification,
/// which asks for such a value, is switched off.
impl vstd::std_specs::convert::TryFromSpecImpl<RawMulti> for Multi {
    open spec fn obeys_try_from_spec() -> bool {
        false
    }

    open spec fn try_from_spec(r: RawMulti) -> Result<Self, Event> {
        arbitrary()
    }
}

} // verus!
