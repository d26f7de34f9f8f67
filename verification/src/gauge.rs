//! A Gauge builder
use vstd::prelude::*;
use opentelemetry::metrics::{InstrumentBuilder, Meter, ObservableGauge, Unit};
use crate::evt::{outcome, Event, EventView};
use crate::lemmas::{lemma_map_push, lemma_take_first};
use crate::otel::{builder_fields, i64_observable_gauge, otel_unit, try_init, unit_new, with_description, with_unit};

verus! {

/// List of gauge number type.
#[derive(PartialEq, Eq, Structural, Debug, Clone, Copy)]
pub enum GaugeType {
    Float,
    Integer,
}

impl View for GaugeType {
    type V = GaugeType;

    open spec fn view(&self) -> GaugeType {
        *self
    }
}

/// The gauge type that a type name denotes, if any.
pub open spec fn gauge_type_of(s: Seq<char>) -> Option<GaugeType> {
    if s == "f64"@ {
        Some(GaugeType::Float)
    } else if s == "i64"@ || s == "i32"@ {
        Some(GaugeType::Integer)
    } else {
        None
    }
}

/// The message of the event for an unknown gauge type name.
pub open spec fn unknown_gauge_message(s: Seq<char>) -> Seq<char> {
    "Unknown gauge type: "@ + s
}

/// What parsing a gauge type name gives.
pub open spec fn parse_gauge_type(s: Seq<char>) -> Result<GaugeType, EventView> {
    match gauge_type_of(s) {
        Some(t) => Ok(t),
        None => Err(EventView::InvalidGauge(unknown_gauge_message(s))),
    }
}

impl GaugeType {
    /// Parses a gauge type name: "f64" is a float gauge, "i64" and "i32" are integer gauges.
    pub fn parse(s: &str) -> (r: Result<GaugeType, Event>)
        ensures
            outcome(r) == parse_gauge_type(s@),
    {
        let owned = String::from_str(s);
        let float_name = String::from_str("f64");
        let long_name = String::from_str("i64");
        let int_name = String::from_str("i32");
        proof {
            reveal_strlit("f64");
            reveal_strlit("i64");
            reveal_strlit("i32");
        }
        if owned == float_name {
            Ok(GaugeType::Float)
        } else if owned == long_name || owned == int_name {
            Ok(GaugeType::Integer)
        } else {
            let mut msg = String::from_str("Unknown gauge type: ");
            msg.append(s);
            Err(Event::InvalidGauge(msg))
        }
    }
}

impl TryFrom<&str> for GaugeType {
    type Error = Event;

    fn try_from(s: &str) -> (r: Result<Self, Self::Error>)
        ensures
            outcome(r) == parse_gauge_type(s@),
    {
        GaugeType::parse(s)
    }
}

/// The conversion's contract stands in the `ensures` of its `try_from` above: an `Event`
/// holds a `String`, which no spec value can equal, so the trait's own specification,
/// which asks for such a value, is switched off.
impl vstd::std_specs::convert::TryFromSpecImpl<&str> for GaugeType {
    open spec fn obeys_try_from_spec() -> bool {
        false
    }

    open spec fn try_from_spec(s: &str) -> Result<Self, Event> {
        arbitrary()
    }
}

/// Serialized `Gauge`.
pub struct RawGauge {
    name: String,
    gauge_type: String,
    description: String,
    unit: String,
}

/// The fields of a serialized gauge.
pub struct RawGaugeView {
    pub name: Seq<char>,
    pub gauge_type: Seq<char>,
    pub description: Seq<char>,
    pub unit: Seq<char>,
}

impl View for RawGauge {
    type V = RawGaugeView;

    closed spec fn view(&self) -> RawGaugeView {
        RawGaugeView {
            name: self.name@,
            gauge_type: self.gauge_type@,
            description: self.description@,
            unit: self.unit@,
        }
    }
}

impl RawGauge {
    /// Creates a serialized gauge from its fields.
    pub fn new(name: String, gauge_type: String, description: String, unit: String) -> (r: Self)
        ensures
            r@ == (RawGaugeView {
                name: name@,
                gauge_type: gauge_type@,
                description: description@,
                unit: unit@,
            }),
    {
        RawGauge { name, gauge_type, description, unit }
    }
}

/// A gauge config.
pub struct Gauge {
    /// The name of the gauge.
    name: String,
    /// The type of this gauge.
    typ: GaugeType,
    description: String,
    /// The unit of this gauge(can be empty).
    unit: String,
}

/// The fields of a gauge config.
pub struct GaugeView {
    pub name: Seq<char>,
    pub typ: GaugeType,
    pub description: Seq<char>,
    pub unit: Seq<char>,
}

impl View for Gauge {
    type V = GaugeView;

    closed spec fn view(&self) -> GaugeView {
        GaugeView {
            name: self.name@,
            typ: self.typ,
            description: self.description@,
            unit: self.unit@,
        }
    }
}

/// What converting a serialized gauge gives: its type name must be known.
pub open spec fn gauge_of(r: RawGaugeView) -> Result<GaugeView, EventView> {
    match parse_gauge_type(r.gauge_type) {
        Ok(t) => Ok(GaugeView { name: r.name, typ: t, description: r.description, unit: r.unit }),
        Err(e) => Err(e),
    }
}

/// The unit of a gauge whose unit text is the given one: none when the text is empty.
pub open spec fn unit_of(unit: Seq<char>) -> Option<Unit> {
    if unit.len() == 0 {
        None
    } else {
        Some(otel_unit(unit))
    }
}

/// What a gauge is built from: the meter, its name, its description and its unit.
pub struct GaugeRequest {
    pub meter: Meter,
    pub name: Seq<char>,
    pub description: Option<Seq<char>>,
    pub unit: Option<Unit>,
}

/// A request read from a builder's fields: meter, name, description and unit.
pub open spec fn request_of_fields(f: (Meter, Seq<char>, Option<Seq<char>>, Option<Unit>)) -> GaugeRequest {
    GaugeRequest { meter: f.0, name: f.1, description: f.2, unit: f.3 }
}

/// What an integer-gauge builder holds.
pub open spec fn request_of_builder(b: InstrumentBuilder<'_, ObservableGauge<i64>>) -> GaugeRequest {
    request_of_fields(builder_fields(b))
}

/// What the gauge of a config is built from on a meter: its name, its description, and
/// its unit when that is not empty.
pub open spec fn gauge_request(m: Meter, g: GaugeView) -> GaugeRequest {
    GaugeRequest { meter: m, name: g.name, description: Some(g.description), unit: unit_of(g.unit) }
}

/// A gauge is built on the given meter under the config's name, with the config's
/// description, and with `Unit::new` of the config's unit text exactly when that text is
/// not empty.
pub proof fn law_gauge_request(m: Meter, g: GaugeView)
    ensures
        gauge_request(m, g).meter == m,
        gauge_request(m, g).name == g.name,
        gauge_request(m, g).description == Some(g.description),
        g.unit.len() > 0 ==> gauge_request(m, g).unit == Some(otel_unit(g.unit)),
        g.unit.len() == 0 ==> gauge_request(m, g).unit == None::<Unit>,
{
}

/// The message of the event for a gauge that the meter's provider refused.
pub open spec fn refused_message(name: Seq<char>) -> Seq<char> {
    "Unable to create gauge: "@ + name
}

/// The event for a gauge that the meter's provider refused.
pub fn refused(name: &str) -> (e: Event)
    ensures
        e@ == EventView::InvalidGauge(refused_message(name@)),
{
    let mut msg = String::from_str("Unable to create gauge: ");
    msg.append(name);
    Event::InvalidGauge(msg)
}

/// A gauge made on a meter, with what it was made from.
pub struct Built<G> {
    gauge: G,
    request: Ghost<GaugeRequest>,
}

/// A made gauge and what it was made from.
pub struct BuiltView<G> {
    pub gauge: G,
    pub request: GaugeRequest,
}

impl<G> View for Built<G> {
    type V = BuiltView<G>;

    closed spec fn view(&self) -> BuiltView<G> {
        BuiltView { gauge: self.gauge, request: self.request@ }
    }
}

impl<G> Built<G> {
    /// Pairs a gauge with what it was made from.
    pub(crate) fn new(gauge: G, request: Ghost<GaugeRequest>) -> (b: Self)
        ensures
            b@ == (BuiltView { gauge, request: request@ }),
    {
        Built { gauge, request }
    }

    /// Gets the gauge.
    pub fn as_gauge(&self) -> (g: &G)
        ensures
            *g == self@.gauge,
    {
        &self.gauge
    }

    /// Takes the gauge.
    pub fn into_gauge(self) -> (g: G)
        ensures
            g == self@.gauge,
    {
        self.gauge
    }
}

impl Gauge {
    /// Gets the name of this gauge.
    pub fn as_name(&self) -> (r: &str)
        ensures
            r@ == self@.name,
    {
        self.name.as_str()
    }

    /// Gets the type of this gauge.
    pub fn as_type(&self) -> (r: GaugeType)
        ensures
            r == self@.typ,
    {
        self.typ
    }

    /// Gets the description of this gauge.
    pub fn as_desc(&self) -> (r: &str)
        ensures
            r@ == self@.description,
    {
        self.description.as_str()
    }

    /// Gets the unit string of this gauge.
    pub fn as_unit(&self) -> (r: &str)
        ensures
            r@ == self@.unit,
    {
        self.unit.as_str()
    }

    /// Gets the unit of this gauge if exists.
    pub fn to_unit(&self) -> (r: Option<Unit>)
        ensures
            r == unit_of(self@.unit),
            self@.unit.len() > 0 ==> r == Some(otel_unit(self@.unit)),
            self@.unit.len() == 0 ==> r == None::<Unit>,
    {
        let empty: bool = self.unit.as_str().is_empty();
        if empty {
            None
        } else {
            Some(unit_new(self.unit.clone()))
        }
    }

    /// Starts the builder of this gauge's integer gauge on a meter: its name, its
    /// description, and its unit when that is not empty.
    pub fn integer_builder<'a>(&self, m: &'a Meter) -> (b: InstrumentBuilder<'a, ObservableGauge<i64>>)
        ensures
            request_of_builder(b) == gauge_request(*m, self@),
    {
        let builder = with_description(
            i64_observable_gauge(m, self.name.clone()),
            self.description.clone(),
        );
        match self.to_unit() {
            None => builder,
            Some(u) => with_unit(builder, u),
        }
    }

    /// Creates `ObservableGauge`(i64) from this gauge's builder (see `integer_builder`).
    /// The meter's provider decides whether the gauge is made; when it refuses, the
    /// result is an `InvalidGauge` event that names the gauge.
    pub fn to_integer_gauge(&self, m: &Meter) -> (r: Result<Built<ObservableGauge<i64>>, Event>)
        ensures
            match r {
                Ok(g) => g@.request == gauge_request(*m, self@),
                Err(e) => e@ == EventView::InvalidGauge(refused_message(self@.name)),
            },
    {
        let builder = self.integer_builder(m);
        let (made, receipt) = try_init(builder);
        match made {
            Ok(gauge) => Ok(Built { gauge, request: Ghost(request_of_fields(receipt@)) }),
            Err(_) => Err(refused(self.name.as_str())),
        }
    }

    /// Converts a serialized gauge; fails when its type name is unknown.
    pub fn from_raw(r: RawGauge) -> (g: Result<Gauge, Event>)
        ensures
            outcome(g) == gauge_of(r@),
    {
        let typ: GaugeType = match GaugeType::parse(r.gauge_type.as_str()) {
            Ok(t) => t,
            Err(e) => return Err(e),
        };
        let name = r.name;
        let description = r.description;
        let unit = r.unit;
        Ok(Gauge { name, typ, description, unit })
    }
}

/// The views of a list of serialized gauges.
pub open spec fn raw_gauge_views(rs: Seq<RawGauge>) -> Seq<RawGaugeView> {
    rs.map_values(|r: RawGauge| r@)
}

/// The views of a list of gauges.
pub open spec fn gauge_views(gs: Seq<Gauge>) -> Seq<GaugeView> {
    gs.map_values(|g: Gauge| g@)
}

/// What converting a list of serialized gauges gives: all of them converted, in order,
/// or the error of the first one that fails.
pub open spec fn gauges_of(rs: Seq<RawGaugeView>) -> Result<Seq<GaugeView>, EventView>
    decreases rs.len(),
{
    if rs.len() == 0 {
        Ok(Seq::empty())
    } else {
        match gauges_of(rs.drop_last()) {
            Ok(gs) => match gauge_of(rs.last()) {
                Ok(g) => Ok(gs.push(g)),
                Err(e) => Err(e),
            },
            Err(e) => Err(e),
        }
    }
}

/// A list of serialized gauges converts exactly when every type name in it is known.
pub proof fn law_gauges_ok_iff_known(rs: Seq<RawGaugeView>)
    ensures
        gauges_of(rs) is Ok <==> forall|i: int| 0 <= i < rs.len() ==> #[trigger] gauge_type_of(rs[i].gauge_type) is Some,
    decreases rs.len(),
{
    if rs.len() > 0 {
        let init = rs.drop_last();
        law_gauges_ok_iff_known(init);
        if gauges_of(rs) is Ok {
            assert forall|i: int| 0 <= i < rs.len() implies #[trigger] gauge_type_of(rs[i].gauge_type) is Some by {
                if i < rs.len() - 1 {
                    assert(init[i] == rs[i]);
                }
            }
        }
        if forall|i: int| 0 <= i < rs.len() ==> #[trigger] gauge_type_of(rs[i].gauge_type) is Some {
            assert forall|i: int| 0 <= i < init.len() implies #[trigger] gauge_type_of(init[i].gauge_type) is Some by {
                assert(init[i] == rs[i]);
            }
            assert(gauge_type_of(rs[rs.len() - 1].gauge_type) is Some);
        }
    }
}

/// A conversion that succeeds keeps each gauge's place, name, description and unit,
/// and gives each the type that its type name denotes.
pub proof fn law_gauges_keep_fields(rs: Seq<RawGaugeView>)
    requires
        gauges_of(rs) is Ok,
    ensures
        gauges_of(rs)->Ok_0.len() == rs.len(),
        forall|i: int| 0 <= i < rs.len() ==> {
            let g = #[trigger] gauges_of(rs)->Ok_0[i];
            &&& g.name == rs[i].name
            &&& gauge_type_of(rs[i].gauge_type) == Some(g.typ)
            &&& g.description == rs[i].description
            &&& g.unit == rs[i].unit
        },
    decreases rs.len(),
{
    if rs.len() > 0 {
        let init = rs.drop_last();
        law_gauges_keep_fields(init);
        let gs = gauges_of(rs)->Ok_0;
        assert forall|i: int| 0 <= i < rs.len() implies {
            let g = #[trigger] gauges_of(rs)->Ok_0[i];
            &&& g.name == rs[i].name
            &&& gauge_type_of(rs[i].gauge_type) == Some(g.typ)
            &&& g.description == rs[i].description
            &&& g.unit == rs[i].unit
        } by {
            if i < rs.len() - 1 {
                assert(init[i] == rs[i]);
                assert(gs[i] == gauges_of(init)->Ok_0[i]);
            }
        }
    }
}

/// A conversion that fails reports the first gauge whose type name is unknown.
pub proof fn law_gauges_first_error(rs: Seq<RawGaugeView>, i: int)
    requires
        0 <= i < rs.len(),
        gauge_type_of(rs[i].gauge_type) is None,
        forall|j: int| 0 <= j < i ==> #[trigger] gauge_type_of(rs[j].gauge_type) is Some,
    ensures
        gauges_of(rs) == Err::<Seq<GaugeView>, EventView>(
            EventView::InvalidGauge(unknown_gauge_message(rs[i].gauge_type)),
        ),
    decreases rs.len(),
{
    let init = rs.drop_last();
    if i < rs.len() - 1 {
        assert forall|j: int| 0 <= j < i implies #[trigger] gauge_type_of(init[j].gauge_type) is Some by {
            assert(init[j] == rs[j]);
        }
        assert(init[i] == rs[i]);
        law_gauges_first_error(init, i);
    } else {
        law_gauges_ok_iff_known(init);
        assert forall|j: int| 0 <= j < init.len() implies #[trigger] gauge_type_of(init[j].gauge_type) is Some by {
            assert(init[j] == rs[j]);
        }
    }
}

/// Converts serialized gauges in order, stopping at the first that fails.
pub fn gauges_from_raw(rs: Vec<RawGauge>) -> (r: Result<Vec<Gauge>, Event>)
    ensures
        match r {
            Ok(gs) => gauges_of(raw_gauge_views(rs@)) == Ok::<Seq<GaugeView>, EventView>(gauge_views(gs@)),
            Err(e) => gauges_of(raw_gauge_views(rs@)) == Err::<Seq<GaugeView>, EventView>(e@),
        },
{
    let ghost all = raw_gauge_views(rs@);
    let mut rest = rs;
    let mut out: Vec<Gauge> = Vec::new();
    let ghost mut i: int = 0;
    proof {
        assert(all.take(0) =~= Seq::<RawGaugeView>::empty());
        assert(gauge_views(out@) =~= Seq::<GaugeView>::empty());
        assert(all.skip(0) =~= all);
    }
    while rest.len() > 0
        invariant
            0 <= i <= all.len(),
            all == raw_gauge_views(rs@),
            raw_gauge_views(rest@) == all.skip(i),
            gauges_of(all.take(i)) == Ok::<Seq<GaugeView>, EventView>(gauge_views(out@)),
        decreases rest@.len(),
    {
        let ghost before_rest = rest@;
        let raw = rest.remove(0);
        proof {
            lemma_take_first(before_rest, rest@, |r: RawGauge| r@, all, i);
            assert(all.take(i + 1).drop_last() =~= all.take(i));
            assert(all.take(i + 1).last() == raw@);
        }
        match Gauge::from_raw(raw) {
            Ok(g) => {
                let ghost before = out@;
                out.push(g);
                proof {
                    lemma_map_push(before, out@.last(), |g: Gauge| g@);
                }
            },
            Err(e) => {
                proof {
                    assert(gauge_of(raw@) == Err::<GaugeView, EventView>(e@));
                    assert(gauges_of(all.take(i + 1)) == Err::<Seq<GaugeView>, EventView>(e@));
                    lemma_gauges_of_prefix_error(all, i + 1);
                }
                return Err(e);
            },
        }
        proof {
            i = i + 1;
        }
    }
    proof {
        assert(all.take(i) =~= all);
    }
    Ok(out)
}

/// Once a prefix fails, every longer prefix fails with the same error.
proof fn lemma_gauges_of_prefix_error(rs: Seq<RawGaugeView>, i: int)
    requires
        0 <= i <= rs.len(),
        gauges_of(rs.take(i)) is Err,
    ensures
        gauges_of(rs) == gauges_of(rs.take(i)),
    decreases rs.len() - i,
{
    if i < rs.len() {
        assert(rs.take(i + 1).drop_last() =~= rs.take(i));
        lemma_gauges_of_prefix_error(rs, i + 1);
    } else {
        assert(rs.take(i) =~= rs);
    }
}

impl TryFrom<RawGauge> for Gauge {
    type Error = Event;

    fn try_from(r: RawGauge) -> (g: Result<Self, Self::Error>)
        ensures
            outcome(g) == gauge_of(r@),
    {
        Gauge::from_raw(r)
    }
}

/// The conversion's contract stands in the `ensures` of its `try_from` above, for the
/// reason given at the conversion of `GaugeType`.
impl vstd::std_specs::convert::TryFromSpecImpl<RawGauge> for Gauge {
    open spec fn obeys_try_from_spec() -> bool {
        false
    }

    open spec fn try_from_spec(r: RawGauge) -> Result<Self, Event> {
        arbitrary()
    }
}

} // verus!
