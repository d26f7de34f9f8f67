//! Metrics label
use vstd::prelude::*;
use opentelemetry::{KeyValue, Value};
use crate::evt::{Event, EventView};
use crate::otel::{clone_value, key_value, otel_key_value};
use crate::table::Table;

verus! {

/// Metrics label config info.
pub struct Label {
    name: String,
    description: String,
}

/// A label's name and description.
pub struct LabelView {
    pub name: Seq<char>,
    pub description: Seq<char>,
}

impl View for Label {
    type V = LabelView;

    closed spec fn view(&self) -> LabelView {
        LabelView { name: self.name@, description: self.description@ }
    }
}

/// The message of the event for a label whose value the row lacks.
pub open spec fn label_missing_message(name: Seq<char>) -> Seq<char> {
    "Value for label missing: "@ + name
}

/// The attribute of a label under a row's map, if the map holds a value for it.
pub open spec fn attribute_of(l: LabelView, m: Map<Seq<char>, Value>) -> Option<KeyValue> {
    if m.contains_key(l.name) {
        Some(otel_key_value(l.name, m[l.name]))
    } else {
        None
    }
}

/// The attributes of labels under a row's map, in label order; labels without a value
/// are left out.
pub open spec fn attributes_of(ls: Seq<LabelView>, m: Map<Seq<char>, Value>) -> Seq<KeyValue> {
    ls.filter_map(|l: LabelView| attribute_of(l, m))
}

/// No labels give no attributes; a label added at the end adds its attribute at the end
/// when the row holds its value, and nothing otherwise, whatever came before.
pub proof fn law_attributes_push(ls: Seq<LabelView>, l: LabelView, m: Map<Seq<char>, Value>)
    ensures
        attributes_of(Seq::<LabelView>::empty(), m) == Seq::<KeyValue>::empty(),
        m.contains_key(l.name) ==> attributes_of(ls.push(l), m) == attributes_of(ls, m).push(
            otel_key_value(l.name, m[l.name]),
        ),
        !m.contains_key(l.name) ==> attributes_of(ls.push(l), m) == attributes_of(ls, m),
{
    let f = |x: LabelView| attribute_of(x, m);
    assert(ls.push(l).drop_last() =~= ls);
    assert(ls.push(l).last() == l);
    assert(ls.push(l).filter_map(f) =~= (match f(l) {
        Some(kv) => ls.filter_map(f) + seq![kv],
        None => ls.filter_map(f),
    }));
    if m.contains_key(l.name) {
        assert(ls.filter_map(f) + seq![otel_key_value(l.name, m[l.name])] =~= ls.filter_map(f).push(
            otel_key_value(l.name, m[l.name]),
        ));
    }
}

/// An attribute is among those of the labels exactly when it is the attribute of a
/// label whose value the row holds: the label's name with that value.
pub proof fn law_attributes_members(ls: Seq<LabelView>, m: Map<Seq<char>, Value>, kv: KeyValue)
    ensures
        attributes_of(ls, m).contains(kv) <==> exists|j: int|
            0 <= j < ls.len() && m.contains_key(#[trigger] ls[j].name) && kv == otel_key_value(ls[j].name, m[ls[j].name]),
    decreases ls.len(),
{
    if ls.len() > 0 {
        let init = ls.drop_last();
        let l = ls.last();
        law_attributes_members(init, m, kv);
        law_attributes_push(init, l, m);
        assert(init.push(l) =~= ls);
        let a = attributes_of(init, m);
        if attributes_of(ls, m).contains(kv) {
            if a.contains(kv) {
                let j = choose|j: int|
                    0 <= j < init.len() && m.contains_key(#[trigger] init[j].name) && kv == otel_key_value(init[j].name, m[init[j].name]);
                assert(ls[j] == init[j]);
            } else {
                let k = choose|k: int| 0 <= k < attributes_of(ls, m).len() && attributes_of(ls, m)[k] == kv;
                if m.contains_key(l.name) {
                    if k < a.len() {
                        assert(a[k] == kv);
                    }
                    assert(ls[ls.len() - 1] == l);
                } else {
                    assert(a[k] == kv);
                }
            }
        }
        if exists|j: int|
            0 <= j < ls.len() && m.contains_key(#[trigger] ls[j].name) && kv == otel_key_value(ls[j].name, m[ls[j].name]) {
            let j = choose|j: int|
                0 <= j < ls.len() && m.contains_key(#[trigger] ls[j].name) && kv == otel_key_value(ls[j].name, m[ls[j].name]);
            if j < ls.len() - 1 {
                assert(init[j] == ls[j]);
                let k = choose|k: int| 0 <= k < a.len() && a[k] == kv;
                if m.contains_key(l.name) {
                    assert(attributes_of(ls, m)[k] == kv);
                } else {
                    assert(attributes_of(ls, m)[k] == kv);
                }
            } else {
                assert(attributes_of(ls, m)[a.len() as int] == kv);
            }
        }
    }
}

/// When the row holds a value for every label, each label gives its attribute, in order.
pub proof fn law_attributes_all_present(ls: Seq<LabelView>, m: Map<Seq<char>, Value>)
    requires
        forall|i: int| 0 <= i < ls.len() ==> m.contains_key(#[trigger] ls[i].name),
    ensures
        attributes_of(ls, m).len() == ls.len(),
        forall|i: int| 0 <= i < ls.len() ==> #[trigger] attributes_of(ls, m)[i] == otel_key_value(ls[i].name, m[ls[i].name]),
    decreases ls.len(),
{
    if ls.len() > 0 {
        let init = ls.drop_last();
        assert forall|i: int| 0 <= i < init.len() implies m.contains_key(#[trigger] init[i].name) by {
            assert(init[i] == ls[i]);
        }
        law_attributes_all_present(init, m);
        assert(m.contains_key(ls[ls.len() - 1].name));
        assert forall|i: int| 0 <= i < ls.len() implies #[trigger] attributes_of(ls, m)[i] == otel_key_value(ls[i].name, m[ls[i].name]) by {
            if i < ls.len() - 1 {
                assert(init[i] == ls[i]);
                assert(attributes_of(ls, m)[i] == attributes_of(init, m)[i]);
            }
        }
    }
}

/// When the row holds a value for no label, there are no attributes.
pub proof fn law_attributes_none_present(ls: Seq<LabelView>, m: Map<Seq<char>, Value>)
    requires
        forall|i: int| 0 <= i < ls.len() ==> !m.contains_key(#[trigger] ls[i].name),
    ensures
        attributes_of(ls, m) == Seq::<KeyValue>::empty(),
    decreases ls.len(),
{
    if ls.len() > 0 {
        let init = ls.drop_last();
        assert forall|i: int| 0 <= i < init.len() implies !m.contains_key(#[trigger] init[i].name) by {
            assert(init[i] == ls[i]);
        }
        law_attributes_none_present(init, m);
        assert(!m.contains_key(ls[ls.len() - 1].name));
    }
}

/// The views of a list of labels.
pub open spec fn label_views(ls: Seq<Label>) -> Seq<LabelView> {
    ls.map_values(|l: Label| l@)
}

impl Label {
    /// Creates a label.
    pub fn new(name: String, description: String) -> (l: Self)
        ensures
            l@ == (LabelView { name: name@, description: description@ }),
    {
        Label { name, description }
    }

    /// Gets the name.
    pub fn as_name(&self) -> (r: &str)
        ensures
            r@ == self@.name,
    {
        self.name.as_str()
    }

    /// Gets the description.
    pub fn as_desc(&self) -> (r: &str)
        ensures
            r@ == self@.description,
    {
        self.description.as_str()
    }

    /// Converts to `KeyValue` if the map contains the label value.
    pub fn to_kv(&self, m: &Table<Value>) -> (r: Result<KeyValue, Event>)
        ensures
            match attribute_of(self@, m.view()) {
                Some(kv) => r matches Ok(x) && x == kv,
                None => r matches Err(e) && e@ == EventView::LabelValueNotFound(
                    label_missing_message(self@.name),
                ),
            },
    {
        match m.get(self.name.as_str()) {
            Some(v) => Ok(key_value(self.name.clone(), clone_value(v))),
            None => {
                let mut msg = String::from_str("Value for label missing: ");
                msg.append(self.name.as_str());
                Err(Event::LabelValueNotFound(msg))
            },
        }
    }

    /// Converts labels to `KeyValue`s.
    ///
    /// Labels without a value will be ignored.
    pub fn to_attrs(s: &[Self], m: &Table<Value>) -> (r: Vec<KeyValue>)
        ensures
            r@ == attributes_of(label_views(s@), m.view()),
    {
        let mut out: Vec<KeyValue> = Vec::new();
        let ghost ls = label_views(s@);
        let ghost f = |l: LabelView| attribute_of(l, m.view());
        for i in 0..s.len()
            invariant
                ls == label_views(s@),
                f == (|l: LabelView| attribute_of(l, m.view())),
                out@ == ls.take(i as int).filter_map(f),
        {
            proof {
                ls.lemma_filter_map_take_succ(f, i as int);
            }
            match s[i].to_kv(m) {
                Ok(kv) => out.push(kv),
                Err(_) => {},
            }
        }
        proof {
            assert(ls.take(s@.len() as int) =~= ls);
        }
        out
    }
}

} // verus!
