//! List of events
use vstd::prelude::*;

verus! {

/// List of events(errors).
#[derive(Debug)]
pub enum Event {
    InvalidConfig(String),
    InvalidGauge(String),
    LabelValueNotFound(String),
}

/// What an `Event` says, as plain text.
pub enum EventView {
    InvalidConfig(Seq<char>),
    InvalidGauge(Seq<char>),
    LabelValueNotFound(Seq<char>),
}

impl View for Event {
    type V = EventView;

    open spec fn view(&self) -> EventView {
        match self {
            Event::InvalidConfig(s) => EventView::InvalidConfig(s@),
            Event::InvalidGauge(s) => EventView::InvalidGauge(s@),
            Event::LabelValueNotFound(s) => EventView::LabelValueNotFound(s@),
        }
    }
}

/// A result with both sides read through their views.
pub open spec fn outcome<T: View, E: View>(r: Result<T, E>) -> Result<T::V, E::V> {
    match r {
        Ok(x) => Ok(x@),
        Err(e) => Err(e@),
    }
}

} // verus!
