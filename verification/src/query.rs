//! Metrics config collection (Single/Multi).
use vstd::prelude::*;
use crate::multi::{RawMulti, RawMultiView};
use crate::single::{RawSingle, RawSingleView};

verus! {

/// The views of serialized `Single`s that may be absent.
pub open spec fn optional_raw_singles(o: Option<Vec<RawSingle>>) -> Option<Seq<RawSingleView>> {
    match o {
        Some(v) => Some(v@.map_values(|r: RawSingle| r@)),
        None => None,
    }
}

/// The views of serialized `Multi`s that may be absent.
pub open spec fn optional_raw_multis(o: Option<Vec<RawMulti>>) -> Option<Seq<RawMultiView>> {
    match o {
        Some(v) => Some(v@.map_values(|r: RawMulti| r@)),
        None => None,
    }
}

/// Metrics config collection(Single/Multi).
pub struct CustomQuery {
    multi: Option<Vec<RawMulti>>,
    single: Option<Vec<RawSingle>>,
}

/// The serialized `Multi`s and `Single`s of a config, each list possibly absent.
pub struct CustomQueryView {
    pub multi: Option<Seq<RawMultiView>>,
    pub single: Option<Seq<RawSingleView>>,
}

impl View for CustomQuery {
    type V = CustomQueryView;

    closed spec fn view(&self) -> CustomQueryView {
        CustomQueryView {
            multi: optional_raw_multis(self.multi),
            single: optional_raw_singles(self.single),
        }
    }
}

impl CustomQuery {
    /// Creates a config from its lists.
    pub fn new(multi: Option<Vec<RawMulti>>, single: Option<Vec<RawSingle>>) -> (q: Self)
        ensures
            q@ == (CustomQueryView {
                multi: optional_raw_multis(multi),
                single: optional_raw_singles(single),
            }),
    {
        CustomQuery { multi, single }
    }

    /// Takes `RawSingle` collection.
    pub fn take_single(&mut self) -> (r: Option<Vec<RawSingle>>)
        ensures
            optional_raw_singles(r) == old(self)@.single,
            final(self)@ == (CustomQueryView { single: None, ..old(self)@ }),
    {
        self.single.take()
    }

    /// Takes `RawMulti` collection.
    pub fn take_multi(&mut self) -> (r: Option<Vec<RawMulti>>)
        ensures
            optional_raw_multis(r) == old(self)@.multi,
            final(self)@ == (CustomQueryView { multi: None, ..old(self)@ }),
    {
        self.multi.take()
    }
}

} // verus!
