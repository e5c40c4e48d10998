//! The settings of a NetworkManager connection: sections of keyed values.

use crate::assoc::AssocMap;
use vstd::prelude::*;

verus! {

/// A value of one of the plain types that a setting can have.
#[derive(Clone, Debug, PartialEq, Eq)]
pub enum Value {
    U32(u32),
    Bool(bool),
    Str(String),
    StrList(Vec<String>),
}

/// What a [`Value`] holds.
pub enum ValueView {
    U32(u32),
    Bool(bool),
    Str(Seq<char>),
    StrList(Seq<Seq<char>>),
}

/// The characters of each string.
pub open spec fn texts(v: Seq<String>) -> Seq<Seq<char>> {
    Seq::new(v.len(), |i: int| v[i]@)
}

impl View for Value {
    type V = ValueView;

    open spec fn view(&self) -> ValueView {
        match self {
            Value::U32(n) => ValueView::U32(*n),
            Value::Bool(b) => ValueView::Bool(*b),
            Value::Str(s) => ValueView::Str(s@),
            Value::StrList(v) => ValueView::StrList(texts(v@)),
        }
    }
}

/// Plain values by key: one peer, or one address.
pub type Record = AssocMap<String, Value>;

/// A setting: a plain value or a list of records.
#[derive(Debug)]
pub enum Variant {
    Value(Value),
    Records(Vec<Record>),
}

/// What a [`Variant`] holds.
pub enum VariantView {
    Value(ValueView),
    Records(Seq<Map<Seq<char>, ValueView>>),
}

/// What each record holds.
pub open spec fn record_views(v: Seq<Record>) -> Seq<Map<Seq<char>, ValueView>> {
    Seq::new(v.len(), |i: int| v[i]@)
}

impl View for Variant {
    type V = VariantView;

    open spec fn view(&self) -> VariantView {
        match self {
            Variant::Value(v) => VariantView::Value(v@),
            Variant::Records(v) => VariantView::Records(record_views(v@)),
        }
    }
}

/// One section of the settings.
pub type VariantMap = AssocMap<String, Variant>;

/// The settings of a connection, by section.
pub type DeviceConfig = AssocMap<String, VariantMap>;

/// What the settings of a connection hold.
pub type DeviceConfigView = Map<Seq<char>, Map<Seq<char>, VariantView>>;

} // verus!
