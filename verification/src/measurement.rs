//! The measurements of the `influent` crate, as far as the bridge builds them.
//!
//! A [`Measurement`] is opaque to the verifier. Its contents are named by
//! [`measurement_view`], and the four functions below are the only places
//! where the bridge touches one.

use influent::measurement::{Measurement, Value};
use vstd::prelude::*;

verus! {

/// `influent::measurement::Measurement`, taken as it is.
#[verifier::external_type_specification]
#[verifier::external_body]
pub struct ExMeasurement<'a>(Measurement<'a>);

/// What one field of a measurement holds.
pub enum FieldView {
    Text(Seq<char>),
    Float,
    Integer(int),
    Boolean(bool),
}

/// A measurement as a mathematical value: its key, its timestamp if one was
/// set, and its fields and tags by name.
pub struct PointView {
    pub key: Seq<char>,
    pub timestamp: Option<int>,
    pub fields: Map<Seq<char>, FieldView>,
    pub tags: Map<Seq<char>, Seq<char>>,
}

/// The contents of a measurement: what its four public fields hold.
pub uninterp spec fn measurement_view(m: Measurement) -> PointView;

/// The contents of each measurement of a batch, in order.
pub open spec fn batch_view(batch: Seq<Measurement>) -> Seq<PointView> {
    Seq::new(batch.len(), |i: int| measurement_view(batch[i]))
}

/// `Measurement::new`: a measurement with the given key, no timestamp, no
/// field and no tag.
#[verifier::external_body]
pub(crate) fn new_measurement<'a>(key: &'a str) -> (m: Measurement<'a>)
    ensures
        measurement_view(m) == (PointView {
            key: key@,
            timestamp: None,
            fields: Map::empty(),
            tags: Map::empty(),
        }),
{
    Measurement::new(key)
}

/// `Measurement::add_tag`: the tag is inserted under its name, replacing a
/// tag of that name; nothing else changes.
#[verifier::external_body]
pub(crate) fn add_tag<'a>(m: &mut Measurement<'a>, tag: &'a str, value: &'a str)
    ensures
        measurement_view(*final(m)) == (PointView {
            tags: measurement_view(*old(m)).tags.insert(tag@, value@),
            ..measurement_view(*old(m))
        }),
{
    m.add_tag(tag, value);
}

/// `Measurement::add_field` with `Value::Integer`: the integer is inserted
/// under the field's name, replacing a field of that name; nothing else
/// changes.
#[verifier::external_body]
pub(crate) fn add_integer_field<'a>(m: &mut Measurement<'a>, field: &'a str, value: i64)
    ensures
        measurement_view(*final(m)) == (PointView {
            fields: measurement_view(*old(m)).fields.insert(
                field@,
                FieldView::Integer(value as int),
            ),
            ..measurement_view(*old(m))
        }),
{
    m.add_field(field, Value::Integer(value));
}

/// `Measurement::set_timestamp`: the timestamp is set; nothing else changes.
#[verifier::external_body]
pub(crate) fn set_timestamp<'a>(m: &mut Measurement<'a>, timestamp: i64)
    ensures
        measurement_view(*final(m)) == (PointView {
            timestamp: Some(timestamp as int),
            ..measurement_view(*old(m))
        }),
{
    m.set_timestamp(timestamp);
}

} // verus!
