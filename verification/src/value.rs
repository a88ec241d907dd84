//! The two value algebras: the source tree, as the TOML parser produces it,
//! and the tagged tree that the converter builds from it, together with their
//! mathematical models and the well-formedness condition the parser
//! guarantees.

use vstd::prelude::*;

verus! {

/// Calendar-date component of a datetime value.
#[derive(Clone, Copy, Debug, PartialEq, Eq)]
pub struct Date {
    /// Year, four digits in the textual form.
    pub year: u16,
    /// Month, 1 to 12.
    pub month: u8,
    /// Day of the month, 1 to 31.
    pub day: u8,
}

/// Time-of-day component of a datetime value. The seconds and the
/// fractional part are independently optional, as they are in TOML.
#[derive(Clone, Copy, Debug, PartialEq, Eq)]
pub struct Time {
    /// Hour, 0 to 23.
    pub hour: u8,
    /// Minute, 0 to 59.
    pub minute: u8,
    /// Second, 0 to 60, absent when the source omitted it.
    pub second: Option<u8>,
    /// Nanosecond, 0 to 999 999 999, absent when the source had no
    /// fractional part.
    pub nanosecond: Option<u32>,
}

/// Timezone-offset component of a datetime value.
#[derive(Clone, Copy, Debug, PartialEq, Eq)]
pub enum Offset {
    /// The `Z` suffix: UTC.
    Z,
    /// An explicit offset from UTC, in minutes.
    Custom {
        /// Offset in minutes, between -1440 and 1440 exclusive.
        minutes: i16,
    },
}

/// A datetime value: three independently optional components. The parser
/// guarantees that at least one of date and time is present.
#[derive(Clone, Copy, Debug, PartialEq, Eq)]
pub struct Datetime {
    /// The calendar date, absent for a bare time of day.
    pub date: Option<Date>,
    /// The time of day, absent for a bare calendar date.
    pub time: Option<Time>,
    /// The offset from UTC, present only for fully qualified timestamps.
    pub offset: Option<Offset>,
}

/// One node of the source value tree, as the TOML parser produces it.
///
/// A float is carried as the host's textual rendering of the 64-bit value,
/// since that rendering is all the conversion reads of it.
#[derive(Debug, PartialEq)]
pub enum SourceValue {
    /// A TOML string.
    Str(String),
    /// A TOML integer.
    Integer(i64),
    /// A TOML float, as the textual rendering of the 64-bit value.
    Float(String),
    /// A TOML boolean.
    Boolean(bool),
    /// A TOML datetime.
    Datetime(Datetime),
    /// A TOML array, order preserved.
    Array(Vec<SourceValue>),
    /// A TOML table: keys unique, insertion order preserved.
    Table(Vec<(String, SourceValue)>),
}

/// The type tag carried by every scalar leaf of the tagged tree: the closed
/// set of tags the conformance format knows.
#[derive(Clone, Copy, Debug, PartialEq, Eq, Structural)]
pub enum Tag {
    /// Tagged `string`.
    Str,
    /// Tagged `integer`.
    Integer,
    /// Tagged `float`.
    Float,
    /// Tagged `bool`.
    Bool,
    /// Tagged `time-local`: a bare time of day.
    TimeLocal,
    /// Tagged `date-local`: a bare calendar date.
    DateLocal,
    /// Tagged `datetime-local`: date and time with no UTC offset.
    DatetimeLocal,
    /// Tagged `datetime`: a fully qualified, offset-aware timestamp.
    Datetime,
}

/// One node of the tagged output tree.
#[derive(Debug, PartialEq)]
pub enum TaggedValue {
    /// A leaf: a type tag and the string-encoded value.
    Scalar(Tag, String),
    /// An array, order preserved from the source.
    Array(Vec<TaggedValue>),
    /// An object: keys unique, order preserved from the source table.
    Object(Vec<(String, TaggedValue)>),
}

/// Mathematical model of one source node: text as character sequences,
/// integers unbounded, children as sequences.
#[verifier::ext_equal]
pub enum SourceModel {
    /// Model of `SourceValue::Str`.
    Str(Seq<char>),
    /// Model of `SourceValue::Integer`.
    Integer(int),
    /// Model of `SourceValue::Float`: the rendered text.
    Float(Seq<char>),
    /// Model of `SourceValue::Boolean`.
    Boolean(bool),
    /// Model of `SourceValue::Datetime`.
    Datetime(Datetime),
    /// Model of `SourceValue::Array`.
    Array(Seq<SourceModel>),
    /// Model of `SourceValue::Table`.
    Table(Seq<(Seq<char>, SourceModel)>),
}

/// Mathematical model of one tagged node.
#[verifier::ext_equal]
pub enum TaggedModel {
    /// Model of `TaggedValue::Scalar`.
    Scalar(Tag, Seq<char>),
    /// Model of `TaggedValue::Array`.
    Array(Seq<TaggedModel>),
    /// Model of `TaggedValue::Object`.
    Object(Seq<(Seq<char>, TaggedModel)>),
}

/// The model of a source node.
pub open spec fn source_view(v: SourceValue) -> SourceModel
    decreases v,
{
    match v {
        SourceValue::Str(s) => SourceModel::Str(s@),
        SourceValue::Integer(i) => SourceModel::Integer(i as int),
        SourceValue::Float(s) => SourceModel::Float(s@),
        SourceValue::Boolean(b) => SourceModel::Boolean(b),
        SourceValue::Datetime(d) => SourceModel::Datetime(d),
        SourceValue::Array(items) => SourceModel::Array(
            // The range guard is only there to let the recursive call pass
            // the termination check; `Seq::new` never applies the closure
            // out of range.
            Seq::new(
                items@.len(),
                |i: int|
                    if 0 <= i < items@.len() {
                        source_view(items@[i])
                    } else {
                        SourceModel::Boolean(false)
                    },
            ),
        ),
        SourceValue::Table(entries) => SourceModel::Table(
            Seq::new(
                entries@.len(),
                |i: int|
                    if 0 <= i < entries@.len() {
                        (entries@[i].0@, source_view(entries@[i].1))
                    } else {
                        (Seq::empty(), SourceModel::Boolean(false))
                    },
            ),
        ),
    }
}

/// The model of a tagged node.
pub open spec fn tagged_view(v: TaggedValue) -> TaggedModel
    decreases v,
{
    match v {
        TaggedValue::Scalar(tag, s) => TaggedModel::Scalar(tag, s@),
        TaggedValue::Array(items) => TaggedModel::Array(
            Seq::new(
                items@.len(),
                |i: int|
                    if 0 <= i < items@.len() {
                        tagged_view(items@[i])
                    } else {
                        TaggedModel::Array(Seq::empty())
                    },
            ),
        ),
        TaggedValue::Object(entries) => TaggedModel::Object(
            Seq::new(
                entries@.len(),
                |i: int|
                    if 0 <= i < entries@.len() {
                        (entries@[i].0@, tagged_view(entries@[i].1))
                    } else {
                        (Seq::empty(), TaggedModel::Array(Seq::empty()))
                    },
            ),
        ),
    }
}

/// Well-formedness of a source tree, as the parser guarantees it: every
/// datetime has at least one of date and time, and every table's keys are
/// unique. The converter assumes this and does not re-validate it.
pub open spec fn src_wf(m: SourceModel) -> bool
    decreases m,
{
    match m {
        SourceModel::Datetime(d) => d.date is Some || d.time is Some,
        SourceModel::Array(items) => forall|i: int|
            0 <= i < items.len() ==> src_wf(#[trigger] items[i]),
        SourceModel::Table(entries) => {
            &&& forall|i: int, j: int|
                0 <= i < j < entries.len() ==> (#[trigger] entries[i].0) != (#[trigger] entries[j].0)
            &&& forall|i: int| 0 <= i < entries.len() ==> src_wf(#[trigger] entries[i].1)
        },
        _ => true,
    }
}

/// Well-formedness of a tagged tree: every object's keys are unique, at
/// every depth.
pub open spec fn tagged_wf(m: TaggedModel) -> bool
    decreases m,
{
    match m {
        TaggedModel::Array(items) => forall|i: int|
            0 <= i < items.len() ==> tagged_wf(#[trigger] items[i]),
        TaggedModel::Object(entries) => {
            &&& forall|i: int, j: int|
                0 <= i < j < entries.len() ==> (#[trigger] entries[i].0) != (#[trigger] entries[j].0)
            &&& forall|i: int| 0 <= i < entries.len() ==> tagged_wf(#[trigger] entries[i].1)
        },
        _ => true,
    }
}

} // verus!
