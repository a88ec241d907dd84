//! The tagged-value converter: the recursive map from one source node to
//! one tagged node, with the per-type tagging and string-encoding rules and
//! the four-way disambiguation of datetime values.

use vstd::prelude::*;

use crate::text::bool_chars;
use crate::text::bool_str;
use crate::text::datetime_chars;
use crate::text::datetime_string;
use crate::text::decimal_of;
use crate::text::integer_string;
use crate::text::lower_chars;
use crate::text::lowercase;
use crate::value::Datetime;
use crate::value::SourceModel;
use crate::value::SourceValue;
use crate::value::Tag;
use crate::value::TaggedModel;
use crate::value::TaggedValue;
use crate::value::source_view;
use crate::value::src_wf;
use crate::value::tagged_wf;
use crate::value::tagged_view;

verus! {

/// The tag of a datetime value, chosen in this priority order: no date
/// means a bare time of day; otherwise no time means a bare calendar date;
/// otherwise no offset means a local datetime; otherwise a fully qualified
/// timestamp.
pub open spec fn dt_tag(d: Datetime) -> Tag {
    if d.date is None {
        Tag::TimeLocal
    } else if d.time is None {
        Tag::DateLocal
    } else if d.offset is None {
        Tag::DatetimeLocal
    } else {
        Tag::Datetime
    }
}

/// What the converter returns for each source node: every scalar becomes a
/// tagged leaf with its string-encoded value, arrays and tables keep their
/// length and order and convert each child in place.
pub open spec fn spec_convert(m: SourceModel) -> TaggedModel
    decreases m,
{
    match m {
        SourceModel::Str(s) => TaggedModel::Scalar(Tag::Str, s),
        SourceModel::Integer(i) => TaggedModel::Scalar(Tag::Integer, decimal_of(i)),
        SourceModel::Float(s) => TaggedModel::Scalar(Tag::Float, lower_chars(s)),
        SourceModel::Boolean(b) => TaggedModel::Scalar(Tag::Bool, bool_chars(b)),
        SourceModel::Datetime(d) => TaggedModel::Scalar(dt_tag(d), datetime_chars(d)),
        SourceModel::Array(items) => TaggedModel::Array(
            // The range guard only serves the termination check; `Seq::new`
            // never applies the closure out of range.
            Seq::new(
                items.len(),
                |i: int|
                    if 0 <= i < items.len() {
                        spec_convert(items[i])
                    } else {
                        TaggedModel::Array(Seq::empty())
                    },
            ),
        ),
        SourceModel::Table(entries) => TaggedModel::Object(
            Seq::new(
                entries.len(),
                |i: int|
                    if 0 <= i < entries.len() {
                        (entries[i].0, spec_convert(entries[i].1))
                    } else {
                        (Seq::empty(), TaggedModel::Array(Seq::empty()))
                    },
            ),
        ),
    }
}

/// Law: a string converts to a scalar tagged `string` whose value is the
/// source text itself, character for character.
pub proof fn lemma_convert_string(s: Seq<char>)
    ensures
        spec_convert(SourceModel::Str(s)) == TaggedModel::Scalar(Tag::Str, s),
{
}

/// Law: an integer converts to a scalar tagged `integer` carrying its
/// signed decimal text: no leading zero except for the value zero itself,
/// and a leading `-` for negatives.
pub proof fn lemma_convert_integer(i: int)
    ensures
        spec_convert(SourceModel::Integer(i)) == TaggedModel::Scalar(Tag::Integer, decimal_of(i)),
        i == 0 ==> decimal_of(i) =~= seq!['0'],
        i > 0 ==> decimal_of(i).len() >= 1 && decimal_of(i)[0] != '0',
        i < 0 ==> decimal_of(i).len() >= 2 && decimal_of(i)[0] == '-' && decimal_of(i)[1] != '0',
{
    crate::text::lemma_decimal_form(i);
}

/// Law: a boolean converts to a scalar tagged `bool` whose value is the
/// literal lowercase word `true` or `false`.
pub proof fn lemma_convert_boolean()
    ensures
        spec_convert(SourceModel::Boolean(true)) == TaggedModel::Scalar(
            Tag::Bool,
            seq!['t', 'r', 'u', 'e'],
        ),
        spec_convert(SourceModel::Boolean(false)) == TaggedModel::Scalar(
            Tag::Bool,
            seq!['f', 'a', 'l', 's', 'e'],
        ),
{
}

/// Law: a float converts to a scalar tagged `float` carrying the
/// lower-cased rendering: the length is kept, each character is the
/// lower-case form of the original, and no ASCII upper-case letter
/// remains in the value text.
pub proof fn lemma_convert_float(s: Seq<char>)
    ensures
        spec_convert(SourceModel::Float(s)) == TaggedModel::Scalar(Tag::Float, lower_chars(s)),
        lower_chars(s).len() == s.len(),
        forall|i: int|
            0 <= i < s.len() ==> #[trigger] lower_chars(s)[i] == crate::text::lower_char(s[i]),
        forall|i: int| 0 <= i < s.len() ==> !('A' <= #[trigger] lower_chars(s)[i] <= 'Z'),
{
    assert forall|i: int| 0 <= i < s.len() implies !('A' <= #[trigger] lower_chars(s)[i]
        <= 'Z') by {
        assert(lower_chars(s)[i] == crate::text::lower_char(s[i]));
    }
}

/// Law: converting an array keeps its length and order and converts each
/// element in place, at any nesting depth.
pub proof fn lemma_convert_array(items: Seq<SourceModel>)
    ensures
        spec_convert(SourceModel::Array(items)) is Array,
        spec_convert(SourceModel::Array(items))->Array_0.len() == items.len(),
        forall|i: int|
            0 <= i < items.len() ==> spec_convert(SourceModel::Array(items))->Array_0[i]
                == spec_convert(#[trigger] items[i]),
{
}

/// Law: converting a table keeps the entry count, enumerates the keys in
/// the source order unchanged, and converts each value in place.
pub proof fn lemma_convert_table(entries: Seq<(Seq<char>, SourceModel)>)
    ensures
        spec_convert(SourceModel::Table(entries)) is Object,
        spec_convert(SourceModel::Table(entries))->Object_0.len() == entries.len(),
        forall|i: int|
            0 <= i < entries.len() ==> (#[trigger] spec_convert(
                SourceModel::Table(entries),
            )->Object_0[i]).0 == entries[i].0,
        forall|i: int|
            0 <= i < entries.len() ==> (#[trigger] spec_convert(
                SourceModel::Table(entries),
            )->Object_0[i]).1 == spec_convert(entries[i].1),
{
}

/// Law: a datetime converts to a scalar carrying its canonical text, and
/// its tag follows the priority-ordered classification: absent date means
/// `time-local`; otherwise absent time means `date-local`; otherwise
/// absent offset means `datetime-local`; otherwise `datetime`.
pub proof fn lemma_convert_datetime(d: Datetime)
    ensures
        spec_convert(SourceModel::Datetime(d)) == TaggedModel::Scalar(dt_tag(d), datetime_chars(d)),
        d.date is None ==> dt_tag(d) == Tag::TimeLocal,
        d.date is Some && d.time is None ==> dt_tag(d) == Tag::DateLocal,
        d.date is Some && d.time is Some && d.offset is None ==> dt_tag(d) == Tag::DatetimeLocal,
        d.date is Some && d.time is Some && d.offset is Some ==> dt_tag(d) == Tag::Datetime,
{
}

/// Law: converting a well-formed source tree yields a tagged tree that is
/// well formed in turn: every object keeps its keys unique, at every
/// depth.
pub proof fn lemma_convert_preserves_wf(m: SourceModel)
    requires
        src_wf(m),
    ensures
        tagged_wf(spec_convert(m)),
    decreases m,
{
    match m {
        SourceModel::Array(items) => {
            let c = spec_convert(m)->Array_0;
            assert forall|i: int| 0 <= i < c.len() implies tagged_wf(#[trigger] c[i]) by {
                lemma_convert_preserves_wf(items[i]);
                assert(c[i] == spec_convert(items[i]));
            }
        },
        SourceModel::Table(entries) => {
            let c = spec_convert(m)->Object_0;
            assert forall|p: int, q: int| 0 <= p < q < c.len() implies (#[trigger] c[p].0) != (
            #[trigger] c[q].0) by {
                assert(c[p].0 == entries[p].0);
                assert(c[q].0 == entries[q].0);
            }
            assert forall|i: int| 0 <= i < c.len() implies tagged_wf((#[trigger] c[i]).1) by {
                lemma_convert_preserves_wf(entries[i].1);
                assert(c[i].1 == spec_convert(entries[i].1));
            }
        },
        _ => {},
    }
}

/// Converts one node of the source tree, recursively.
fn convert_node(v: &SourceValue) -> (r: TaggedValue)
    ensures
        tagged_view(r) == spec_convert(source_view(*v)),
    decreases *v,
{
    match v {
        SourceValue::Str(s) => TaggedValue::Scalar(Tag::Str, s.clone()),
        SourceValue::Integer(i) => TaggedValue::Scalar(Tag::Integer, integer_string(*i)),
        SourceValue::Float(s) => TaggedValue::Scalar(Tag::Float, lowercase(s.as_str())),
        SourceValue::Boolean(b) => TaggedValue::Scalar(Tag::Bool, String::from_str(bool_str(*b))),
        SourceValue::Datetime(d) => {
            let tag = if d.date.is_none() {
                Tag::TimeLocal
            } else if d.time.is_none() {
                Tag::DateLocal
            } else if d.offset.is_none() {
                Tag::DatetimeLocal
            } else {
                Tag::Datetime
            };
            TaggedValue::Scalar(tag, datetime_string(d))
        },
        SourceValue::Array(items) => {
            let n = items.len();
            let mut out: Vec<TaggedValue> = Vec::new();
            let mut idx: usize = 0;
            while idx < n
                invariant
                    idx <= n,
                    n == items@.len(),
                    *v == SourceValue::Array(*items),
                    out@.len() == idx,
                    forall|j: int|
                        0 <= j < idx ==> tagged_view(#[trigger] out@[j]) == spec_convert(
                            source_view(items@[j]),
                        ),
                decreases n - idx,
            {
                proof {
                    assert(decreases_to!(*v => (*v)->Array_0));
                    assert((*v)->Array_0 == *items);
                    assert(decreases_to!(*items => items@[idx as int]));
                    assert(decreases_to!(*v => items@[idx as int]));
                }
                let child = convert_node(&items[idx]);
                out.push(child);
                idx = idx + 1;
            }
            let r = TaggedValue::Array(out);
            proof {
                let m = source_view(*v);
                let sv = m->Array_0;
                assert(sv.len() == items@.len());
                assert forall|i: int| 0 <= i < sv.len() implies sv[i] == source_view(
                    items@[i],
                ) by {}
                let c = spec_convert(m);
                let cv = c->Array_0;
                assert(cv.len() == sv.len());
                assert forall|i: int| 0 <= i < sv.len() implies cv[i] == spec_convert(sv[i]) by {}
                let t = tagged_view(r);
                let tv = t->Array_0;
                assert(tv.len() == out@.len());
                assert forall|i: int| 0 <= i < out@.len() implies tv[i] == tagged_view(
                    out@[i],
                ) by {}
                assert(tv =~= cv);
                assert(t == TaggedModel::Array(tv));
                assert(c == TaggedModel::Array(cv));
            }
            r
        },
        SourceValue::Table(entries) => {
            let n = entries.len();
            let mut out: Vec<(String, TaggedValue)> = Vec::new();
            let mut idx: usize = 0;
            while idx < n
                invariant
                    idx <= n,
                    n == entries@.len(),
                    *v == SourceValue::Table(*entries),
                    out@.len() == idx,
                    forall|j: int|
                        0 <= j < idx ==> (#[trigger] out@[j]).0@ == entries@[j].0@ && tagged_view(
                            out@[j].1,
                        ) == spec_convert(source_view(entries@[j].1)),
                decreases n - idx,
            {
                proof {
                    assert(decreases_to!(*v => (*v)->Table_0));
                    assert((*v)->Table_0 == *entries);
                    assert(decreases_to!(*entries => entries@[idx as int]));
                    assert(decreases_to!(entries@[idx as int] => entries@[idx as int].1));
                    assert(decreases_to!(*v => entries@[idx as int].1));
                }
                let key = entries[idx].0.clone();
                let child = convert_node(&entries[idx].1);
                out.push((key, child));
                idx = idx + 1;
            }
            let r = TaggedValue::Object(out);
            proof {
                let m = source_view(*v);
                let sv = m->Table_0;
                assert(sv.len() == entries@.len());
                assert forall|i: int| 0 <= i < sv.len() implies sv[i] == (
                    entries@[i].0@,
                    source_view(entries@[i].1),
                ) by {}
                let c = spec_convert(m);
                let cv = c->Object_0;
                assert(cv.len() == sv.len());
                assert forall|i: int| 0 <= i < sv.len() implies cv[i] == (
                    sv[i].0,
                    spec_convert(sv[i].1),
                ) by {}
                let t = tagged_view(r);
                let tv = t->Object_0;
                assert(tv.len() == out@.len());
                assert forall|i: int| 0 <= i < out@.len() implies tv[i] == (
                    out@[i].0@,
                    tagged_view(out@[i].1),
                ) by {}
                assert(tv =~= cv);
                assert(t == TaggedModel::Object(tv));
                assert(c == TaggedModel::Object(cv));
            }
            r
        },
    }
}

/// Converts a source value tree into its tagged form. Total over every
/// well-formed tree: the parser guarantees the well-formedness, and the
/// conversion never fails.
pub fn convert(source: SourceValue) -> (r: TaggedValue)
    requires
        src_wf(source_view(source)),
    ensures
        tagged_view(r) == spec_convert(source_view(source)),
{
    convert_node(&source)
}

/// Decides well-formedness of a source tree, so that an unverified caller
/// can check the converter's precondition before calling it.
pub fn well_formed(v: &SourceValue) -> (b: bool)
    ensures
        b == src_wf(source_view(*v)),
    decreases *v,
{
    match v {
        SourceValue::Datetime(d) => d.date.is_some() || d.time.is_some(),
        SourceValue::Array(items) => {
            let n = items.len();
            let mut idx: usize = 0;
            while idx < n
                invariant
                    idx <= n,
                    n == items@.len(),
                    *v == SourceValue::Array(*items),
                    forall|j: int| 0 <= j < idx ==> src_wf(source_view(#[trigger] items@[j])),
                decreases n - idx,
            {
                proof {
                    assert(decreases_to!(*v => *items));
                    assert(decreases_to!(*items => items@[idx as int]));
                    assert(decreases_to!(*v => items@[idx as int]));
                }
                if !well_formed(&items[idx]) {
                    proof {
                        let sv = source_view(*v)->Array_0;
                        assert(sv[idx as int] == source_view(items@[idx as int]));
                        assert(!src_wf(source_view(*v)));
                    }
                    return false;
                }
                idx = idx + 1;
            }
            proof {
                let sv = source_view(*v)->Array_0;
                assert forall|i: int| 0 <= i < sv.len() implies src_wf(sv[i]) by {
                    assert(sv[i] == source_view(items@[i]));
                }
                assert(src_wf(source_view(*v)));
            }
            true
        },
        SourceValue::Table(entries) => {
            let n = entries.len();
            let mut idx: usize = 0;
            while idx < n
                invariant
                    idx <= n,
                    n == entries@.len(),
                    *v == SourceValue::Table(*entries),
                    forall|p: int, q: int|
                        0 <= p < q < idx ==> (#[trigger] entries@[p].0@) != (
                        #[trigger] entries@[q].0@),
                    forall|j: int| 0 <= j < idx ==> src_wf(source_view((#[trigger] entries@[j]).1)),
                decreases n - idx,
            {
                let mut prior: usize = 0;
                while prior < idx
                    invariant
                        prior <= idx,
                        idx < n,
                        n == entries@.len(),
                        *v == SourceValue::Table(*entries),
                        forall|p: int|
                            0 <= p < prior ==> (#[trigger] entries@[p].0@) != entries@[idx as int].0@,
                    decreases idx - prior,
                {
                    if entries[prior].0 == entries[idx].0 {
                        proof {
                            let sv = source_view(*v)->Table_0;
                            assert(sv[prior as int].0 == entries@[prior as int].0@);
                            assert(sv[idx as int].0 == entries@[idx as int].0@);
                            assert(!src_wf(source_view(*v)));
                        }
                        return false;
                    }
                    prior = prior + 1;
                }
                proof {
                    assert(decreases_to!(*v => *entries));
                    assert(decreases_to!(*entries => entries@[idx as int]));
                    assert(decreases_to!(entries@[idx as int] => entries@[idx as int].1));
                    assert(decreases_to!(*v => entries@[idx as int].1));
                }
                if !well_formed(&entries[idx].1) {
                    proof {
                        let sv = source_view(*v)->Table_0;
                        assert(sv[idx as int].1 == source_view(entries@[idx as int].1));
                        assert(!src_wf(source_view(*v)));
                    }
                    return false;
                }
                idx = idx + 1;
            }
            proof {
                let sv = source_view(*v)->Table_0;
                assert forall|p: int, q: int| 0 <= p < q < sv.len() implies sv[p].0 != sv[q].0 by {
                    assert(sv[p].0 == entries@[p].0@);
                    assert(sv[q].0 == entries@[q].0@);
                }
                assert forall|i: int| 0 <= i < sv.len() implies src_wf(sv[i].1) by {
                    assert(sv[i].1 == source_view(entries@[i].1));
                }
                assert(src_wf(source_view(*v)));
            }
            true
        },
        _ => true,
    }
}

} // verus!
