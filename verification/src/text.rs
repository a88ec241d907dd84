//! The string-encoding rules of the tagged format: decimal text of integers,
//! zero-padded fields and the canonical textual rendering of datetime
//! values, and the lower-casing applied to float renderings.

use vstd::prelude::*;

use crate::value::Date;
use crate::value::Datetime;
use crate::value::Offset;
use crate::value::Tag;
use crate::value::Time;

verus! {

/// The character for one decimal digit.
pub open spec fn digit_char(d: int) -> char {
    if d == 0 {
        '0'
    } else if d == 1 {
        '1'
    } else if d == 2 {
        '2'
    } else if d == 3 {
        '3'
    } else if d == 4 {
        '4'
    } else if d == 5 {
        '5'
    } else if d == 6 {
        '6'
    } else if d == 7 {
        '7'
    } else if d == 8 {
        '8'
    } else {
        '9'
    }
}

/// The decimal digits of `n`, zero-extended on the left to at least `w`
/// characters: what minimum-width zero-padded formatting of an unsigned
/// value produces.
pub open spec fn padded(n: nat, w: nat) -> Seq<char>
    decreases n, w,
{
    if n < 10 && w <= 1 {
        seq![digit_char(n as int)]
    } else {
        padded(n / 10, if w == 0 {
            0
        } else {
            (w - 1) as nat
        }) + seq![digit_char((n % 10) as int)]
    }
}

/// Signed decimal text of `i`: a leading `-` for negatives, no leading
/// zeros, no grouping.
pub open spec fn decimal_of(i: int) -> Seq<char> {
    if i < 0 {
        seq!['-'] + padded((-i) as nat, 1)
    } else {
        padded(i as nat, 1)
    }
}

/// The lower-case form of one character, for the ASCII range: letters `A`
/// to `Z` map to `a` to `z`, everything else stays itself.
pub open spec fn lower_char(c: char) -> char {
    if 65 <= c as u32 && c as u32 <= 90 {
        ((c as u32 + 32) as char)
    } else {
        c
    }
}

/// `s` with every ASCII upper-case letter replaced by its lower-case form.
pub open spec fn lower_chars(s: Seq<char>) -> Seq<char> {
    Seq::new(s.len(), |i: int| lower_char(s[i]))
}

/// The literal text of a boolean.
pub open spec fn bool_chars(b: bool) -> Seq<char> {
    if b {
        seq!['t', 'r', 'u', 'e']
    } else {
        seq!['f', 'a', 'l', 's', 'e']
    }
}

/// The text of the type tag, as the conformance format spells it.
pub open spec fn tag_chars(t: Tag) -> Seq<char> {
    match t {
        Tag::Str => seq!['s', 't', 'r', 'i', 'n', 'g'],
        Tag::Integer => seq!['i', 'n', 't', 'e', 'g', 'e', 'r'],
        Tag::Float => seq!['f', 'l', 'o', 'a', 't'],
        Tag::Bool => seq!['b', 'o', 'o', 'l'],
        Tag::TimeLocal => seq!['t', 'i', 'm', 'e', '-', 'l', 'o', 'c', 'a', 'l'],
        Tag::DateLocal => seq!['d', 'a', 't', 'e', '-', 'l', 'o', 'c', 'a', 'l'],
        Tag::DatetimeLocal => seq![
            'd',
            'a',
            't',
            'e',
            't',
            'i',
            'm',
            'e',
            '-',
            'l',
            'o',
            'c',
            'a',
            'l',
        ],
        Tag::Datetime => seq!['d', 'a', 't', 'e', 't', 'i', 'm', 'e'],
    }
}

/// The canonical text of a calendar date: year, month and day, zero-padded
/// to four and two digits, separated by `-`.
pub open spec fn date_chars(d: Date) -> Seq<char> {
    padded(d.year as nat, 4) + seq!['-'] + padded(d.month as nat, 2) + seq!['-'] + padded(
        d.day as nat,
        2,
    )
}

/// `s` without its trailing `0` characters.
pub open spec fn trim_zeros(s: Seq<char>) -> Seq<char>
    decreases s.len(),
{
    if s.len() > 0 && s.last() == '0' {
        trim_zeros(s.drop_last())
    } else {
        s
    }
}

/// The fractional-second text for a nanosecond count: the nine-digit
/// zero-padded form with trailing zeros removed, or `0` for zero itself.
pub open spec fn frac_chars(n: nat) -> Seq<char> {
    if n == 0 {
        seq!['0']
    } else {
        trim_zeros(padded(n, 9))
    }
}

/// The seconds field that the text shows: the second component, or zero
/// when only a fractional part was given.
pub open spec fn time_second(t: Time) -> nat {
    match t.second {
        Some(s) => s as nat,
        None => 0,
    }
}

/// The canonical text of a time of day: hour and minute always, a seconds
/// field when the source carried seconds or a fraction, and the fractional
/// part when the source carried one.
pub open spec fn time_chars(t: Time) -> Seq<char> {
    let base = padded(t.hour as nat, 2) + seq![':'] + padded(t.minute as nat, 2);
    let with_second = if t.second is Some || t.nanosecond is Some {
        base + seq![':'] + padded(time_second(t), 2)
    } else {
        base
    };
    match t.nanosecond {
        Some(n) => with_second + seq!['.'] + frac_chars(n as nat),
        None => with_second,
    }
}

/// The canonical text of a timezone offset: `Z`, or a sign followed by
/// zero-padded hours and minutes separated by `:`.
pub open spec fn offset_chars(o: Offset) -> Seq<char> {
    match o {
        Offset::Z => seq!['Z'],
        Offset::Custom { minutes } => {
            let a = if minutes < 0 {
                -(minutes as int)
            } else {
                minutes as int
            };
            (if minutes < 0 {
                seq!['-']
            } else {
                seq!['+']
            }) + padded((a / 60) as nat, 2) + seq![':'] + padded((a % 60) as nat, 2)
        },
    }
}

/// The canonical text of a datetime: the date if present, then the time if
/// present (preceded by `T` when both are there), then the offset if
/// present.
pub open spec fn datetime_chars(d: Datetime) -> Seq<char> {
    (match d.date {
        Some(date) => date_chars(date),
        None => Seq::<char>::empty(),
    }) + (match d.time {
        Some(time) => (if d.date is Some {
            seq!['T']
        } else {
            Seq::<char>::empty()
        }) + time_chars(time),
        None => Seq::<char>::empty(),
    }) + (match d.offset {
        Some(o) => offset_chars(o),
        None => Seq::<char>::empty(),
    })
}

/// Relies on `String::push`: appends the character to the end of the
/// string.
#[verifier::external_body]
fn push_char(s: &mut String, c: char)
    ensures
        final(s)@ == old(s)@ + seq![c],
{
    s.push(c)
}

/// Appends the character for one decimal digit.
fn push_digit(s: &mut String, d: u8)
    requires
        d < 10,
    ensures
        final(s)@ == old(s)@ + seq![digit_char(d as int)],
{
    let c: char = if d == 0 {
        '0'
    } else if d == 1 {
        '1'
    } else if d == 2 {
        '2'
    } else if d == 3 {
        '3'
    } else if d == 4 {
        '4'
    } else if d == 5 {
        '5'
    } else if d == 6 {
        '6'
    } else if d == 7 {
        '7'
    } else if d == 8 {
        '8'
    } else {
        '9'
    };
    push_char(s, c);
}

/// Appends the decimal digits of `n`, zero-extended on the left to at
/// least `w` characters.
fn push_padded(s: &mut String, n: u64, w: u64)
    ensures
        final(s)@ == old(s)@ + padded(n as nat, w as nat),
    decreases n, w,
{
    if n < 10 && w <= 1 {
        push_digit(s, n as u8);
    } else {
        push_padded(s, n / 10, if w == 0 {
            0
        } else {
            w - 1
        });
        push_digit(s, (n % 10) as u8);
        proof {
            assert(s@ =~= old(s)@ + padded(n as nat, w as nat));
        }
    }
}

/// Appends the signed decimal text of `i`.
fn push_decimal_i64(s: &mut String, i: i64)
    ensures
        final(s)@ == old(s)@ + decimal_of(i as int),
{
    if i < 0 {
        s.append("-");
        proof {
            reveal_strlit("-");
            assert("-"@ =~= seq!['-']);
        }
        let m: u64 = (-(i as i128)) as u64;
        push_padded(s, m, 1);
        proof {
            assert(s@ =~= old(s)@ + decimal_of(i as int));
        }
    } else {
        push_padded(s, i as u64, 1);
    }
}

/// The lower-cased copy of `s`, for the ASCII range.
pub fn lowercase(s: &str) -> (r: String)
    ensures
        r@ == lower_chars(s@),
{
    let n = s.unicode_len();
    let mut r = String::new();
    let mut i: usize = 0;
    while i < n
        invariant
            i <= n,
            n == s@.len(),
            r@.len() == i,
            forall|j: int| 0 <= j < i ==> r@[j] == lower_char(s@[j]),
        decreases n - i,
    {
        let c = s.get_char(i);
        let lc: char = if (c as u32) >= 65 && (c as u32) <= 90 {
            ((c as u8) + 32) as char
        } else {
            c
        };
        proof {
            assert(lc == lower_char(s@[i as int]));
        }
        push_char(&mut r, lc);
        i = i + 1;
    }
    proof {
        assert(r@ =~= lower_chars(s@));
    }
    r
}

/// The text of the type tag, as the conformance format spells it.
pub fn tag_str(t: &Tag) -> (r: &'static str)
    ensures
        r@ == tag_chars(*t),
{
    proof {
        reveal_strlit("string");
        reveal_strlit("integer");
        reveal_strlit("float");
        reveal_strlit("bool");
        reveal_strlit("time-local");
        reveal_strlit("date-local");
        reveal_strlit("datetime-local");
        reveal_strlit("datetime");
    }
    match t {
        Tag::Str => {
            proof {
                assert("string"@ =~= tag_chars(Tag::Str));
            }
            "string"
        },
        Tag::Integer => {
            proof {
                assert("integer"@ =~= tag_chars(Tag::Integer));
            }
            "integer"
        },
        Tag::Float => {
            proof {
                assert("float"@ =~= tag_chars(Tag::Float));
            }
            "float"
        },
        Tag::Bool => {
            proof {
                assert("bool"@ =~= tag_chars(Tag::Bool));
            }
            "bool"
        },
        Tag::TimeLocal => {
            proof {
                assert("time-local"@ =~= tag_chars(Tag::TimeLocal));
            }
            "time-local"
        },
        Tag::DateLocal => {
            proof {
                assert("date-local"@ =~= tag_chars(Tag::DateLocal));
            }
            "date-local"
        },
        Tag::DatetimeLocal => {
            proof {
                assert("datetime-local"@ =~= tag_chars(Tag::DatetimeLocal));
            }
            "datetime-local"
        },
        Tag::Datetime => {
            proof {
                assert("datetime"@ =~= tag_chars(Tag::Datetime));
            }
            "datetime"
        },
    }
}

/// An unpadded decimal text is never empty and never starts with `0`
/// unless the value is zero itself.
proof fn lemma_padded_no_leading_zero(n: nat, w: nat)
    requires
        n > 0,
        w <= 1,
    ensures
        padded(n, w).len() >= 1,
        padded(n, w)[0] != '0',
    decreases n,
{
    if n < 10 {
    } else {
        lemma_padded_no_leading_zero(n / 10, 0);
    }
}

/// The shape of decimal text: the value zero is the single digit `0`; a
/// positive value's text never starts with `0`; a negative value's text is
/// a `-` followed by a positive value's text, again with no leading zero.
pub proof fn lemma_decimal_form(i: int)
    ensures
        decimal_of(0) =~= seq!['0'],
        i > 0 ==> decimal_of(i).len() >= 1 && decimal_of(i)[0] != '0',
        i < 0 ==> decimal_of(i).len() >= 2 && decimal_of(i)[0] == '-' && decimal_of(i)[1] != '0',
{
    if i > 0 {
        lemma_padded_no_leading_zero(i as nat, 1);
    }
    if i < 0 {
        lemma_padded_no_leading_zero((-i) as nat, 1);
    }
}

/// Every character of a padded decimal field is an ASCII digit.
proof fn lemma_padded_ascii(n: nat, w: nat)
    ensures
        vstd::utf8::is_ascii_chars(padded(n, w)),
    decreases n, w,
{
    if n < 10 && w <= 1 {
    } else {
        lemma_padded_ascii(n / 10, if w == 0 {
            0
        } else {
            (w - 1) as nat
        });
    }
}

/// Appends the fractional-second text for a nanosecond count.
fn push_frac(s: &mut String, n: u32)
    ensures
        final(s)@ == old(s)@ + frac_chars(n as nat),
{
    if n == 0 {
        push_digit(s, 0);
        return ;
    }
    let mut t = String::new();
    push_padded(&mut t, n as u64, 9);
    proof {
        lemma_padded_ascii(n as nat, 9);
    }
    let len = t.as_str().unicode_len();
    let mut end: usize = len;
    proof {
        assert(t@.take(len as int) =~= t@);
    }
    while end > 0 && t.as_str().get_char(end - 1) == '0'
        invariant
            end <= len,
            len == t@.len(),
            t@ == padded(n as nat, 9),
            vstd::utf8::is_ascii_chars(t@),
            trim_zeros(t@.take(end as int)) == trim_zeros(t@),
        decreases end,
    {
        proof {
            assert(t@.take(end as int).last() == '0');
            assert(t@.take(end as int).drop_last() =~= t@.take(end - 1));
        }
        end = end - 1;
    }
    proof {
        if end > 0 {
            assert(t@.take(end as int).last() != '0');
        }
        assert(trim_zeros(t@.take(end as int)) == t@.take(end as int));
    }
    let part = t.as_str().substring_ascii(0, end);
    s.append(part);
    proof {
        assert(s@ =~= old(s)@ + frac_chars(n as nat));
    }
}

/// Appends the canonical text of a calendar date.
fn push_date(s: &mut String, d: &Date)
    ensures
        final(s)@ == old(s)@ + date_chars(*d),
{
    push_padded(s, d.year as u64, 4);
    push_char(s, '-');
    push_padded(s, d.month as u64, 2);
    push_char(s, '-');
    push_padded(s, d.day as u64, 2);
    proof {
        assert(s@ =~= old(s)@ + date_chars(*d));
    }
}

/// Appends the canonical text of a time of day.
fn push_time(s: &mut String, t: &Time)
    ensures
        final(s)@ == old(s)@ + time_chars(*t),
{
    push_padded(s, t.hour as u64, 2);
    push_char(s, ':');
    push_padded(s, t.minute as u64, 2);
    if t.second.is_some() || t.nanosecond.is_some() {
        push_char(s, ':');
        let sec: u8 = match t.second {
            Some(v) => v,
            None => 0,
        };
        push_padded(s, sec as u64, 2);
    }
    if let Some(n) = t.nanosecond {
        push_char(s, '.');
        push_frac(s, n);
    }
    proof {
        assert(s@ =~= old(s)@ + time_chars(*t));
    }
}

/// Appends the canonical text of a timezone offset.
fn push_offset(s: &mut String, o: &Offset)
    ensures
        final(s)@ == old(s)@ + offset_chars(*o),
{
    match o {
        Offset::Z => {
            push_char(s, 'Z');
        },
        Offset::Custom { minutes } => {
            let m: i32 = *minutes as i32;
            let a: i32 = if m < 0 {
                push_char(s, '-');
                -m
            } else {
                push_char(s, '+');
                m
            };
            push_padded(s, (a / 60) as u64, 2);
            push_char(s, ':');
            push_padded(s, (a % 60) as u64, 2);
        },
    }
    proof {
        assert(s@ =~= old(s)@ + offset_chars(*o));
    }
}

/// The canonical text of a datetime value.
pub fn datetime_string(d: &Datetime) -> (r: String)
    ensures
        r@ == datetime_chars(*d),
{
    let mut s = String::new();
    if let Some(date) = &d.date {
        push_date(&mut s, date);
    }
    if let Some(time) = &d.time {
        if d.date.is_some() {
            push_char(&mut s, 'T');
        }
        push_time(&mut s, time);
    }
    if let Some(offset) = &d.offset {
        push_offset(&mut s, offset);
    }
    proof {
        assert(s@ =~= datetime_chars(*d));
    }
    s
}

/// The signed decimal text of a 64-bit integer.
pub fn integer_string(i: i64) -> (r: String)
    ensures
        r@ == decimal_of(i as int),
{
    let mut s = String::new();
    push_decimal_i64(&mut s, i);
    proof {
        assert(s@ =~= decimal_of(i as int));
    }
    s
}

/// The literal text of a boolean.
pub fn bool_str(b: bool) -> (r: &'static str)
    ensures
        r@ == bool_chars(b),
{
    proof {
        reveal_strlit("true");
        reveal_strlit("false");
    }
    if b {
        proof {
            assert("true"@ =~= bool_chars(true));
        }
        "true"
    } else {
        proof {
            assert("false"@ =~= bool_chars(false));
        }
        "false"
    }
}

} // verus!
