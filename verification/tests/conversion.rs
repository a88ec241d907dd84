//! Unit tests of the tagged-value converter on concrete trees.

use toml_rs_decoder::convert;
use toml_rs_decoder::text::bool_str;
use toml_rs_decoder::text::datetime_string;
use toml_rs_decoder::text::integer_string;
use toml_rs_decoder::text::lowercase;
use toml_rs_decoder::text::tag_str;
use toml_rs_decoder::value::Date;
use toml_rs_decoder::value::Datetime;
use toml_rs_decoder::value::Offset;
use toml_rs_decoder::value::SourceValue;
use toml_rs_decoder::value::Tag;
use toml_rs_decoder::value::TaggedValue;
use toml_rs_decoder::value::Time;
use toml_rs_decoder::well_formed;

fn scalar(tag: Tag, value: &str) -> TaggedValue {
    TaggedValue::Scalar(tag, value.to_string())
}

#[test]
fn string_converts_verbatim() {
    let out = convert(SourceValue::Str("x".to_string()));
    assert_eq!(out, scalar(Tag::Str, "x"));
    let odd = "a \"quoted\" piece\nwith a newline";
    let out = convert(SourceValue::Str(odd.to_string()));
    assert_eq!(out, scalar(Tag::Str, odd));
    let out = convert(SourceValue::Str(String::new()));
    assert_eq!(out, scalar(Tag::Str, ""));
}

#[test]
fn integer_converts_to_decimal_text() {
    assert_eq!(convert(SourceValue::Integer(1)), scalar(Tag::Integer, "1"));
    assert_eq!(convert(SourceValue::Integer(0)), scalar(Tag::Integer, "0"));
    assert_eq!(convert(SourceValue::Integer(-7)), scalar(Tag::Integer, "-7"));
    assert_eq!(convert(SourceValue::Integer(42)), scalar(Tag::Integer, "42"));
    assert_eq!(
        convert(SourceValue::Integer(i64::MAX)),
        scalar(Tag::Integer, "9223372036854775807")
    );
    assert_eq!(
        convert(SourceValue::Integer(i64::MIN)),
        scalar(Tag::Integer, "-9223372036854775808")
    );
}

#[test]
fn integer_text_matches_host_rendering() {
    for i in [0i64, 1, -1, 9, 10, -10, 99, 100, 12345678, -987654321, i64::MIN, i64::MAX] {
        assert_eq!(integer_string(i), i.to_string());
    }
}

#[test]
fn boolean_converts_to_literal_words() {
    assert_eq!(convert(SourceValue::Boolean(true)), scalar(Tag::Bool, "true"));
    assert_eq!(convert(SourceValue::Boolean(false)), scalar(Tag::Bool, "false"));
    assert_eq!(bool_str(true), "true");
    assert_eq!(bool_str(false), "false");
}

#[test]
fn float_text_is_lower_cased() {
    let out = convert(SourceValue::Float("1.5E10".to_string()));
    assert_eq!(out, scalar(Tag::Float, "1.5e10"));
    let out = convert(SourceValue::Float("NaN".to_string()));
    assert_eq!(out, scalar(Tag::Float, "nan"));
    let out = convert(SourceValue::Float("-Inf".to_string()));
    assert_eq!(out, scalar(Tag::Float, "-inf"));
}

#[test]
fn float_host_renderings_come_out_lowercase() {
    let nan = f64::NAN.to_string();
    let out = convert(SourceValue::Float(nan));
    assert_eq!(out, scalar(Tag::Float, "nan"));
    let inf = f64::INFINITY.to_string();
    let out = convert(SourceValue::Float(inf));
    assert_eq!(out, scalar(Tag::Float, "inf"));
    let plain = (1.5f64).to_string();
    let out = convert(SourceValue::Float(plain));
    assert_eq!(out, scalar(Tag::Float, "1.5"));
}

#[test]
fn lowercase_touches_only_ascii_uppercase() {
    assert_eq!(lowercase("1.5E10"), "1.5e10");
    assert_eq!(lowercase(""), "");
    assert_eq!(lowercase("abc-XYZ_09"), "abc-xyz_09");
}

#[test]
fn array_order_is_preserved() {
    let arr = SourceValue::Array(vec![
        SourceValue::Integer(1),
        SourceValue::Str("two".to_string()),
        SourceValue::Boolean(false),
    ]);
    let out = convert(arr);
    assert_eq!(
        out,
        TaggedValue::Array(vec![
            scalar(Tag::Integer, "1"),
            scalar(Tag::Str, "two"),
            scalar(Tag::Bool, "false"),
        ])
    );
}

#[test]
fn nested_arrays_keep_order_at_depth() {
    let arr = SourceValue::Array(vec![
        SourceValue::Array(vec![SourceValue::Integer(1), SourceValue::Integer(2)]),
        SourceValue::Array(vec![]),
        SourceValue::Array(vec![SourceValue::Array(vec![SourceValue::Str("deep".to_string())])]),
    ]);
    let out = convert(arr);
    assert_eq!(
        out,
        TaggedValue::Array(vec![
            TaggedValue::Array(vec![scalar(Tag::Integer, "1"), scalar(Tag::Integer, "2")]),
            TaggedValue::Array(vec![]),
            TaggedValue::Array(vec![TaggedValue::Array(vec![scalar(Tag::Str, "deep")])]),
        ])
    );
}

#[test]
fn table_key_order_is_preserved() {
    let table = SourceValue::Table(vec![
        ("k1".to_string(), SourceValue::Integer(1)),
        ("k2".to_string(), SourceValue::Integer(2)),
        ("k3".to_string(), SourceValue::Integer(3)),
    ]);
    let out = convert(table);
    match out {
        TaggedValue::Object(entries) => {
            let keys: Vec<&str> = entries.iter().map(|e| e.0.as_str()).collect();
            assert_eq!(keys, vec!["k1", "k2", "k3"]);
            assert_eq!(entries[0].1, scalar(Tag::Integer, "1"));
            assert_eq!(entries[1].1, scalar(Tag::Integer, "2"));
            assert_eq!(entries[2].1, scalar(Tag::Integer, "3"));
        }
        other => panic!("expected an object, got {:?}", other),
    }
}

#[test]
fn datetime_date_only() {
    let dt = Datetime {
        date: Some(Date { year: 1987, month: 7, day: 5 }),
        time: None,
        offset: None,
    };
    assert_eq!(convert(SourceValue::Datetime(dt)), scalar(Tag::DateLocal, "1987-07-05"));
}

#[test]
fn datetime_time_only() {
    let dt = Datetime {
        date: None,
        time: Some(Time { hour: 17, minute: 45, second: Some(0), nanosecond: None }),
        offset: None,
    };
    assert_eq!(convert(SourceValue::Datetime(dt)), scalar(Tag::TimeLocal, "17:45:00"));
}

#[test]
fn datetime_local() {
    let dt = Datetime {
        date: Some(Date { year: 1987, month: 7, day: 5 }),
        time: Some(Time { hour: 17, minute: 45, second: Some(0), nanosecond: None }),
        offset: None,
    };
    assert_eq!(
        convert(SourceValue::Datetime(dt)),
        scalar(Tag::DatetimeLocal, "1987-07-05T17:45:00")
    );
}

#[test]
fn datetime_with_offset() {
    let dt = Datetime {
        date: Some(Date { year: 1987, month: 7, day: 5 }),
        time: Some(Time { hour: 17, minute: 45, second: Some(0), nanosecond: None }),
        offset: Some(Offset::Z),
    };
    assert_eq!(convert(SourceValue::Datetime(dt)), scalar(Tag::Datetime, "1987-07-05T17:45:00Z"));
}

#[test]
fn datetime_custom_offsets() {
    let base = Datetime {
        date: Some(Date { year: 2020, month: 12, day: 31 }),
        time: Some(Time { hour: 0, minute: 5, second: Some(9), nanosecond: None }),
        offset: Some(Offset::Custom { minutes: 330 }),
    };
    assert_eq!(
        convert(SourceValue::Datetime(base)),
        scalar(Tag::Datetime, "2020-12-31T00:05:09+05:30")
    );
    let negative = Datetime { offset: Some(Offset::Custom { minutes: -180 }), ..base };
    assert_eq!(
        convert(SourceValue::Datetime(negative)),
        scalar(Tag::Datetime, "2020-12-31T00:05:09-03:00")
    );
    let zero = Datetime { offset: Some(Offset::Custom { minutes: 0 }), ..base };
    assert_eq!(
        convert(SourceValue::Datetime(zero)),
        scalar(Tag::Datetime, "2020-12-31T00:05:09+00:00")
    );
}

#[test]
fn datetime_fractional_seconds() {
    let t = Time { hour: 0, minute: 32, second: Some(0), nanosecond: Some(999_999_000) };
    let dt = Datetime { date: None, time: Some(t), offset: None };
    assert_eq!(convert(SourceValue::Datetime(dt)), scalar(Tag::TimeLocal, "00:32:00.999999"));
    let t = Time { hour: 7, minute: 32, second: Some(0), nanosecond: Some(0) };
    let dt = Datetime { date: None, time: Some(t), offset: None };
    assert_eq!(convert(SourceValue::Datetime(dt)), scalar(Tag::TimeLocal, "07:32:00.0"));
}

#[test]
fn datetime_without_seconds() {
    let t = Time { hour: 7, minute: 32, second: None, nanosecond: None };
    let dt = Datetime { date: None, time: Some(t), offset: None };
    assert_eq!(convert(SourceValue::Datetime(dt)), scalar(Tag::TimeLocal, "07:32"));
    let t = Time { hour: 7, minute: 32, second: None, nanosecond: Some(500_000_000) };
    let dt = Datetime { date: None, time: Some(t), offset: None };
    assert_eq!(convert(SourceValue::Datetime(dt)), scalar(Tag::TimeLocal, "07:32:00.5"));
}

#[test]
fn datetime_fields_are_zero_padded() {
    let dt = Datetime {
        date: Some(Date { year: 1, month: 1, day: 1 }),
        time: None,
        offset: None,
    };
    assert_eq!(convert(SourceValue::Datetime(dt)), scalar(Tag::DateLocal, "0001-01-01"));
    let dt = Datetime {
        date: Some(Date { year: 987, month: 12, day: 31 }),
        time: Some(Time { hour: 4, minute: 5, second: Some(6), nanosecond: None }),
        offset: None,
    };
    assert_eq!(
        convert(SourceValue::Datetime(dt)),
        scalar(Tag::DatetimeLocal, "0987-12-31T04:05:06")
    );
}

#[test]
fn datetime_text_matches_parser_rendering() {
    let dt = Datetime {
        date: Some(Date { year: 1987, month: 7, day: 5 }),
        time: Some(Time { hour: 17, minute: 45, second: Some(0), nanosecond: None }),
        offset: Some(Offset::Z),
    };
    let parsed: toml::value::Datetime = "1987-07-05T17:45:00Z".parse().unwrap();
    assert_eq!(datetime_string(&dt), parsed.to_string());
}

#[test]
fn table_with_one_of_every_variant() {
    let dt = Datetime {
        date: Some(Date { year: 1987, month: 7, day: 5 }),
        time: None,
        offset: None,
    };
    let table = SourceValue::Table(vec![
        ("s".to_string(), SourceValue::Str("v".to_string())),
        ("i".to_string(), SourceValue::Integer(3)),
        ("f".to_string(), SourceValue::Float("2.5".to_string())),
        ("b".to_string(), SourceValue::Boolean(true)),
        ("d".to_string(), SourceValue::Datetime(dt)),
        ("a".to_string(), SourceValue::Array(vec![])),
        ("t".to_string(), SourceValue::Table(vec![])),
    ]);
    let out = convert(table);
    match out {
        TaggedValue::Object(entries) => {
            assert_eq!(entries.len(), 7);
            let tags: Vec<Option<Tag>> = entries
                .iter()
                .map(|e| match &e.1 {
                    TaggedValue::Scalar(tag, _) => Some(*tag),
                    _ => None,
                })
                .collect();
            assert_eq!(
                tags,
                vec![
                    Some(Tag::Str),
                    Some(Tag::Integer),
                    Some(Tag::Float),
                    Some(Tag::Bool),
                    Some(Tag::DateLocal),
                    None,
                    None,
                ]
            );
            assert!(matches!(entries[5].1, TaggedValue::Array(_)));
            assert!(matches!(entries[6].1, TaggedValue::Object(_)));
        }
        other => panic!("expected an object, got {:?}", other),
    }
}

#[test]
fn tag_text_spellings() {
    assert_eq!(tag_str(&Tag::Str), "string");
    assert_eq!(tag_str(&Tag::Integer), "integer");
    assert_eq!(tag_str(&Tag::Float), "float");
    assert_eq!(tag_str(&Tag::Bool), "bool");
    assert_eq!(tag_str(&Tag::TimeLocal), "time-local");
    assert_eq!(tag_str(&Tag::DateLocal), "date-local");
    assert_eq!(tag_str(&Tag::DatetimeLocal), "datetime-local");
    assert_eq!(tag_str(&Tag::Datetime), "datetime");
}

#[test]
fn well_formed_accepts_parser_shaped_trees() {
    let dt = Datetime {
        date: None,
        time: Some(Time { hour: 1, minute: 2, second: Some(3), nanosecond: None }),
        offset: None,
    };
    let tree = SourceValue::Table(vec![
        ("a".to_string(), SourceValue::Array(vec![SourceValue::Datetime(dt)])),
        ("b".to_string(), SourceValue::Integer(1)),
    ]);
    assert!(well_formed(&tree));
}

#[test]
fn well_formed_rejects_empty_datetime() {
    let bad = Datetime { date: None, time: None, offset: None };
    assert!(!well_formed(&SourceValue::Datetime(bad)));
    let nested = SourceValue::Array(vec![SourceValue::Table(vec![(
        "x".to_string(),
        SourceValue::Datetime(bad),
    )])]);
    assert!(!well_formed(&nested));
}

#[test]
fn well_formed_rejects_duplicate_keys() {
    let dup = SourceValue::Table(vec![
        ("k".to_string(), SourceValue::Integer(1)),
        ("k".to_string(), SourceValue::Integer(2)),
    ]);
    assert!(!well_formed(&dup));
}
