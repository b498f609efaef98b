use chrono::{DateTime, Utc};
use serde_json::Value;
use singer_metrics::json::{tag_value_of_json, tags_of_json};
use singer_metrics::line_protocol::{
    _add_key_prefix, format_datetime, format_map_iter, format_tag_value, format_tags, LineProtocol,
};
use singer_metrics::metric::{Measurement, Point, Precision, Timestamp};
use singer_metrics::protocol_trait::ProtocolTrait;
use singer_metrics::tags::{Number, TagValue, Tags};

fn instant(rfc3339: &str) -> Timestamp {
    let dt = DateTime::parse_from_rfc3339(rfc3339).unwrap().with_timezone(&Utc);
    Timestamp { seconds: dt.timestamp(), nanoseconds: dt.timestamp_subsec_nanos() }
}

fn tags_from(entries: Vec<(String, Value)>) -> Tags {
    tags_of_json(&serde_json::Map::from_iter(entries))
}

fn text(s: &str) -> TagValue {
    TagValue::Text(s.to_string())
}

fn integer(n: i64) -> TagValue {
    TagValue::Number(Number::from_i64(n))
}

fn mapping(entries: Vec<(&str, TagValue)>) -> Tags {
    let mut tags = Tags::new();
    for (key, value) in entries {
        tags.insert(key.to_string(), value);
    }
    tags
}

fn object(entries: Vec<(&str, TagValue)>) -> TagValue {
    TagValue::Object(mapping(entries))
}

fn timer(metric: &str, value: f64, tags: Tags, at: &str) -> Measurement {
    Measurement {
        point: Point::Timer { metric: metric.to_string(), value: value.to_string(), tags },
        timestamp: instant(at),
    }
}

#[test]
fn test_line_protocol() {
    let protocol = LineProtocol::default();

    let line = protocol.dump(&Measurement {
        point: Point::Timer {
            metric: "test".to_string(),
            value: 1.23.to_string(),
            tags: tags_from(vec![
                ("tag1".to_string(), Value::String("value1".to_string())),
                ("tag2".to_string(), Value::Number(2.into())),
            ]),
        },
        timestamp: instant("2021-06-25T00:00:00Z"),
    });

    assert_eq!(line, "test,tag1=value1,tag2=2 value=1.23 1624579200000000000");
}

#[test]
fn test_line_protocol_empty_tags() {
    let protocol = LineProtocol::default();

    let line = protocol.dump(&Measurement {
        point: Point::Timer {
            metric: "test".to_string(),
            value: 1.23.to_string(),
            tags: Tags::new(),
        },
        timestamp: instant("2021-06-25T00:00:00Z"),
    });

    assert_eq!(line, "test value=1.23 1624579200000000000");
}

#[test]
fn test_line_protocol_ms_precision() {
    let protocol = LineProtocol::new(Precision::Milliseconds, None);

    let line = protocol.dump(&Measurement {
        point: Point::Timer {
            metric: "test".to_string(),
            value: 1.23.to_string(),
            tags: Tags::new(),
        },
        timestamp: instant("2021-06-25T00:00:00Z"),
    });

    assert_eq!(line, "test value=1.23 1624579200000");
}

#[test]
fn test_line_protocol_extra_tags() {
    let protocol = LineProtocol::new(
        Precision::Seconds,
        Some(tags_from(vec![
            ("tag3".to_string(), Value::String("value3".to_string())),
            ("tag4".to_string(), Value::Number(4.into())),
        ])),
    );

    let line = protocol.dump(&Measurement {
        point: Point::Timer {
            metric: "test".to_string(),
            value: 1.23.to_string(),
            tags: tags_from(vec![
                ("tag1".to_string(), Value::String("value1".to_string())),
                ("tag2".to_string(), Value::Number(2.into())),
            ]),
        },
        timestamp: instant("2021-06-25T00:00:00Z"),
    });

    assert_eq!(line, "test,tag1=value1,tag2=2,tag3=value3,tag4=4 value=1.23 1624579200");
}

#[test]
fn test_line_protocol_nested_tags() {
    let protocol = LineProtocol::default();

    let line = protocol.dump(&Measurement {
        point: Point::Timer {
            metric: "test".to_string(),
            value: 1.23.to_string(),
            tags: tags_from(vec![
                ("tag1".to_string(), Value::String("value1".to_string())),
                ("tag2".to_string(), Value::Number(2.into())),
                (
                    "tag3".to_string(),
                    Value::Object(serde_json::Map::from_iter(vec![
                        ("tag4".to_string(), Value::String("value4".to_string())),
                        ("tag5".to_string(), Value::Number(5.into())),
                    ])),
                ),
            ]),
        },
        timestamp: instant("2021-06-25T00:00:00Z"),
    });

    assert_eq!(
        line,
        "test,tag1=value1,tag2=2,tag3__tag4=value4,tag3__tag5=5 value=1.23 1624579200000000000"
    );
}

#[test]
fn test_escape_whitespace() {
    let protocol = LineProtocol::new(Precision::Milliseconds, None);

    let line = protocol.dump(&Measurement {
        point: Point::Counter {
            metric: "test".to_string(),
            value: 42,
            tags: tags_from(vec![
                ("Tag With Spaces".to_string(), Value::String("ValueNoSpaces".to_string())),
                ("TagNoSpaces".to_string(), Value::String("Value With Spaces".to_string())),
            ]),
        },
        timestamp: instant("2021-06-25T00:00:00Z"),
    });

    assert_eq!(
        line,
        "test,Tag\\ With\\ Spaces=ValueNoSpaces,TagNoSpaces=Value\\ With\\ Spaces value=42 \
         1624579200000"
    );
}

#[test]
fn new_keeps_precision_and_extra_tags() {
    let protocol = LineProtocol::new(
        Precision::default(),
        Some(mapping(vec![("host", text("localhost"))])),
    );
    assert!(matches!(protocol.precision, Precision::Nanoseconds));
    assert_eq!(protocol.extra_tags.len(), 1);

    let plain = LineProtocol::new(Precision::Seconds, None);
    assert_eq!(plain.precision, Precision::Seconds);
    assert_eq!(plain.extra_tags.len(), 0);
    assert_eq!(LineProtocol::default(), LineProtocol::new(Precision::Nanoseconds, None));
}

#[test]
fn tags_built_by_hand_format_like_decoded_tags() {
    let by_hand = mapping(vec![("tag1", text("value1")), ("tag2", integer(2))]);
    let protocol = LineProtocol::default();
    let line = protocol.dump(&timer("test", 1.23, by_hand, "2021-06-25T00:00:00Z"));
    assert_eq!(line, "test,tag1=value1,tag2=2 value=1.23 1624579200000000000");
}

#[test]
fn extra_tags_come_after_own_tags_in_their_order() {
    let protocol = LineProtocol::new(
        Precision::Seconds,
        Some(mapping(vec![("zone", text("b")), ("a", text("first")), ("rack", integer(7))])),
    );
    let own = mapping(vec![("z", integer(1)), ("b", object(vec![]))]);
    let line = protocol.dump(&Measurement {
        point: Point::Counter { metric: "m".to_string(), value: -3, tags: own },
        timestamp: Timestamp { seconds: 9, nanoseconds: 0 },
    });
    assert_eq!(line, "m,z=1,zone=b,a=first,rack=7 value=-3 9");
}

#[test]
fn extra_tags_alone_get_the_leading_comma() {
    let protocol = LineProtocol::new(Precision::Seconds, Some(mapping(vec![("k", text("v"))])));
    let line = protocol.dump(&Measurement {
        point: Point::Counter { metric: "m".to_string(), value: 0, tags: Tags::new() },
        timestamp: Timestamp { seconds: 0, nanoseconds: 0 },
    });
    assert_eq!(line, "m,k=v value=0 0");
    assert_eq!(format_tags(&Tags::new(), &Tags::new()), "");
    assert_eq!(format_tags(&mapping(vec![("a", integer(1))]), &Tags::new()), ",a=1");
    assert_eq!(
        format_tags(&mapping(vec![("a", integer(1))]), &mapping(vec![("a", integer(2))])),
        ",a=1,a=2"
    );
}

#[test]
fn null_tags_are_dropped_in_every_shape() {
    let tags = mapping(vec![
        ("gone", TagValue::Null),
        ("kept", TagValue::Bool(true)),
        ("list", TagValue::Array(vec![TagValue::Null, integer(1), TagValue::Null])),
        (
            "inner",
            object(vec![("void", TagValue::Null), ("deep", object(vec![("n", TagValue::Null)]))]),
        ),
        ("only_nulls", TagValue::Array(vec![TagValue::Null, TagValue::Null])),
        ("last", TagValue::Bool(false)),
    ]);
    assert_eq!(format_map_iter(&tags, None), "kept=true,list_1=1,last=false");
    assert_eq!(format_tags(&mapping(vec![("x", TagValue::Null)]), &Tags::new()), "");
    assert_eq!(format_tag_value("key", &TagValue::Null), "");
}

#[test]
fn sequences_flatten_with_positions() {
    let value = TagValue::Array(vec![
        text("a b"),
        TagValue::Array(vec![integer(10), integer(-11)]),
        object(vec![("x", TagValue::Bool(true))]),
    ]);
    assert_eq!(format_tag_value("k", &value), "k_0=a\\ b,k_1_0=10,k_1_1=-11,k_2__x=true");
    let long = TagValue::Array((0..12).map(integer).collect());
    assert_eq!(
        format_tag_value("n", &long),
        "n_0=0,n_1=1,n_2=2,n_3=3,n_4=4,n_5=5,n_6=6,n_7=7,n_8=8,n_9=9,n_10=10,n_11=11"
    );
    assert_eq!(format_tag_value("e", &TagValue::Array(vec![])), "");
}

#[test]
fn nested_keys_are_escaped_once() {
    let tags = mapping(vec![(
        "outer key",
        object(vec![("inner key", text("some value"))]),
    )]);
    assert_eq!(format_map_iter(&tags, None), "outer\\ key__inner\\ key=some\\ value");
    assert_eq!(format_map_iter(&tags, Some("p q")), "p\\ q__outer\\ key__inner\\ key=some\\ value");
}

#[test]
fn key_prefix_joins_with_two_underscores() {
    assert_eq!(_add_key_prefix("key", Some("prefix")), "prefix__key");
    assert_eq!(_add_key_prefix("key", None), "key");
    assert_eq!(_add_key_prefix("", Some("")), "__");
}

#[test]
fn numbers_and_booleans_are_written_bare() {
    let decoded = tag_value_of_json(&serde_json::from_str::<Value>("[1, -2, 1.5, 1e30, true, false, 18446744073709551615]").unwrap());
    let large = serde_json::Number::from_f64(1e30).unwrap().to_string();
    assert_eq!(
        format_tag_value("v", &decoded),
        format!("v_0=1,v_1=-2,v_2=1.5,v_3={},v_4=true,v_5=false,v_6=18446744073709551615", large)
    );
}

#[test]
fn timestamps_in_each_precision() {
    let at = Timestamp { seconds: 1624579200, nanoseconds: 123_456_789 };
    assert_eq!(format_datetime(&at, &Precision::Nanoseconds), "1624579200123456789");
    assert_eq!(format_datetime(&at, &Precision::Microseconds), "1624579200123");
    assert_eq!(format_datetime(&at, &Precision::Milliseconds), "1624579200123");
    assert_eq!(format_datetime(&at, &Precision::Seconds), "1624579200");
    assert_eq!(at.count(Precision::Nanoseconds), 1_624_579_200_123_456_789);

    let before_epoch = Timestamp { seconds: -2, nanoseconds: 500_000_000 };
    assert_eq!(format_datetime(&before_epoch, &Precision::Nanoseconds), "-1500000000");
    assert_eq!(format_datetime(&before_epoch, &Precision::Milliseconds), "-1500");
    assert_eq!(format_datetime(&before_epoch, &Precision::Seconds), "-2");

    let far = Timestamp { seconds: i64::MAX, nanoseconds: 999_999_999 };
    assert_eq!(format_datetime(&far, &Precision::Nanoseconds), "9223372036854775807999999999");
    let far_back = Timestamp { seconds: i64::MIN, nanoseconds: 0 };
    assert_eq!(format_datetime(&far_back, &Precision::Nanoseconds), "-9223372036854775808000000000");
}

#[test]
fn timestamps_agree_with_the_calendar() {
    let dt = DateTime::parse_from_rfc3339("2021-06-25T12:34:56.789012345Z").unwrap().with_timezone(&Utc);
    let at = Timestamp { seconds: dt.timestamp(), nanoseconds: dt.timestamp_subsec_nanos() };
    assert_eq!(format_datetime(&at, &Precision::Nanoseconds), dt.timestamp_nanos_opt().unwrap().to_string());
    assert_eq!(format_datetime(&at, &Precision::Milliseconds), dt.timestamp_millis().to_string());
    assert_eq!(format_datetime(&at, &Precision::Seconds), dt.timestamp().to_string());
}

#[test]
fn counter_and_timer_differ_only_in_the_value() {
    let protocol = LineProtocol::default();
    let at = Timestamp { seconds: 1, nanoseconds: 2 };
    let counter = protocol.dump(&Measurement {
        point: Point::Counter { metric: "m".to_string(), value: i64::MIN, tags: mapping(vec![("a", integer(1))]) },
        timestamp: at,
    });
    let timer = protocol.dump(&Measurement {
        point: Point::Timer { metric: "m".to_string(), value: 0.5.to_string(), tags: mapping(vec![("a", integer(1))]) },
        timestamp: at,
    });
    assert_eq!(counter, "m,a=1 value=-9223372036854775808 1000000002");
    assert_eq!(timer, "m,a=1 value=0.5 1000000002");
}
