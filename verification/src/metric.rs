//! The metric record: a typed point, the instant it was measured at, and the
//! unit in which that instant is written.

use crate::calendar::{datetime_from_str, utc_datetime, utc_now};
use crate::json::{json_document, parse_json};
use crate::pattern::{has_marker, split_line, split_metric_line};
pub use crate::tags::Tags;
use crate::tags::{member_value, optional_model, TagModel, TagValue};
use crate::text::same_text;
use vstd::prelude::*;

verus! {

/// The unit of a written timestamp.
#[derive(Clone, Copy, Debug, PartialEq, Eq)]
pub enum Precision {
    Nanoseconds,
    Microseconds,
    Milliseconds,
    Seconds,
}

impl Default for Precision {
    fn default() -> (precision: Precision)
        ensures
            precision == Precision::Nanoseconds,
    {
        Precision::Nanoseconds
    }
}

/// The precision that a token selects: `ns`, `us`, `ms` or `s`.
pub open spec fn precision_of_token(token: Seq<char>) -> Option<Precision> {
    if token == "ns"@ {
        Some(Precision::Nanoseconds)
    } else if token == "us"@ {
        Some(Precision::Microseconds)
    } else if token == "ms"@ {
        Some(Precision::Milliseconds)
    } else if token == "s"@ {
        Some(Precision::Seconds)
    } else {
        None
    }
}

impl Precision {
    /// Reads a precision from its token. Any other text is refused with a
    /// message that quotes it.
    pub fn from_string(s: &str) -> (r: Result<Precision, String>)
        ensures
            match r {
                Ok(precision) => precision_of_token(s@) == Some(precision),
                Err(message) => precision_of_token(s@) is None && message@
                    == "Invalid precision: "@ + s@,
            },
    {
        if same_text(s, "ns") {
            Ok(Precision::Nanoseconds)
        } else if same_text(s, "us") {
            Ok(Precision::Microseconds)
        } else if same_text(s, "ms") {
            Ok(Precision::Milliseconds)
        } else if same_text(s, "s") {
            Ok(Precision::Seconds)
        } else {
            let mut message = "Invalid precision: ".to_owned();
            message.append(s);
            Err(message)
        }
    }
}

/// An instant of UTC time: whole seconds since the Unix epoch and the
/// nanoseconds that have passed within that second.
#[derive(Clone, Copy, Debug, PartialEq, Eq)]
pub struct Timestamp {
    pub seconds: i64,
    pub nanoseconds: u32,
}

/// The instant as a count of units of `precision` since the Unix epoch.
/// Microseconds are counted as milliseconds are.
pub open spec fn timestamp_count(timestamp: Timestamp, precision: Precision) -> int {
    match precision {
        Precision::Nanoseconds => timestamp.seconds * 1_000_000_000 + timestamp.nanoseconds,
        Precision::Microseconds | Precision::Milliseconds => timestamp.seconds * 1000
            + timestamp.nanoseconds / 1_000_000,
        Precision::Seconds => timestamp.seconds as int,
    }
}

impl Timestamp {
    /// The count of units of `precision` since the Unix epoch.
    pub fn count(&self, precision: Precision) -> (n: i128)
        ensures
            n == timestamp_count(*self, precision),
    {
        match precision {
            Precision::Nanoseconds => (self.seconds as i128) * 1_000_000_000
                + self.nanoseconds as i128,
            Precision::Microseconds | Precision::Milliseconds => (self.seconds as i128) * 1000 + (
            self.nanoseconds / 1_000_000) as i128,
            Precision::Seconds => self.seconds as i128,
        }
    }
}

/// The mathematical value of a [`Point`].
pub enum PointModel {
    Timer { metric: Seq<char>, value: Seq<char>, tags: Seq<(Seq<char>, TagModel)> },
    Counter { metric: Seq<char>, value: i64, tags: Seq<(Seq<char>, TagModel)> },
}

/// One metric point. A timer's value is a 64-bit float, held as the decimal
/// text that the float is written with; a counter's value is a 64-bit
/// integer.
#[derive(Debug, PartialEq, Eq)]
pub enum Point {
    Timer { metric: String, value: String, tags: Tags },
    Counter { metric: String, value: i64, tags: Tags },
}

impl View for Point {
    type V = PointModel;

    open spec fn view(&self) -> PointModel {
        match self {
            Point::Timer { metric, value, tags } => PointModel::Timer {
                metric: metric@,
                value: value@,
                tags: tags@,
            },
            Point::Counter { metric, value, tags } => PointModel::Counter {
                metric: metric@,
                value: *value,
                tags: tags@,
            },
        }
    }
}

/// The mathematical value of a [`Measurement`].
pub struct MeasurementModel {
    pub point: PointModel,
    pub timestamp: Timestamp,
}

/// A point together with the instant it was measured at.
#[derive(Debug, PartialEq, Eq)]
pub struct Measurement {
    pub point: Point,
    pub timestamp: Timestamp,
}

impl View for Measurement {
    type V = MeasurementModel;

    open spec fn view(&self) -> MeasurementModel {
        MeasurementModel { point: self.point@, timestamp: self.timestamp }
    }
}

/// The mathematical value of a [`ParseError`].
pub enum ParseErrorModel {
    UnrecognizedLine,
    InvalidTimestamp,
    InvalidPayload(Seq<char>),
}

/// Why a line gave no measurement.
#[derive(Clone, Debug, PartialEq, Eq)]
pub enum ParseError {
    /// The line holds no marker.
    UnrecognizedLine,
    /// The text before the marker is no timestamp.
    InvalidTimestamp,
    /// The payload, carried here, is no JSON text that describes a point.
    InvalidPayload(String),
}

impl View for ParseError {
    type V = ParseErrorModel;

    open spec fn view(&self) -> ParseErrorModel {
        match self {
            ParseError::UnrecognizedLine => ParseErrorModel::UnrecognizedLine,
            ParseError::InvalidTimestamp => ParseErrorModel::InvalidTimestamp,
            ParseError::InvalidPayload(payload) => ParseErrorModel::InvalidPayload(payload@),
        }
    }
}

/// The message of each error.
pub open spec fn error_message(error: ParseErrorModel) -> Seq<char> {
    match error {
        ParseErrorModel::UnrecognizedLine => "Unrecognized line"@,
        ParseErrorModel::InvalidTimestamp => "Invalid timestamp"@,
        ParseErrorModel::InvalidPayload(payload) => "Invalid payload: "@ + payload,
    }
}

impl ParseError {
    /// The error in words.
    pub fn message(&self) -> (text: String)
        ensures
            text@ == error_message(self@),
    {
        match self {
            ParseError::UnrecognizedLine => "Unrecognized line".to_owned(),
            ParseError::InvalidTimestamp => "Invalid timestamp".to_owned(),
            ParseError::InvalidPayload(payload) => {
                let mut text = "Invalid payload: ".to_owned();
                text.append(payload.as_str());
                text
            },
        }
    }
}

/// The point that a JSON document describes: an object whose `metric_type`
/// is `timer` or `counter`, whose `metric` is a string, whose `value` is a
/// number (one with a float reading for a timer, one with an integer reading
/// for a counter) and whose `tags` is an object. `None` for any other
/// document. Entries under other keys are passed over.
pub open spec fn point_of_json(document: TagModel) -> Option<PointModel> {
    match document {
        TagModel::Object(members) => match (
            member_value(members, "metric_type"@),
            member_value(members, "metric"@),
            member_value(members, "value"@),
            member_value(members, "tags"@),
        ) {
            (
                Some(TagModel::Text(kind)),
                Some(TagModel::Text(metric)),
                Some(TagModel::Number(number)),
                Some(TagModel::Object(tags)),
            ) => {
                if kind == "timer"@ {
                    match number.float_text {
                        Some(value) => Some(PointModel::Timer { metric, value, tags }),
                        None => None,
                    }
                } else if kind == "counter"@ {
                    match number.integer {
                        Some(value) => Some(PointModel::Counter { metric, value, tags }),
                        None => None,
                    }
                } else {
                    None
                }
            },
            _ => None,
        },
        _ => None,
    }
}

impl Point {
    /// Reads a point from a JSON document.
    pub fn from_json(document: TagValue) -> (r: Option<Point>)
        ensures
            match r {
                Some(point) => point_of_json(document@) == Some(point@),
                None => point_of_json(document@) is None,
            },
    {
        let ghost whole = document@;
        let mut entries = match document {
            TagValue::Object(tags) => tags.entries,
            _ => {
                return None;
            },
        };
        let ghost members = whole->Object_0;
        let mut kind: Option<TagValue> = None;
        let mut metric: Option<TagValue> = None;
        let mut value: Option<TagValue> = None;
        let mut tags: Option<TagValue> = None;
        proof {
            reveal_strlit("metric_type");
            reveal_strlit("metric");
            reveal_strlit("value");
            reveal_strlit("tags");
        }
        while entries.len() > 0
            invariant
                whole == TagModel::Object(members),
                entries@.len() <= members.len(),
                forall|k: int|
                    0 <= k < entries@.len() ==> (#[trigger] entries@[k]).0@ == members[k].0
                        && entries@[k].1@ == members[k].1,
                optional_model(kind) == member_value(
                    members.skip(entries@.len() as int),
                    "metric_type"@,
                ),
                optional_model(metric) == member_value(
                    members.skip(entries@.len() as int),
                    "metric"@,
                ),
                optional_model(value) == member_value(
                    members.skip(entries@.len() as int),
                    "value"@,
                ),
                optional_model(tags) == member_value(members.skip(entries@.len() as int), "tags"@),
                "metric_type"@.len() == 11,
                "metric"@.len() == 6,
                "value"@.len() == 5,
                "tags"@.len() == 4,
            decreases entries@.len(),
        {
            let ghost at = entries@.len() - 1;
            assert(members.skip(at).drop_first() == members.skip(at + 1));
            assert(members.skip(at)[0] == members[at]);
            let (key, item) = entries.pop().unwrap();
            if same_text(key.as_str(), "metric_type") {
                kind = Some(item);
            } else if same_text(key.as_str(), "metric") {
                metric = Some(item);
            } else if same_text(key.as_str(), "value") {
                value = Some(item);
            } else if same_text(key.as_str(), "tags") {
                tags = Some(item);
            }
        }
        assert(members.skip(0) == members);
        match (kind, metric, value, tags) {
            (
                Some(TagValue::Text(kind)),
                Some(TagValue::Text(metric)),
                Some(TagValue::Number(number)),
                Some(TagValue::Object(tags)),
            ) => {
                assert(TagValue::Object(tags)@->Object_0 =~= tags@);
                if same_text(kind.as_str(), "timer") {
                    match number.float_text {
                        Some(value) => Some(Point::Timer { metric, value, tags }),
                        None => None,
                    }
                } else if same_text(kind.as_str(), "counter") {
                    match number.integer {
                        Some(value) => Some(Point::Counter { metric, value, tags }),
                        None => None,
                    }
                } else {
                    None
                }
            },
            _ => None,
        }
    }
}

/// The `strftime` pattern of a line's timestamp: date, time, a comma and the
/// fraction of the second.
pub open spec fn timestamp_format() -> Seq<char> {
    "%Y-%m-%d %H:%M:%S,%f"@
}

/// The instant of a line whose timestamp text is `stamp`: the instant that
/// the calendar reads from a text that is there, `now` where the text is
/// empty, and `None` where the calendar refuses the text.
pub open spec fn instant_of(stamp: Seq<char>, now: Timestamp) -> Option<Timestamp> {
    if stamp.len() == 0 {
        Some(now)
    } else {
        match utc_datetime(stamp, timestamp_format()) {
            Some((seconds, nanoseconds)) => Some(Timestamp { seconds, nanoseconds }),
            None => None,
        }
    }
}

/// What a line with the marker comes to, given its payload, the instant that
/// was found for it and the document that its payload parsed to.
pub open spec fn measurement_of(
    payload: Seq<char>,
    instant: Option<Timestamp>,
    document: Option<TagModel>,
) -> Result<MeasurementModel, ParseErrorModel> {
    match instant {
        None => Err(ParseErrorModel::InvalidTimestamp),
        Some(timestamp) => match document {
            None => Err(ParseErrorModel::InvalidPayload(payload)),
            Some(document) => match point_of_json(document) {
                None => Err(ParseErrorModel::InvalidPayload(payload)),
                Some(point) => Ok(MeasurementModel { point, timestamp }),
            },
        },
    }
}

/// What `line` comes to when it is read at the instant `now`.
pub open spec fn parsed_line(line: Seq<char>, now: Timestamp) -> Result<
    MeasurementModel,
    ParseErrorModel,
> {
    match split_line(line) {
        None => Err(ParseErrorModel::UnrecognizedLine),
        Some((stamp, payload)) => measurement_of(
            payload,
            instant_of(stamp, now),
            json_document(payload),
        ),
    }
}

/// The mathematical value of a parse result.
pub open spec fn outcome_model(r: Result<Measurement, ParseError>) -> Result<
    MeasurementModel,
    ParseErrorModel,
> {
    match r {
        Ok(measurement) => Ok(measurement@),
        Err(error) => Err(error@),
    }
}

impl Measurement {
    /// Decides what a line with the marker comes to, once its timestamp and
    /// its payload have been read: `instant` is the instant found for the
    /// line, `None` where its timestamp was refused; `document` is what the
    /// payload parsed to, `None` where it is no JSON text.
    pub fn from_parts(payload: String, instant: Option<Timestamp>, document: Option<TagValue>) -> (r:
        Result<Measurement, ParseError>)
        ensures
            outcome_model(r) == measurement_of(payload@, instant, optional_model(document)),
    {
        let timestamp = match instant {
            Some(timestamp) => timestamp,
            None => {
                return Err(ParseError::InvalidTimestamp);
            },
        };
        let point = match document {
            Some(document) => Point::from_json(document),
            None => None,
        };
        match point {
            Some(point) => Ok(Measurement { point, timestamp }),
            None => Err(ParseError::InvalidPayload(payload)),
        }
    }

    /// Reads one line as it would be read at the instant `now`: a line
    /// without a timestamp gets `now`.
    pub fn from_singer_metric_line_at(line: &str, now: Timestamp) -> (r: Result<
        Measurement,
        ParseError,
    >)
        ensures
            outcome_model(r) == parsed_line(line@, now),
            r matches Err(ParseError::UnrecognizedLine) <==> !has_marker(line@),
    {
        let (stamp, payload) = match split_metric_line(line) {
            Some(parts) => parts,
            None => {
                return Err(ParseError::UnrecognizedLine);
            },
        };
        let instant = if stamp.as_str().is_empty() {
            Some(now)
        } else {
            datetime_from_str(stamp.as_str(), "%Y-%m-%d %H:%M:%S,%f")
        };
        let document = parse_json(payload.as_str());
        Measurement::from_parts(payload, instant, document)
    }

    /// Reads one line. A line without a timestamp gets the instant at which
    /// it is read.
    pub fn from_singer_metric_line(line: &str) -> (r: Result<Measurement, ParseError>)
        ensures
            exists|now: Timestamp| outcome_model(r) == #[trigger] parsed_line(line@, now),
            r matches Err(ParseError::UnrecognizedLine) <==> !has_marker(line@),
    {
        let now = utc_now();
        Measurement::from_singer_metric_line_at(line, now)
    }
}

/// A line that gives a timestamp comes to the same whenever it is read.
pub proof fn lemma_stamped_line_ignores_the_clock(line: Seq<char>, now: Timestamp, later: Timestamp)
    requires
        split_line(line) matches Some((stamp, _)) ==> stamp.len() > 0,
    ensures
        parsed_line(line, now) == parsed_line(line, later),
{
}

/// A line without a timestamp that gives a measurement gives it the instant
/// at which it is read.
pub proof fn lemma_unstamped_line_takes_the_clock(line: Seq<char>, now: Timestamp)
    requires
        split_line(line) matches Some((stamp, _)) && stamp.len() == 0,
    ensures
        parsed_line(line, now) matches Ok(measurement) ==> measurement.timestamp == now,
{
}

/// A line without the marker is refused as unrecognized, and no other line
/// is.
pub proof fn lemma_unrecognized_without_marker(line: Seq<char>, now: Timestamp)
    ensures
        parsed_line(line, now) == Err::<MeasurementModel, ParseErrorModel>(
            ParseErrorModel::UnrecognizedLine,
        ) <==> !has_marker(line),
{
}

/// A line with the marker and a timestamp that is absent or accepted, whose
/// payload is no JSON text or describes no point, is refused for its
/// payload, which the error carries.
pub proof fn lemma_invalid_payload(line: Seq<char>, now: Timestamp)
    requires
        split_line(line) matches Some((stamp, payload)) && instant_of(stamp, now) is Some && (
        json_document(payload) matches Some(document) ==> point_of_json(document) is None),
    ensures
        split_line(line) matches Some((_, payload)) && parsed_line(line, now) == Err::<
            MeasurementModel,
            ParseErrorModel,
        >(ParseErrorModel::InvalidPayload(payload)),
{
}

} // verus!
