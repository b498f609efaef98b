//! What an output protocol is: a way to write one measurement as one line,
//! and with it a way to turn one input line into one output line.

use crate::metric::{
    parsed_line, Measurement, MeasurementModel, ParseError, ParseErrorModel, Timestamp,
};
use vstd::prelude::*;

verus! {

/// The mathematical value of a conversion's result.
pub open spec fn conversion_model(r: Result<String, ParseError>) -> Result<
    Seq<char>,
    ParseErrorModel,
> {
    match r {
        Ok(text) => Ok(text@),
        Err(error) => Err(error@),
    }
}

/// An output protocol.
pub trait ProtocolTrait {
    /// The line that the protocol writes for a measurement.
    spec fn line_of(&self, measurement: MeasurementModel) -> Seq<char>;

    /// The line that stands for `measurement`, without a line end.
    fn dump(&self, measurement: &Measurement) -> (line: String)
        ensures
            line@ == self.line_of(measurement@),
    ;

    /// Converts one input line as it would be converted at the instant
    /// `now`: the line is read, and the measurement written. A line that
    /// cannot be read gives its error.
    fn convert_line_at(&self, line: &str, now: Timestamp) -> (r: Result<String, ParseError>)
        ensures
            match parsed_line(line@, now) {
                Ok(measurement) => conversion_model(r) == Ok::<Seq<char>, ParseErrorModel>(
                    self.line_of(measurement),
                ),
                Err(error) => conversion_model(r) == Err::<Seq<char>, ParseErrorModel>(error),
            },
    {
        match Measurement::from_singer_metric_line_at(line, now) {
            Ok(measurement) => Ok(self.dump(&measurement)),
            Err(error) => Err(error),
        }
    }

    /// Converts one input line: the line is read, and the measurement
    /// written. A line without a timestamp gets the instant at which it is
    /// read.
    fn convert_line(&self, line: &str) -> (r: Result<String, ParseError>)
        ensures
            exists|now: Timestamp|
                match #[trigger] parsed_line(line@, now) {
                    Ok(measurement) => conversion_model(r) == Ok::<Seq<char>, ParseErrorModel>(
                        self.line_of(measurement),
                    ),
                    Err(error) => conversion_model(r) == Err::<Seq<char>, ParseErrorModel>(error),
                },
    {
        match Measurement::from_singer_metric_line(line) {
            Ok(measurement) => Ok(self.dump(&measurement)),
            Err(error) => Err(error),
        }
    }
}

} // verus!
