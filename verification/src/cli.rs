//! The command line's options, as plain data.

use crate::line_protocol::LineProtocol;
use crate::metric::Precision;
use crate::tags::TagModel;
use std::path::PathBuf;
use vstd::prelude::*;

verus! {

/// `std::path::PathBuf`, the path of a file. Opaque to the verifier.
#[verifier::external_type_specification]
#[verifier::external_body]
pub struct ExPathBuf(PathBuf);

/// What the command line asks for.
#[derive(Debug)]
pub struct Cli {
    /// The conversion to run.
    pub command: Commands,
    /// The input file to read from; standard input where there is none.
    pub input: Option<PathBuf>,
}

/// The conversions.
#[derive(Clone, Copy, Debug, PartialEq, Eq)]
pub enum Commands {
    /// Convert Singer metrics to InfluxDB line protocol.
    LineProtocol {
        /// The timestamp precision to use.
        precision: Precision,
    },
}

impl Commands {
    /// The protocol that the command asks for: the line protocol with the
    /// command's precision and without extra tags.
    pub fn protocol(&self) -> (protocol: LineProtocol)
        ensures
            self matches Commands::LineProtocol { precision } && protocol.precision == precision,
            protocol.extra_tags@ == Seq::<(Seq<char>, TagModel)>::empty(),
    {
        match self {
            Commands::LineProtocol { precision } => LineProtocol::new(*precision, None),
        }
    }
}

} // verus!
