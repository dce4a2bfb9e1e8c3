use vstd::prelude::*;

use crate::ipmi;
use crate::source::{IntErrorKind, SensorUnits, SensorValue};

verus! {

/// A reason why a configuration was rejected.
#[derive(Debug, Clone, PartialEq, Eq)]
pub enum ConfigIssue {
    /// The configuration lists no zone.
    NoZones,
    /// `zones[zone].interval` is zero.
    ZeroInterval { zone: usize },
    /// `zones[zone].ipmi_zones` is empty.
    NoIpmiZones { zone: usize },
    /// `zones[zone].sources` is empty.
    NoSources { zone: usize },
    /// `zones[zone].session` names no declared session.
    UnknownSession { zone: usize },
    /// `zones[zone].aggregation` is an average over the top zero readings.
    ZeroTop { zone: usize },
    /// The step temperatures of `zones[zone]` are not strictly increasing.
    TempsNotIncreasing { zone: usize },
    /// The step duty cycles of `zones[zone]` are not increasing.
    DcyclesNotIncreasing { zone: usize },
    /// `zones[zone].steps[step].dcycle` is not a percentage.
    BadPercentage { zone: usize, step: usize, dcycle: u8 },
    /// `sessions[session]` has the name of an earlier session.
    DuplicateSession { session: usize },
}

/// Errors of the fan control engine.
#[derive(Debug)]
pub enum Error {
    /// The configuration document could not be parsed.
    ConfigParse { path: String, message: String },
    /// The configuration was parsed but is not valid.
    ConfigValidation { path: String, reason: ConfigIssue },
    /// A sensor's text is not a number.
    SensorValueParse { value: String, kind: IntErrorKind },
    /// The BMC has no sensor of that name.
    SensorNotFound(String),
    /// The sensor reports in units other than degrees Celsius.
    SensorBadUnits { sensor: String, units: SensorUnits },
    /// The sensor reports a value that is not a number.
    SensorBadValue { sensor: String, value: SensorValue },
    /// The sensor exists but has no reading now.
    SensorNoReading(String),
    /// The temperature does not fit in a byte.
    ReadingExceedsBounds,
    /// The output of smartctl is not JSON.
    SmartParse { block_dev: String, message: String },
    /// smartctl reported no current temperature for the disk.
    SmartNoReading(String),
    /// hdparm printed no temperature for the disk.
    HdparmNoData(String),
    /// hdparm reported bad or missing sense data for the disk.
    HdparmBadData(String),
    /// An external tool ended with an unexpected status; `None` when it was
    /// ended by a signal.
    Command { command: String, status: Option<i32> },
    /// No reading was left to aggregate.
    NoValidReadings,
    /// An operation failed on every attempt; `source` is the last failure.
    RetriesFailed { attempts: u64, source: Box<Error> },
    /// Retrying could not be carried out.
    RetriesInternal { message: String },
    /// The BMC exchange failed.
    Ipmi(ipmi::Error),
    /// A file or the process environment failed.
    Io { path: String, message: String },
    /// A zone's control loop crashed.
    LoopPanicked(String),
}

/// An [`Error`] with its texts as character sequences.
pub enum ErrorView {
    ConfigParse { path: Seq<char>, message: Seq<char> },
    ConfigValidation { path: Seq<char>, reason: ConfigIssue },
    SensorValueParse { value: Seq<char>, kind: IntErrorKind },
    SensorNotFound(Seq<char>),
    SensorBadUnits { sensor: Seq<char>, units: SensorUnits },
    SensorBadValue { sensor: Seq<char>, value: SensorValue },
    SensorNoReading(Seq<char>),
    ReadingExceedsBounds,
    SmartParse { block_dev: Seq<char>, message: Seq<char> },
    SmartNoReading(Seq<char>),
    HdparmNoData(Seq<char>),
    HdparmBadData(Seq<char>),
    Command { command: Seq<char>, status: Option<i32> },
    NoValidReadings,
    RetriesFailed { attempts: u64, source: Box<ErrorView> },
    RetriesInternal { message: Seq<char> },
    Ipmi(ipmi::Error),
    Io { path: Seq<char>, message: Seq<char> },
    LoopPanicked(Seq<char>),
}

impl View for Error {
    type V = ErrorView;

    open spec fn view(&self) -> ErrorView
        decreases self,
    {
        match self {
            Error::ConfigParse { path, message } => ErrorView::ConfigParse {
                path: path@,
                message: message@,
            },
            Error::ConfigValidation { path, reason } => ErrorView::ConfigValidation {
                path: path@,
                reason: *reason,
            },
            Error::SensorValueParse { value, kind } => ErrorView::SensorValueParse {
                value: value@,
                kind: *kind,
            },
            Error::SensorNotFound(s) => ErrorView::SensorNotFound(s@),
            Error::SensorBadUnits { sensor, units } => ErrorView::SensorBadUnits {
                sensor: sensor@,
                units: *units,
            },
            Error::SensorBadValue { sensor, value } => ErrorView::SensorBadValue {
                sensor: sensor@,
                value: *value,
            },
            Error::SensorNoReading(s) => ErrorView::SensorNoReading(s@),
            Error::ReadingExceedsBounds => ErrorView::ReadingExceedsBounds,
            Error::SmartParse { block_dev, message } => ErrorView::SmartParse {
                block_dev: block_dev@,
                message: message@,
            },
            Error::SmartNoReading(d) => ErrorView::SmartNoReading(d@),
            Error::HdparmNoData(d) => ErrorView::HdparmNoData(d@),
            Error::HdparmBadData(d) => ErrorView::HdparmBadData(d@),
            Error::Command { command, status } => ErrorView::Command {
                command: command@,
                status: *status,
            },
            Error::NoValidReadings => ErrorView::NoValidReadings,
            Error::RetriesFailed { attempts, source } => ErrorView::RetriesFailed {
                attempts: *attempts,
                source: Box::new((**source).view()),
            },
            Error::RetriesInternal { message } => ErrorView::RetriesInternal { message: message@ },
            Error::Ipmi(e) => ErrorView::Ipmi(*e),
            Error::Io { path, message } => ErrorView::Io { path: path@, message: message@ },
            Error::LoopPanicked(m) => ErrorView::LoopPanicked(m@),
        }
    }
}

/// A result whose error is seen through its view.
pub open spec fn result_view<T>(r: Result<T, Error>) -> Result<T, ErrorView> {
    match r {
        Ok(v) => Ok(v),
        Err(e) => Err(e@),
    }
}

} // verus!
