use vstd::prelude::*;

use crate::config::Source;
use crate::json::{json_parses, json_u64_at, json_u64_member};
use crate::error::{result_view, Error, ErrorView};
use crate::text::{
    chars_of, contains, contains_seq, is_white_space, parse_int, parse_int_chars, string_of,
    sub_chars, trim, trim_end, trim_end_seq, trim_seq, white_space,
};

verus! {

/// Why a text is not an integer.
#[derive(Clone, Copy, Debug, PartialEq, Eq, Structural)]
pub enum IntErrorKind {
    /// The text is empty.
    Empty,
    /// A character is not a digit where one is due.
    InvalidDigit,
    /// The value is above the type's largest.
    PosOverflow,
    /// The value is below the type's smallest.
    NegOverflow,
}

/// Units of a BMC sensor.
#[derive(Clone, Copy, Debug, PartialEq, Eq, Structural)]
pub enum SensorUnits {
    Celsius,
    Fahrenheit,
    /// A raw unit code with no name.
    Unknown(u32),
}

/// The value of a BMC sensor.
#[derive(Clone, Copy, Debug, PartialEq, Eq, Structural)]
pub enum SensorValue {
    Bool(bool),
    Uint32(u32),
    /// A floating-point reading, held as its conversion `as u32`: truncated
    /// toward zero and saturated at the bounds of `u32`.
    Double(u32),
    Unknown,
}

/// One reading of a BMC sensor.
#[derive(Clone, Copy, Debug, PartialEq, Eq, Structural)]
pub struct SensorReading {
    pub value: SensorValue,
    pub units: SensorUnits,
}

/// The temperature a file holds: its text, trimmed, is in thousandths of a
/// degree Celsius.
pub open spec fn file_reading(trimmed: Seq<char>) -> Result<u8, ErrorView> {
    match parse_int(trimmed, 0, 0xffff_ffff) {
        Err(kind) => Err(ErrorView::SensorValueParse { value: trimmed, kind }),
        Ok(v) => if v / 1000 <= 255 {
            Ok((v / 1000) as u8)
        } else {
            Err(ErrorView::ReadingExceedsBounds)
        },
    }
}

/// The temperature in an already trimmed text of thousandths of a degree
/// Celsius.
pub fn parse_milli_celsius(trimmed: &Vec<char>) -> (r: Result<u8, Error>)
    ensures
        result_view(r) == file_reading(trimmed@),
{
    match parse_int_chars(trimmed, 0, 0xffff_ffff) {
        Err(kind) => Err(Error::SensorValueParse { value: string_of(trimmed.as_slice()), kind }),
        Ok(v) => {
            let t = v / 1000;
            if t <= 255 {
                Ok(t as u8)
            } else {
                Err(Error::ReadingExceedsBounds)
            }
        },
    }
}

/// The temperature in the contents of a file of thousandths of a degree
/// Celsius, such as a sysfs sensor.
pub fn parse_file_source(contents: &str) -> (r: Result<u8, Error>)
    ensures
        result_view(r) == file_reading(trim_seq(contents@)),
{
    let cs = chars_of(contents);
    let trimmed = trim(&cs);
    parse_milli_celsius(&trimmed)
}

/// hdparm's words for a drive that answered with bad or missing sense data.
pub open spec fn bad_sense_marker() -> Seq<char> {
    "bad/missing sense data"@
}

/// hdparm's words before a drive's temperature.
pub open spec fn temperature_marker() -> Seq<char> {
    "drive temperature (celsius) is:"@
}

/// Length of the line of `out` that starts at `start`, without its line
/// break.
pub open spec fn line_len(out: Seq<char>, start: int) -> nat
    decreases out.len() - start,
{
    if start < 0 || start >= out.len() || out[start] == '\n' {
        0
    } else {
        1 + line_len(out, start + 1)
    }
}

/// Index of the last white space character in `s`.
pub open spec fn last_space(s: Seq<char>) -> Option<int>
    decreases s.len(),
{
    if s.len() == 0 {
        None
    } else if white_space(s.last()) {
        Some(s.len() - 1)
    } else {
        last_space(s.drop_last())
    }
}

/// The temperature on hdparm's temperature line: its last word, delimited
/// by white space, a signed byte that must not be negative.
pub open spec fn temperature_line_reading(line: Seq<char>, dev: Seq<char>) -> Result<
    u8,
    ErrorView,
> {
    let t = trim_end_seq(line);
    match last_space(t) {
        None => Err(ErrorView::HdparmBadData(dev)),
        Some(p) => {
            let token = t.subrange(p + 1, t.len() as int);
            match parse_int(token, -128, 127) {
                Err(kind) => Err(ErrorView::SensorValueParse { value: token, kind }),
                Ok(v) => if v >= 0 {
                    Ok(v as u8)
                } else {
                    Err(ErrorView::ReadingExceedsBounds)
                },
            }
        },
    }
}

/// The temperature that hdparm's output from the line at `start` on gives:
/// the first line that reports bad sense data or a temperature decides.
pub open spec fn hdparm_reading_from(out: Seq<char>, start: int, dev: Seq<char>) -> Result<
    u8,
    ErrorView,
>
    decreases out.len() - start,
{
    if start < 0 || start >= out.len() {
        Err(ErrorView::HdparmNoData(dev))
    } else {
        let e = start + line_len(out, start);
        let line = out.subrange(start, e);
        if contains_seq(line, bad_sense_marker()) {
            Err(ErrorView::HdparmBadData(dev))
        } else if contains_seq(line, temperature_marker()) {
            temperature_line_reading(line, dev)
        } else if e >= out.len() {
            Err(ErrorView::HdparmNoData(dev))
        } else {
            hdparm_reading_from(out, e + 1, dev)
        }
    }
}

fn temperature_line(line: &Vec<char>, block_dev: &str) -> (r: Result<u8, Error>)
    ensures
        result_view(r) == temperature_line_reading(line@, block_dev@),
{
    let t = trim_end(line, line.len());
    assert(line@.take(line@.len() as int) =~= line@);
    let mut p = t.len();
    assert(t@.take(p as int) =~= t@);
    while p > 0 && !is_white_space(t[p - 1])
        invariant
            p <= t@.len(),
            last_space(t@) == last_space(t@.take(p as int)),
        decreases p,
    {
        assert(t@.take(p as int).drop_last() =~= t@.take(p - 1));
        p = p - 1;
    }
    if p == 0 {
        return Err(Error::HdparmBadData(block_dev.to_owned()));
    }
    assert(last_space(t@.take(p as int)) == Some(p - 1));
    let token = sub_chars(&t, p, t.len());
    match parse_int_chars(&token, -128, 127) {
        Err(kind) => Err(Error::SensorValueParse { value: string_of(token.as_slice()), kind }),
        Ok(v) => if v >= 0 {
            Ok(v as u8)
        } else {
            Err(Error::ReadingExceedsBounds)
        },
    }
}

/// The temperature in the output of `hdparm -H`: the last word of the line
/// that reports it. A line of bad or missing sense data fails the reading
/// even though hdparm reported success, and so does an output without
/// either line.
pub fn parse_hdparm_output(block_dev: &str, output: &str) -> (r: Result<u8, Error>)
    ensures
        result_view(r) == hdparm_reading_from(output@, 0, block_dev@),
{
    let out = chars_of(output);
    let bad = chars_of("bad/missing sense data");
    let marker = chars_of("drive temperature (celsius) is:");
    let n = out.len();
    let mut start: usize = 0;
    while start < n
        invariant
            n == out@.len(),
            out@ == output@,
            start <= n,
            bad@ == bad_sense_marker(),
            marker@ == temperature_marker(),
            hdparm_reading_from(out@, 0, block_dev@) == hdparm_reading_from(
                out@,
                start as int,
                block_dev@,
            ),
        decreases n - start,
    {
        let mut e = start;
        while e < n && out[e] != '\n'
            invariant
                start <= e <= n == out@.len(),
                start + line_len(out@, start as int) == e + line_len(out@, e as int),
            decreases n - e,
        {
            e = e + 1;
        }
        assert(line_len(out@, e as int) == 0);
        let line = sub_chars(&out, start, e);
        if contains(&line, &bad) {
            return Err(Error::HdparmBadData(block_dev.to_owned()));
        }
        if contains(&line, &marker) {
            return temperature_line(&line, block_dev);
        }
        if e == n {
            return Err(Error::HdparmNoData(block_dev.to_owned()));
        }
        start = e + 1;
    }
    Err(Error::HdparmNoData(block_dev.to_owned()))
}

/// Whether smartctl ended as it does when it answered: with status 0, or
/// with 2 for a drive asleep.
pub open spec fn smart_status_accepted(status: Option<i32>) -> bool {
    status == Some(0i32) || status == Some(2i32)
}

/// The temperature that smartctl's `temperature.current` field gives:
/// `None` when the field is missing, `Some(None)` when it is not an
/// unsigned integer.
pub open spec fn smart_reading(current: Option<Option<u64>>, dev: Seq<char>) -> Result<
    u8,
    ErrorView,
> {
    match current {
        None => Err(ErrorView::SmartNoReading(dev)),
        Some(None) => Err(ErrorView::ReadingExceedsBounds),
        Some(Some(v)) => if v <= 255 {
            Ok(v as u8)
        } else {
            Err(ErrorView::ReadingExceedsBounds)
        },
    }
}

/// What smartctl's exit status and output give: a status other than 0 or 2
/// fails with that status; otherwise output that is not JSON fails to
/// parse, and JSON gives the reading of its `temperature.current` field.
pub open spec fn smart_outcome(
    dev: Seq<char>,
    status: Option<i32>,
    stdout: Seq<u8>,
    r: Result<u8, ErrorView>,
) -> bool {
    if !smart_status_accepted(status) {
        r == Err::<u8, ErrorView>(ErrorView::Command { command: "smartctl"@, status })
    } else if !json_parses(stdout) {
        exists|message: Seq<char>|
            r == Err::<u8, ErrorView>(ErrorView::SmartParse { block_dev: dev, message })
    } else {
        r == smart_reading(json_u64_member(stdout, "temperature"@, "current"@), dev)
    }
}

/// The temperature that smartctl's `temperature.current` field gives, as
/// described by [`smart_reading`].
pub fn smart_temperature(block_dev: &str, current: Option<Option<u64>>) -> (r: Result<u8, Error>)
    ensures
        result_view(r) == smart_reading(current, block_dev@),
{
    match current {
        None => Err(Error::SmartNoReading(block_dev.to_owned())),
        Some(None) => Err(Error::ReadingExceedsBounds),
        Some(Some(v)) => if v <= 255 {
            Ok(v as u8)
        } else {
            Err(Error::ReadingExceedsBounds)
        },
    }
}

/// The temperature in the output of `smartctl -j -A -n standby`, given
/// its exit status. A status other than 0 or 2 fails the reading; then the
/// output must be JSON whose `temperature.current` is a byte.
pub fn parse_smart_source(block_dev: &str, status: Option<i32>, stdout: &[u8]) -> (r: Result<
    u8,
    Error,
>)
    ensures
        smart_outcome(block_dev@, status, stdout@, result_view(r)),
{
    let accepted = match status {
        Some(code) => code == 0 || code == 2,
        None => false,
    };
    if !accepted {
        return Err(Error::Command { command: "smartctl".to_owned(), status });
    }
    let current = match json_u64_at(stdout, "temperature", "current") {
        Ok(c) => c,
        Err(e) => {
            return Err(Error::SmartParse { block_dev: block_dev.to_owned(), message: e });
        },
    };
    smart_temperature(block_dev, current)
}

/// Index of the last entry named `name` among the first `k` entries of
/// the BMC's sensor table: a name that the table repeats takes its last
/// reading.
pub open spec fn sensor_index(table: Seq<(String, Option<SensorReading>)>, name: Seq<char>, k: int) -> Option<int>
    decreases k,
{
    if k <= 0 || k > table.len() {
        None
    } else if table[k - 1].0@ == name {
        Some(k - 1)
    } else {
        sensor_index(table, name, k - 1)
    }
}

/// The temperature that the BMC's sensor table gives for a sensor.
pub open spec fn ipmi_reading(table: Seq<(String, Option<SensorReading>)>, sensor: Seq<char>) -> Result<
    u8,
    ErrorView,
> {
    match sensor_index(table, sensor, table.len() as int) {
        None => Err(ErrorView::SensorNotFound(sensor)),
        Some(j) => match table[j].1 {
            None => Err(ErrorView::SensorNoReading(sensor)),
            Some(reading) => if reading.units != SensorUnits::Celsius {
                Err(ErrorView::SensorBadUnits { sensor, units: reading.units })
            } else {
                match reading.value {
                    SensorValue::Uint32(t) => if t <= 255 {
                        Ok(t as u8)
                    } else {
                        Err(ErrorView::ReadingExceedsBounds)
                    },
                    SensorValue::Double(t) => if t <= 255 {
                        Ok(t as u8)
                    } else {
                        Err(ErrorView::ReadingExceedsBounds)
                    },
                    v => Err(ErrorView::SensorBadValue { sensor, value: v }),
                }
            },
        },
    }
}

/// The temperature of one BMC sensor, looked up in the table of all
/// temperature sensors that one query returned.
pub fn parse_ipmi_source(sensor: &String, table: &Vec<(String, Option<SensorReading>)>) -> (r: Result<
    u8,
    Error,
>)
    ensures
        result_view(r) == ipmi_reading(table@, sensor@),
{
    let n = table.len();
    let mut k: usize = n;
    while k > 0
        invariant
            n == table@.len(),
            k <= n,
            sensor_index(table@, sensor@, n as int) == sensor_index(table@, sensor@, k as int),
        decreases k,
    {
        if table[k - 1].0 == *sensor {
            return match table[k - 1].1 {
                None => Err(Error::SensorNoReading(sensor.clone())),
                Some(reading) => if reading.units != SensorUnits::Celsius {
                    Err(Error::SensorBadUnits { sensor: sensor.clone(), units: reading.units })
                } else {
                    match reading.value {
                        SensorValue::Uint32(t) => if t <= 255 {
                            Ok(t as u8)
                        } else {
                            Err(Error::ReadingExceedsBounds)
                        },
                        SensorValue::Double(t) => if t <= 255 {
                            Ok(t as u8)
                        } else {
                            Err(Error::ReadingExceedsBounds)
                        },
                        v => Err(Error::SensorBadValue { sensor: sensor.clone(), value: v }),
                    }
                },
            };
        }
        k = k - 1;
    }
    Err(Error::SensorNotFound(sensor.clone()))
}

} // verus!

verus! {

/// What was gathered for one source on one tick, before parsing.
#[derive(Clone, Debug)]
pub enum RawSample {
    /// The source is read from the BMC's sensor table.
    Ipmi,
    /// The contents of the file.
    File(String),
    /// smartctl's exit status, `None` when it was ended by a signal, and
    /// its standard output.
    Smart { status: Option<i32>, stdout: Vec<u8> },
    /// hdparm's standard output.
    Hdparm(String),
}

/// Whether the sample was gathered the way the source is read.
pub open spec fn sample_fits(source: Source, sample: RawSample) -> bool {
    match source {
        Source::Ipmi { .. } => sample is Ipmi,
        Source::File { .. } => sample is File,
        Source::Smart { .. } => sample is Smart,
        Source::Hdparm { .. } => sample is Hdparm,
    }
}

/// Whether every sample was gathered the way its source is read.
pub open spec fn samples_fit_spec(sources: Seq<Source>, samples: Seq<RawSample>) -> bool {
    &&& sources.len() == samples.len()
    &&& forall|i: int| 0 <= i < sources.len() ==> sample_fits(#[trigger] sources[i], samples[i])
}

/// What reading one source may give from its sample and the BMC's table.
pub open spec fn source_outcome(
    source: Source,
    sample: RawSample,
    table: Seq<(String, Option<SensorReading>)>,
    r: Result<u8, ErrorView>,
) -> bool {
    match source {
        Source::Ipmi { sensor } => r == ipmi_reading(table, sensor@),
        Source::File { .. } => match sample {
            RawSample::File(contents) => r == file_reading(trim_seq(contents@)),
            _ => false,
        },
        Source::Smart { block_dev } => match sample {
            RawSample::Smart { status, stdout } => smart_outcome(block_dev@, status, stdout@, r),
            _ => false,
        },
        Source::Hdparm { block_dev } => match sample {
            RawSample::Hdparm(output) => r == hdparm_reading_from(output@, 0, block_dev@),
            _ => false,
        },
    }
}

/// Whether some reading of the source succeeds.
pub open spec fn source_readable(
    source: Source,
    sample: RawSample,
    table: Seq<(String, Option<SensorReading>)>,
) -> bool {
    exists|t: u8| source_outcome(source, sample, table, Ok(t))
}

/// Whether the samples were gathered the way their sources are read.
pub fn samples_fit(sources: &Vec<Source>, samples: &Vec<RawSample>) -> (r: bool)
    ensures
        r == samples_fit_spec(sources@, samples@),
{
    if sources.len() != samples.len() {
        return false;
    }
    let n = sources.len();
    let mut i: usize = 0;
    while i < n
        invariant
            n == sources@.len() == samples@.len(),
            i <= n,
            forall|j: int| 0 <= j < i ==> sample_fits(#[trigger] sources@[j], samples@[j]),
        decreases n - i,
    {
        let fits = match (&sources[i], &samples[i]) {
            (Source::Ipmi { .. }, RawSample::Ipmi) => true,
            (Source::File { .. }, RawSample::File(_)) => true,
            (Source::Smart { .. }, RawSample::Smart { .. }) => true,
            (Source::Hdparm { .. }, RawSample::Hdparm(_)) => true,
            _ => false,
        };
        if !fits {
            return false;
        }
        i = i + 1;
    }
    true
}

/// Whether some source is read from the BMC, whose sensor table is then
/// queried once for all of them.
pub fn needs_ipmi_readings(sources: &Vec<Source>) -> (r: bool)
    ensures
        r == exists|i: int| 0 <= i < sources@.len() && #[trigger] sources@[i] is Ipmi,
{
    let n = sources.len();
    let mut i: usize = 0;
    while i < n
        invariant
            n == sources@.len(),
            i <= n,
            forall|j: int| 0 <= j < i ==> !(#[trigger] sources@[j] is Ipmi),
        decreases n - i,
    {
        if let Source::Ipmi { .. } = &sources[i] {
            return true;
        }
        i = i + 1;
    }
    false
}

/// The temperature of one source, from its sample and the BMC's table.
pub fn source_reading(
    source: &Source,
    sample: &RawSample,
    table: &Vec<(String, Option<SensorReading>)>,
) -> (r: Result<u8, Error>)
    requires
        sample_fits(*source, *sample),
    ensures
        source_outcome(*source, *sample, table@, result_view(r)),
{
    match source {
        Source::Ipmi { sensor } => parse_ipmi_source(sensor, table),
        Source::File { .. } => match sample {
            RawSample::File(contents) => parse_file_source(contents.as_str()),
            _ => vstd::pervasive::unreached(),
        },
        Source::Smart { block_dev } => match sample {
            RawSample::Smart { status, stdout } => parse_smart_source(
                block_dev.as_str(),
                *status,
                stdout.as_slice(),
            ),
            _ => vstd::pervasive::unreached(),
        },
        Source::Hdparm { block_dev } => match sample {
            RawSample::Hdparm(output) => parse_hdparm_output(block_dev.as_str(), output.as_str()),
            _ => vstd::pervasive::unreached(),
        },
    }
}

/// The temperatures of a zone's sources, in the order given: the first
/// source that cannot be read fails them all.
pub fn get_source_readings(
    sources: &Vec<Source>,
    table: &Vec<(String, Option<SensorReading>)>,
    samples: &Vec<RawSample>,
) -> (r: Result<Vec<u8>, Error>)
    requires
        samples_fit_spec(sources@, samples@),
    ensures
        match r {
            Ok(v) => {
                &&& v@.len() == sources@.len()
                &&& forall|i: int|
                    0 <= i < sources@.len() ==> source_outcome(
                        #[trigger] sources@[i],
                        samples@[i],
                        table@,
                        Ok(v@[i]),
                    )
            },
            Err(e) => exists|i: int|
                0 <= i < sources@.len() && source_outcome(
                    #[trigger] sources@[i],
                    samples@[i],
                    table@,
                    Err(e@),
                ) && forall|j: int|
                    0 <= j < i ==> source_readable(#[trigger] sources@[j], samples@[j], table@),
        },
{
    let n = sources.len();
    let mut readings: Vec<u8> = Vec::new();
    let mut i: usize = 0;
    while i < n
        invariant
            n == sources@.len(),
            samples_fit_spec(sources@, samples@),
            i <= n,
            readings@.len() == i,
            forall|j: int|
                0 <= j < i ==> source_outcome(
                    #[trigger] sources@[j],
                    samples@[j],
                    table@,
                    Ok(readings@[j]),
                ),
        decreases n - i,
    {
        assert(sample_fits(sources@[i as int], samples@[i as int]));
        match source_reading(&sources[i], &samples[i], table) {
            Ok(t) => readings.push(t),
            Err(e) => {
                assert forall|j: int| 0 <= j < i implies source_readable(
                    #[trigger] sources@[j],
                    samples@[j],
                    table@,
                ) by {
                    assert(source_outcome(sources@[j], samples@[j], table@, Ok(readings@[j])));
                }
                return Err(e);
            },
        }
        i = i + 1;
    }
    Ok(readings)
}

} // verus!
