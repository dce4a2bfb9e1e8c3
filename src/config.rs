use std::time::Duration;
use vstd::prelude::*;

use crate::error::ConfigIssue;

verus! {

/// Verbosity of the daemon's log.
#[derive(Clone, Copy, Debug, PartialEq, Eq, Structural)]
pub enum LogLevel {
    Error,
    Warn,
    Info,
    Debug,
    Trace,
}

impl LogLevel {
    /// The lower-case name of the level, as written in a configuration file.
    pub fn as_str(&self) -> (r: &'static str)
        ensures
            r@ == log_level_name(*self),
    {
        match self {
            LogLevel::Error => "error",
            LogLevel::Warn => "warn",
            LogLevel::Info => "info",
            LogLevel::Debug => "debug",
            LogLevel::Trace => "trace",
        }
    }
}

/// The name of a level in a configuration file.
pub open spec fn log_level_name(l: LogLevel) -> Seq<char> {
    match l {
        LogLevel::Error => "error"@,
        LogLevel::Warn => "warn"@,
        LogLevel::Info => "info"@,
        LogLevel::Debug => "debug"@,
        LogLevel::Trace => "trace"@,
    }
}

impl Default for LogLevel {
    fn default() -> (r: Self)
        ensures
            r == LogLevel::Info,
    {
        LogLevel::Info
    }
}

/// Seconds between two ticks of a zone.
#[derive(Clone, Copy, Debug)]
pub struct Interval(pub u16);

/// What `Duration::from_secs` returns for a number of seconds.
pub uninterp spec fn secs_duration(secs: u64) -> Duration;

/// What `Duration::from_millis` returns for a number of milliseconds.
pub uninterp spec fn millis_duration(millis: u64) -> Duration;

/// Relies on `Duration::from_secs`, which builds the span of `secs` seconds.
#[verifier::external_body]
fn duration_from_secs(secs: u64) -> (r: Duration)
    ensures
        r == secs_duration(secs),
{
    Duration::from_secs(secs)
}

/// Relies on `retry::delay::Fixed`: built by `from_millis(millis)`, its
/// `next` never ends and yields `Duration::from_millis(millis)` every time.
#[verifier::external_body]
fn fixed_delays(millis: u64, count: usize) -> (r: Vec<Duration>)
    ensures
        r@.len() == count,
        forall|i: int| 0 <= i < count ==> r@[i] == millis_duration(millis),
{
    retry::delay::Fixed::from_millis(millis).take(count).collect()
}

impl Interval {
    /// The interval as a span of time.
    pub fn to_duration(self) -> (r: Duration)
        ensures
            r == secs_duration(self.0 as u64),
    {
        duration_from_secs(self.0 as u64)
    }
}

impl Default for Interval {
    fn default() -> (r: Self)
        ensures
            r.0 == 1,
    {
        Interval(1)
    }
}

/// Attempts made after the first failed one.
#[derive(Clone, Copy, Debug)]
pub struct Retries(pub usize);

impl Default for Retries {
    fn default() -> (r: Self)
        ensures
            r.0 == 2,
    {
        Retries(2)
    }
}

/// Pause between two attempts, in milliseconds.
#[derive(Clone, Copy, Debug)]
pub struct RetryDelayMs(pub u64);

impl Default for RetryDelayMs {
    fn default() -> (r: Self)
        ensures
            r.0 == 500,
    {
        RetryDelayMs(500)
    }
}

/// One point of a zone's curve: at `temp` degrees Celsius, drive the fans at
/// `dcycle` percent.
#[derive(Clone, Copy, Debug, PartialEq, Eq, Structural)]
pub struct Step {
    pub temp: u8,
    pub dcycle: u8,
}

/// The name of a session, `"default"` unless stated.
#[derive(Clone, Debug)]
pub struct SessionName(pub String);

/// The name of the session that zones use unless they name another.
pub open spec fn default_session_name() -> Seq<char> {
    "default"@
}

impl Default for SessionName {
    fn default() -> (r: Self)
        ensures
            r.0@ == default_session_name(),
    {
        SessionName("default".to_owned())
    }
}

/// Where one temperature sample comes from.
#[derive(Clone, Debug)]
pub enum Source {
    /// A temperature sensor of the BMC, by name.
    Ipmi { sensor: String },
    /// A file holding thousandths of a degree Celsius.
    File { path: String },
    /// A disk queried through smartctl.
    Smart { block_dev: String },
    /// A disk queried through hdparm.
    Hdparm { block_dev: String },
}

/// How a zone reduces its readings to one temperature.
#[derive(Clone, Copy, Debug, PartialEq, Eq, Structural)]
pub enum Aggregation {
    /// The hottest reading.
    Maximum,
    /// The mean of the `top` hottest readings, or of all of them.
    Average { top: Option<usize> },
}

impl Default for Aggregation {
    fn default() -> (r: Self)
        ensures
            r == Aggregation::Maximum,
    {
        Aggregation::Maximum
    }
}

/// A group of fan headers driven from one derived temperature.
#[derive(Clone, Debug)]
pub struct Zone {
    pub session: SessionName,
    pub interval: Interval,
    pub retries: Retries,
    pub retry_delay_ms: RetryDelayMs,
    pub ipmi_zones: Vec<u8>,
    pub sources: Vec<Source>,
    pub aggregation: Aggregation,
    pub steps: Vec<Step>,
}

impl Zone {
    /// The pauses to take before each retry of a failed operation: one per
    /// retry, each of `retry_delay_ms` milliseconds.
    pub fn retry_iter(&self) -> (r: Vec<Duration>)
        ensures
            r@.len() == self.retries.0,
            forall|i: int|
                0 <= i < r@.len() ==> r@[i] == millis_duration(self.retry_delay_ms.0),
    {
        fixed_delays(self.retry_delay_ms.0, self.retries.0)
    }
}

/// The declared sessions: a name and its connection arguments each.
#[derive(Clone, Debug)]
pub struct Sessions(pub Vec<(String, Vec<String>)>);

/// The whole configuration of the daemon.
#[derive(Clone, Debug)]
pub struct Config {
    pub log_level: LogLevel,
    pub sessions: Sessions,
    pub zones: Vec<Zone>,
}

/// Whether a session of that name is declared.
pub open spec fn session_declared(sessions: Seq<(String, Vec<String>)>, name: Seq<char>) -> bool {
    exists|j: int| 0 <= j < sessions.len() && #[trigger] sessions[j].0@ == name
}

/// Whether a zone may name that session: the default one always exists.
pub open spec fn session_known(sessions: Seq<(String, Vec<String>)>, name: Seq<char>) -> bool {
    name == default_session_name() || session_declared(sessions, name)
}

/// The first issue found in `steps[k..]` of zone `zone`: adjacent pairs
/// first, then the percentages from the start.
pub open spec fn steps_issue_from(steps: Seq<Step>, zone: usize, k: int) -> Option<ConfigIssue>
    decreases steps.len() - k,
{
    if k < 0 || k + 1 >= steps.len() {
        percentage_issue_from(steps, zone, 0)
    } else if steps[k].temp >= steps[k + 1].temp {
        Some(ConfigIssue::TempsNotIncreasing { zone })
    } else if steps[k].dcycle > steps[k + 1].dcycle {
        Some(ConfigIssue::DcyclesNotIncreasing { zone })
    } else {
        steps_issue_from(steps, zone, k + 1)
    }
}

/// The first step from `k` on whose duty cycle exceeds 100.
pub open spec fn percentage_issue_from(steps: Seq<Step>, zone: usize, k: int) -> Option<ConfigIssue>
    decreases steps.len() - k,
{
    if k < 0 || k >= steps.len() {
        None
    } else if steps[k].dcycle > 100 {
        Some(ConfigIssue::BadPercentage { zone, step: k as usize, dcycle: steps[k].dcycle })
    } else {
        percentage_issue_from(steps, zone, k + 1)
    }
}

/// The first issue of zone `z`, found at index `i`, in the order the checks
/// are made.
pub open spec fn zone_issue(z: Zone, i: usize, sessions: Seq<(String, Vec<String>)>) -> Option<
    ConfigIssue,
> {
    if z.interval.0 == 0 {
        Some(ConfigIssue::ZeroInterval { zone: i })
    } else if z.ipmi_zones@.len() == 0 {
        Some(ConfigIssue::NoIpmiZones { zone: i })
    } else if z.sources@.len() == 0 {
        Some(ConfigIssue::NoSources { zone: i })
    } else if !session_known(sessions, z.session.0@) {
        Some(ConfigIssue::UnknownSession { zone: i })
    } else if z.aggregation == (Aggregation::Average { top: Some(0) }) {
        Some(ConfigIssue::ZeroTop { zone: i })
    } else {
        steps_issue_from(z.steps@, i, 0)
    }
}

/// The first issue among `zones[i..]`.
pub open spec fn zones_issue_from(
    zones: Seq<Zone>,
    sessions: Seq<(String, Vec<String>)>,
    i: int,
) -> Option<ConfigIssue>
    decreases zones.len() - i,
{
    if i < 0 || i >= zones.len() {
        None
    } else {
        match zone_issue(zones[i], i as usize, sessions) {
            Some(issue) => Some(issue),
            None => zones_issue_from(zones, sessions, i + 1),
        }
    }
}

/// The first issue of a configuration, if it has one.
pub open spec fn config_issue(c: Config) -> Option<ConfigIssue> {
    if c.zones@.len() == 0 {
        Some(ConfigIssue::NoZones)
    } else {
        zones_issue_from(c.zones@, c.sessions.0@, 0)
    }
}

/// A curve whose temperatures strictly increase and whose duty cycles never
/// decrease.
pub open spec fn steps_ordered(steps: Seq<Step>) -> bool {
    forall|i: int, j: int|
        0 <= i < j < steps.len() ==> #[trigger] steps[i].temp < #[trigger] steps[j].temp
            && steps[i].dcycle <= steps[j].dcycle
}

/// A curve that validation accepts: ordered, with percentages only.
pub open spec fn steps_valid(steps: Seq<Step>) -> bool {
    &&& steps_ordered(steps)
    &&& forall|i: int| 0 <= i < steps.len() ==> #[trigger] steps[i].dcycle <= 100
}

/// A zone that validation accepts.
pub open spec fn zone_valid(z: Zone) -> bool {
    &&& z.interval.0 > 0
    &&& z.ipmi_zones@.len() > 0
    &&& z.sources@.len() > 0
    &&& z.aggregation != (Aggregation::Average { top: Some(0) })
    &&& steps_valid(z.steps@)
}

proof fn lemma_percentage_issue(steps: Seq<Step>, zone: usize, k: int)
    requires
        0 <= k,
        percentage_issue_from(steps, zone, k) is None,
    ensures
        forall|i: int| k <= i < steps.len() ==> #[trigger] steps[i].dcycle <= 100,
    decreases steps.len() - k,
{
    if k < steps.len() {
        lemma_percentage_issue(steps, zone, k + 1);
    }
}

proof fn lemma_steps_issue(steps: Seq<Step>, zone: usize, k: int)
    requires
        0 <= k,
        steps_issue_from(steps, zone, k) is None,
    ensures
        forall|i: int, j: int| k <= i < j < steps.len() ==> #[trigger] steps[i].temp < #[trigger] steps[j].temp
            && steps[i].dcycle <= steps[j].dcycle,
        percentage_issue_from(steps, zone, 0) is None,
    decreases steps.len() - k,
{
    if k + 1 < steps.len() {
        lemma_steps_issue(steps, zone, k + 1);
        assert forall|i: int, j: int| k <= i < j < steps.len() implies #[trigger] steps[i].temp
            < #[trigger] steps[j].temp && steps[i].dcycle <= steps[j].dcycle by {
            if i == k && j > k + 1 {
                assert(steps[k + 1].temp < steps[j].temp);
            }
        }
    }
}

/// A zone of a configuration that validation accepted has a curve that is
/// ordered and holds percentages only, and meets the other checks.
pub proof fn lemma_zone_issue_free(z: Zone, i: usize, sessions: Seq<(String, Vec<String>)>)
    requires
        zone_issue(z, i, sessions) is None,
    ensures
        zone_valid(z),
        session_known(sessions, z.session.0@),
{
    lemma_steps_issue(z.steps@, i, 0);
    lemma_percentage_issue(z.steps@, i, 0);
}

/// Every zone of a configuration without issues is valid.
pub proof fn lemma_config_issue_free(c: Config, i: int)
    requires
        config_issue(c) is None,
        0 <= i < c.zones@.len(),
    ensures
        zone_valid(c.zones@[i]),
        session_known(c.sessions.0@, c.zones@[i].session.0@),
{
    lemma_zones_issue_from(c.zones@, c.sessions.0@, 0, i);
    lemma_zone_issue_free(c.zones@[i], i as usize, c.sessions.0@);
}

proof fn lemma_zones_issue_from(zones: Seq<Zone>, sessions: Seq<(String, Vec<String>)>, k: int, i: int)
    requires
        0 <= k <= i < zones.len(),
        zones_issue_from(zones, sessions, k) is None,
    ensures
        zone_issue(zones[i], i as usize, sessions) is None,
    decreases i - k,
{
    if k < i {
        lemma_zones_issue_from(zones, sessions, k + 1, i);
    }
}

fn check_steps(steps: &Vec<Step>, zone: usize) -> (r: Option<ConfigIssue>)
    ensures
        r == steps_issue_from(steps@, zone, 0),
{
    let n = steps.len();
    let mut k: usize = 0;
    while n > 0 && k < n - 1
        invariant
            n == steps@.len(),
            k <= n,
            steps_issue_from(steps@, zone, 0) == steps_issue_from(steps@, zone, k as int),
        decreases n - k,
    {
        if steps[k].temp >= steps[k + 1].temp {
            return Some(ConfigIssue::TempsNotIncreasing { zone });
        } else if steps[k].dcycle > steps[k + 1].dcycle {
            return Some(ConfigIssue::DcyclesNotIncreasing { zone });
        }
        k = k + 1;
    }
    let mut j: usize = 0;
    while j < n
        invariant
            n == steps@.len(),
            j <= n,
            steps_issue_from(steps@, zone, 0) == percentage_issue_from(steps@, zone, j as int),
        decreases n - j,
    {
        if steps[j].dcycle > 100 {
            return Some(ConfigIssue::BadPercentage { zone, step: j, dcycle: steps[j].dcycle });
        }
        j = j + 1;
    }
    None
}

fn has_session(sessions: &Sessions, name: &String) -> (r: bool)
    ensures
        r == session_declared(sessions.0@, name@),
{
    let n = sessions.0.len();
    let mut j: usize = 0;
    while j < n
        invariant
            n == sessions.0@.len(),
            j <= n,
            forall|m: int| 0 <= m < j ==> sessions.0@[m].0@ != name@,
        decreases n - j,
    {
        if sessions.0[j].0 == *name {
            return true;
        }
        j = j + 1;
    }
    false
}

fn check_zone(z: &Zone, i: usize, sessions: &Sessions) -> (r: Option<ConfigIssue>)
    requires
        session_declared(sessions.0@, default_session_name()),
    ensures
        r == zone_issue(*z, i, sessions.0@),
{
    if z.interval.0 == 0 {
        Some(ConfigIssue::ZeroInterval { zone: i })
    } else if z.ipmi_zones.len() == 0 {
        Some(ConfigIssue::NoIpmiZones { zone: i })
    } else if z.sources.len() == 0 {
        Some(ConfigIssue::NoSources { zone: i })
    } else if !has_session(sessions, &z.session.0) {
        Some(ConfigIssue::UnknownSession { zone: i })
    } else if matches!(z.aggregation, Aggregation::Average { top: Some(0) }) {
        Some(ConfigIssue::ZeroTop { zone: i })
    } else {
        check_steps(&z.steps, i)
    }
}

/// The sessions with the default one declared, as it is when absent: with
/// no connection arguments.
pub open spec fn with_default_session(
    before: Seq<(String, Vec<String>)>,
    after: Seq<(String, Vec<String>)>,
) -> bool {
    if session_declared(before, default_session_name()) {
        after == before
    } else {
        &&& after.len() == before.len() + 1
        &&& after.drop_last() == before
        &&& after.last().0@ == default_session_name()
        &&& after.last().1@.len() == 0
    }
}

/// Checks a parsed configuration and declares the default session if it is
/// absent. The first issue found is returned, zone by zone in order.
pub fn validate_config(config: Config) -> (r: Result<Config, ConfigIssue>)
    ensures
        match r {
            Ok(c) => {
                &&& config_issue(config) is None
                &&& c.log_level == config.log_level
                &&& c.zones == config.zones
                &&& with_default_session(config.sessions.0@, c.sessions.0@)
            },
            Err(issue) => config_issue(config) == Some(issue),
        },
{
    let ghost given = config;
    let mut cfg = config;
    let ghost before = cfg.sessions.0@;
    let default_name = SessionName::default();
    if !has_session(&cfg.sessions, &default_name.0) {
        cfg.sessions.0.push((default_name.0, Vec::new()));
        assert(cfg.sessions.0@[before.len() as int].0@ == default_session_name());
    }
    assert(session_declared(cfg.sessions.0@, default_session_name()));
    proof {
        if !session_declared(before, default_session_name()) {
            assert(cfg.sessions.0@.drop_last() =~= before);
        }
    }
    assert forall|name: Seq<char>| session_known(before, name) == session_declared(
        cfg.sessions.0@,
        name,
    ) by {
        if session_declared(cfg.sessions.0@, name) && !session_declared(before, name) {
            let j = choose|j: int|
                0 <= j < cfg.sessions.0@.len() && #[trigger] cfg.sessions.0@[j].0@ == name;
            assert(j == before.len());
        }
        if session_declared(before, name) {
            let j = choose|j: int| 0 <= j < before.len() && #[trigger] before[j].0@ == name;
            assert(cfg.sessions.0@[j] == before[j]);
        }
    }
    let n = cfg.zones.len();
    if n == 0 {
        return Err(ConfigIssue::NoZones);
    }
    let mut i: usize = 0;
    while i < n
        invariant
            n == cfg.zones@.len(),
            i <= n,
            given == config,
            cfg.zones == given.zones,
            cfg.log_level == given.log_level,
            before == given.sessions.0@,
            with_default_session(before, cfg.sessions.0@),
            session_declared(cfg.sessions.0@, default_session_name()),
            forall|name: Seq<char>| session_known(before, name) == session_declared(
                cfg.sessions.0@,
                name,
            ),
            zones_issue_from(cfg.zones@, before, 0) == zones_issue_from(
                cfg.zones@,
                before,
                i as int,
            ),
        decreases n - i,
    {
        let issue = check_zone(&cfg.zones[i], i, &cfg.sessions);
        assert(zone_issue(cfg.zones@[i as int], i, cfg.sessions.0@) == zone_issue(
            cfg.zones@[i as int],
            i,
            before,
        ));
        assert(zones_issue_from(cfg.zones@, before, i as int) == match issue {
            Some(x) => Some(x),
            None => zones_issue_from(cfg.zones@, before, i + 1),
        });
        match issue {
            Some(x) => {
                return Err(x);
            },
            None => {},
        }
        i = i + 1;
    }
    Ok(cfg)
}

} // verus!
