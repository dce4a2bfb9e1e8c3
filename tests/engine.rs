use std::time::Duration;

use ipmi_fan_control::aggregate::aggregate;
use ipmi_fan_control::config::{
    validate_config, Aggregation, Config, Interval, LogLevel, Retries, RetryDelayMs, SessionName,
    Sessions, Source, Step, Zone,
};
use ipmi_fan_control::curve::duty_cycle_for;
use ipmi_fan_control::error::{ConfigIssue, Error};
use ipmi_fan_control::ipmi::{self, check_raw_response, DeviceCommand, FanMode, Ipmi};
use ipmi_fan_control::retry::{Retry, RetryStep};
use ipmi_fan_control::session::IpmiSession;
use ipmi_fan_control::source::{
    get_source_readings, needs_ipmi_readings, parse_file_source, parse_hdparm_output,
    parse_ipmi_source, parse_smart_source, samples_fit, IntErrorKind, RawSample, SensorReading,
    SensorUnits, SensorValue,
};
use ipmi_fan_control::text::is_white_space;
use ipmi_fan_control::supervisor::{
    exit_code, ControllerExit, MainApp, Supervisor, SupervisorEvent, ZoneAction, ZoneController,
    ZoneState,
};

fn steps(pairs: &[(u8, u8)]) -> Vec<Step> {
    pairs.iter().map(|&(temp, dcycle)| Step { temp, dcycle }).collect()
}

fn zone(session: &str, ipmi_zones: Vec<u8>, retries: usize) -> Zone {
    Zone {
        session: SessionName(session.to_owned()),
        interval: Interval(5),
        retries: Retries(retries),
        retry_delay_ms: RetryDelayMs(10),
        ipmi_zones,
        sources: vec![Source::Ipmi { sensor: "CPU Temp".to_owned() }],
        aggregation: Aggregation::Maximum,
        steps: steps(&[(40, 20), (60, 50), (80, 90)]),
    }
}

fn config(sessions: Vec<(&str, Vec<&str>)>, zones: Vec<Zone>) -> Config {
    Config {
        log_level: LogLevel::default(),
        sessions: Sessions(
            sessions
                .into_iter()
                .map(|(n, args)| (n.to_owned(), args.into_iter().map(|a| a.to_owned()).collect()))
                .collect(),
        ),
        zones,
    }
}

#[test]
fn curve_exact_match() {
    assert_eq!(duty_cycle_for(&steps(&[(40, 20), (60, 50), (80, 90)]), 60), 50);
}

#[test]
fn curve_interpolates_between_steps() {
    assert_eq!(duty_cycle_for(&steps(&[(40, 20), (60, 50), (80, 90)]), 50), 35);
    assert_eq!(duty_cycle_for(&steps(&[(40, 20), (60, 50), (80, 90)]), 61), 52);
}

#[test]
fn curve_saturates_low_and_high() {
    let s = steps(&[(40, 20), (60, 50), (80, 90)]);
    assert_eq!(duty_cycle_for(&s, 10), 20);
    assert_eq!(duty_cycle_for(&s, 40), 20);
    assert_eq!(duty_cycle_for(&s, 95), 90);
    assert_eq!(duty_cycle_for(&s, 255), 90);
}

#[test]
fn curve_without_steps_is_full_speed() {
    assert_eq!(duty_cycle_for(&Vec::new(), 30), 100);
}

#[test]
fn curve_never_decreases_with_temperature() {
    let s = steps(&[(30, 10), (45, 10), (50, 60), (70, 61), (90, 100)]);
    let mut last = 0;
    for t in 0..=255u8 {
        let d = duty_cycle_for(&s, t);
        assert!(d >= last, "duty cycle fell at {}", t);
        last = d;
    }
}

#[test]
fn average_of_top_readings() {
    let r = aggregate(&vec![70, 50, 60], Aggregation::Average { top: Some(2) });
    assert_eq!(r.unwrap(), 65);
}

#[test]
fn average_truncates_and_takes_all_by_default() {
    assert_eq!(aggregate(&vec![70, 50, 61], Aggregation::Average { top: None }).unwrap(), 60);
    assert_eq!(aggregate(&vec![70, 50, 61], Aggregation::Average { top: Some(9) }).unwrap(), 60);
    assert_eq!(aggregate(&vec![255, 255], Aggregation::Average { top: None }).unwrap(), 255);
}

#[test]
fn maximum_reading() {
    assert_eq!(aggregate(&vec![70, 50, 60], Aggregation::Maximum).unwrap(), 70);
}

#[test]
fn no_readings_fail_in_every_mode() {
    assert!(matches!(aggregate(&vec![], Aggregation::Maximum), Err(Error::NoValidReadings)));
    assert!(matches!(
        aggregate(&vec![], Aggregation::Average { top: None }),
        Err(Error::NoValidReadings)
    ));
    assert!(matches!(
        aggregate(&vec![], Aggregation::Average { top: Some(2) }),
        Err(Error::NoValidReadings)
    ));
    assert!(matches!(
        aggregate(&vec![40], Aggregation::Average { top: Some(0) }),
        Err(Error::NoValidReadings)
    ));
}

#[test]
fn retry_succeeds_within_retries() {
    let z = zone("default", vec![0], 2);
    let mut retry = Retry::new(&z);
    assert!(matches!(retry.on_outcome::<u8>(Err(Error::NoValidReadings)), RetryStep::RetryAfter(d) if d == Duration::from_millis(10)));
    assert!(matches!(retry.on_outcome::<u8>(Err(Error::NoValidReadings)), RetryStep::RetryAfter(_)));
    assert!(matches!(retry.on_outcome::<u8>(Ok(7)), RetryStep::Succeeded(7)));
    assert_eq!(retry.attempts, 3);
}

#[test]
fn retry_gives_up_after_retries() {
    let z = zone("default", vec![0], 1);
    let mut retry = Retry::new(&z);
    assert!(matches!(retry.on_outcome::<u8>(Err(Error::NoValidReadings)), RetryStep::RetryAfter(_)));
    match retry.on_outcome::<u8>(Err(Error::ReadingExceedsBounds)) {
        RetryStep::Failed(Error::RetriesFailed { attempts, source }) => {
            assert_eq!(attempts, 2);
            assert!(matches!(*source, Error::ReadingExceedsBounds));
        }
        other => panic!("unexpected step: {:?}", other),
    }
}

#[test]
fn retry_delays_follow_the_zone() {
    let z = zone("default", vec![0], 3);
    let delays = z.retry_iter();
    assert_eq!(delays, vec![Duration::from_millis(10); 3]);
    assert_eq!(Interval(5).to_duration(), Duration::from_secs(5));
}

#[test]
fn defaults() {
    assert_eq!(Interval::default().0, 1);
    assert_eq!(Retries::default().0, 2);
    assert_eq!(RetryDelayMs::default().0, 500);
    assert_eq!(SessionName::default().0, "default");
    assert_eq!(Aggregation::default(), Aggregation::Maximum);
    assert_eq!(LogLevel::default(), LogLevel::Info);
    assert_eq!(LogLevel::Trace.as_str(), "trace");
}

#[test]
fn validation_adds_the_default_session() {
    let c = validate_config(config(vec![], vec![zone("default", vec![0], 2)])).unwrap();
    assert_eq!(c.sessions.0.len(), 1);
    assert_eq!(c.sessions.0[0].0, "default");
    assert!(c.sessions.0[0].1.is_empty());
    let c = validate_config(config(vec![("default", vec!["-h", "bmc"])], vec![zone("default", vec![0], 2)])).unwrap();
    assert_eq!(c.sessions.0.len(), 1);
    assert_eq!(c.sessions.0[0].1, vec!["-h".to_owned(), "bmc".to_owned()]);
}

#[test]
fn validation_reports_the_first_issue() {
    assert_eq!(validate_config(config(vec![], vec![])).unwrap_err(), ConfigIssue::NoZones);
    let mut z = zone("default", vec![0], 2);
    z.interval = Interval(0);
    assert_eq!(
        validate_config(config(vec![], vec![zone("default", vec![0], 2), z])).unwrap_err(),
        ConfigIssue::ZeroInterval { zone: 1 }
    );
    let z = zone("default", vec![], 2);
    assert_eq!(validate_config(config(vec![], vec![z])).unwrap_err(), ConfigIssue::NoIpmiZones { zone: 0 });
    let mut z = zone("default", vec![1], 2);
    z.sources.clear();
    assert_eq!(validate_config(config(vec![], vec![z])).unwrap_err(), ConfigIssue::NoSources { zone: 0 });
    let z = zone("rack", vec![1], 2);
    assert_eq!(validate_config(config(vec![], vec![z])).unwrap_err(), ConfigIssue::UnknownSession { zone: 0 });
    let mut z = zone("default", vec![1], 2);
    z.aggregation = Aggregation::Average { top: Some(0) };
    assert_eq!(validate_config(config(vec![], vec![z])).unwrap_err(), ConfigIssue::ZeroTop { zone: 0 });
    let mut z = zone("default", vec![1], 2);
    z.steps = steps(&[(40, 20), (40, 30)]);
    assert_eq!(validate_config(config(vec![], vec![z])).unwrap_err(), ConfigIssue::TempsNotIncreasing { zone: 0 });
    let mut z = zone("default", vec![1], 2);
    z.steps = steps(&[(40, 30), (50, 20)]);
    assert_eq!(validate_config(config(vec![], vec![z])).unwrap_err(), ConfigIssue::DcyclesNotIncreasing { zone: 0 });
    let mut z = zone("default", vec![1], 2);
    z.steps = steps(&[(40, 30), (50, 101)]);
    assert_eq!(
        validate_config(config(vec![], vec![z])).unwrap_err(),
        ConfigIssue::BadPercentage { zone: 0, step: 1, dcycle: 101 }
    );
}

#[test]
fn fan_mode_codes() {
    assert_eq!(FanMode::from(0), FanMode::Standard);
    assert_eq!(FanMode::from(1), FanMode::Full);
    assert_eq!(FanMode::from(2), FanMode::Optimal);
    assert_eq!(FanMode::from(4), FanMode::HeavyIo);
    assert_eq!(FanMode::from(3), FanMode::Unknown(3));
    assert_eq!(u8::from(FanMode::HeavyIo), 4);
    assert_eq!(u8::from(FanMode::Unknown(9)), 9);
}

#[test]
fn oem_requests() {
    let r = Ipmi::set_duty_cycle_request(1, 45);
    assert_eq!((r.net_fn, r.command, r.data.clone(), r.expected_size), (0x30, 0x70, vec![0x66, 0x01, 1, 45], 0));
    let r = Ipmi::get_duty_cycle_request(2);
    assert_eq!((r.net_fn, r.command, r.data.clone(), r.expected_size), (0x30, 0x70, vec![0x66, 0x00, 2], 1));
    let r = Ipmi::get_fan_mode_request();
    assert_eq!((r.command, r.data.clone(), r.expected_size), (0x45, vec![0x00], 1));
    let r = DeviceCommand::SetFanMode(FanMode::Optimal).to_raw();
    assert_eq!((r.command, r.data.clone(), r.expected_size), (0x45, vec![0x01, 2], 0));
}

#[test]
fn oem_responses() {
    assert_eq!(Ipmi::get_fan_mode(vec![1]).unwrap(), FanMode::Full);
    assert_eq!(Ipmi::get_duty_cycle(vec![64]).unwrap(), 64);
    assert_eq!(
        Ipmi::get_duty_cycle(vec![]).unwrap_err(),
        ipmi::Error::BadResponseSize { expected: 1, actual: 0 }
    );
    assert!(Ipmi::set_duty_cycle(vec![]).is_ok());
    assert_eq!(
        Ipmi::set_fan_mode(vec![3]).unwrap_err(),
        ipmi::Error::BadResponseSize { expected: 0, actual: 1 }
    );
    assert_eq!(check_raw_response(0x45, &vec![0x45, 0x00, 4]).unwrap(), vec![4]);
    assert_eq!(check_raw_response(0x45, &vec![0x45]).unwrap_err(), ipmi::Error::ResponseTooShort);
    assert_eq!(
        check_raw_response(0x45, &vec![0x70, 0x00]).unwrap_err(),
        ipmi::Error::BadResponseCommand { request: 0x45, response: 0x70 }
    );
    assert_eq!(
        check_raw_response(0x45, &vec![0x45, 0xc1]).unwrap_err(),
        ipmi::Error::CommandFailed { code: 0xc1 }
    );
}

#[test]
fn file_source() {
    assert_eq!(parse_file_source("45000\n").unwrap(), 45);
    assert_eq!(parse_file_source("  +45999 ").unwrap(), 45);
    assert_eq!(parse_file_source("255999").unwrap(), 255);
    assert!(matches!(parse_file_source("256000"), Err(Error::ReadingExceedsBounds)));
    assert!(matches!(
        parse_file_source("4a000"),
        Err(Error::SensorValueParse { ref value, kind: IntErrorKind::InvalidDigit }) if value == "4a000"
    ));
    assert!(matches!(parse_file_source(" \n"), Err(Error::SensorValueParse { kind: IntErrorKind::Empty, .. })));
    assert!(matches!(parse_file_source("-1"), Err(Error::SensorValueParse { kind: IntErrorKind::InvalidDigit, .. })));
    assert!(matches!(
        parse_file_source("4294967296"),
        Err(Error::SensorValueParse { kind: IntErrorKind::PosOverflow, .. })
    ));
}

const HDPARM_OK: &str = "\n/dev/sda:\n drive temperature (celsius) is:  38\n drive temperature in range:  yes\n";

#[test]
fn hdparm_source() {
    assert_eq!(parse_hdparm_output("/dev/sda", HDPARM_OK).unwrap(), 38);
    assert!(matches!(
        parse_hdparm_output("/dev/sda", "\n/dev/sda:\n SG_IO: bad/missing sense data, sb[]:  70 00\n drive temperature (celsius) is:  38\n"),
        Err(Error::HdparmBadData(ref d)) if d == "/dev/sda"
    ));
    assert!(matches!(
        parse_hdparm_output("/dev/sdb", "\n/dev/sdb:\n"),
        Err(Error::HdparmNoData(ref d)) if d == "/dev/sdb"
    ));
    assert!(matches!(
        parse_hdparm_output("/dev/sda", " drive temperature (celsius) is: -12\n"),
        Err(Error::ReadingExceedsBounds)
    ));
    assert!(matches!(
        parse_hdparm_output("/dev/sda", " drive temperature (celsius) is:  200\n"),
        Err(Error::SensorValueParse { ref value, kind: IntErrorKind::PosOverflow }) if value == "200"
    ));
}

#[test]
fn smart_source() {
    let json = br#"{"temperature": {"current": 38}}"#;
    assert_eq!(parse_smart_source("/dev/sda", Some(0), json).unwrap(), 38);
    assert_eq!(parse_smart_source("/dev/sda", Some(2), json).unwrap(), 38);
    assert!(matches!(
        parse_smart_source("/dev/sda", Some(1), json),
        Err(Error::Command { ref command, status: Some(1) }) if command == "smartctl"
    ));
    assert!(matches!(
        parse_smart_source("/dev/sda", Some(0), br#"{"power_mode": "standby"}"#),
        Err(Error::SmartNoReading(ref d)) if d == "/dev/sda"
    ));
    assert!(matches!(
        parse_smart_source("/dev/sda", Some(0), br#"{"temperature": {"current": 300}}"#),
        Err(Error::ReadingExceedsBounds)
    ));
    assert!(matches!(
        parse_smart_source("/dev/sda", Some(0), b"not json"),
        Err(Error::SmartParse { ref block_dev, .. }) if block_dev == "/dev/sda"
    ));
}

fn sensor_table() -> Vec<(String, Option<SensorReading>)> {
    vec![
        ("CPU Temp".to_owned(), Some(SensorReading { value: SensorValue::Uint32(52), units: SensorUnits::Celsius })),
        ("PCH Temp".to_owned(), Some(SensorReading { value: SensorValue::Double(48), units: SensorUnits::Celsius })),
        ("Inlet".to_owned(), Some(SensorReading { value: SensorValue::Uint32(80), units: SensorUnits::Fahrenheit })),
        ("Chassis".to_owned(), Some(SensorReading { value: SensorValue::Bool(true), units: SensorUnits::Celsius })),
        ("Hot".to_owned(), Some(SensorReading { value: SensorValue::Uint32(256), units: SensorUnits::Celsius })),
        ("DIMM".to_owned(), None),
    ]
}

#[test]
fn ipmi_source() {
    let t = sensor_table();
    assert_eq!(parse_ipmi_source(&"CPU Temp".to_owned(), &t).unwrap(), 52);
    assert_eq!(parse_ipmi_source(&"PCH Temp".to_owned(), &t).unwrap(), 48);
    assert!(matches!(parse_ipmi_source(&"GPU".to_owned(), &t), Err(Error::SensorNotFound(ref s)) if s == "GPU"));
    assert!(matches!(parse_ipmi_source(&"DIMM".to_owned(), &t), Err(Error::SensorNoReading(_))));
    assert!(matches!(
        parse_ipmi_source(&"Inlet".to_owned(), &t),
        Err(Error::SensorBadUnits { units: SensorUnits::Fahrenheit, .. })
    ));
    assert!(matches!(
        parse_ipmi_source(&"Chassis".to_owned(), &t),
        Err(Error::SensorBadValue { value: SensorValue::Bool(true), .. })
    ));
    assert!(matches!(parse_ipmi_source(&"Hot".to_owned(), &t), Err(Error::ReadingExceedsBounds)));
}

#[test]
fn source_readings_keep_order() {
    let sources = vec![
        Source::File { path: "/sys/class/hwmon/hwmon0/temp1_input".to_owned() },
        Source::Ipmi { sensor: "CPU Temp".to_owned() },
        Source::Hdparm { block_dev: "/dev/sda".to_owned() },
    ];
    let samples = vec![RawSample::File("61000\n".to_owned()), RawSample::Ipmi, RawSample::Hdparm(HDPARM_OK.to_owned())];
    assert!(samples_fit(&sources, &samples));
    assert!(needs_ipmi_readings(&sources));
    assert_eq!(get_source_readings(&sources, &sensor_table(), &samples).unwrap(), vec![61, 52, 38]);
    let bad = vec![RawSample::File("x".to_owned()), RawSample::Ipmi, RawSample::Hdparm(HDPARM_OK.to_owned())];
    assert!(matches!(get_source_readings(&sources, &sensor_table(), &bad), Err(Error::SensorValueParse { .. })));
    assert!(!samples_fit(&sources, &vec![RawSample::Ipmi]));
    assert!(!needs_ipmi_readings(&vec![Source::Smart { block_dev: "/dev/sda".to_owned() }]));
}

#[test]
fn release_restores_zones_before_fan_mode() {
    let mut s = IpmiSession::new("default".to_owned(), FanMode::Optimal, vec![0, 1]);
    assert_eq!(IpmiSession::takeover_command(), DeviceCommand::SetFanMode(FanMode::Full));
    s.acquire(3);
    assert_eq!(s.current_holder(), Some(3));
    assert_eq!(s.call(3, DeviceCommand::GetDutyCycle(0)), DeviceCommand::GetDutyCycle(0));
    s.give_back(3);
    assert_eq!(s.current_holder(), None);
    assert!(!s.released());
    let cmds = s.release();
    assert_eq!(
        cmds,
        vec![
            DeviceCommand::SetDutyCycle(0, 100),
            DeviceCommand::SetDutyCycle(1, 100),
            DeviceCommand::SetFanMode(FanMode::Optimal),
        ]
    );
    assert!(s.released());
}

#[test]
fn sessions_are_planned_for_used_names_only() {
    let c = config(
        vec![("rack", vec!["-h", "bmc"]), ("spare", vec![])],
        vec![zone("rack", vec![0, 1], 2), zone("default", vec![2], 2), zone("rack", vec![3], 2)],
    );
    let app = MainApp::from_config(c).unwrap();
    let names: Vec<&str> = app.sessions.iter().map(|p| app.config.sessions.0[p.session].0.as_str()).collect();
    assert_eq!(names, vec!["rack", "default"]);
    assert_eq!(app.sessions[0].restore_zones, vec![0, 1, 3]);
    assert_eq!(app.sessions[1].restore_zones, vec![2]);
    assert_eq!(app.zone_sessions, vec![0, 1, 0]);
    let dup = config(vec![("rack", vec![]), ("rack", vec![])], vec![zone("rack", vec![0], 2)]);
    assert!(matches!(MainApp::from_config(dup), Err(ConfigIssue::DuplicateSession { session: 1 })));
}

#[test]
fn tick_reads_then_writes_each_fan_zone() {
    let z = zone("default", vec![0, 1], 2);
    let plan = MainApp::update_duty_cycle(&z, &vec![45, 50]).unwrap();
    assert_eq!((plan.temp, plan.dcycle), (50, 35));
    assert_eq!(
        plan.commands,
        vec![
            DeviceCommand::GetDutyCycle(0),
            DeviceCommand::SetDutyCycle(0, 35),
            DeviceCommand::GetDutyCycle(1),
            DeviceCommand::SetDutyCycle(1, 35),
        ]
    );
    assert_eq!(MainApp::get_temp(&z, &vec![45, 50]).unwrap(), 50);
    assert!(matches!(MainApp::update_duty_cycle(&z, &vec![]), Err(Error::NoValidReadings)));
}

#[test]
fn zone_loop_stops_on_failure_or_abort() {
    let z = zone("default", vec![0], 2);
    let mut c = ZoneController::new(&z);
    assert!(matches!(c.start(), ZoneAction::Tick));
    assert!(matches!(c.on_tick_done(true), ZoneAction::Sleep(d) if d == Duration::from_secs(5)));
    assert!(matches!(c.on_wake(), ZoneAction::Tick));
    assert!(matches!(c.on_tick_done(false), ZoneAction::Stop));
    assert_eq!(c.state, ZoneState::Stopped);

    let mut c = ZoneController::new(&z);
    c.start();
    c.abort();
    assert_eq!(c.state, ZoneState::Ticking);
    assert!(matches!(c.on_tick_done(true), ZoneAction::Stop));

    let mut c = ZoneController::new(&z);
    c.start();
    c.on_tick_done(true);
    c.abort();
    assert_eq!(c.state, ZoneState::Stopped);
}

#[test]
fn shutdown_releases_every_session_once_after_an_error() {
    let mut s = Supervisor::new(2, 2);
    let abort = s.on_event(SupervisorEvent::ControllerExited(ControllerExit::Finished(Err(
        Error::NoValidReadings,
    ))));
    assert!(abort);
    assert!(!s.all_stopped());
    assert!(!s.on_event(SupervisorEvent::Interrupted(Ok(()))));
    assert!(!s.on_event(SupervisorEvent::ControllerExited(ControllerExit::Aborted)));
    assert!(s.all_stopped());
    assert_eq!(s.next_release(), Some(0));
    assert_eq!(s.next_release(), Some(1));
    assert_eq!(s.next_release(), None);
    let r = s.finish();
    assert!(matches!(r, Err(Error::NoValidReadings)));
    assert_eq!(exit_code(&r), 1);
}

#[test]
fn interrupt_ends_cleanly() {
    let mut s = Supervisor::new(1, 1);
    assert!(s.on_event(SupervisorEvent::Interrupted(Ok(()))));
    assert!(!s.on_event(SupervisorEvent::ControllerExited(ControllerExit::Panicked("boom".to_owned()))));
    assert_eq!(s.next_release(), Some(0));
    assert_eq!(s.next_release(), None);
    let r = s.finish();
    assert!(r.is_ok());
    assert_eq!(exit_code(&r), 0);
}

#[test]
fn crash_is_reported() {
    let mut s = Supervisor::new(1, 0);
    s.on_event(SupervisorEvent::ControllerExited(ControllerExit::Panicked("boom".to_owned())));
    assert_eq!(s.next_release(), None);
    assert!(matches!(s.finish(), Err(Error::LoopPanicked(ref m)) if m == "boom"));
}

#[test]
fn release_ends_a_crashed_hold() {
    let mut s = IpmiSession::new("rack".to_owned(), FanMode::Standard, vec![4]);
    s.acquire(1);
    s.call(1, DeviceCommand::SetDutyCycle(4, 30));
    // the tick of zone 1 crashed here without giving the session back
    let cmds = s.release();
    assert_eq!(cmds, vec![DeviceCommand::SetDutyCycle(4, 100), DeviceCommand::SetFanMode(FanMode::Standard)]);
    assert_eq!(s.current_holder(), None);
    assert!(s.released());
}

#[test]
fn white_space_matches_std() {
    for u in 0..=0x10ffffu32 {
        if let Some(c) = char::from_u32(u) {
            assert_eq!(is_white_space(c), c.is_whitespace(), "at U+{:04X}", u);
        }
    }
}

#[test]
fn hdparm_token_after_any_white_space() {
    assert_eq!(parse_hdparm_output("/dev/sda", " drive temperature (celsius) is:\t41\n").unwrap(), 41);
    assert!(matches!(
        parse_hdparm_output("/dev/sda", "drive temperature (celsius) is:"),
        Err(Error::SensorValueParse { ref value, kind: IntErrorKind::InvalidDigit }) if value == "is:"
    ));
}

#[test]
fn repeated_sensor_takes_last_reading() {
    let t = vec![
        ("CPU Temp".to_owned(), Some(SensorReading { value: SensorValue::Uint32(40), units: SensorUnits::Celsius })),
        ("CPU Temp".to_owned(), Some(SensorReading { value: SensorValue::Uint32(44), units: SensorUnits::Celsius })),
    ];
    assert_eq!(parse_ipmi_source(&"CPU Temp".to_owned(), &t).unwrap(), 44);
}

#[test]
fn smart_field_shapes() {
    assert!(matches!(
        parse_smart_source("/dev/sdc", Some(0), br#"{"temperature": {"current": "hot"}}"#),
        Err(Error::ReadingExceedsBounds)
    ));
    assert!(matches!(
        parse_smart_source("/dev/sdc", Some(0), br#"{"temperature": 5}"#),
        Err(Error::SmartNoReading(ref d)) if d == "/dev/sdc"
    ));
    assert!(matches!(
        parse_smart_source("/dev/sdc", None, br#"{"temperature": {"current": 30}}"#),
        Err(Error::Command { status: None, .. })
    ));
    assert_eq!(parse_smart_source("/dev/sdc", Some(2), br#"{"temperature": {"current": 0}}"#).unwrap(), 0);
}
