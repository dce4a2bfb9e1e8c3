use std::time::Duration;
use vstd::prelude::*;

use crate::aggregate::{aggregate, aggregate_value};
use crate::config::{
    default_session_name, secs_duration, session_declared, session_known, steps_ordered,
    validate_config, with_default_session, Config, Interval, Sessions, Zone,
};
use crate::error::ConfigIssue;
use crate::curve::{curve, duty_cycle_for};
use crate::error::{result_view, Error, ErrorView};
use crate::ipmi::DeviceCommand;

verus! {

/// The fan zones of the zones bound to session `name`, zone by zone.
pub open spec fn restore_zones_for(zones: Seq<Zone>, name: Seq<char>) -> Seq<u8>
    decreases zones.len(),
{
    if zones.len() == 0 {
        Seq::empty()
    } else {
        let rest = restore_zones_for(zones.drop_last(), name);
        if zones.last().session.0@ == name {
            rest + zones.last().ipmi_zones@
        } else {
            rest
        }
    }
}

proof fn lemma_restore_zones_nonempty(zones: Seq<Zone>, name: Seq<char>, i: int)
    requires
        0 <= i < zones.len(),
        zones[i].session.0@ == name,
        zones[i].ipmi_zones@.len() > 0,
    ensures
        restore_zones_for(zones, name).len() > 0,
    decreases zones.len(),
{
    if i < zones.len() - 1 {
        lemma_restore_zones_nonempty(zones.drop_last(), name, i);
    }
}

/// Whether no two declared sessions share a name.
pub open spec fn session_names_unique(sessions: Seq<(String, Vec<String>)>) -> bool {
    forall|a: int, b: int|
        0 <= a < sessions.len() && 0 <= b < sessions.len() && #[trigger] sessions[a].0@
            == #[trigger] sessions[b].0@ ==> a == b
}

/// A configuration that the daemon can run: validated, with the default
/// session declared, and with distinct session names.
pub open spec fn config_ready(c: Config) -> bool {
    &&& crate::config::config_issue(c) is None
    &&& session_names_unique(c.sessions.0@)
    &&& forall|i: int|
        0 <= i < c.zones@.len() ==> session_declared(c.sessions.0@, #[trigger] c.zones@[i].session.0@)
}

/// A session that some zone uses: the index of its declaration and the fan
/// zones to park at full speed when it is handed back.
#[derive(Clone, Debug)]
pub struct SessionPlan {
    pub session: usize,
    pub restore_zones: Vec<u8>,
}

/// What one tick of a zone decided: the temperature derived from the
/// readings, the duty cycle for it, and the device calls to make in order.
#[derive(Clone, Debug)]
pub struct TickPlan {
    pub temp: u8,
    pub dcycle: u8,
    pub commands: Vec<DeviceCommand>,
}

/// For each fan zone in turn, read its duty cycle and then write `dcycle`.
pub open spec fn tick_commands(ipmi_zones: Seq<u8>, dcycle: u8) -> Seq<DeviceCommand> {
    Seq::new(
        2 * ipmi_zones.len(),
        |k: int|
            if k % 2 == 0 {
                DeviceCommand::GetDutyCycle(ipmi_zones[k / 2])
            } else {
                DeviceCommand::SetDutyCycle(ipmi_zones[k / 2], dcycle)
            },
    )
}

/// The daemon's configuration and the sessions it opens.
pub struct MainApp {
    pub config: Config,
    /// The sessions some zone uses, in the order they are declared.
    pub sessions: Vec<SessionPlan>,
    /// For each zone, the index in `sessions` of the session it is bound to.
    pub zone_sessions: Vec<usize>,
}

fn restore_zones_of(zones: &Vec<Zone>, name: &String) -> (r: Vec<u8>)
    ensures
        r@ == restore_zones_for(zones@, name@),
{
    let mut r: Vec<u8> = Vec::new();
    let n = zones.len();
    let mut i: usize = 0;
    while i < n
        invariant
            n == zones@.len(),
            i <= n,
            r@ == restore_zones_for(zones@.take(i as int), name@),
        decreases n - i,
    {
        assert(zones@.take(i + 1).drop_last() =~= zones@.take(i as int));
        if zones[i].session.0 == *name {
            let ids = &zones[i].ipmi_zones;
            let ghost before = r@;
            let mut k: usize = 0;
            while k < ids.len()
                invariant
                    k <= ids@.len(),
                    r@ == before + ids@.take(k as int),
                decreases ids@.len() - k,
            {
                r.push(ids[k]);
                k = k + 1;
                assert(r@ =~= before + ids@.take(k as int));
            }
            assert(ids@.take(ids@.len() as int) =~= ids@);
        }
        i = i + 1;
    }
    assert(zones@.take(n as int) =~= zones@);
    r
}

/// The sessions of an application are those that some zone uses, each
/// with the fan zones of all its zones, in the order they are declared; each
/// zone points at the plan of its session.
pub open spec fn sessions_planned(app: MainApp) -> bool {
    let sessions = app.config.sessions.0@;
    let zones = app.config.zones@;
    &&& forall|k: int|
        0 <= k < app.sessions@.len() ==> {
            let p = #[trigger] app.sessions@[k];
            &&& p.session < sessions.len()
            &&& p.restore_zones@ == restore_zones_for(zones, sessions[p.session as int].0@)
            &&& p.restore_zones@.len() > 0
        }
    &&& forall|a: int, b: int|
        0 <= a < b < app.sessions@.len() ==> #[trigger] app.sessions@[a].session
            < #[trigger] app.sessions@[b].session
    &&& forall|j: int|
        0 <= j < sessions.len() && restore_zones_for(zones, #[trigger] sessions[j].0@).len() > 0
            ==> exists|k: int| 0 <= k < app.sessions@.len() && app.sessions@[k].session == j
    &&& app.zone_sessions@.len() == zones.len()
    &&& forall|i: int|
        0 <= i < zones.len() ==> {
            let k = #[trigger] app.zone_sessions@[i];
            &&& k < app.sessions@.len()
            &&& sessions[app.sessions@[k as int].session as int].0@ == zones[i].session.0@
        }
}

/// The index of the plan of the session named `name`.
fn find_plan(
    plans: &Vec<SessionPlan>,
    sessions: &Vec<(String, Vec<String>)>,
    name: &String,
    target: Ghost<int>,
) -> (k: usize)
    requires
        0 <= target@ < sessions@.len(),
        sessions@[target@].0@ == name@,
        forall|k: int| 0 <= k < plans@.len() ==> (#[trigger] plans@[k]).session < sessions@.len(),
        exists|k: int| 0 <= k < plans@.len() && plans@[k].session == target@,
    ensures
        k < plans@.len(),
        sessions@[plans@[k as int].session as int].0@ == name@,
{
    let ghost witness = choose|k: int| 0 <= k < plans@.len() && plans@[k].session == target@;
    let mut k: usize = 0;
    while k < plans.len() && sessions[plans[k].session].0 != *name
        invariant
            0 <= witness < plans@.len(),
            sessions@[plans@[witness].session as int].0@ == name@,
            forall|k: int| 0 <= k < plans@.len() ==> (#[trigger] plans@[k]).session < sessions@.len(),
            k <= plans@.len(),
            forall|kk: int|
                0 <= kk < k ==> sessions@[(#[trigger] plans@[kk]).session as int].0@ != name@,
        decreases plans@.len() - k,
    {
        k = k + 1;
    }
    if k == plans.len() {
        assert(sessions@[plans@[witness].session as int].0@ != name@);
    }
    k
}

/// The first session whose name an earlier one has, if any.
fn find_duplicate(sessions: &Sessions) -> (r: Option<usize>)
    ensures
        r is None <==> session_names_unique(sessions.0@),
        r matches Some(b) ==> b < sessions.0@.len() && exists|a: int|
            0 <= a < b && #[trigger] sessions.0@[a].0@ == sessions.0@[b as int].0@,
{
    let n = sessions.0.len();
    let mut b: usize = 0;
    while b < n
        invariant
            n == sessions.0@.len(),
            b <= n,
            forall|x: int, y: int|
                0 <= x < b && 0 <= y < b && #[trigger] sessions.0@[x].0@ == #[trigger] sessions.0@[y].0@ ==> x == y,
        decreases n - b,
    {
        let mut a: usize = 0;
        while a < b
            invariant
                n == sessions.0@.len(),
                a <= b < n,
                forall|x: int| 0 <= x < a ==> #[trigger] sessions.0@[x].0@ != sessions.0@[b as int].0@,
            decreases b - a,
        {
            if sessions.0[a].0 == sessions.0[b].0 {
                return Some(b);
            }
            a = a + 1;
        }
        b = b + 1;
    }
    None
}

proof fn lemma_zone_sessions_declared(given: Config, c: Config)
    requires
        crate::config::config_issue(given) is None,
        c.zones == given.zones,
        with_default_session(given.sessions.0@, c.sessions.0@),
    ensures
        crate::config::config_issue(c) is None,
        forall|i: int|
            0 <= i < c.zones@.len() ==> session_declared(c.sessions.0@, #[trigger] c.zones@[i].session.0@),
{
    let before = given.sessions.0@;
    let after = c.sessions.0@;
    assert forall|name: Seq<char>| session_known(before, name) implies session_declared(after, name) by {
        if session_declared(before, name) {
            let j = choose|j: int| 0 <= j < before.len() && #[trigger] before[j].0@ == name;
            if !session_declared(before, default_session_name()) {
                assert(after[j] == after.drop_last()[j]);
            }
            assert(after[j].0@ == name);
        } else if !session_declared(before, default_session_name()) {
            assert(after[after.len() - 1].0@ == name);
        }
    }
    assert forall|i: int| 0 <= i < c.zones@.len() implies session_declared(
        after,
        #[trigger] c.zones@[i].session.0@,
    ) by {
        crate::config::lemma_config_issue_free(given, i);
    }
    assert forall|name: Seq<char>| session_known(after, name) == session_known(before, name) by {
        if session_declared(after, name) && !session_declared(before, name) {
            let j = choose|j: int| 0 <= j < after.len() && #[trigger] after[j].0@ == name;
            if !session_declared(before, default_session_name()) && j < before.len() {
                assert(after[j] == before[j]);
            }
        }
    }
    lemma_zones_issue_same(c.zones@, before, after, 0);
}

proof fn lemma_unique_with_default(
    before: Seq<(String, Vec<String>)>,
    after: Seq<(String, Vec<String>)>,
)
    requires
        with_default_session(before, after),
        session_names_unique(before),
    ensures
        session_names_unique(after),
{
    if !session_declared(before, default_session_name()) {
        assert forall|a: int, b: int|
            0 <= a < after.len() && 0 <= b < after.len() && #[trigger] after[a].0@
                == #[trigger] after[b].0@ implies a == b by {
            if a < before.len() && b < before.len() {
                assert(after[a] == before[a] && after[b] == before[b]);
            } else if a < before.len() {
                assert(after[a] == before[a]);
            } else if b < before.len() {
                assert(after[b] == before[b]);
            }
        }
    }
}

proof fn lemma_zones_issue_same(
    zones: Seq<Zone>,
    before: Seq<(String, Vec<String>)>,
    after: Seq<(String, Vec<String>)>,
    i: int,
)
    requires
        0 <= i,
        forall|name: Seq<char>| session_known(after, name) == session_known(before, name),
    ensures
        crate::config::zones_issue_from(zones, after, i) == crate::config::zones_issue_from(zones, before, i),
    decreases zones.len() - i,
{
    if i < zones.len() {
        lemma_zones_issue_same(zones, before, after, i + 1);
        assert(crate::config::zone_issue(zones[i], i as usize, after) == crate::config::zone_issue(
            zones[i],
            i as usize,
            before,
        ));
    }
}

impl MainApp {
    /// Validates a parsed configuration and plans its sessions: the first
    /// issue of the configuration, or the first session whose name repeats
    /// an earlier one, rejects it.
    pub fn from_config(config: Config) -> (r: Result<MainApp, ConfigIssue>)
        ensures
            match r {
                Ok(app) => {
                    &&& crate::config::config_issue(config) is None
                    &&& config_ready(app.config)
                    &&& app.config.zones == config.zones
                    &&& app.config.log_level == config.log_level
                    &&& with_default_session(config.sessions.0@, app.config.sessions.0@)
                    &&& sessions_planned(app)
                },
                Err(issue) => crate::config::config_issue(config) == Some(issue) || (
                crate::config::config_issue(config) is None && issue is DuplicateSession
                    && !session_names_unique(config.sessions.0@)),
            },
    {
        let ghost given = config;
        let c = validate_config(config)?;
        proof {
            lemma_zone_sessions_declared(given, c);
        }
        match find_duplicate(&c.sessions) {
            Some(b) => {
                proof {
                    if session_names_unique(given.sessions.0@) {
                        lemma_unique_with_default(given.sessions.0@, c.sessions.0@);
                    }
                }
                Err(ConfigIssue::DuplicateSession { session: b })
            },
            None => Ok(MainApp::new(c)),
        }
    }

    /// Plans the sessions of a configuration: every declared session that
    /// some zone uses, with the fan zones of all its zones, and the session
    /// of each zone. A session that no zone uses is not opened.
    pub fn new(config: Config) -> (r: MainApp)
        requires
            config_ready(config),
        ensures
            r.config == config,
            sessions_planned(r),
    {
        let ghost given = config;
        let n = config.sessions.0.len();
        let mut plans: Vec<SessionPlan> = Vec::new();
        let mut j: usize = 0;
        while j < n
            invariant
                config == given,
                n == config.sessions.0@.len(),
                j <= n,
                forall|k: int|
                    0 <= k < plans@.len() ==> {
                        let p = #[trigger] plans@[k];
                        &&& p.session < j
                        &&& p.restore_zones@ == restore_zones_for(
                            config.zones@,
                            config.sessions.0@[p.session as int].0@,
                        )
                        &&& p.restore_zones@.len() > 0
                    },
                forall|a: int, b: int|
                    0 <= a < b < plans@.len() ==> #[trigger] plans@[a].session
                        < #[trigger] plans@[b].session,
                forall|jj: int|
                    0 <= jj < j && restore_zones_for(
                        config.zones@,
                        #[trigger] config.sessions.0@[jj].0@,
                    ).len() > 0 ==> exists|k: int| 0 <= k < plans@.len() && plans@[k].session == jj,
            decreases n - j,
        {
            let restore = restore_zones_of(&config.zones, &config.sessions.0[j].0);
            if restore.len() > 0 {
                let ghost old_plans = plans@;
                plans.push(SessionPlan { session: j, restore_zones: restore });
                assert forall|jj: int|
                    0 <= jj < j + 1 && restore_zones_for(
                        config.zones@,
                        #[trigger] config.sessions.0@[jj].0@,
                    ).len() > 0 implies exists|k: int|
                    0 <= k < plans@.len() && plans@[k].session == jj by {
                    if jj < j {
                        let k = choose|k: int| 0 <= k < old_plans.len() && old_plans[k].session == jj;
                        assert(plans@[k] == old_plans[k]);
                    } else {
                        assert(plans@[plans@.len() - 1].session == jj);
                    }
                }
            }
            j = j + 1;
        }
        let z = config.zones.len();
        let mut zone_sessions: Vec<usize> = Vec::new();
        let mut i: usize = 0;
        while i < z
            invariant
                config == given,
                z == config.zones@.len(),
                n == config.sessions.0@.len(),
                config_ready(config),
                i <= z,
                zone_sessions@.len() == i,
                forall|k: int|
                    0 <= k < plans@.len() ==> {
                        let p = #[trigger] plans@[k];
                        &&& p.session < n
                        &&& p.restore_zones@ == restore_zones_for(
                            config.zones@,
                            config.sessions.0@[p.session as int].0@,
                        )
                        &&& p.restore_zones@.len() > 0
                    },
                forall|jj: int|
                    0 <= jj < n && restore_zones_for(
                        config.zones@,
                        #[trigger] config.sessions.0@[jj].0@,
                    ).len() > 0 ==> exists|k: int| 0 <= k < plans@.len() && plans@[k].session == jj,
                forall|ii: int|
                    0 <= ii < i ==> {
                        let k = #[trigger] zone_sessions@[ii];
                        &&& k < plans@.len()
                        &&& config.sessions.0@[plans@[k as int].session as int].0@
                            == config.zones@[ii].session.0@
                    },
            decreases z - i,
        {
            let name = &config.zones[i].session.0;
            proof {
                crate::config::lemma_config_issue_free(config, i as int);
                let jj = choose|jj: int|
                    0 <= jj < n && #[trigger] config.sessions.0@[jj].0@ == name@;
                lemma_restore_zones_nonempty(config.zones@, name@, i as int);
                assert(restore_zones_for(config.zones@, config.sessions.0@[jj].0@).len() > 0);
            }
            let ghost target = choose|jj: int|
                0 <= jj < n && #[trigger] config.sessions.0@[jj].0@ == name@;
            let k = find_plan(&plans, &config.sessions.0, name, Ghost(target));
            zone_sessions.push(k);
            i = i + 1;
        }
        let r = MainApp { config, sessions: plans, zone_sessions };
        assert forall|j: int|
            0 <= j < given.sessions.0@.len() && restore_zones_for(
                given.zones@,
                #[trigger] given.sessions.0@[j].0@,
            ).len() > 0 implies exists|k: int|
            0 <= k < r.sessions@.len() && r.sessions@[k].session == j by {
            let k = choose|k: int| 0 <= k < plans@.len() && plans@[k].session == j;
            assert(r.sessions@[k].session == j);
        }
        r
    }

    /// The temperature a zone derives from its readings.
    pub fn get_temp(zone: &Zone, readings: &Vec<u8>) -> (r: Result<u8, Error>)
        ensures
            match r {
                Ok(t) => aggregate_value(readings@, zone.aggregation) == Some(t as int),
                Err(e) => aggregate_value(readings@, zone.aggregation) is None && e
                    == Error::NoValidReadings,
            },
    {
        aggregate(readings, zone.aggregation)
    }

    /// One tick of a zone: aggregate the readings, look the temperature up
    /// on the curve, and read then write the duty cycle of each fan zone.
    pub fn update_duty_cycle(zone: &Zone, readings: &Vec<u8>) -> (r: Result<TickPlan, Error>)
        requires
            steps_ordered(zone.steps@),
            zone.ipmi_zones@.len() <= usize::MAX / 2,
        ensures
            match r {
                Ok(p) => {
                    &&& aggregate_value(readings@, zone.aggregation) == Some(p.temp as int)
                    &&& p.dcycle as int == curve(zone.steps@, p.temp as int)
                    &&& p.commands@ == tick_commands(zone.ipmi_zones@, p.dcycle)
                },
                Err(e) => aggregate_value(readings@, zone.aggregation) is None && e
                    == Error::NoValidReadings,
            },
    {
        let temp = MainApp::get_temp(zone, readings)?;
        let dcycle = duty_cycle_for(&zone.steps, temp);
        let ids = &zone.ipmi_zones;
        let mut commands: Vec<DeviceCommand> = Vec::new();
        let mut k: usize = 0;
        while k < ids.len()
            invariant
                k <= ids@.len() <= usize::MAX / 2,
                commands@ == tick_commands(ids@.take(k as int), dcycle),
            decreases ids@.len() - k,
        {
            commands.push(DeviceCommand::GetDutyCycle(ids[k]));
            commands.push(DeviceCommand::SetDutyCycle(ids[k], dcycle));
            k = k + 1;
            assert(commands@ =~= tick_commands(ids@.take(k as int), dcycle)) by {
                assert forall|m: int| 0 <= m < 2 * k implies #[trigger] commands@[m]
                    == tick_commands(ids@.take(k as int), dcycle)[m] by {
                    assert(m / 2 < k);
                    if m < 2 * k - 2 {
                        assert(m / 2 < k - 1);
                    } else {
                        assert(m / 2 == k - 1);
                    }
                }
            }
        }
        assert(ids@.take(ids@.len() as int) =~= ids@);
        Ok(TickPlan { temp, dcycle, commands })
    }
}

/// Two ticks of one zone with a valid curve: the hotter derived temperature
/// never writes a lower duty cycle.
pub proof fn lemma_ticks_monotonic(zone: Zone, first: TickPlan, second: TickPlan)
    requires
        steps_ordered(zone.steps@),
        first.dcycle as int == curve(zone.steps@, first.temp as int),
        second.dcycle as int == curve(zone.steps@, second.temp as int),
        first.temp <= second.temp,
    ensures
        first.dcycle <= second.dcycle,
{
    crate::curve::lemma_curve_monotonic(zone.steps@, first.temp as int, second.temp as int);
}

/// Where a zone's control loop stands.
#[derive(Clone, Copy, Debug, PartialEq, Eq, Structural)]
pub enum ZoneState {
    Idle,
    Ticking,
    Sleeping,
    Stopped,
}

/// What a zone's control loop does next.
#[derive(Clone, Copy, Debug)]
pub enum ZoneAction {
    /// Run one tick.
    Tick,
    /// Sleep this long before the next tick.
    Sleep(Duration),
    /// End the loop.
    Stop,
}

/// The control loop of one zone: it ticks, sleeps for the zone's interval,
/// and ticks again until a tick fails or an abort is seen at a suspension
/// point. A tick in flight is never cut short.
pub struct ZoneController {
    pub state: ZoneState,
    pub abort_requested: bool,
    pub interval: Interval,
}

impl ZoneController {
    /// The loop of `zone`, before its first tick.
    pub fn new(zone: &Zone) -> (r: ZoneController)
        ensures
            r.state == ZoneState::Idle,
            !r.abort_requested,
            r.interval == zone.interval,
    {
        ZoneController { state: ZoneState::Idle, abort_requested: false, interval: zone.interval }
    }

    /// Starts the loop with its first tick.
    pub fn start(&mut self) -> (r: ZoneAction)
        requires
            old(self).state == ZoneState::Idle,
        ensures
            final(self).abort_requested == old(self).abort_requested,
            final(self).interval == old(self).interval,
            if old(self).abort_requested {
                final(self).state == ZoneState::Stopped && r is Stop
            } else {
                final(self).state == ZoneState::Ticking && r is Tick
            },
    {
        if self.abort_requested {
            self.state = ZoneState::Stopped;
            ZoneAction::Stop
        } else {
            self.state = ZoneState::Ticking;
            ZoneAction::Tick
        }
    }

    /// Takes in how a tick ended: a failed tick ends the loop, and so does
    /// an abort requested meanwhile; otherwise the loop sleeps.
    pub fn on_tick_done(&mut self, succeeded: bool) -> (r: ZoneAction)
        requires
            old(self).state == ZoneState::Ticking,
        ensures
            final(self).abort_requested == old(self).abort_requested,
            final(self).interval == old(self).interval,
            if succeeded && !old(self).abort_requested {
                &&& final(self).state == ZoneState::Sleeping
                &&& r == ZoneAction::Sleep(secs_duration(old(self).interval.0 as u64))
            } else {
                final(self).state == ZoneState::Stopped && r is Stop
            },
    {
        if succeeded && !self.abort_requested {
            self.state = ZoneState::Sleeping;
            ZoneAction::Sleep(self.interval.to_duration())
        } else {
            self.state = ZoneState::Stopped;
            ZoneAction::Stop
        }
    }

    /// The sleep is over: tick again, unless an abort was requested.
    pub fn on_wake(&mut self) -> (r: ZoneAction)
        requires
            old(self).state == ZoneState::Sleeping,
        ensures
            final(self).abort_requested == old(self).abort_requested,
            final(self).interval == old(self).interval,
            if old(self).abort_requested {
                final(self).state == ZoneState::Stopped && r is Stop
            } else {
                final(self).state == ZoneState::Ticking && r is Tick
            },
    {
        if self.abort_requested {
            self.state = ZoneState::Stopped;
            ZoneAction::Stop
        } else {
            self.state = ZoneState::Ticking;
            ZoneAction::Tick
        }
    }

    /// Requests the loop to end. A sleeping loop ends now; a tick in flight
    /// finishes first.
    pub fn abort(&mut self)
        ensures
            final(self).abort_requested,
            final(self).interval == old(self).interval,
            final(self).state == if old(self).state == ZoneState::Sleeping {
                ZoneState::Stopped
            } else {
                old(self).state
            },
    {
        self.abort_requested = true;
        if self.state == ZoneState::Sleeping {
            self.state = ZoneState::Stopped;
        }
    }
}

/// How a zone's control loop ended.
#[derive(Debug)]
pub enum ControllerExit {
    /// The loop returned this result.
    Finished(Result<(), Error>),
    /// The loop was aborted.
    Aborted,
    /// The loop crashed, with this message.
    Panicked(String),
}

/// What the supervisor is told.
#[derive(Debug)]
pub enum SupervisorEvent {
    /// An interrupt or termination signal came, or waiting for one failed.
    Interrupted(Result<(), Error>),
    /// A zone's control loop ended.
    ControllerExited(ControllerExit),
}

/// The result that an event brings to the daemon.
pub open spec fn event_result(event: SupervisorEvent) -> Result<(), ErrorView> {
    match event {
        SupervisorEvent::Interrupted(r) => result_view(r),
        SupervisorEvent::ControllerExited(exit) => match exit {
            ControllerExit::Finished(r) => result_view(r),
            ControllerExit::Aborted => Ok(()),
            ControllerExit::Panicked(m) => Err(ErrorView::LoopPanicked(m@)),
        },
    }
}

/// Owns the run of all zones: on the first event, every loop is told to
/// abort; once all have stopped, every session is handed back exactly once,
/// whatever ended the run; the first event's result is the daemon's.
pub struct Supervisor {
    running: usize,
    abort_issued: bool,
    first: Option<Result<(), Error>>,
    sessions: usize,
    released: usize,
    log: Ghost<Seq<usize>>,
}

impl Supervisor {
    /// How many zone loops still run.
    pub closed spec fn running_count(&self) -> nat {
        self.running as nat
    }

    /// Whether the loops were told to abort.
    pub closed spec fn abort_was_issued(&self) -> bool {
        self.abort_issued
    }

    /// The result of the first event, if one came.
    pub closed spec fn first_result(&self) -> Option<Result<(), ErrorView>> {
        match self.first {
            Some(r) => Some(result_view(r)),
            None => None,
        }
    }

    /// How many sessions the run hands back.
    pub closed spec fn session_count(&self) -> nat {
        self.sessions as nat
    }

    /// The sessions handed back so far, in order.
    pub closed spec fn released_log(&self) -> Seq<usize> {
        self.log@
    }

    /// Sessions are handed back one after the other, each once.
    pub closed spec fn wf(&self) -> bool {
        &&& self.released <= self.sessions
        &&& self.log@ == Seq::new(self.released as nat, |i: int| i as usize)
    }

    /// A run of `controllers` loops over `sessions` sessions.
    pub fn new(controllers: usize, sessions: usize) -> (r: Supervisor)
        ensures
            r.wf(),
            r.running_count() == controllers,
            !r.abort_was_issued(),
            r.first_result() is None,
            r.session_count() == sessions,
            r.released_log() == Seq::<usize>::empty(),
    {
        assert(Seq::<usize>::empty() =~= Seq::new(0, |i: int| i as usize));
        Supervisor {
            running: controllers,
            abort_issued: false,
            first: None,
            sessions,
            released: 0,
            log: Ghost(Seq::empty()),
        }
    }

    /// Whether every loop has stopped.
    pub fn all_stopped(&self) -> (r: bool)
        ensures
            r == (self.running_count() == 0),
    {
        self.running == 0
    }

    /// Takes in an event; returns whether to tell every loop to abort now,
    /// which is so on the first event only.
    pub fn on_event(&mut self, event: SupervisorEvent) -> (abort_now: bool)
        requires
            old(self).wf(),
            event is ControllerExited ==> old(self).running_count() > 0,
        ensures
            final(self).wf(),
            abort_now == !old(self).abort_was_issued(),
            final(self).abort_was_issued(),
            final(self).first_result() == if old(self).first_result() is None {
                Some(event_result(event))
            } else {
                old(self).first_result()
            },
            final(self).running_count() == if event is ControllerExited {
                (old(self).running_count() - 1) as nat
            } else {
                old(self).running_count()
            },
            final(self).session_count() == old(self).session_count(),
            final(self).released_log() == old(self).released_log(),
    {
        let result = match event {
            SupervisorEvent::Interrupted(r) => r,
            SupervisorEvent::ControllerExited(exit) => {
                self.running = self.running - 1;
                match exit {
                    ControllerExit::Finished(r) => r,
                    ControllerExit::Aborted => Ok(()),
                    ControllerExit::Panicked(m) => Err(Error::LoopPanicked(m)),
                }
            },
        };
        if self.first.is_none() {
            self.first = Some(result);
        }
        let abort_now = !self.abort_issued;
        self.abort_issued = true;
        abort_now
    }

    /// The next session to hand back, once every loop has stopped; `None`
    /// when all were.
    pub fn next_release(&mut self) -> (r: Option<usize>)
        requires
            old(self).wf(),
            old(self).running_count() == 0,
        ensures
            final(self).wf(),
            final(self).running_count() == 0,
            final(self).first_result() == old(self).first_result(),
            final(self).session_count() == old(self).session_count(),
            match r {
                Some(i) => {
                    &&& i == old(self).released_log().len()
                    &&& i < old(self).session_count()
                    &&& final(self).released_log() == old(self).released_log().push(i)
                },
                None => {
                    &&& old(self).released_log().len() == old(self).session_count()
                    &&& final(self).released_log() == old(self).released_log()
                },
            },
    {
        if self.released < self.sessions {
            let i = self.released;
            self.released = i + 1;
            self.log = Ghost(self.log@.push(i));
            assert(self.log@ =~= Seq::new(self.released as nat, |k: int| k as usize));
            Some(i)
        } else {
            None
        }
    }

    /// The daemon's result once every session was handed back: the first
    /// event's, or success when none came.
    pub fn finish(self) -> (r: Result<(), Error>)
        requires
            self.wf(),
            self.running_count() == 0,
            self.released_log().len() == self.session_count(),
        ensures
            result_view(r) == match self.first_result() {
                Some(first) => first,
                None => Ok(()),
            },
    {
        match self.first {
            Some(r) => r,
            None => Ok(()),
        }
    }

    /// Once all were handed back, each session was handed back exactly once.
    pub proof fn lemma_sessions_released_once(&self)
        requires
            self.wf(),
            self.released_log().len() == self.session_count(),
        ensures
            forall|k: usize| k < self.session_count() ==> #[trigger] self.released_log().contains(k),
            forall|i: int, j: int|
                0 <= i < self.released_log().len() && 0 <= j < self.released_log().len()
                    && self.released_log()[i] == self.released_log()[j] ==> i == j,
    {
        assert forall|k: usize| k < self.session_count() implies #[trigger] self.released_log().contains(k) by {
            assert(self.released_log()[k as int] == k);
        }
    }
}

/// The exit status of the daemon for its result.
pub fn exit_code(r: &Result<(), Error>) -> (code: i32)
    ensures
        code == if r is Ok {
            0i32
        } else {
            1i32
        },
{
    match r {
        Ok(()) => 0,
        Err(_) => 1,
    }
}

} // verus!
