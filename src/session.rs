use vstd::prelude::*;

use crate::ipmi::{DeviceCommand, FanMode};

verus! {

/// One step of the use of a session's connection by the zones.
pub enum GuardEvent {
    /// Zone `0` took the connection.
    Acquire(usize),
    /// Zone `0` made a device call.
    Call(usize, DeviceCommand),
    /// Zone `0` gave the connection back.
    Release(usize),
}

/// The zone that holds the connection after `event`, from `holder`.
pub open spec fn holder_step(holder: Option<usize>, event: GuardEvent) -> Option<usize> {
    match event {
        GuardEvent::Acquire(z) => Some(z),
        GuardEvent::Call(_, _) => holder,
        GuardEvent::Release(_) => None,
    }
}

/// Whether `event` may happen while `holder` holds the connection: only a
/// free connection is taken, and only its holder calls or gives it back.
pub open spec fn event_allowed(holder: Option<usize>, event: GuardEvent) -> bool {
    match event {
        GuardEvent::Acquire(_) => holder is None,
        GuardEvent::Call(z, _) => holder == Some(z),
        GuardEvent::Release(z) => holder == Some(z),
    }
}

/// The zone that holds the connection after the first `k` events.
pub open spec fn holder_at(log: Seq<GuardEvent>, k: int) -> Option<usize>
    decreases k,
{
    if k <= 0 {
        None
    } else {
        holder_step(holder_at(log, k - 1), log[k - 1])
    }
}

/// Whether every event of the log was allowed when it happened.
pub open spec fn log_ok(log: Seq<GuardEvent>) -> bool {
    forall|k: int| 0 <= k < log.len() ==> event_allowed(holder_at(log, k), #[trigger] log[k])
}

proof fn lemma_holder_stays(log: Seq<GuardEvent>, i: int, m: int, a: usize)
    requires
        log_ok(log),
        0 <= i < m <= log.len(),
        holder_at(log, i + 1) == Some(a),
        forall|k: int| i < k < m ==> log[k] != GuardEvent::Release(a),
    ensures
        holder_at(log, m) == Some(a),
    decreases m - i,
{
    if m > i + 1 {
        lemma_holder_stays(log, i, m - 1, a);
        let e = log[m - 1];
        assert(event_allowed(holder_at(log, m - 1), e));
        if let GuardEvent::Release(z) = e {
            assert(z == a);
        }
    }
}

/// Two zones that share a session never interleave their device calls: between
/// a call of zone `a` and a later call of another zone, zone `a` gave the
/// connection back.
pub proof fn lemma_calls_not_interleaved(log: Seq<GuardEvent>, i: int, j: int)
    requires
        log_ok(log),
        0 <= i < j < log.len(),
        log[i] is Call,
        log[j] is Call,
        log[i]->Call_0 != log[j]->Call_0,
    ensures
        exists|m: int| i < m < j && log[m] == GuardEvent::Release(log[i]->Call_0),
{
    let a = log[i]->Call_0;
    assert(event_allowed(holder_at(log, i), log[i]));
    assert(event_allowed(holder_at(log, j), log[j]));
    if forall|m: int| i < m < j ==> log[m] != GuardEvent::Release(a) {
        lemma_holder_stays(log, i, j, a);
    }
}

/// The calls that hand the fans back to the firmware: every restored zone to
/// full duty cycle, then the original fan mode.
pub open spec fn release_commands_spec(restore_zones: Seq<u8>, orig: FanMode) -> Seq<DeviceCommand> {
    Seq::new(restore_zones.len(), |i: int| DeviceCommand::SetDutyCycle(restore_zones[i], 100)).push(
        DeviceCommand::SetFanMode(orig),
    )
}

/// On release, every restored zone is set to full duty cycle before the fan
/// mode is restored, and the fan mode is restored once, last.
pub proof fn lemma_release_order(restore_zones: Seq<u8>, orig: FanMode)
    ensures
        ({
            let cmds = release_commands_spec(restore_zones, orig);
            &&& cmds.len() == restore_zones.len() + 1
            &&& cmds.last() == DeviceCommand::SetFanMode(orig)
            &&& forall|z: u8|
                restore_zones.contains(z) ==> exists|i: int|
                    0 <= i < cmds.len() - 1 && cmds[i] == DeviceCommand::SetDutyCycle(z, 100)
            &&& forall|i: int| 0 <= i < cmds.len() - 1 ==> !(cmds[i] is SetFanMode)
        }),
{
    let cmds = release_commands_spec(restore_zones, orig);
    assert forall|z: u8| restore_zones.contains(z) implies exists|i: int|
        0 <= i < cmds.len() - 1 && cmds[i] == DeviceCommand::SetDutyCycle(z, 100) by {
        let i = choose|i: int| 0 <= i < restore_zones.len() && restore_zones[i] == z;
        assert(cmds[i] == DeviceCommand::SetDutyCycle(z, 100));
    }
}

/// A BMC connection that the daemon has taken over: the fan mode to give
/// back, the zones to park at full speed first, and the guard that lets one
/// zone at a time use the connection.
pub struct IpmiSession {
    name: String,
    orig_fan_mode: FanMode,
    restore_zones: Vec<u8>,
    holder: Option<usize>,
    released: bool,
    log: Ghost<Seq<GuardEvent>>,
}

impl IpmiSession {
    /// The call that takes the fans over once the original mode is known.
    pub fn takeover_command() -> (r: DeviceCommand)
        ensures
            r == DeviceCommand::SetFanMode(FanMode::Full),
    {
        DeviceCommand::SetFanMode(FanMode::Full)
    }

    /// A session taken over from `orig_fan_mode`, not held by any zone.
    pub fn new(name: String, orig_fan_mode: FanMode, restore_zones: Vec<u8>) -> (r: IpmiSession)
        ensures
            r.wf(),
            r.name_of() == name,
            r.orig_mode_of() == orig_fan_mode,
            r.restore_zones_of() == restore_zones,
            r.holder() is None,
            !r.is_released(),
            r.log() == Seq::<GuardEvent>::empty(),
    {
        IpmiSession {
            name,
            orig_fan_mode,
            restore_zones,
            holder: None,
            released: false,
            log: Ghost(Seq::empty()),
        }
    }

    /// The session's name.
    pub closed spec fn name_of(&self) -> String {
        self.name
    }

    /// The fan mode found before the takeover.
    pub closed spec fn orig_mode_of(&self) -> FanMode {
        self.orig_fan_mode
    }

    /// The fan zones of every zone bound to the session.
    pub closed spec fn restore_zones_of(&self) -> Vec<u8> {
        self.restore_zones
    }

    /// The session's name.
    pub fn name(&self) -> (r: &String)
        ensures
            *r == self.name_of(),
    {
        &self.name
    }

    /// The fan mode found before the takeover.
    pub fn orig_fan_mode(&self) -> (r: FanMode)
        ensures
            r == self.orig_mode_of(),
    {
        self.orig_fan_mode
    }

    /// The fan zones of every zone bound to the session.
    pub fn restore_zones(&self) -> (r: &Vec<u8>)
        ensures
            *r == self.restore_zones_of(),
    {
        &self.restore_zones
    }

    /// The zone that holds the connection.
    pub closed spec fn holder(&self) -> Option<usize> {
        self.holder
    }

    /// Whether the session was handed back.
    pub closed spec fn is_released(&self) -> bool {
        self.released
    }

    /// Every use of the connection so far.
    pub closed spec fn log(&self) -> Seq<GuardEvent> {
        self.log@
    }

    /// The guard's invariant: the log is one of allowed events, and the
    /// holder is the one it leads to.
    pub closed spec fn wf(&self) -> bool {
        &&& log_ok(self.log@)
        &&& self.holder == holder_at(self.log@, self.log@.len() as int)
    }

    /// The zone that holds the connection now.
    pub fn current_holder(&self) -> (r: Option<usize>)
        ensures
            r == self.holder(),
    {
        self.holder
    }

    /// Whether the session was handed back.
    pub fn released(&self) -> (r: bool)
        ensures
            r == self.is_released(),
    {
        self.released
    }

    proof fn lemma_push(&self, event: GuardEvent)
        requires
            self.wf(),
            event_allowed(self.holder, event),
        ensures
            log_ok(self.log@.push(event)),
            holder_at(self.log@.push(event), self.log@.len() + 1 as int) == holder_step(self.holder, event),
    {
        let log = self.log@.push(event);
        assert forall|k: int| 0 <= k <= self.log@.len() implies holder_at(log, k) == holder_at(
            self.log@,
            k,
        ) by {
            lemma_holder_prefix(self.log@, event, k);
        }
        assert forall|k: int| 0 <= k < log.len() implies event_allowed(
            holder_at(log, k),
            #[trigger] log[k],
        ) by {
            if k < self.log@.len() {
                assert(log[k] == self.log@[k]);
            }
        }
    }

    /// Zone `zone` takes the free connection.
    pub fn acquire(&mut self, zone: usize)
        requires
            old(self).wf(),
            old(self).holder() is None,
            !old(self).is_released(),
        ensures
            final(self).wf(),
            final(self).holder() == Some(zone),
            final(self).log() == old(self).log().push(GuardEvent::Acquire(zone)),
            final(self).is_released() == old(self).is_released(),
            final(self).name_of() == old(self).name_of(),
            final(self).orig_mode_of() == old(self).orig_mode_of(),
            final(self).restore_zones_of() == old(self).restore_zones_of(),
    {
        proof {
            self.lemma_push(GuardEvent::Acquire(zone));
        }
        self.holder = Some(zone);
        self.log = Ghost(self.log@.push(GuardEvent::Acquire(zone)));
    }

    /// Zone `zone`, which holds the connection, makes the device call
    /// `command`.
    pub fn call(&mut self, zone: usize, command: DeviceCommand) -> (r: DeviceCommand)
        requires
            old(self).wf(),
            old(self).holder() == Some(zone),
        ensures
            r == command,
            final(self).wf(),
            final(self).holder() == Some(zone),
            final(self).log() == old(self).log().push(GuardEvent::Call(zone, command)),
            final(self).is_released() == old(self).is_released(),
            final(self).name_of() == old(self).name_of(),
            final(self).orig_mode_of() == old(self).orig_mode_of(),
            final(self).restore_zones_of() == old(self).restore_zones_of(),
    {
        proof {
            self.lemma_push(GuardEvent::Call(zone, command));
        }
        self.log = Ghost(self.log@.push(GuardEvent::Call(zone, command)));
        command
    }

    /// Zone `zone` gives the connection back.
    pub fn give_back(&mut self, zone: usize)
        requires
            old(self).wf(),
            old(self).holder() == Some(zone),
        ensures
            final(self).wf(),
            final(self).holder() is None,
            final(self).log() == old(self).log().push(GuardEvent::Release(zone)),
            final(self).is_released() == old(self).is_released(),
            final(self).name_of() == old(self).name_of(),
            final(self).orig_mode_of() == old(self).orig_mode_of(),
            final(self).restore_zones_of() == old(self).restore_zones_of(),
    {
        proof {
            self.lemma_push(GuardEvent::Release(zone));
        }
        self.holder = None;
        self.log = Ghost(self.log@.push(GuardEvent::Release(zone)));
    }

    /// Hands the session back, once: the calls to make, every restored zone
    /// to full duty cycle and then the original fan mode. A failing call is
    /// not to stop the ones after it. A zone whose tick crashed may still
    /// hold the connection; its hold ends here, so release works on every
    /// exit path.
    pub fn release(&mut self) -> (r: Vec<DeviceCommand>)
        requires
            old(self).wf(),
            !old(self).is_released(),
        ensures
            r@ == release_commands_spec(old(self).restore_zones_of()@, old(self).orig_mode_of()),
            final(self).wf(),
            final(self).is_released(),
            final(self).holder() is None,
            final(self).log() == match old(self).holder() {
                None => old(self).log(),
                Some(z) => old(self).log().push(GuardEvent::Release(z)),
            },
            final(self).name_of() == old(self).name_of(),
            final(self).orig_mode_of() == old(self).orig_mode_of(),
            final(self).restore_zones_of() == old(self).restore_zones_of(),
    {
        let mut cmds: Vec<DeviceCommand> = Vec::new();
        let n = self.restore_zones.len();
        let mut i: usize = 0;
        while i < n
            invariant
                n == self.restore_zones@.len(),
                i <= n,
                cmds@ == Seq::new(
                    i as nat,
                    |k: int| DeviceCommand::SetDutyCycle(self.restore_zones@[k], 100),
                ),
            decreases n - i,
        {
            cmds.push(DeviceCommand::SetDutyCycle(self.restore_zones[i], 100));
            i = i + 1;
            assert(cmds@ =~= Seq::new(
                i as nat,
                |k: int| DeviceCommand::SetDutyCycle(self.restore_zones@[k], 100),
            ));
        }
        cmds.push(DeviceCommand::SetFanMode(self.orig_fan_mode));
        if let Some(z) = self.holder {
            proof {
                self.lemma_push(GuardEvent::Release(z));
            }
            self.holder = None;
            self.log = Ghost(self.log@.push(GuardEvent::Release(z)));
        }
        self.released = true;
        cmds
    }
}

proof fn lemma_holder_prefix(log: Seq<GuardEvent>, event: GuardEvent, k: int)
    requires
        0 <= k <= log.len(),
    ensures
        holder_at(log.push(event), k) == holder_at(log, k),
    decreases k,
{
    if k > 0 {
        lemma_holder_prefix(log, event, k - 1);
        assert(log.push(event)[k - 1] == log[k - 1]);
    }
}

} // verus!
