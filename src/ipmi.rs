use vstd::prelude::*;

verus! {

/// Errors of an IPMI exchange.
#[derive(Debug, Clone, PartialEq, Eq)]
pub enum Error {
    /// The transport failed; its own message.
    Transport { message: String },
    /// The response held fewer than the command number and the status.
    ResponseTooShort,
    /// The response answers another command than the one sent.
    BadResponseCommand { request: u8, response: u8 },
    /// The BMC answered with a completion code other than success.
    CommandFailed { code: u8 },
    /// The response data does not have the size the command calls for.
    BadResponseSize { expected: usize, actual: usize },
}

/// The BMC's fan policy.
#[derive(Clone, Copy, Debug, PartialEq, Eq, Structural)]
pub enum FanMode {
    Standard,
    Full,
    Optimal,
    HeavyIo,
    /// A raw value with no name.
    Unknown(u8),
}

/// The fan mode that a raw value stands for.
pub open spec fn fan_mode_of(value: u8) -> FanMode {
    if value == 0 {
        FanMode::Standard
    } else if value == 1 {
        FanMode::Full
    } else if value == 2 {
        FanMode::Optimal
    } else if value == 4 {
        FanMode::HeavyIo
    } else {
        FanMode::Unknown(value)
    }
}

/// The raw value of a fan mode.
pub open spec fn fan_mode_value(mode: FanMode) -> u8 {
    match mode {
        FanMode::Standard => 0,
        FanMode::Full => 1,
        FanMode::Optimal => 2,
        FanMode::HeavyIo => 4,
        FanMode::Unknown(n) => n,
    }
}

impl From<u8> for FanMode {
    fn from(value: u8) -> (r: Self) {
        match value {
            0 => FanMode::Standard,
            1 => FanMode::Full,
            2 => FanMode::Optimal,
            4 => FanMode::HeavyIo,
            n => FanMode::Unknown(n),
        }
    }
}

impl vstd::std_specs::convert::FromSpecImpl<u8> for FanMode {
    open spec fn obeys_from_spec() -> bool {
        true
    }

    open spec fn from_spec(v: u8) -> Self {
        fan_mode_of(v)
    }
}

impl From<FanMode> for u8 {
    fn from(mode: FanMode) -> (r: Self) {
        match mode {
            FanMode::Standard => 0,
            FanMode::Full => 1,
            FanMode::Optimal => 2,
            FanMode::HeavyIo => 4,
            FanMode::Unknown(n) => n,
        }
    }
}

impl vstd::std_specs::convert::FromSpecImpl<FanMode> for u8 {
    open spec fn obeys_from_spec() -> bool {
        true
    }

    open spec fn from_spec(v: FanMode) -> Self {
        fan_mode_value(v)
    }
}

/// Every raw value is sent back unchanged through the fan mode it reads as.
pub proof fn lemma_fan_mode_round_trip(value: u8)
    ensures
        fan_mode_value(fan_mode_of(value)) == value,
{
}

/// Network function of the Supermicro OEM requests.
pub const NET_FN_GENERIC: u8 = 0x30;

/// Command that reads or writes the fan mode.
pub const CMD_FAN_MODE: u8 = 0x45;

/// Command of the Supermicro generic extensions.
pub const CMD_GENERIC_EXT: u8 = 0x70;

/// Extension that reads or writes a zone's duty cycle.
pub const DATA_DUTY_CYCLE: u8 = 0x66;

/// Action byte that reads a value.
pub const DATA_ACTION_READ: u8 = 0x0;

/// Action byte that writes a value.
pub const DATA_ACTION_WRITE: u8 = 0x1;

/// Completion code of a successful command.
pub const COMPLETION_SUCCESS: u8 = 0x0;

/// One raw IPMI request and the size of the data that must come back.
#[derive(Clone, Debug, PartialEq, Eq)]
pub struct RawCommand {
    pub net_fn: u8,
    pub command: u8,
    pub data: Vec<u8>,
    pub expected_size: usize,
}

/// What a raw response holds once checked: the data after the command
/// number and the completion code.
pub open spec fn raw_response_result(command: u8, response: Seq<u8>) -> Result<Seq<u8>, Error> {
    if response.len() < 2 {
        Err(Error::ResponseTooShort)
    } else if response[0] != command {
        Err(Error::BadResponseCommand { request: command, response: response[0] })
    } else if response[1] != COMPLETION_SUCCESS {
        Err(Error::CommandFailed { code: response[1] })
    } else {
        Ok(response.skip(2))
    }
}

/// Checks the raw bytes that answered `command` and returns its data.
pub fn check_raw_response(command: u8, response: &Vec<u8>) -> (r: Result<Vec<u8>, Error>)
    ensures
        match r {
            Ok(data) => raw_response_result(command, response@) == Ok::<Seq<u8>, Error>(data@),
            Err(e) => raw_response_result(command, response@) == Err::<Seq<u8>, Error>(e),
        },
{
    if response.len() < 2 {
        return Err(Error::ResponseTooShort);
    }
    if response[0] != command {
        return Err(Error::BadResponseCommand { request: command, response: response[0] });
    }
    if response[1] != COMPLETION_SUCCESS {
        return Err(Error::CommandFailed { code: response[1] });
    }
    let mut data: Vec<u8> = Vec::new();
    let mut i: usize = 2;
    while i < response.len()
        invariant
            2 <= i <= response@.len(),
            data@ == response@.subrange(2, i as int),
        decreases response@.len() - i,
    {
        data.push(response[i]);
        i = i + 1;
    }
    assert(data@ =~= response@.skip(2));
    Ok(data)
}

fn expect_size(response: Vec<u8>, expected: usize) -> (r: Result<Vec<u8>, Error>)
    ensures
        r == if response@.len() == expected {
            Ok::<Vec<u8>, Error>(response)
        } else {
            Err(Error::BadResponseSize { expected, actual: response@.len() as usize })
        },
{
    if response.len() != expected {
        return Err(Error::BadResponseSize { expected, actual: response.len() });
    }
    Ok(response)
}

/// The Supermicro OEM commands that drive the fans.
pub struct Ipmi;

impl Ipmi {
    /// Checks that `response` answers `request` with the expected size.
    pub fn execute(request: &RawCommand, response: Vec<u8>) -> (r: Result<Vec<u8>, Error>)
        ensures
            r == if response@.len() == request.expected_size {
                Ok::<Vec<u8>, Error>(response)
            } else {
                Err(Error::BadResponseSize { expected: request.expected_size, actual: response@.len() as usize })
            },
    {
        expect_size(response, request.expected_size)
    }

    /// The request that reads the fan mode.
    pub fn get_fan_mode_request() -> (r: RawCommand)
        ensures
            r.net_fn == NET_FN_GENERIC,
            r.command == CMD_FAN_MODE,
            r.data@ == seq![DATA_ACTION_READ],
            r.expected_size == 1,
    {
        RawCommand {
            net_fn: NET_FN_GENERIC,
            command: CMD_FAN_MODE,
            data: vec![DATA_ACTION_READ],
            expected_size: 1,
        }
    }

    /// The fan mode read from the data that answered
    /// [`Ipmi::get_fan_mode_request`].
    pub fn get_fan_mode(response: Vec<u8>) -> (r: Result<FanMode, Error>)
        ensures
            r == if response@.len() == 1 {
                Ok::<FanMode, Error>(fan_mode_of(response@[0]))
            } else {
                Err(Error::BadResponseSize { expected: 1, actual: response@.len() as usize })
            },
    {
        let data = expect_size(response, 1)?;
        Ok(FanMode::from(data[0]))
    }

    /// The request that sets the fan mode.
    pub fn set_fan_mode_request(mode: FanMode) -> (r: RawCommand)
        ensures
            r.net_fn == NET_FN_GENERIC,
            r.command == CMD_FAN_MODE,
            r.data@ == seq![DATA_ACTION_WRITE, fan_mode_value(mode)],
            r.expected_size == 0,
    {
        RawCommand {
            net_fn: NET_FN_GENERIC,
            command: CMD_FAN_MODE,
            data: vec![DATA_ACTION_WRITE, u8::from(mode)],
            expected_size: 0,
        }
    }

    /// Checks the data that answered [`Ipmi::set_fan_mode_request`].
    pub fn set_fan_mode(response: Vec<u8>) -> (r: Result<(), Error>)
        ensures
            r == if response@.len() == 0 {
                Ok::<(), Error>(())
            } else {
                Err(Error::BadResponseSize { expected: 0, actual: response@.len() as usize })
            },
    {
        expect_size(response, 0)?;
        Ok(())
    }

    /// The request that reads the duty cycle of a zone.
    pub fn get_duty_cycle_request(zone: u8) -> (r: RawCommand)
        ensures
            r.net_fn == NET_FN_GENERIC,
            r.command == CMD_GENERIC_EXT,
            r.data@ == seq![DATA_DUTY_CYCLE, DATA_ACTION_READ, zone],
            r.expected_size == 1,
    {
        RawCommand {
            net_fn: NET_FN_GENERIC,
            command: CMD_GENERIC_EXT,
            data: vec![DATA_DUTY_CYCLE, DATA_ACTION_READ, zone],
            expected_size: 1,
        }
    }

    /// The duty cycle read from the data that answered
    /// [`Ipmi::get_duty_cycle_request`]: the BMC's raw value, which should
    /// be a percentage but is not checked.
    pub fn get_duty_cycle(response: Vec<u8>) -> (r: Result<u8, Error>)
        ensures
            r == if response@.len() == 1 {
                Ok::<u8, Error>(response@[0])
            } else {
                Err(Error::BadResponseSize { expected: 1, actual: response@.len() as usize })
            },
    {
        let data = expect_size(response, 1)?;
        Ok(data[0])
    }

    /// The request that sets the duty cycle of a zone; `dcycle` is sent as
    /// it is.
    pub fn set_duty_cycle_request(zone: u8, dcycle: u8) -> (r: RawCommand)
        ensures
            r.net_fn == NET_FN_GENERIC,
            r.command == CMD_GENERIC_EXT,
            r.data@ == seq![DATA_DUTY_CYCLE, DATA_ACTION_WRITE, zone, dcycle],
            r.expected_size == 0,
    {
        RawCommand {
            net_fn: NET_FN_GENERIC,
            command: CMD_GENERIC_EXT,
            data: vec![DATA_DUTY_CYCLE, DATA_ACTION_WRITE, zone, dcycle],
            expected_size: 0,
        }
    }

    /// Checks the data that answered [`Ipmi::set_duty_cycle_request`].
    pub fn set_duty_cycle(response: Vec<u8>) -> (r: Result<(), Error>)
        ensures
            r == if response@.len() == 0 {
                Ok::<(), Error>(())
            } else {
                Err(Error::BadResponseSize { expected: 0, actual: response@.len() as usize })
            },
    {
        expect_size(response, 0)?;
        Ok(())
    }
}

} // verus!

verus! {

/// One call of the device capability that the engine drives.
#[derive(Clone, Copy, Debug, PartialEq, Eq, Structural)]
pub enum DeviceCommand {
    GetFanMode,
    SetFanMode(FanMode),
    GetDutyCycle(u8),
    SetDutyCycle(u8, u8),
}

impl DeviceCommand {
    /// The raw IPMI request that carries out the call.
    pub fn to_raw(&self) -> (r: RawCommand)
        ensures
            r.net_fn == NET_FN_GENERIC,
            match *self {
                DeviceCommand::GetFanMode => r.command == CMD_FAN_MODE && r.data@ == seq![
                    DATA_ACTION_READ,
                ] && r.expected_size == 1,
                DeviceCommand::SetFanMode(mode) => r.command == CMD_FAN_MODE && r.data@ == seq![
                    DATA_ACTION_WRITE,
                    fan_mode_value(mode),
                ] && r.expected_size == 0,
                DeviceCommand::GetDutyCycle(zone) => r.command == CMD_GENERIC_EXT && r.data@
                    == seq![DATA_DUTY_CYCLE, DATA_ACTION_READ, zone] && r.expected_size == 1,
                DeviceCommand::SetDutyCycle(zone, dcycle) => r.command == CMD_GENERIC_EXT
                    && r.data@ == seq![DATA_DUTY_CYCLE, DATA_ACTION_WRITE, zone, dcycle]
                    && r.expected_size == 0,
            },
    {
        match *self {
            DeviceCommand::GetFanMode => Ipmi::get_fan_mode_request(),
            DeviceCommand::SetFanMode(mode) => Ipmi::set_fan_mode_request(mode),
            DeviceCommand::GetDutyCycle(zone) => Ipmi::get_duty_cycle_request(zone),
            DeviceCommand::SetDutyCycle(zone, dcycle) => Ipmi::set_duty_cycle_request(zone, dcycle),
        }
    }
}

} // verus!
