use vstd::prelude::*;
use vstd::string::StringExecFns;
use crate::text::decimal_string;
use crate::text::spec_decimal_digits;

verus! {

/// Error returned when a 5-bit device code has no assigned device.
#[derive(Copy, Clone, Debug, PartialEq, Eq)]
pub enum DeviceIdError {
    /// The offending code is carried in the variant.
    InvalidId(u8),
}

impl DeviceIdError {
    /// A human-readable description of the error.
    pub fn message(&self) -> (s: String)
        ensures
            (match *self {
                DeviceIdError::InvalidId(code) => s@ == "invalid device id: "@
                    + spec_decimal_digits(code as nat),
            }),
    {
        match self {
            DeviceIdError::InvalidId(code) => {
                let mut s = "invalid device id: ".to_owned();
                s.append(decimal_string(*code as u64).as_str());
                s
            },
        }
    }
}

/// The ID of a device onboard the flight unit, as assigned by the
/// protocol's device table.
#[derive(Copy, Clone, Debug, PartialEq, Eq)]
pub enum DeviceId {
    System,
    PressureSensor,
    TemperatureSensor,
    HumiditySensor,
    Gps,
    Accelerometer,
    Unknown,
}

/// The 5-bit wire code assigned to each device.
pub open spec fn spec_device_code(d: DeviceId) -> u8 {
    match d {
        DeviceId::System => 1,
        DeviceId::PressureSensor => 2,
        DeviceId::TemperatureSensor => 3,
        DeviceId::HumiditySensor => 4,
        DeviceId::Gps => 5,
        DeviceId::Accelerometer => 6,
        DeviceId::Unknown => 31,
    }
}

/// The codes with an assigned device: 1 through 6, plus the sentinel 31.
pub open spec fn valid_device_code(code: u8) -> bool {
    1 <= code <= 6 || code == 31
}

/// The device assigned to a valid code.
pub open spec fn spec_device_from_code(code: u8) -> DeviceId
    recommends
        valid_device_code(code),
{
    if code == 1 {
        DeviceId::System
    } else if code == 2 {
        DeviceId::PressureSensor
    } else if code == 3 {
        DeviceId::TemperatureSensor
    } else if code == 4 {
        DeviceId::HumiditySensor
    } else if code == 5 {
        DeviceId::Gps
    } else if code == 6 {
        DeviceId::Accelerometer
    } else {
        DeviceId::Unknown
    }
}

impl DeviceId {
    /// The numeric code this device carries on the wire.
    pub fn code(&self) -> (r: u8)
        ensures
            r == spec_device_code(*self),
            valid_device_code(r),
    {
        match self {
            DeviceId::System => 1,
            DeviceId::PressureSensor => 2,
            DeviceId::TemperatureSensor => 3,
            DeviceId::HumiditySensor => 4,
            DeviceId::Gps => 5,
            DeviceId::Accelerometer => 6,
            DeviceId::Unknown => 31,
        }
    }

    /// Map a 5-bit code to its device. This is the single point of
    /// device-table validation: every code either maps to a device or
    /// is rejected with `InvalidId`.
    pub fn try_from(value: u8) -> (r: Result<DeviceId, DeviceIdError>)
        ensures
            valid_device_code(value) ==> r == Ok::<DeviceId, DeviceIdError>(
                spec_device_from_code(value),
            ),
            !valid_device_code(value) ==> r == Err::<DeviceId, DeviceIdError>(
                DeviceIdError::InvalidId(value),
            ),
    {
        match value {
            1 => Ok(DeviceId::System),
            2 => Ok(DeviceId::PressureSensor),
            3 => Ok(DeviceId::TemperatureSensor),
            4 => Ok(DeviceId::HumiditySensor),
            5 => Ok(DeviceId::Gps),
            6 => Ok(DeviceId::Accelerometer),
            31 => Ok(DeviceId::Unknown),
            _ => Err(DeviceIdError::InvalidId(value)),
        }
    }
}

/// Decoding a device's own wire code yields that device back.
pub proof fn lemma_device_code_round_trip(d: DeviceId)
    ensures
        spec_device_from_code(spec_device_code(d)) == d,
{
}

/// The human-readable name of each device, with its numeric code.
pub open spec fn spec_device_message(d: DeviceId) -> Seq<char> {
    match d {
        DeviceId::System => "System Device (ID 1)"@,
        DeviceId::PressureSensor => "Pressure Sensor Device (ID 2)"@,
        DeviceId::TemperatureSensor => "Temperature Sensor Device (ID 3)"@,
        DeviceId::HumiditySensor => "Humidity Sensor Device (ID 4)"@,
        DeviceId::Gps => "GPS Device (ID 5)"@,
        DeviceId::Accelerometer => "Accelerometer Device (ID 6)"@,
        DeviceId::Unknown => "Unknown Device (ID 31)"@,
    }
}

impl DeviceId {
    /// The device's human-readable name, with its numeric code.
    pub fn message(&self) -> (s: String)
        ensures
            s@ == spec_device_message(*self),
    {
        match self {
            DeviceId::System => "System Device (ID 1)".to_owned(),
            DeviceId::PressureSensor => "Pressure Sensor Device (ID 2)".to_owned(),
            DeviceId::TemperatureSensor => "Temperature Sensor Device (ID 3)".to_owned(),
            DeviceId::HumiditySensor => "Humidity Sensor Device (ID 4)".to_owned(),
            DeviceId::Gps => "GPS Device (ID 5)".to_owned(),
            DeviceId::Accelerometer => "Accelerometer Device (ID 6)".to_owned(),
            DeviceId::Unknown => "Unknown Device (ID 31)".to_owned(),
        }
    }
}

} // verus!
