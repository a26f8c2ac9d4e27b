use vstd::prelude::*;
use vstd::string::*;
use crate::pub_sub::str_eq;
use crate::codec::{decimal, digits};

verus! {

/// The kinds of sensor a configuration may name.
#[derive(Clone, Copy, Debug, PartialEq, Eq, Structural)]
pub enum SensorType {
    Dummy,
    DSB,
    RbpiCPU,
    UnknownSensor,
}

/// Failures of a sensor read.
#[derive(Clone, Debug)]
pub enum Error {
    InvalidAddressStart(String),
    InvalidAddressLength(usize),
    FileReadError(String),
    FileParseError(String),
    ThreadLockError(String),
    InvalidParam(String),
    UnknownSensor(String),
}

pub open spec fn sensor_type_named(name: Seq<char>) -> SensorType {
    if name == "dummy"@ {
        SensorType::Dummy
    } else if name == "dsb"@ {
        SensorType::DSB
    } else if name == "rbpicpu"@ {
        SensorType::RbpiCPU
    } else {
        SensorType::UnknownSensor
    }
}

impl Error {
    pub open spec fn text(&self) -> Seq<char> {
        match self {
            Error::InvalidAddressStart(a) => "Address must start with 28, got "@ + a@,
            Error::InvalidAddressLength(n) => "Address length must be 13, got "@ + digits(*n as nat),
            Error::FileReadError(e) => "Unable to read from file: "@ + e@,
            Error::FileParseError(m) => "Could not parse value: "@ + m@,
            Error::ThreadLockError(e) => "Unable to acquire sensor lock: "@ + e@,
            Error::InvalidParam(e) => "Invalid sensor param: "@ + e@,
            Error::UnknownSensor(e) => "Unknown sensor: "@ + e@,
        }
    }

    /// The error rendered for a reader.
    pub fn message(&self) -> (r: String)
        ensures
            r@ == self.text(),
    {
        match self {
            Error::InvalidAddressStart(a) => String::from_str("Address must start with 28, got ").concat(a.as_str()),
            Error::InvalidAddressLength(n) => {
                let d = decimal(*n as u64);
                String::from_str("Address length must be 13, got ").concat(d.as_str())
            },
            Error::FileReadError(e) => String::from_str("Unable to read from file: ").concat(e.as_str()),
            Error::FileParseError(m) => String::from_str("Could not parse value: ").concat(m.as_str()),
            Error::ThreadLockError(e) => String::from_str("Unable to acquire sensor lock: ").concat(e.as_str()),
            Error::InvalidParam(e) => String::from_str("Invalid sensor param: ").concat(e.as_str()),
            Error::UnknownSensor(e) => String::from_str("Unknown sensor: ").concat(e.as_str()),
        }
    }

    /// A one-line summary of the error kind.
    pub fn description(&self) -> (r: &'static str)
        ensures
            r@ == match self {
                Error::InvalidAddressStart(_) => "Address must start with 28"@,
                Error::InvalidAddressLength(_) => "Address length must be 13"@,
                Error::FileReadError(_) => "File read error"@,
                Error::FileParseError(_) => "File parse error"@,
                Error::ThreadLockError(_) => "Thread lock error"@,
                Error::InvalidParam(_) => "Invalid param error"@,
                Error::UnknownSensor(_) => "Unknown sensor"@,
            },
    {
        match self {
            Error::InvalidAddressStart(_) => "Address must start with 28",
            Error::InvalidAddressLength(_) => "Address length must be 13",
            Error::FileReadError(_) => "File read error",
            Error::FileParseError(_) => "File parse error",
            Error::ThreadLockError(_) => "Thread lock error",
            Error::InvalidParam(_) => "Invalid param error",
            Error::UnknownSensor(_) => "Unknown sensor",
        }
    }
}

impl SensorType {
    /// The sensor type with the given name; names are matched exactly.
    pub fn from_str(sensor_type: String) -> (r: SensorType)
        ensures
            r == sensor_type_named(sensor_type@),
    {
        let s = sensor_type.as_str();
        if str_eq(s, "dummy") {
            SensorType::Dummy
        } else if str_eq(s, "dsb") {
            SensorType::DSB
        } else if str_eq(s, "rbpicpu") {
            SensorType::RbpiCPU
        } else {
            SensorType::UnknownSensor
        }
    }
}

} // verus!
