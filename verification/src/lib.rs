pub mod codec;
pub mod protocol;
pub mod receive;
pub mod send;
pub mod sim;

use vstd::prelude::*;

verus! {

/// The error taxonomy of the protocol core.
///
/// `IO` stands for a failed or short read or write on the byte stream,
/// `Protocol` for a payload that does not decode to a known message shape,
/// `GPIO` for a hardware driver fault, and `IDOutOfBounds` for a pin
/// identifier outside the addressable range of the resource cache.
#[derive(Clone, Copy, Debug, PartialEq, Eq, Structural)]
pub enum Error {
    GPIO,
    IDOutOfBounds,
    IO,
    Protocol,
}

/// The logic level of a pin: the boolean electrical state, Low or High.
#[derive(Clone, Copy, Debug, PartialEq, Eq, Structural)]
pub enum GpioValue {
    Low,
    High,
}

impl GpioValue {
    /// `false` maps to `Low`, `true` to `High`.
    pub fn from_bool(value: bool) -> (r: GpioValue)
        ensures
            r == (if value { GpioValue::High } else { GpioValue::Low }),
    {
        if value {
            GpioValue::High
        } else {
            GpioValue::Low
        }
    }

    /// `Low` maps to `false`, `High` to `true`.
    pub fn as_bool(self) -> (r: bool)
        ensures
            r == (self is High),
    {
        match self {
            GpioValue::Low => false,
            GpioValue::High => true,
        }
    }
}

impl From<bool> for GpioValue {
    fn from(value: bool) -> (r: GpioValue) {
        GpioValue::from_bool(value)
    }
}

impl vstd::std_specs::convert::FromSpecImpl<bool> for GpioValue {
    open spec fn obeys_from_spec() -> bool {
        true
    }

    open spec fn from_spec(v: bool) -> GpioValue {
        if v {
            GpioValue::High
        } else {
            GpioValue::Low
        }
    }
}

/// An opened input pin: something whose logic level can be read.
///
/// Implementations stand for hardware (or simulated hardware), so nothing is
/// promised of the value a read returns or of whether it succeeds.
pub trait GpioIn {
    type Error;

    fn read_value(&mut self) -> Result<GpioValue, crate::Error>;
}

/// An opened output pin: something that can be driven to a logic level.
///
/// Implementations stand for hardware (or simulated hardware), so nothing is
/// promised of whether a set succeeds.
pub trait GpioOut {
    type Error;

    fn set_low(&mut self) -> Result<(), crate::Error>;

    fn set_high(&mut self) -> Result<(), crate::Error>;

    fn set(&mut self, value: GpioValue) -> Result<(), crate::Error> {
        match value {
            GpioValue::Low => self.set_low(),
            GpioValue::High => self.set_high(),
        }
    }
}

/// The GPIO capability interface: the abstract contract through which the
/// receiver engine opens pins. Implemented by an external driver adapter or
/// by an in-memory simulation.
pub trait Interface {
    type In: GpioIn;

    type Out: GpioOut;

    fn open_in(&mut self, id: u16) -> Result<Self::In, Error>;

    fn open_out(&mut self, id: u16) -> Result<Self::Out, Error>;
}

} // verus!
