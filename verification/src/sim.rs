//! An in-memory implementation of the GPIO capability interface, so the
//! receiver engine can be driven without hardware. It records every open
//! and every driven level, hands each opened input a scripted sequence of
//! levels to read back, and can be told to refuse opens.

use crate::{Error, GpioIn, GpioOut, GpioValue, Interface};
use vstd::prelude::*;

verus! {

/// A simulated input pin: reads walk the scripted levels in order and stay
/// `Low` once the script is exhausted. Reads never fail.
#[derive(Debug)]
pub struct SimIn {
    pub id: u16,
    pub levels: Vec<bool>,
    pub pos: usize,
}

impl GpioIn for SimIn {
    type Error = crate::Error;

    fn read_value(&mut self) -> Result<GpioValue, crate::Error> {
        if self.pos < self.levels.len() {
            let v = self.levels[self.pos];
            self.pos = self.pos + 1;
            Ok(GpioValue::from_bool(v))
        } else {
            Ok(GpioValue::Low)
        }
    }
}

/// A simulated output pin: records every level driven on it, in order.
/// Sets never fail.
#[derive(Debug)]
pub struct SimOut {
    pub id: u16,
    pub sets: Vec<bool>,
}

impl GpioOut for SimOut {
    type Error = crate::Error;

    fn set_low(&mut self) -> Result<(), crate::Error> {
        self.sets.push(false);
        Ok(())
    }

    fn set_high(&mut self) -> Result<(), crate::Error> {
        self.sets.push(true);
        Ok(())
    }
}

/// A simulated driver: records which pins were opened and in which order,
/// hands every new input the configured level script, and refuses every
/// open with a `GPIO` error while `fail_opens` is set.
#[derive(Debug)]
pub struct SimInterface {
    pub in_opens: Vec<u16>,
    pub out_opens: Vec<u16>,
    pub levels: Vec<bool>,
    pub fail_opens: bool,
}

impl SimInterface {
    /// A driver with no opens recorded, an empty level script, and opens
    /// allowed.
    pub fn new() -> (r: SimInterface)
        ensures
            r.in_opens@.len() == 0,
            r.out_opens@.len() == 0,
            r.levels@.len() == 0,
            !r.fail_opens,
    {
        SimInterface { in_opens: Vec::new(), out_opens: Vec::new(), levels: Vec::new(), fail_opens: false }
    }

    /// A driver whose opened inputs will read back `levels`, in order.
    pub fn with_levels(levels: Vec<bool>) -> (r: SimInterface)
        ensures
            r.in_opens@.len() == 0,
            r.out_opens@.len() == 0,
            r.levels@ == levels@,
            !r.fail_opens,
    {
        SimInterface { in_opens: Vec::new(), out_opens: Vec::new(), levels, fail_opens: false }
    }
}

impl Interface for SimInterface {
    type In = SimIn;

    type Out = SimOut;

    fn open_in(&mut self, id: u16) -> Result<SimIn, Error> {
        if self.fail_opens {
            return Err(Error::GPIO);
        }
        self.in_opens.push(id);
        let mut levels: Vec<bool> = Vec::new();
        levels.extend_from_slice(self.levels.as_slice());
        Ok(SimIn { id, levels, pos: 0 })
    }

    fn open_out(&mut self, id: u16) -> Result<SimOut, Error> {
        if self.fail_opens {
            return Err(Error::GPIO);
        }
        self.out_opens.push(id);
        Ok(SimOut { id, sets: Vec::new() })
    }
}

} // verus!
