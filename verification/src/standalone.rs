//! Standalone device units usable outside the registry: a smart socket that
//! reports a fixed power draw while on, and a thermometer that reports a
//! fixed temperature.

use vstd::prelude::*;
use vstd::string::StringExecFns;

verus! {

/// States the standalone socket can be in; it starts `Off`.
#[derive(Clone, Copy, Debug, PartialEq, Eq, Structural)]
pub enum WorkingState {
    On,
    Off,
}

impl Default for WorkingState {
    fn default() -> (r: Self)
        ensures
            r == WorkingState::Off,
    {
        WorkingState::Off
    }
}

/// A standalone smart socket: an optional description, an on/off state, and
/// the power value of the last measurement.
#[derive(Debug)]
pub struct SmartSocket {
    /// User description.
    pub description: Option<String>,
    state: WorkingState,
    power: u32,
}

impl SmartSocket {
    /// The socket's state, as a model value.
    pub closed spec fn spec_state(&self) -> WorkingState {
        self.state
    }

    /// The last measured power, as a model value.
    pub closed spec fn spec_power(&self) -> u32 {
        self.power
    }

    /// The description, as a model value.
    pub closed spec fn spec_description(&self) -> Option<Seq<char>> {
        match self.description {
            Some(ref d) => Some(d@),
            None => None,
        }
    }

    /// A fresh socket with the given description, off and with no power
    /// measured.
    pub fn new(description: &str) -> (r: Self)
        ensures
            r.spec_description() == Some(description@),
            r.spec_state() == WorkingState::Off,
            r.spec_power() == 0,
    {
        SmartSocket { description: Some(description.to_owned()), state: WorkingState::Off, power: 0 }
    }

    /// Measures and returns the power draw while the socket is on; returns
    /// nothing, and measures nothing, while it is off.
    pub fn get_power(&mut self) -> (r: Option<u32>)
        ensures
            final(self).spec_state() == old(self).spec_state(),
            final(self).spec_description() == old(self).spec_description(),
            old(self).spec_state() == WorkingState::On ==> r == Some(10u32)
                && final(self).spec_power() == 10,
            old(self).spec_state() == WorkingState::Off ==> r is None && final(self).spec_power()
                == old(self).spec_power(),
    {
        match self.state {
            WorkingState::On => {
                self.power = self.calculate_power();
                Some(self.power)
            },
            WorkingState::Off => None,
        }
    }

    /// Switches the socket on; the description and last measurement stay.
    pub fn turn_on(&mut self)
        ensures
            final(self).spec_state() == WorkingState::On,
            final(self).spec_description() == old(self).spec_description(),
            final(self).spec_power() == old(self).spec_power(),
    {
        self.state = WorkingState::On;
    }

    /// Switches the socket off; the description and last measurement stay.
    pub fn turn_off(&mut self)
        ensures
            final(self).spec_state() == WorkingState::Off,
            final(self).spec_description() == old(self).spec_description(),
            final(self).spec_power() == old(self).spec_power(),
    {
        self.state = WorkingState::Off;
    }

    /// The socket's current state.
    pub fn get_state(&self) -> (r: WorkingState)
        ensures
            r == self.spec_state(),
    {
        self.state
    }

    /// The power draw the socket reports while on.
    fn calculate_power(&self) -> (r: u32)
        ensures
            r == 10,
    {
        10
    }
}

impl Default for SmartSocket {
    /// A socket without a description, off and with no power measured.
    fn default() -> (r: Self)
        ensures
            r.spec_description() is None,
            r.spec_state() == WorkingState::Off,
            r.spec_power() == 0,
    {
        SmartSocket { description: None, state: WorkingState::Off, power: 0 }
    }
}

/// A standalone thermometer holding the temperature of its last measurement.
#[derive(Debug)]
pub struct Thermometer {
    temperature: i32,
}

impl Thermometer {
    /// The last measured temperature, as a model value.
    pub closed spec fn spec_temperature(&self) -> i32 {
        self.temperature
    }

    /// Measures the temperature, stores it, and returns it.
    pub fn calculate_temperature(&mut self) -> (r: i32)
        ensures
            r == 22,
            final(self).spec_temperature() == 22,
    {
        self.temperature = self.internal_calculate_temperature();
        self.temperature
    }

    /// The temperature the thermometer currently reads.
    fn internal_calculate_temperature(&self) -> (r: i32)
        ensures
            r == 22,
    {
        22
    }
}

impl Default for Thermometer {
    /// A thermometer that has not measured anything yet.
    fn default() -> (r: Self)
        ensures
            r.spec_temperature() == 0,
    {
        Thermometer { temperature: 0 }
    }
}

} // verus!
