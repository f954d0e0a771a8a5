//! The latest reading received from the sensor.

use vstd::prelude::*;

use crate::text::{parse_reading, reading_of};

verus! {

/// The sensor's latest reading, zero until one arrives.
pub struct SensorState {
    value: u16,
}

impl SensorState {
    /// The reading held.
    pub closed spec fn reading(self) -> u16 {
        self.value
    }

    /// No reading received yet: the value is zero.
    pub fn new() -> (r: Self)
        ensures
            r.reading() == 0,
    {
        SensorState { value: 0 }
    }

    /// The latest reading.
    pub fn get_value(&self) -> (r: u16)
        ensures
            r == self.reading(),
    {
        self.value
    }

    /// Takes in one datagram payload. A payload that carries a reading
    /// replaces the held value and is accepted; any other payload is
    /// dropped and leaves the value as it was.
    pub fn receive_datagram(&mut self, payload: &[u8]) -> (accepted: bool)
        ensures
            accepted == reading_of(payload@) is Some,
            final(self).reading() == match reading_of(payload@) {
                Some(v) => v,
                None => old(self).reading(),
            },
    {
        match parse_reading(payload) {
            Some(v) => {
                self.value = v;
                true
            },
            None => false,
        }
    }
}

} // verus!
