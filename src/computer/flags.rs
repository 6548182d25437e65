//! A computer whose state is a set of flags and counters.
use vstd::prelude::*;
use super::{Event, Status, IDLE_LIMIT, SLEEP_LIMIT};
#[allow(unused_imports)]
use super::{next, fits, reachable};

verus! {

/// A computer, held as whether it is on, whether it sleeps, and three times.
pub struct ComputerState {
    enabled: bool,
    sleeping: bool,
    uptime: u32,
    sleep_time: u32,
    idle_time: u32,
}

impl View for ComputerState {
    type V = Status;

    closed spec fn view(&self) -> Status {
        Status {
            on: self.enabled,
            sleeping: self.sleeping,
            uptime: self.uptime as nat,
            idle_time: self.idle_time as nat,
            sleep_time: self.sleep_time as nat,
        }
    }
}

impl ComputerState {
    /// A computer that is turned off.
    pub fn new_off() -> (r: Self)
        ensures
            r@ == super::off(),
    {
        ComputerState { enabled: false, sleeping: false, uptime: 0, sleep_time: 0, idle_time: 0 }
    }

    /// A computer that has just been turned on.
    pub fn new_on() -> (r: Self)
        ensures
            r@ == super::running(0, 0),
    {
        ComputerState { enabled: true, sleeping: false, uptime: 0, sleep_time: 0, idle_time: 0 }
    }

    pub fn is_on(&self) -> (r: bool)
        ensures
            r == self@.on,
    {
        self.enabled
    }

    pub fn is_sleeping(&self) -> (r: bool)
        ensures
            r == self@.sleeping,
    {
        self.sleeping
    }

    pub fn uptime(&self) -> (r: u32)
        ensures
            r == self@.uptime,
    {
        self.uptime
    }

    pub fn idle_time(&self) -> (r: u32)
        ensures
            r == self@.idle_time,
    {
        self.idle_time
    }

    pub fn sleep_time(&self) -> (r: u32)
        ensures
            r == self@.sleep_time,
    {
        self.sleep_time
    }
}

/// The state of `computer` after `event`.
pub fn pc_transition(computer: ComputerState, event: Event) -> (r: ComputerState)
    requires
        reachable(computer@),
        fits(computer@, event),
    ensures
        r@ == next(computer@, event),
        reachable(r@),
{
    let mut computer = computer;
    match event {
        Event::TurnOn => {
            if !computer.enabled {
                return ComputerState::new_on();
            }
        },
        Event::TurnOff => {
            return ComputerState::new_off();
        },
        Event::PassTime(time) => {
            if computer.enabled {
                computer.uptime = computer.uptime + time;
                if computer.sleeping {
                    computer.sleep_time = computer.sleep_time + time;
                } else {
                    computer.idle_time = computer.idle_time + time;
                }
                if computer.idle_time > IDLE_LIMIT {
                    computer.sleeping = true;
                    computer.sleep_time = computer.idle_time - IDLE_LIMIT;
                    computer.idle_time = 0;
                }
                if computer.sleeping && computer.sleep_time > SLEEP_LIMIT {
                    return ComputerState::new_off();
                }
            }
        },
        Event::MoveMouse => {
            if computer.sleeping {
                computer.sleeping = false;
                computer.sleep_time = 0;
            } else {
                computer.idle_time = 0;
            }
        },
    }
    computer
}

} // verus!
