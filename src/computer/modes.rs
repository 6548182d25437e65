//! A computer whose state is one of three modes, each with its own counters.
use vstd::prelude::*;
use super::{Event, Status, IDLE_LIMIT, SLEEP_LIMIT};
#[allow(unused_imports)]
use super::{next, fits, reachable};

verus! {

/// A computer that is off, running, or sleeping.
pub enum ComputerState {
    Off,
    Running { uptime: u32, idle_time: u32 },
    Sleeping { uptime: u32, sleep_time: u32 },
}

impl View for ComputerState {
    type V = Status;

    open spec fn view(&self) -> Status {
        match *self {
            ComputerState::Off => super::off(),
            ComputerState::Running { uptime, idle_time } => super::running(
                uptime as nat,
                idle_time as nat,
            ),
            ComputerState::Sleeping { uptime, sleep_time } => Status {
                on: true,
                sleeping: true,
                uptime: uptime as nat,
                idle_time: 0,
                sleep_time: sleep_time as nat,
            },
        }
    }
}

impl ComputerState {
    /// A computer that is turned off.
    pub fn new_off() -> (r: Self)
        ensures
            r@ == super::off(),
    {
        ComputerState::Off
    }

    /// A computer that has just been turned on.
    pub fn new_on() -> (r: Self)
        ensures
            r@ == super::running(0, 0),
    {
        ComputerState::Running { uptime: 0, idle_time: 0 }
    }

    pub fn is_on(&self) -> (r: bool)
        ensures
            r == self@.on,
    {
        !matches!(self, ComputerState::Off)
    }

    pub fn is_sleeping(&self) -> (r: bool)
        ensures
            r == self@.sleeping,
    {
        matches!(self, ComputerState::Sleeping { .. })
    }

    pub fn uptime(&self) -> (r: u32)
        ensures
            r == self@.uptime,
    {
        match self {
            ComputerState::Off => 0,
            ComputerState::Running { uptime, .. } => *uptime,
            ComputerState::Sleeping { uptime, .. } => *uptime,
        }
    }

    pub fn idle_time(&self) -> (r: u32)
        ensures
            r == self@.idle_time,
    {
        match self {
            ComputerState::Running { idle_time, .. } => *idle_time,
            _ => 0,
        }
    }

    pub fn sleep_time(&self) -> (r: u32)
        ensures
            r == self@.sleep_time,
    {
        match self {
            ComputerState::Sleeping { sleep_time, .. } => *sleep_time,
            _ => 0,
        }
    }
}

/// A sleeping computer, or one that is off when it has slept too long.
fn fall_asleep(uptime: u32, sleep_time: u32) -> (r: ComputerState)
    ensures
        r@ == super::asleep(uptime as nat, sleep_time as nat),
{
    if sleep_time > SLEEP_LIMIT {
        ComputerState::Off
    } else {
        ComputerState::Sleeping { uptime, sleep_time }
    }
}

/// The state of `computer` after `event`.
pub fn pc_transition(computer: ComputerState, event: Event) -> (r: ComputerState)
    requires
        reachable(computer@),
        fits(computer@, event),
    ensures
        r@ == next(computer@, event),
        reachable(r@),
{
    match event {
        Event::TurnOn => match computer {
            ComputerState::Off => ComputerState::new_on(),
            _ => computer,
        },
        Event::TurnOff => ComputerState::new_off(),
        Event::PassTime(time) => match computer {
            ComputerState::Off => ComputerState::Off,
            ComputerState::Running { uptime, idle_time } => {
                let idle_time = idle_time + time;
                if idle_time > IDLE_LIMIT {
                    fall_asleep(uptime + time, idle_time - IDLE_LIMIT)
                } else {
                    ComputerState::Running { uptime: uptime + time, idle_time }
                }
            },
            ComputerState::Sleeping { uptime, sleep_time } => fall_asleep(
                uptime + time,
                sleep_time + time,
            ),
        },
        Event::MoveMouse => match computer {
            ComputerState::Off => ComputerState::Off,
            ComputerState::Running { uptime, .. } => ComputerState::Running {
                uptime,
                idle_time: 0,
            },
            ComputerState::Sleeping { uptime, .. } => ComputerState::Running {
                uptime,
                idle_time: 0,
            },
        },
    }
}

} // verus!
