//! A computer that is off, running or sleeping, driven by events.
//!
//! The rules:
//! - `TurnOn` starts a computer that is off; otherwise nothing happens.
//! - `TurnOff` switches the computer off.
//! - `MoveMouse` wakes a sleeping computer, and resets the idle time of a running one.
//! - `PassTime(t)` adds `t` to the uptime of a computer that is on. A running
//!   computer that has been idle for more than 1000 goes to sleep, carrying the
//!   excess over as sleep time; a computer asleep for more than 500 switches off.
use vstd::prelude::*;

pub mod flags;
pub mod modes;

verus! {

/// Idle time after which a running computer goes to sleep.
pub const IDLE_LIMIT: u32 = 1000;

/// Sleep time after which a sleeping computer switches off.
pub const SLEEP_LIMIT: u32 = 500;

/// Something that happens to a computer.
pub enum Event {
    TurnOn,
    TurnOff,
    PassTime(u32),
    MoveMouse,
}

/// What can be observed of a computer.
pub ghost struct Status {
    pub on: bool,
    pub sleeping: bool,
    pub uptime: nat,
    pub idle_time: nat,
    pub sleep_time: nat,
}

/// A computer that is off.
pub open spec fn off() -> Status {
    Status { on: false, sleeping: false, uptime: 0, idle_time: 0, sleep_time: 0 }
}

/// A running computer.
pub open spec fn running(uptime: nat, idle_time: nat) -> Status {
    Status { on: true, sleeping: false, uptime, idle_time, sleep_time: 0 }
}

/// A sleeping computer, or one that is off if it has slept too long.
pub open spec fn asleep(uptime: nat, sleep_time: nat) -> Status {
    if sleep_time > SLEEP_LIMIT {
        off()
    } else {
        Status { on: true, sleeping: true, uptime, idle_time: 0, sleep_time }
    }
}

/// The states a computer can reach.
pub open spec fn reachable(s: Status) -> bool {
    &&& !s.on ==> s == off()
    &&& s.on && !s.sleeping ==> s.sleep_time == 0 && s.idle_time <= s.uptime
    &&& s.on && s.sleeping ==> s.idle_time == 0 && s.sleep_time <= s.uptime
}

/// The state after `e` happens to a computer in state `s`.
pub open spec fn next(s: Status, e: Event) -> Status {
    match e {
        Event::TurnOn => if s.on {
            s
        } else {
            running(0, 0)
        },
        Event::TurnOff => off(),
        Event::PassTime(t) => if !s.on {
            s
        } else if s.sleeping {
            asleep(s.uptime + t as nat, s.sleep_time + t as nat)
        } else if s.idle_time + t > IDLE_LIMIT {
            asleep(s.uptime + t as nat, (s.idle_time + t - IDLE_LIMIT) as nat)
        } else {
            running(s.uptime + t as nat, s.idle_time + t as nat)
        },
        Event::MoveMouse => if s.on {
            running(s.uptime, 0)
        } else {
            s
        },
    }
}

/// Whether `e` can happen to a computer in state `s` with every time still
/// fitting in a `u32`.
pub open spec fn fits(s: Status, e: Event) -> bool {
    match e {
        Event::PassTime(t) => s.on ==> s.uptime + t <= u32::MAX,
        _ => true,
    }
}

} // verus!
