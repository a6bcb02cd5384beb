//! The electric strike: a two-state lock that relocks by itself.
//!
//! The door keeps the time of the tick in progress. Whoever drives the
//! strike sets its GPIO line to [`Door::pin_value`] after every operation.

use crate::device::clock::{elapsed, elapsed_between, later};
use crate::device::Shutdown;
use crate::request::{Error, Get, GetRequest, Put, SetRequest};
use crate::requests_and_responses::{InternalThreadRequest, Requests, Resource, Responses};
use vstd::pervasive::unreached;
use vstd::prelude::*;

verus! {

/// GPIO line that drives the strike.
pub const PIN_NUMBER: u64 = 48;

/// Time between two ticks of the door, in milliseconds.
pub const TICK_PERIOD: u64 = 500;

/// How long the door stays unlocked, in milliseconds.
pub const RELOCK_TIMER: u64 = 3000;

/// Whether the strike holds the door shut or releases it.
#[derive(Debug, Copy, Clone, PartialEq, Eq, Structural)]
pub enum DoorState {
    Lock,
    Unlock,
}

impl DoorState {
    /// GPIO level that realises a state: 0 while locked, 1 while unlocked.
    pub open spec fn pin_value(self) -> u8 {
        match self {
            DoorState::Lock => 0,
            DoorState::Unlock => 1,
        }
    }

    pub fn state_to_pin_value(&self) -> (level: u8)
        ensures
            level == self.pin_value(),
    {
        match self {
            DoorState::Lock => 0,
            DoorState::Unlock => 1,
        }
    }
}

/// What a door holds.
pub struct DoorView {
    pub state: DoorState,
    /// When the door was last unlocked.
    pub last_unlocked: u64,
    /// The time of the tick in progress.
    pub now: u64,
}

impl DoorView {
    /// The door after the clock was read.
    pub open spec fn advanced(self, now: u64) -> DoorView {
        DoorView { now: later(self.now, now), ..self }
    }

    /// The door after it was set: unlocking notes the time.
    pub open spec fn set_to(self, target: DoorState) -> DoorView {
        DoorView {
            state: target,
            last_unlocked: if target == DoorState::Unlock {
                self.now
            } else {
                self.last_unlocked
            },
            ..self
        }
    }

    /// Whether the door has been unlocked for longer than the relock
    /// timer.
    pub open spec fn overdue(self) -> bool {
        self.state == DoorState::Unlock && elapsed(self.now, self.last_unlocked) > RELOCK_TIMER
    }

    /// The door after a tick: an overdue door is locked.
    pub open spec fn stepped(self) -> DoorView {
        if self.overdue() {
            DoorView { state: DoorState::Lock, ..self }
        } else {
            self
        }
    }
}

/// The strike and its relock timer.
#[derive(Clone, Copy)]
pub struct Door {
    state: DoorState,
    last_unlocked: u64,
    now: u64,
}

impl View for Door {
    type V = DoorView;

    closed spec fn view(&self) -> DoorView {
        DoorView { state: self.state, last_unlocked: self.last_unlocked, now: self.now }
    }
}

impl Door {
    /// A door in the given state whose clock stands at the time of its
    /// last unlocking.
    pub fn new(state: DoorState, last_unlocked: u64) -> (door: Door)
        ensures
            door@ == (DoorView { state, last_unlocked, now: last_unlocked }),
    {
        Door { state, last_unlocked, now: last_unlocked }
    }

    /// Sets the clock to `now`, unless it already stands later.
    pub fn advance(&mut self, now: u64)
        ensures
            final(self)@ == old(self)@.advanced(now),
    {
        if now > self.now {
            self.now = now;
        }
    }

    /// The level that the strike's GPIO line is to have.
    pub fn pin_value(&self) -> (level: u8)
        ensures
            level == self@.state.pin_value(),
    {
        self.state.state_to_pin_value()
    }

    /// One tick: locks the door once it has been unlocked for longer than
    /// the relock timer.
    pub fn step(&mut self)
        ensures
            final(self)@ == old(self)@.stepped(),
    {
        if self.state == DoorState::Unlock && elapsed_between(self.now, self.last_unlocked)
            > RELOCK_TIMER {
            self.state = DoorState::Lock;
        }
    }
}

impl Put<Door, DoorState> for Door {
    /// Setting always succeeds.
    open spec fn may_set(&self, target: &DoorState, after: &Self, result: Result<(), Error>) -> bool {
        result is Ok && after@ == self@.set_to(*target)
    }

    fn set(&mut self, target: &DoorState) -> (result: Result<(), Error>) {
        self.state = *target;
        if *target == DoorState::Unlock {
            self.last_unlocked = self.now;
        }
        Ok(())
    }
}

impl Get<Door, DoorState> for Door {
    /// Reading answers with the state.
    open spec fn may_get(&self, result: Result<DoorState, Error>) -> bool {
        result matches Ok(state) && state == self@.state
    }

    fn get(&self) -> (result: Result<DoorState, Error>) {
        Ok(self.state)
    }
}

/// A door that was unlocked stays so at every tick up to the relock timer
/// after the unlocking, and is locked, its line at level 0, by the first
/// tick later than that.
pub proof fn lemma_auto_relock(door: DoorView, tick: u64)
    ensures
        ({
            let unlocked = door.set_to(DoorState::Unlock);
            let ticked = unlocked.advanced(tick).stepped();
            &&& elapsed(tick, door.now) <= RELOCK_TIMER ==> ticked.state == DoorState::Unlock
            &&& elapsed(tick, door.now) > RELOCK_TIMER ==> ticked.state == DoorState::Lock
                && ticked.state.pin_value() == 0
        }),
{
}

/// After a tick, an unlocked door was unlocked no longer ago than the
/// relock timer.
pub proof fn lemma_unlocked_is_recent(door: DoorView)
    ensures
        door.stepped().state == DoorState::Unlock ==> elapsed(
            door.stepped().now,
            door.stepped().last_unlocked,
        ) <= RELOCK_TIMER,
{
}

/// A locked door stays locked through ticks, whatever the time.
pub proof fn lemma_locked_stays_locked(door: DoorView, tick: u64)
    requires
        door.state == DoorState::Lock,
    ensures
        door.advanced(tick).stepped().state == DoorState::Lock,
{
}

impl Door {
    /// Answers a request for the door and goes on running. A read
    /// answers with the state; a write sets the door and answers that it
    /// did. The response carries the request's identifier.
    pub fn handle_command(&mut self, request: Requests) -> (answer: (Responses, Shutdown))
        requires
            request.resource() == Resource::Door,
        ensures
            answer.0.id() == request.id(),
            answer.1 == Shutdown(false),
            match request {
                Requests::DoorGetState(get) => {
                    &&& answer.0 matches Responses::DoorGetState(response)
                    &&& response.1 matches Ok(state)
                    &&& state == old(self)@.state
                    &&& final(self)@ == old(self)@
                },
                Requests::DoorSetState(set) => {
                    &&& answer.0 matches Responses::DoorSetState(response)
                    &&& response.1 == set.1
                    &&& response.2 is Ok
                    &&& final(self)@ == old(self)@.set_to(set.1)
                },
                _ => true,
            },
    {
        let response = match request {
            Requests::DoorGetState(get) => Responses::DoorGetState(get.get_response(&*self)),
            Requests::DoorSetState(set) => Responses::DoorSetState(set.get_response(self)),
            _ => unreached(),
        };
        (response, Shutdown(false))
    }

    /// Carries out a request that another device sent. It has the effect
    /// of the same request from outside, and nothing answers it.
    pub fn handle_internal(&mut self, request: InternalThreadRequest)
        requires
            request.0.resource() == Resource::Door,
        ensures
            match request.0 {
                Requests::DoorSetState(set) => final(self)@ == old(self)@.set_to(set.1),
                _ => final(self)@ == old(self)@,
            },
    {
        let _ = self.handle_command(request.0);
    }
}

} // verus!
