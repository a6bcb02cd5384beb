use intercom::device::door::{Door, DoorState, PIN_NUMBER, RELOCK_TIMER};
use intercom::device::Shutdown;
use intercom::request::{BasicGetRequest, BasicSetRequest, Get, Put, ID};
use intercom::requests_and_responses::{InternalThreadRequest, Requests, Responses};
use std::marker::PhantomData;

fn state_of(door: &Door) -> DoorState {
    door.get().unwrap()
}

fn get_state(door: &mut Door, id: u128) -> (ID, DoorState) {
    let request = Requests::DoorGetState(BasicGetRequest(ID(id), PhantomData, PhantomData));
    match door.handle_command(request) {
        (Responses::DoorGetState(response), Shutdown(false)) => (response.0, response.1.unwrap()),
        _ => panic!("not a response to a read of the door"),
    }
}

fn set_state(door: &mut Door, id: u128, state: DoorState) -> (ID, DoorState, bool) {
    let request = Requests::DoorSetState(BasicSetRequest(ID(id), state, PhantomData));
    match door.handle_command(request) {
        (Responses::DoorSetState(response), Shutdown(false)) => {
            (response.0, response.1, response.2.is_ok())
        }
        _ => panic!("not a response to a write of the door"),
    }
}

#[test]
fn pin_levels() {
    assert_eq!(DoorState::Lock.state_to_pin_value(), 0);
    assert_eq!(DoorState::Unlock.state_to_pin_value(), 1);
    assert_eq!(PIN_NUMBER, 48);
    assert_eq!(RELOCK_TIMER, 3000);
}

#[test]
fn a_new_door_answers_with_its_state() {
    let mut door = Door::new(DoorState::Lock, 0);
    assert_eq!(get_state(&mut door, 1), (ID(1), DoorState::Lock));
    assert_eq!(door.pin_value(), 0);
}

#[test]
fn door_relocks_after_the_timer() {
    let mut door = Door::new(DoorState::Lock, 0);
    door.advance(1_000);
    assert_eq!(set_state(&mut door, 2, DoorState::Unlock), (ID(2), DoorState::Unlock, true));
    assert_eq!(door.pin_value(), 1);
    let mut now = 1_000;
    while now < 4_000 {
        now += 500;
        door.advance(now);
        door.step();
        assert_eq!(state_of(&door), DoorState::Unlock, "at {}", now);
    }
    door.advance(4_500);
    door.step();
    assert_eq!(get_state(&mut door, 3), (ID(3), DoorState::Lock));
    assert_eq!(door.pin_value(), 0);
}

#[test]
fn door_relocks_at_the_first_tick_past_the_timer() {
    let mut door = Door::new(DoorState::Lock, 0);
    door.advance(10);
    door.set(&DoorState::Unlock).unwrap();
    door.advance(3_010);
    door.step();
    assert_eq!(state_of(&door), DoorState::Unlock);
    door.advance(3_011);
    door.step();
    assert_eq!(state_of(&door), DoorState::Lock);
}

#[test]
fn unlocking_again_restarts_the_timer() {
    let mut door = Door::new(DoorState::Lock, 0);
    door.set(&DoorState::Unlock).unwrap();
    door.advance(2_500);
    door.set(&DoorState::Unlock).unwrap();
    door.advance(5_000);
    door.step();
    assert_eq!(state_of(&door), DoorState::Unlock);
    door.advance(5_501);
    door.step();
    assert_eq!(state_of(&door), DoorState::Lock);
}

#[test]
fn locking_by_hand_and_ticks_on_a_locked_door() {
    let mut door = Door::new(DoorState::Unlock, 0);
    assert_eq!(set_state(&mut door, 9, DoorState::Lock), (ID(9), DoorState::Lock, true));
    door.advance(100_000);
    door.step();
    assert_eq!(state_of(&door), DoorState::Lock);
}

#[test]
fn an_internal_unlock_has_the_effect_of_an_external_one() {
    let mut door = Door::new(DoorState::Lock, 0);
    door.advance(700);
    door.handle_internal(InternalThreadRequest::unlock_door());
    assert_eq!(state_of(&door), DoorState::Unlock);
    door.advance(3_700);
    door.step();
    assert_eq!(state_of(&door), DoorState::Unlock);
    door.advance(3_701);
    door.step();
    assert_eq!(state_of(&door), DoorState::Lock);
}

#[test]
fn a_clock_read_backwards_is_passed_over() {
    let mut door = Door::new(DoorState::Lock, 5_000);
    door.advance(1_000);
    door.set(&DoorState::Unlock).unwrap();
    door.advance(8_000);
    door.step();
    assert_eq!(state_of(&door), DoorState::Unlock);
    door.advance(8_001);
    door.step();
    assert_eq!(state_of(&door), DoorState::Lock);
}
