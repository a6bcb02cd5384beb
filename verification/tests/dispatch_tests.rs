use intercom::device::door::DoorState;
use intercom::device::keypad::{CandidateKey, Code, KeyPad, PhoneNumberText};
use intercom::device::nfc::{NFCdev, NFCids};
use intercom::device::terminal::Text;
use intercom::device::Shutdown;
use intercom::device::keypad::code_to_store;
use intercom::dispatch::{address, Addressed, Dispatcher};
use intercom::message::{Error, Receive, ThreadReceiver, ThreadSender};
use intercom::request::{BasicGetRequest, BasicSetRequest, ID};
use intercom::requests_and_responses::{Requests, Resource, Responses, ThreadRequest};
use std::marker::PhantomData;
use std::sync::mpsc;

fn every_request() -> Vec<(Requests, Resource)> {
    vec![
        (
            Requests::TerminalGetText(BasicGetRequest(ID(1), PhantomData, PhantomData)),
            Resource::Terminal,
        ),
        (
            Requests::TerminalSetText(BasicSetRequest(ID(2), Text("t".to_string()), PhantomData)),
            Resource::Terminal,
        ),
        (Requests::NFCGetID(BasicGetRequest(ID(3), PhantomData, PhantomData)), Resource::NFC),
        (
            Requests::NFCSetID(BasicSetRequest(ID(4), NFCids("".to_string()), PhantomData)),
            Resource::NFC,
        ),
        (Requests::DoorGetState(BasicGetRequest(ID(5), PhantomData, PhantomData)), Resource::Door),
        (
            Requests::DoorSetState(BasicSetRequest(ID(6), DoorState::Unlock, PhantomData)),
            Resource::Door,
        ),
        (
            Requests::KeyPadGetCode(BasicGetRequest(ID(7), PhantomData, PhantomData)),
            Resource::KeyPad,
        ),
        (
            Requests::KeyPadSetCode(BasicSetRequest(
                ID(8),
                Code { data: "1234".to_string() },
                PhantomData,
            )),
            Resource::KeyPad,
        ),
        (Requests::PhoneGet(BasicGetRequest(ID(9), PhantomData, PhantomData)), Resource::KeyPad),
        (
            Requests::PhoneSet(BasicSetRequest(
                ID(10),
                PhoneNumberText("+16502530000".to_string()),
                PhantomData,
            )),
            Resource::KeyPad,
        ),
    ]
}

#[test]
fn every_request_has_one_target() {
    for (index, (request, resource)) in every_request().into_iter().enumerate() {
        assert_eq!(request.target(), resource);
        assert_eq!(request.get_id(), ID(index as u128 + 1));
    }
}

#[test]
fn requests_reach_the_mailbox_of_their_device() {
    let (terminal_tx, terminal_rx) = mpsc::channel();
    let (door_tx, door_rx) = mpsc::channel();
    let (keypad_tx, keypad_rx) = mpsc::channel();
    let (nfc_tx, nfc_rx) = mpsc::channel();
    let dispatcher: Dispatcher<u32> = Dispatcher::new(
        ThreadSender(terminal_tx, PhantomData),
        ThreadSender(door_tx, PhantomData),
        ThreadSender(keypad_tx, PhantomData),
        ThreadSender(nfc_tx, PhantomData),
    );
    let copy = dispatcher.clone();
    let mut arrived = Vec::new();
    for (index, (request, resource)) in every_request().into_iter().enumerate() {
        let router = if index % 2 == 0 { &dispatcher } else { &copy };
        assert_eq!(router.dispatch(request, index as u32), (resource, Ok(())));
    }
    let mut mailboxes = [
        (Resource::Terminal, ThreadReceiver::<ThreadRequest<u32>, ()>(terminal_rx, PhantomData)),
        (Resource::Door, ThreadReceiver(door_rx, PhantomData)),
        (Resource::KeyPad, ThreadReceiver(keypad_rx, PhantomData)),
        (Resource::NFC, ThreadReceiver(nfc_rx, PhantomData)),
    ];
    for (resource, mailbox) in mailboxes.iter_mut() {
        loop {
            match mailbox.receive() {
                Ok(ThreadRequest(request, stream)) => {
                    assert_eq!(request.target(), *resource);
                    assert_eq!(request.get_id(), ID(stream as u128 + 1));
                    arrived.push(stream);
                }
                Err(fault) => {
                    assert_eq!(fault, Error::NotReady);
                    break;
                }
            }
        }
    }
    arrived.sort();
    assert_eq!(arrived, (0..10).collect::<Vec<u32>>());
}

#[test]
fn a_device_that_is_gone_takes_no_request() {
    let (terminal_tx, _terminal_rx) = mpsc::channel();
    let (door_tx, door_rx) = mpsc::channel();
    let (keypad_tx, _keypad_rx) = mpsc::channel();
    let (nfc_tx, _nfc_rx) = mpsc::channel();
    let dispatcher: Dispatcher<()> = Dispatcher::new(
        ThreadSender(terminal_tx, PhantomData),
        ThreadSender(door_tx, PhantomData),
        ThreadSender(keypad_tx, PhantomData),
        ThreadSender(nfc_tx, PhantomData),
    );
    drop(door_rx);
    let request = Requests::DoorGetState(BasicGetRequest(ID(1), PhantomData, PhantomData));
    assert_eq!(dispatcher.dispatch(request, ()), (Resource::Door, Err(Error::Closed)));
}

#[test]
fn devices_answer_under_the_identifier_of_the_request() {
    let mut keypad = KeyPad::new(
        Code::from_string("1234").unwrap(),
        CandidateKey::new(256),
        0,
        "+14155552671",
    )
    .unwrap();
    let mut nfc = NFCdev::new();
    for (request, resource) in every_request() {
        let id = request.get_id();
        let (response, shutdown) = match resource {
            Resource::KeyPad => keypad.handle_command(request),
            Resource::NFC => nfc.handle_command(request),
            _ => continue,
        };
        assert_eq!(response.get_id(), id);
        assert_eq!(shutdown, Shutdown(false));
    }
}

#[test]
fn keypad_requests_change_and_read_the_keypad() {
    let mut keypad = KeyPad::new(
        Code::from_string("1234").unwrap(),
        CandidateKey::new(256),
        0,
        "+14155552671",
    )
    .unwrap();
    let set = Requests::KeyPadSetCode(BasicSetRequest(
        ID(5),
        Code { data: "9999".to_string() },
        PhantomData,
    ));
    match keypad.handle_command(set).0 {
        Responses::KeyPadSetCode(response) => {
            assert_eq!(response.1.data, "9999");
            assert!(response.2.is_ok());
        }
        _ => panic!("not a response to a write of the code"),
    }
    let get = Requests::KeyPadGetCode(BasicGetRequest(ID(6), PhantomData, PhantomData));
    match keypad.handle_command(get).0 {
        Responses::KeyPadGetCode(response) => assert_eq!(response.1.unwrap().data, "9999"),
        _ => panic!("not a response to a read of the code"),
    }
    let bad = Requests::KeyPadSetCode(BasicSetRequest(
        ID(7),
        Code { data: "12*4".to_string() },
        PhantomData,
    ));
    match keypad.handle_command(bad).0 {
        Responses::KeyPadSetCode(response) => {
            assert_eq!(response.0, ID(7));
            assert_eq!(response.1.data, "12*4");
            assert_eq!(response.2.unwrap_err().0, "Invalid code format");
        }
        _ => panic!("not a response to a write of the code"),
    }
    let phone = Requests::PhoneSet(BasicSetRequest(
        ID(8),
        PhoneNumberText("+44 20 7946 0958".to_string()),
        PhantomData,
    ));
    match keypad.handle_command(phone).0 {
        Responses::PhoneSet(response) => assert!(response.2.is_ok()),
        _ => panic!("not a response to a write of the number"),
    }
    let read = Requests::PhoneGet(BasicGetRequest(ID(9), PhantomData, PhantomData));
    match keypad.handle_command(read).0 {
        Responses::PhoneGet(response) => assert_eq!(response.1.unwrap().0, "+442079460958"),
        _ => panic!("not a response to a read of the number"),
    }
}

#[test]
fn every_request_is_addressed_to_its_device() {
    for (index, (request, resource)) in every_request().into_iter().enumerate() {
        let id = request.get_id();
        let (to, ThreadRequest(held, stream)) = match address(request, index) {
            Addressed::Terminal(parcel) => (Resource::Terminal, parcel.0),
            Addressed::NFC(parcel) => (Resource::NFC, parcel.0),
            Addressed::Door(parcel) => (Resource::Door, parcel.0),
            Addressed::KeyPad(parcel) => (Resource::KeyPad, parcel.0),
        };
        assert_eq!(to, resource);
        assert_eq!(held.target(), resource);
        assert_eq!(held.get_id(), id);
        assert_eq!(stream, index);
    }
}

#[test]
fn only_an_accepted_code_is_stored() {
    let mut keypad = KeyPad::new(
        Code::from_string("1234").unwrap(),
        CandidateKey::new(256),
        0,
        "+14155552671",
    )
    .unwrap();
    for (request, _) in every_request() {
        let response = match request.target() {
            Resource::KeyPad => keypad.handle_command(request).0,
            _ => continue,
        };
        match &response {
            Responses::KeyPadSetCode(_) => {
                assert_eq!(code_to_store(&response), Some("1234".to_string()))
            }
            _ => assert_eq!(code_to_store(&response), None),
        }
    }
    let set = |text: &str| {
        Requests::KeyPadSetCode(BasicSetRequest(
            ID(1),
            Code { data: text.to_string() },
            PhantomData,
        ))
    };
    assert_eq!(code_to_store(&keypad.handle_command(set("0000")).0), Some("0000".to_string()));
    assert_eq!(code_to_store(&keypad.handle_command(set("12*4")).0), None);
}
