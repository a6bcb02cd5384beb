use intercom::device::door::DoorState;
use intercom::device::keypad::{Code, PhoneNumberText};
use intercom::device::nfc::NFCids;
use intercom::device::terminal::Text;
use intercom::models::api_v2010_account_incoming_phone_number_capabilities::ApiV2010AccountIncomingPhoneNumberCapabilities;
use intercom::models::api_v2010_account_message_message_feedback::{
    ApiV2010AccountMessageMessageFeedback, Outcome,
};
use intercom::models::api_v2010_account_token_ice_servers::ApiV2010AccountTokenIceServers;
use intercom::request::{BasicGetResponse, BasicSetResponse, Error, ID};
use intercom::requests_and_responses::{Requests, Responses};
use intercom::web_relay::{match_intercom_response, IDManage, Parsed, Reply};
use intercom::web_requests::{Commands, DeviceCommand, Message, WebRequests};
use std::marker::PhantomData;

fn asked(command: Commands, text: &str) -> WebRequests {
    WebRequests(DeviceCommand(command), Message(text.to_string()))
}

#[test]
fn web_request_parts() {
    let request = asked(Commands::DoorSet, "\"Unlock\"");
    assert_eq!(request.get_device_command().0, Commands::DoorSet);
    assert_eq!(request.get_msg().0, "\"Unlock\"");
}

#[test]
fn identifiers_count_up() {
    let mut ids = IDManage { id: 0 };
    assert_eq!(ids.get_id(), 0);
    assert_eq!(ids.get_id(), 1);
    assert_eq!(ids.get_id(), 2);
    let mut last = IDManage { id: u128::MAX };
    assert_eq!(last.get_id(), u128::MAX);
    assert_eq!(last.get_id(), 0);
}

#[test]
fn reads_become_get_requests() {
    let made = Commands::DoorGet.set_command(asked(Commands::DoorGet, ""), 1, Parsed::Nothing);
    let (request, id) = made.ok().unwrap();
    assert_eq!(id, 1);
    assert_eq!(request.get_id(), ID(1));
    assert!(matches!(request, Requests::DoorGetState(_)));
    for (command, is_right) in [
        (Commands::TerminalGet, (|r| matches!(r, Requests::TerminalGetText(_))) as fn(&Requests) -> bool),
        (Commands::NFCGet, |r| matches!(r, Requests::NFCGetID(_))),
        (Commands::KeypadGetCode, |r| matches!(r, Requests::KeyPadGetCode(_))),
        (Commands::PhoneGet, |r| matches!(r, Requests::PhoneGet(_))),
    ] {
        let (request, _) = command.set_command(asked(command, ""), 7, Parsed::Nothing).ok().unwrap();
        assert!(is_right(&request));
        assert_eq!(request.get_id(), ID(7));
    }
}

#[test]
fn writes_carry_what_their_text_was_read_as() {
    let made = Commands::DoorSet
        .set_command(asked(Commands::DoorSet, "\"Unlock\""), 2, Parsed::Door(DoorState::Unlock))
        .ok()
        .unwrap();
    match made.0 {
        Requests::DoorSetState(set) => assert_eq!((set.0, set.1), (ID(2), DoorState::Unlock)),
        _ => panic!("not a write of the door"),
    }
    let code = Parsed::Code(Code { data: "1234".to_string() });
    match Commands::KeypadSetCode.set_command(asked(Commands::KeypadSetCode, ""), 3, code) {
        Ok((Requests::KeyPadSetCode(set), 3)) => assert_eq!(set.1.data, "1234"),
        _ => panic!("not a write of the code"),
    }
    let phone = Parsed::Phone(PhoneNumberText("+16502530000".to_string()));
    match Commands::PhoneSet.set_command(asked(Commands::PhoneSet, ""), 4, phone) {
        Ok((Requests::PhoneSet(set), 4)) => assert_eq!(set.1 .0, "+16502530000"),
        _ => panic!("not a write of the number"),
    }
    match Commands::NFCSet.set_command(asked(Commands::NFCSet, "card"), 5, Parsed::Nothing) {
        Ok((Requests::NFCSetID(set), 5)) => assert_eq!(set.1 .0, "card"),
        _ => panic!("not an enrollment"),
    }
    match Commands::TerminalSet.set_command(asked(Commands::TerminalSet, "hi"), 6, Parsed::Nothing) {
        Ok((Requests::TerminalSetText(set), 6)) => assert_eq!(set.1 .0, "hi"),
        _ => panic!("not a text for the terminal"),
    }
}

#[test]
fn a_write_whose_text_was_not_read_is_refused() {
    for command in [Commands::DoorSet, Commands::KeypadSetCode, Commands::PhoneSet] {
        let made = command.set_command(asked(command, "?"), 1, Parsed::Nothing);
        assert_eq!(made.err().unwrap().0, "Invalid message");
    }
    let made = Commands::DoorSet.set_command(
        asked(Commands::DoorSet, "?"),
        1,
        Parsed::Code(Code { data: "1".to_string() }),
    );
    assert_eq!(made.err().unwrap().0, "Invalid message");
}

#[test]
fn other_commands_become_text_for_the_terminal() {
    for command in [Commands::Ping, Commands::Unknown, Commands::RtcSession, Commands::RtcAudioSession] {
        match command.set_command(asked(command, "note"), 9, Parsed::Nothing) {
            Ok((Requests::TerminalSetText(set), 9)) => assert_eq!(set.1 .0, "note"),
            _ => panic!("not a text for the terminal"),
        }
    }
}

#[test]
fn replies_tell_what_was_read_or_asked() {
    let response = Responses::DoorGetState(BasicGetResponse(ID(1), Ok(DoorState::Lock), PhantomData));
    assert!(matches!(match_intercom_response(response, 1), Ok(Reply::Door(DoorState::Lock))));
    let response =
        Responses::DoorSetState(BasicSetResponse(ID(2), DoorState::Unlock, Ok(()), PhantomData));
    assert!(matches!(match_intercom_response(response, 2), Ok(Reply::Door(DoorState::Unlock))));
    let response = Responses::TerminalGetText(BasicGetResponse(
        ID(3),
        Ok(Text("line".to_string())),
        PhantomData,
    ));
    assert!(matches!(match_intercom_response(response, 3), Ok(Reply::Text(text)) if text == "line"));
    let response = Responses::KeyPadGetCode(BasicGetResponse(
        ID(4),
        Ok(Code { data: "1234".to_string() }),
        PhantomData,
    ));
    assert!(matches!(match_intercom_response(response, 4), Ok(Reply::Code(code)) if code.data == "1234"));
    let response = Responses::NFCGetID(BasicGetResponse(
        ID(5),
        Ok(NFCids("ids = []".to_string())),
        PhantomData,
    ));
    assert!(matches!(match_intercom_response(response, 5), Ok(Reply::Ids(ids)) if ids.0 == "ids = []"));
    let response = Responses::NFCSetID(BasicSetResponse(
        ID(6),
        NFCids("x".to_string()),
        Err(Error("No card presented".to_string())),
        PhantomData,
    ));
    assert!(matches!(match_intercom_response(response, 6), Ok(Reply::Text(text)) if text == "x"));
    let response = Responses::PhoneGet(BasicGetResponse(
        ID(7),
        Ok(PhoneNumberText("+1".to_string())),
        PhantomData,
    ));
    assert!(matches!(match_intercom_response(response, 7), Ok(Reply::Phone(number)) if number.0 == "+1"));
}

#[test]
fn a_mismatched_or_failed_response_gives_the_reason() {
    let response = Responses::DoorGetState(BasicGetResponse(ID(1), Ok(DoorState::Lock), PhantomData));
    assert_eq!(match_intercom_response(response, 2).err().unwrap().0, "Mismatched response");
    let response = Responses::TerminalGetText(BasicGetResponse(
        ID(3),
        Err(Error("Could not read from terminal".to_string())),
        PhantomData,
    ));
    assert_eq!(
        match_intercom_response(response, 3).err().unwrap().0,
        "Could not read from terminal"
    );
}

#[test]
fn new_records_are_empty() {
    let capabilities = ApiV2010AccountIncomingPhoneNumberCapabilities::new();
    assert_eq!(
        (capabilities.fax, capabilities.mms, capabilities.sms, capabilities.voice),
        (None, None, None, None)
    );
    let feedback = ApiV2010AccountMessageMessageFeedback::new();
    assert!(feedback.account_sid.is_none() && feedback.date_created.is_none());
    assert!(feedback.date_updated.is_none() && feedback.message_sid.is_none());
    assert!(feedback.outcome.is_none() && feedback.uri.is_none());
    let servers = ApiV2010AccountTokenIceServers::new();
    assert!(servers.credential.is_none() && servers.url.is_none());
    assert!(servers.urls.is_none() && servers.username.is_none());
    assert_eq!(Outcome::default(), Outcome::Confirmed);
}
