use sip_message::error::SipError;
use sip_message::message::{Message, MessageType};
use sip_message::method::RequestMethod;

const ALL: [(RequestMethod, &str); 9] = [
    (RequestMethod::Register, "REGISTER"),
    (RequestMethod::Invite, "INVITE"),
    (RequestMethod::ACK, "ACK"),
    (RequestMethod::Cancel, "CANCEL"),
    (RequestMethod::Bye, "BYE"),
    (RequestMethod::Options, "OPTIONS"),
    (RequestMethod::Subscribe, "SUBSCRIBE"),
    (RequestMethod::Notify, "NOTIFY"),
    (RequestMethod::Publish, "PUBLISH"),
];

#[test]
fn every_method_has_its_token() {
    for (method, token) in ALL {
        assert_eq!(method.name(), token);
        let message = Message::new(MessageType::Request(method), String::new());
        assert_eq!(message.get_method_name(), Ok(String::from(token)));
    }
}

#[test]
fn every_token_gives_its_method_back() {
    for (method, token) in ALL {
        assert_eq!(RequestMethod::from_name(token), Some(method));
        assert_eq!(Message::get_request_method_from_name(token), Ok(method));
        let found = Message::get_request_method_from_name(method.name()).unwrap();
        assert_eq!(found.name(), token);
    }
}

#[test]
fn unknown_tokens_are_errors() {
    for token in ["", "register", "Register", "REGISTER ", " ACK", "INFO", "SIP/2.0", "ACKK", "AC"] {
        assert_eq!(RequestMethod::from_name(token), None);
        assert_eq!(
            Message::get_request_method_from_name(token),
            Err(SipError::UnknownMethodToken)
        );
    }
}
