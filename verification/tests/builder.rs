use sip_message::error::SipError;
use sip_message::message::{Message, MessageType};
use sip_message::method::RequestMethod;

fn register() -> Message {
    Message::new(MessageType::Request(RequestMethod::Register), String::from("my.dom.ru"))
}

#[test]
fn check_method_name() {
    let message = Message::new(MessageType::Request(RequestMethod::Register), String::from("my.dom.ru"));
    assert_eq!(message.get_method_name().unwrap(), String::from("REGISTER"));
}

#[test]
fn check_to() {
    let mut message = Message::new(MessageType::Request(RequestMethod::Register), String::from("my.dom.ru"));
    message.to(Some(String::from("name")), String::from("1175"));
    assert_eq!(message.get_to(), String::from("1175"));
}

#[test]
fn check_from() {
    let mut message = Message::new(MessageType::Request(RequestMethod::Register), String::from("my.dom.ru"));
    message.from(Some(String::from("name")), String::from("1176"));
    assert_eq!(message.get_from(), String::from("1176"));
}

#[test]
fn check_to_without_dname() {
    let mut message = Message::new(MessageType::Request(RequestMethod::Register), String::from("my.dom.ru"));
    message.to(None, String::from("1175"));
    assert_eq!(message.get_to(), String::from("1175"));
}

#[test]
fn check_from_without_dname() {
    let mut message = Message::new(MessageType::Request(RequestMethod::Register), String::from("my.dom.ru"));
    message.from(None, String::from("1176"));
    assert_eq!(message.get_from(), String::from("1176"));
}

#[test]
fn new_message_has_nothing_set() {
    let message = register();
    assert!(matches!(message.mtype, MessageType::Request(RequestMethod::Register)));
    assert_eq!(message.domain, "my.dom.ru");
    assert_eq!(message.request_uri, "");
    assert_eq!(message.to, "");
    assert_eq!(message.from, "");
    assert_eq!(message.cseq, "");
    assert_eq!(message.call_id, "");
    assert_eq!(message.contact, "");
    assert_eq!(message.max_forwards, "");
    assert_eq!(message.via, "");
    assert_eq!(message.event, "");
    assert_eq!(message.accept, "");
    assert_eq!(message.content_type, "");
    assert_eq!(message.body, "");
}

#[test]
fn via_line_has_the_fixed_branch() {
    let mut message = register();
    message.via(String::from("TCP"), String::from("localhost"), String::from("5060"));
    assert_eq!(message.via, "Via: SIP/2.0/TCP localhost:5060;branch=z9hG4bK\r\n");
}

#[test]
fn to_line_without_display_name() {
    let mut message = register();
    message.to(None, String::from("1175"));
    assert_eq!(message.to, "To: sip:1175@my.dom.ru\r\n");
}

#[test]
fn to_line_with_display_name() {
    let mut message = register();
    message.to(Some(String::from("Vlad")), String::from("1175"));
    assert_eq!(message.to, "To: Vlad <sip:1175@my.dom.ru>\r\n");
}

#[test]
fn from_line_without_display_name() {
    let mut message = register();
    message.from(None, String::from("1176"));
    assert_eq!(message.from, "From: sip:1176@my.dom.ru\r\n");
}

#[test]
fn from_line_with_display_name() {
    let mut message = register();
    message.from(Some(String::from("Vlad")), String::from("1176"));
    assert_eq!(message.from, "From: Vlad <sip:1176@my.dom.ru>\r\n");
}

#[test]
fn get_to_with_and_without_display_name() {
    let mut bare = register();
    bare.to(None, String::from("1175"));
    let mut shown = register();
    shown.to(Some(String::from("Vlad")), String::from("1175"));
    assert_eq!(bare.get_to(), "1175");
    assert_eq!(shown.get_to(), "1175");
}

#[test]
fn get_from_with_and_without_display_name() {
    let mut bare = register();
    bare.from(None, String::from("1175"));
    let mut shown = register();
    shown.from(Some(String::from("Vlad")), String::from("1175"));
    assert_eq!(bare.get_from(), "1175");
    assert_eq!(shown.get_from(), "1175");
}

#[test]
fn get_to_of_an_unset_header_is_empty() {
    let message = register();
    assert_eq!(message.get_to(), "");
    assert_eq!(message.get_from(), "");
}

#[test]
fn get_to_scans_past_the_second_colon() {
    let mut message = register();
    message.to(Some(String::from("a:b")), String::from("1175"));
    assert_eq!(message.get_to(), "b <sip:1175");
}

#[test]
fn simple_header_lines() {
    let mut message = register();
    message
        .call_id(String::from("test"))
        .max_forwards(String::from("70"))
        .event(String::from("presence"))
        .accept(String::from("application/sdp"))
        .content_type(String::from("text/plain"))
        .contact(String::from("1175"));
    assert_eq!(message.call_id, "Call-ID: test\r\n");
    assert_eq!(message.max_forwards, "Max-Forwards: 70\r\n");
    assert_eq!(message.event, "Event: presence\r\n");
    assert_eq!(message.accept, "Accept: application/sdp\r\n");
    assert_eq!(message.content_type, "Content-Type: text/plain\r\n");
    assert_eq!(message.contact, "Contact: <sip:1175@my.dom.ru>\r\n");
    assert_eq!(message.to, "");
    assert_eq!(message.cseq, "");
}

#[test]
fn cseq_names_the_method() {
    let mut message = Message::new(MessageType::Request(RequestMethod::Invite), String::from("d"));
    assert!(message.cseq(String::from("7")).is_ok());
    assert_eq!(message.cseq, "CSeq: 7 INVITE\r\n");
}

#[test]
fn cseq_on_a_response_is_an_error() {
    let mut message = Message::new(MessageType::Response(String::from("200 OK")), String::from("d"));
    let r = message.cseq(String::from("7")).map(|_| ());
    assert_eq!(r, Err(SipError::WrongMessageTypeForOperation));
    assert_eq!(message.cseq, "");
}

#[test]
fn method_name_of_a_response_is_an_error() {
    let message = Message::new(MessageType::Response(String::from("200 OK")), String::from("d"));
    assert_eq!(message.get_method_name(), Err(SipError::WrongMessageTypeForOperation));
}

#[test]
fn request_uri_is_taken_as_given() {
    let mut message = register();
    message.request_uri(String::from("any thing@at:all"));
    assert_eq!(message.request_uri, "any thing@at:all");
}

#[test]
fn builders_chain() {
    let mut message = register();
    message
        .to(Some(String::from("Vladislav")), String::from("1175"))
        .from(Some(String::from("Vladislav")), String::from("1175"))
        .via(String::from("TCP"), String::from("localhost"), String::from("5060"))
        .max_forwards(String::from("70"))
        .cseq(String::from("1"))
        .unwrap()
        .call_id(String::from("test"))
        .request_uri(String::from("1175"));
    assert_eq!(message.to, "To: Vladislav <sip:1175@my.dom.ru>\r\n");
    assert_eq!(message.from, "From: Vladislav <sip:1175@my.dom.ru>\r\n");
    assert_eq!(message.cseq, "CSeq: 1 REGISTER\r\n");
    assert_eq!(message.request_uri, "1175");
}
