use sip_message::error::SipError;
use sip_message::message::{Message, MessageType};
use sip_message::method::RequestMethod;
use sip_message::wire::{kind_of, parse_start, LineKind};

fn example() -> Message {
    let mut m = Message::new(MessageType::Request(RequestMethod::Register), String::from("my.dom.ru"));
    m.to(Some(String::from("Vladislav")), String::from("1175"))
        .from(Some(String::from("Vladislav")), String::from("1175"))
        .via(String::from("TCP"), String::from("localhost"), String::from("5060"))
        .max_forwards(String::from("70"))
        .cseq(String::from("1"))
        .unwrap()
        .call_id(String::from("test"))
        .request_uri(String::from("1175"));
    m
}

#[test]
fn example_register_is_built() {
    let text = example().build_message().unwrap();
    assert!(text.starts_with("REGISTER sip:1175@my.dom.ru SIP/2.0\r\n"));
    assert!(text.contains("CSeq: 1 REGISTER\r\n"));
    assert_eq!(
        text,
        "REGISTER sip:1175@my.dom.ru SIP/2.0\r\n\
         Via: SIP/2.0/TCP localhost:5060;branch=z9hG4bK\r\n\
         To: Vladislav <sip:1175@my.dom.ru>\r\n\
         From: Vladislav <sip:1175@my.dom.ru>\r\n\
         Call-ID: test\r\n\
         CSeq: 1 REGISTER\r\n\
         Max-Forwards: 70\r\n\
         Content-Length: 0\r\n\r\n"
    );
}

#[test]
fn example_register_is_read_back() {
    let built = example();
    let read = Message::parse(&built.build_message().unwrap()).unwrap();
    assert!(matches!(read.mtype, MessageType::Request(RequestMethod::Register)));
    assert_eq!(read.request_uri, "1175");
    assert_eq!(read.cseq, "CSeq: 1 REGISTER\r\n");
    assert_eq!(read.via, built.via);
    assert_eq!(read.to, built.to);
    assert_eq!(read.from, built.from);
    assert_eq!(read.call_id, built.call_id);
    assert_eq!(read.max_forwards, built.max_forwards);
    assert_eq!(read.domain, "");
    assert_eq!(read.event, "");
    assert_eq!(read.accept, "");
    assert_eq!(read.contact, "");
    assert_eq!(read.content_type, "");
    assert_eq!(read.body, "");
}

#[test]
fn requests_of_every_method_are_read_back() {
    let methods = [
        RequestMethod::Register,
        RequestMethod::Invite,
        RequestMethod::ACK,
        RequestMethod::Cancel,
        RequestMethod::Bye,
        RequestMethod::Options,
        RequestMethod::Subscribe,
        RequestMethod::Notify,
        RequestMethod::Publish,
    ];
    for method in methods {
        let mut m = Message::new(MessageType::Request(method), String::from("example.org"));
        m.via(String::from("UDP"), String::from("10.0.0.1"), String::from("5061"))
            .to(None, String::from("alice"))
            .from(Some(String::from("Bob B")), String::from("bob"))
            .call_id(String::from("a84b4c76e66710"))
            .cseq(String::from("314159"))
            .unwrap()
            .max_forwards(String::from("69"))
            .request_uri(String::from("alice:5060"));
        let read = Message::parse(&m.build_message().unwrap()).unwrap();
        assert_eq!(read.get_method_name(), m.get_method_name());
        assert_eq!(read.request_uri, "alice:5060");
        assert_eq!(read.via, m.via);
        assert_eq!(read.to, m.to);
        assert_eq!(read.from, m.from);
        assert_eq!(read.call_id, m.call_id);
        assert_eq!(read.cseq, m.cseq);
        assert_eq!(read.max_forwards, m.max_forwards);
    }
}

#[test]
fn response_is_read_back() {
    let m = Message::new(MessageType::Response(String::from("200 OK")), String::new());
    let text = m.build_message().unwrap();
    assert_eq!(text, "SIP/2.0 200 OK\r\nContent-Length: 0\r\n\r\n");
    let read = Message::parse(&text).unwrap();
    match read.mtype {
        MessageType::Response(status) => {
            let tokens: Vec<&str> = status.split(' ').collect();
            assert_eq!(tokens[0], "200");
            assert_eq!(tokens[1], "OK");
            assert_eq!(status, "200 OK");
        },
        MessageType::Request(_) => panic!("a response was read as a request"),
    }
    assert_eq!(read.request_uri, "");
}

#[test]
fn response_keeps_two_tokens_of_its_status() {
    let m = Message::new(MessageType::Response(String::from("404 Not Found")), String::new());
    let read = Message::parse(&m.build_message().unwrap()).unwrap();
    assert!(matches!(read.mtype, MessageType::Response(status) if status == "404 Not"));
}

#[test]
fn content_length_of_an_empty_body_is_zero() {
    let m = Message::new(MessageType::Response(String::from("200 OK")), String::new());
    assert!(m.build_message().unwrap().ends_with("Content-Length: 0\r\n\r\n"));
}

#[test]
fn content_length_is_the_length_of_the_body() {
    let mut m = Message::new(MessageType::Response(String::from("200 OK")), String::new());
    m.body = String::from("hello world!");
    assert!(m.build_message().unwrap().ends_with("Content-Length: 12\r\n\r\nhello world!"));
}

#[test]
fn content_length_counts_bytes() {
    let mut m = Message::new(MessageType::Response(String::from("200 OK")), String::new());
    m.body = String::from("h\u{e9}llo \u{4e16}\u{754c} \u{1f600}");
    assert_eq!(m.body.chars().count(), 10);
    assert_eq!(m.body.len(), 18);
    assert!(m.build_message().unwrap().contains("Content-Length: 18\r\n\r\n"));
}

#[test]
fn headers_are_written_in_the_fixed_order() {
    let mut m = Message::new(MessageType::Request(RequestMethod::Notify), String::from("d"));
    m.content_type(String::from("t"))
        .contact(String::from("c"))
        .accept(String::from("a"))
        .event(String::from("e"))
        .max_forwards(String::from("5"))
        .cseq(String::from("2"))
        .unwrap()
        .call_id(String::from("i"))
        .from(None, String::from("f"))
        .to(None, String::from("t"))
        .via(String::from("UDP"), String::from("h"), String::from("1"))
        .request_uri(String::from("u"));
    m.body = String::from("body");
    assert_eq!(
        m.build_message().unwrap(),
        "NOTIFY sip:u@d SIP/2.0\r\n\
         Via: SIP/2.0/UDP h:1;branch=z9hG4bK\r\n\
         To: sip:t@d\r\n\
         From: sip:f@d\r\n\
         Call-ID: i\r\n\
         CSeq: 2 NOTIFY\r\n\
         Max-Forwards: 5\r\n\
         Event: e\r\n\
         Accept: a\r\n\
         Contact: <sip:c@d>\r\n\
         Content-Type: t\r\n\
         Content-Length: 4\r\n\r\nbody"
    );
}

#[test]
fn build_message_twice_gives_the_same_text() {
    let m = example();
    assert_eq!(m.build_message().unwrap(), m.build_message().unwrap());
}

#[test]
fn request_without_target_is_not_written() {
    let mut m = Message::new(MessageType::Request(RequestMethod::Register), String::from("my.dom.ru"));
    assert_eq!(m.build_message(), Err(SipError::MissingRequestTarget));
    m.via(String::from("TCP"), String::from("localhost"), String::from("5060"))
        .call_id(String::from("test"));
    assert_eq!(m.build_message(), Err(SipError::MissingRequestTarget));
    m.request_uri(String::new());
    assert_eq!(m.build_message(), Err(SipError::MissingRequestTarget));
    m.request_uri(String::from("1"));
    assert!(m.build_message().unwrap().starts_with("REGISTER sip:1@my.dom.ru SIP/2.0\r\n"));
}

#[test]
fn request_without_target_is_not_written_for_any_method() {
    let methods = [
        RequestMethod::Register,
        RequestMethod::Invite,
        RequestMethod::ACK,
        RequestMethod::Cancel,
        RequestMethod::Bye,
        RequestMethod::Options,
        RequestMethod::Subscribe,
        RequestMethod::Notify,
        RequestMethod::Publish,
    ];
    for method in methods {
        let m = Message::new(MessageType::Request(method), String::from("d"));
        assert_eq!(m.build_message(), Err(SipError::MissingRequestTarget));
    }
}

#[test]
fn response_needs_no_target() {
    let mut m = Message::new(MessageType::Response(String::from("200 OK")), String::new());
    let bare = m.build_message().unwrap();
    m.request_uri(String::from("1175"));
    assert_eq!(m.build_message().unwrap(), bare);
    assert!(!bare.contains("1175"));
}

#[test]
fn target_of_one_space_is_written() {
    let mut m = Message::new(MessageType::Request(RequestMethod::Bye), String::from("d"));
    m.request_uri(String::from(" "));
    assert_eq!(m.build_message().unwrap(), "BYE sip: @d SIP/2.0\r\nContent-Length: 0\r\n\r\n");
}

#[test]
fn unknown_method_is_an_error() {
    assert_eq!(
        Message::parse("INFO sip:1175@my.dom.ru SIP/2.0\r\n\r\n").err(),
        Some(SipError::UnknownMethodToken)
    );
    assert_eq!(Message::parse("").err(), Some(SipError::UnknownMethodToken));
    assert_eq!(Message::parse("register sip:a@b SIP/2.0").err(), Some(SipError::UnknownMethodToken));
}

#[test]
fn short_start_lines_are_errors() {
    assert_eq!(Message::parse("REGISTER\r\n\r\n").err(), Some(SipError::MalformedStartLine));
    assert_eq!(Message::parse("SIP/2.0 200\r\n\r\n").err(), Some(SipError::MalformedStartLine));
    assert_eq!(Message::parse("SIP/2.0").err(), Some(SipError::MalformedStartLine));
}

#[test]
fn start_lines_are_read() {
    let (mtype, user) = parse_start("INVITE sip:bob@biloxi.com SIP/2.0").unwrap();
    assert!(matches!(mtype, MessageType::Request(RequestMethod::Invite)));
    assert_eq!(user, "bob");
    let (mtype, user) = parse_start("SIP/2.0 180 Ringing").unwrap();
    assert!(matches!(mtype, MessageType::Response(status) if status == "180 Ringing"));
    assert_eq!(user, "");
    let (_, user) = parse_start("BYE target").unwrap();
    assert_eq!(user, "");
    let (_, user) = parse_start("BYE sip:carol").unwrap();
    assert_eq!(user, "carol");
}

#[test]
fn lines_are_told_apart_by_their_names() {
    assert_eq!(kind_of("Via: x"), LineKind::Via);
    assert_eq!(kind_of("To: x"), LineKind::To);
    assert_eq!(kind_of("From: x"), LineKind::From);
    assert_eq!(kind_of("Call-ID: x"), LineKind::CallId);
    assert_eq!(kind_of("CSeq: x"), LineKind::CSeq);
    assert_eq!(kind_of("Max-Forwards: x"), LineKind::MaxForwards);
    assert_eq!(kind_of("Content-Length: 3"), LineKind::ContentLength);
    assert_eq!(kind_of("Event: x"), LineKind::Other);
    assert_eq!(kind_of("via: x"), LineKind::Other);
    assert_eq!(kind_of(""), LineKind::Other);
}

#[test]
fn last_line_of_a_kind_wins() {
    let read = Message::parse("ACK sip:a@b SIP/2.0\r\nVia: one\r\nVia: two\r\n\r\nbody").unwrap();
    assert_eq!(read.via, "Via: two\r\n");
    assert_eq!(read.body, "body");
    assert_eq!(read.to, "");
}

#[test]
fn body_is_what_follows_the_empty_line() {
    let read = Message::parse("SIP/2.0 200 OK\r\nContent-Length: 5\r\n\r\nhello").unwrap();
    assert!(matches!(&read.mtype, MessageType::Response(status) if status == "200 OK"));
    assert_eq!(read.body, "hello");
    assert_eq!(read.via, "");
}

#[test]
fn bare_response_is_read_back_without_body() {
    let m = Message::new(MessageType::Response(String::from("200 OK")), String::new());
    let text = m.build_message().unwrap();
    assert_eq!(text, "SIP/2.0 200 OK\r\nContent-Length: 0\r\n\r\n");
    let read = Message::parse(&text).unwrap();
    assert_eq!(read.body, "");
    assert_eq!(read.build_message().unwrap(), text);
}

#[test]
fn body_lines_are_no_headers() {
    let read = Message::parse("SIP/2.0 200 OK\r\n\r\nVia: x").unwrap();
    assert_eq!(read.via, "");
    assert_eq!(read.body, "Via: x");
    let read = Message::parse("ACK sip:a@b SIP/2.0\r\nTo: t\r\n\r\nTo: u\r\nFrom: f\r\n").unwrap();
    assert_eq!(read.to, "To: t\r\n");
    assert_eq!(read.from, "");
    assert_eq!(read.body, "To: u\r\nFrom: f\r\n");
}

#[test]
fn body_of_many_lines_is_kept_whole() {
    let body = "v=0\r\no=alice 1 1 IN IP4 host\r\n\r\ns=-\r\n";
    let mut m = Message::new(MessageType::Request(RequestMethod::Invite), String::from("d"));
    m.via(String::from("UDP"), String::from("h"), String::from("1"))
        .call_id(String::from("i"))
        .request_uri(String::from("bob"));
    m.body = String::from(body);
    let text = m.build_message().unwrap();
    let read = Message::parse(&text).unwrap();
    assert_eq!(read.body, body);
    assert_eq!(read.via, m.via);
    assert_eq!(read.call_id, m.call_id);
    assert_eq!(read.request_uri, "bob");
    let mut again = read;
    again.domain = String::from("d");
    assert_eq!(again.build_message().unwrap(), text);
}

#[test]
fn body_of_a_response_is_read_back() {
    let mut m = Message::new(MessageType::Response(String::from("486 Busy")), String::new());
    m.body = String::from("h\u{e9}llo\r\n\r\nw\u{f6}rld");
    let read = Message::parse(&m.build_message().unwrap()).unwrap();
    assert_eq!(read.body, m.body);
    assert!(matches!(&read.mtype, MessageType::Response(status) if status == "486 Busy"));
}

#[test]
fn text_without_empty_line_has_no_body() {
    let read = Message::parse("ACK sip:a@b SIP/2.0\r\nVia: one\r\nbody").unwrap();
    assert_eq!(read.via, "Via: one\r\n");
    assert_eq!(read.body, "");
    let read = Message::parse("ACK sip:a@b SIP/2.0\r\nVia: one\r\n").unwrap();
    assert_eq!(read.via, "Via: one\r\n");
    assert_eq!(read.body, "");
}

#[test]
fn first_empty_line_ends_the_head() {
    let read = Message::parse("ACK sip:a@b SIP/2.0\r\n\r\n\r\n\r\nx").unwrap();
    assert_eq!(read.body, "\r\n\r\nx");
    let read = Message::parse("ACK sip:a@b SIP/2.0\r\n\r\n").unwrap();
    assert_eq!(read.body, "");
}

#[test]
fn unknown_and_content_length_lines_are_dropped() {
    let read = Message::parse(
        "ACK sip:a@b SIP/2.0\r\nEvent: e\r\nContent-Length: 99\r\nstray\r\nCSeq: 1 ACK\r\n\r\nbody",
    )
    .unwrap();
    assert_eq!(read.cseq, "CSeq: 1 ACK\r\n");
    assert_eq!(read.event, "");
    assert_eq!(read.body, "body");
    assert_eq!(read.via, "");
}

#[test]
fn target_without_colon_gives_no_user() {
    let read = Message::parse("ACK a@b SIP/2.0").unwrap();
    assert_eq!(read.request_uri, "");
    let read = Message::parse("ACK sip:a SIP/2.0").unwrap();
    assert_eq!(read.request_uri, "a");
}
