//! The message, its header lines and the builders that set them.
use crate::error::SipError;
use crate::method::{method_of_token, RequestMethod};
use crate::text::{after, before, cut_after, cut_before};
use vstd::prelude::*;

verus! {

/// What a message is: a request with its method, or a response with its
/// status, the code and the reason phrase as they stand on the wire.
#[derive(Debug)]
pub enum MessageType {
    Request(RequestMethod),
    Response(String),
}

/// A message type with its text as a sequence of characters.
pub enum MessageTypeView {
    Request(RequestMethod),
    Response(Seq<char>),
}

impl View for MessageType {
    type V = MessageTypeView;

    open spec fn view(&self) -> MessageTypeView {
        match self {
            MessageType::Request(method) => MessageTypeView::Request(*method),
            MessageType::Response(status) => MessageTypeView::Response(status@),
        }
    }
}

/// One message. Each header field holds its whole line as it goes on the
/// wire, the line's end included, or nothing while the header is unset.
#[derive(Debug)]
pub struct Message {
    pub mtype: MessageType,
    pub request_uri: String,
    pub domain: String,
    pub to: String,
    pub from: String,
    pub cseq: String,
    pub call_id: String,
    pub contact: String,
    pub max_forwards: String,
    pub via: String,
    pub event: String,
    pub accept: String,
    pub content_type: String,
    pub body: String,
}

/// A message with every text as a sequence of characters.
pub struct MessageView {
    pub mtype: MessageTypeView,
    pub request_uri: Seq<char>,
    pub domain: Seq<char>,
    pub to: Seq<char>,
    pub from: Seq<char>,
    pub cseq: Seq<char>,
    pub call_id: Seq<char>,
    pub contact: Seq<char>,
    pub max_forwards: Seq<char>,
    pub via: Seq<char>,
    pub event: Seq<char>,
    pub accept: Seq<char>,
    pub content_type: Seq<char>,
    pub body: Seq<char>,
}

impl View for Message {
    type V = MessageView;

    open spec fn view(&self) -> MessageView {
        MessageView {
            mtype: self.mtype@,
            request_uri: self.request_uri@,
            domain: self.domain@,
            to: self.to@,
            from: self.from@,
            cseq: self.cseq@,
            call_id: self.call_id@,
            contact: self.contact@,
            max_forwards: self.max_forwards@,
            via: self.via@,
            event: self.event@,
            accept: self.accept@,
            content_type: self.content_type@,
            body: self.body@,
        }
    }
}

/// The message of the given type for the given domain, with no header set,
/// no request target and no body.
pub open spec fn fresh(mtype: MessageTypeView, domain: Seq<char>) -> MessageView {
    MessageView {
        mtype,
        request_uri: Seq::empty(),
        domain,
        to: Seq::empty(),
        from: Seq::empty(),
        cseq: Seq::empty(),
        call_id: Seq::empty(),
        contact: Seq::empty(),
        max_forwards: Seq::empty(),
        via: Seq::empty(),
        event: Seq::empty(),
        accept: Seq::empty(),
        content_type: Seq::empty(),
        body: Seq::empty(),
    }
}

/// The line of a header that is its name, a colon, a space and its value.
pub open spec fn header_line(name: Seq<char>, value: Seq<char>) -> Seq<char> {
    name + ": "@ + value + "\r\n"@
}

/// The Via line. The branch parameter is the same in every message.
pub open spec fn via_line(proto: Seq<char>, host: Seq<char>, port: Seq<char>) -> Seq<char> {
    "Via: SIP/2.0/"@ + proto + " "@ + host + ":"@ + port + ";branch=z9hG4bK\r\n"@
}

/// The line of a header that names a party: the address of `ext` in
/// `domain`, bare, or after the display name and in angle brackets where
/// there is a display name.
pub open spec fn address_line(
    name: Seq<char>,
    display_name: Option<Seq<char>>,
    ext: Seq<char>,
    domain: Seq<char>,
) -> Seq<char> {
    match display_name {
        None => name + ": sip:"@ + ext + "@"@ + domain + "\r\n"@,
        Some(shown) => name + ": "@ + shown + " <sip:"@ + ext + "@"@ + domain + ">\r\n"@,
    }
}

/// The CSeq line of a request with the given method.
pub open spec fn cseq_line(number: Seq<char>, method: RequestMethod) -> Seq<char> {
    "CSeq: "@ + number + " "@ + method.token() + "\r\n"@
}

/// The Contact line.
pub open spec fn contact_line(ext: Seq<char>, domain: Seq<char>) -> Seq<char> {
    "Contact: <sip:"@ + ext + "@"@ + domain + ">\r\n"@
}

/// The user of the address in a line that names a party: what stands
/// between the line's second colon and the first `@` after it.
pub open spec fn user_part(line: Seq<char>) -> Seq<char> {
    before(after(after(line, ":"@), ":"@), "@"@)
}

/// A display name as a sequence of characters, where there is one.
pub open spec fn shown_name(display_name: Option<String>) -> Option<Seq<char>> {
    match display_name {
        None => None,
        Some(shown) => Some(shown@),
    }
}

/// Writes the line of a header from its name and its value.
pub fn header_line_text(name: &str, value: &str) -> (line: String)
    ensures
        line@ == header_line(name@, value@),
{
    let mut line = String::from_str(name);
    line.append(": ");
    line.append(value);
    line.append("\r\n");
    line
}

/// Writes the line of a header that names a party.
pub fn address_line_text(name: &str, display_name: &Option<String>, ext: &str, domain: &str) -> (line:
    String)
    ensures
        line@ == address_line(name@, shown_name(*display_name), ext@, domain@),
{
    let mut line = String::from_str(name);
    match display_name {
        None => {
            line.append(": sip:");
            line.append(ext);
            line.append("@");
            line.append(domain);
            line.append("\r\n");
        },
        Some(shown) => {
            line.append(": ");
            line.append(shown.as_str());
            line.append(" <sip:");
            line.append(ext);
            line.append("@");
            line.append(domain);
            line.append(">\r\n");
        },
    }
    line
}

/// Reads the user of the address out of a line that names a party.
pub fn user_part_text(line: &str) -> (user: String)
    ensures
        user@ == user_part(line@),
{
    String::from_str(cut_before(cut_after(cut_after(line, ":"), ":"), "@"))
}

impl Message {
    /// A message of the given type for the given domain, with nothing set.
    pub fn new(mtype: MessageType, domain: String) -> (message: Message)
        ensures
            message@ == fresh(mtype@, domain@),
    {
        Message {
            mtype: mtype,
            request_uri: String::new(),
            to: String::new(),
            from: String::new(),
            cseq: String::new(),
            call_id: String::new(),
            contact: String::new(),
            max_forwards: String::new(),
            via: String::new(),
            body: String::new(),
            event: String::new(),
            accept: String::new(),
            content_type: String::new(),
            domain: domain,
        }
    }

    /// The token of the method of a request. A response has none.
    pub fn get_method_name(&self) -> (r: Result<String, SipError>)
        ensures
            match self@.mtype {
                MessageTypeView::Request(method) => r matches Ok(name) && name@ == method.token(),
                MessageTypeView::Response(_) => r == Err::<String, SipError>(
                    SipError::WrongMessageTypeForOperation,
                ),
            },
    {
        match &self.mtype {
            MessageType::Request(method) => Ok(String::from_str(method.name())),
            MessageType::Response(_) => Err(SipError::WrongMessageTypeForOperation),
        }
    }

    /// The method with the token `name`. The match is exact; a text that is
    /// no method's token is an error.
    pub fn get_request_method_from_name(name: &str) -> (r: Result<RequestMethod, SipError>)
        ensures
            match method_of_token(name@) {
                Some(method) => r == Ok::<RequestMethod, SipError>(method),
                None => r == Err::<RequestMethod, SipError>(SipError::UnknownMethodToken),
            },
    {
        match RequestMethod::from_name(name) {
            Some(method) => Ok(method),
            None => Err(SipError::UnknownMethodToken),
        }
    }

    /// Sets the Via header.
    pub fn via(&mut self, proto: String, host: String, port: String) -> (ret: &mut Message)
        ensures
            ret@ == (MessageView { via: via_line(proto@, host@, port@), ..old(self)@ }),
            *final(self) == *final(ret),
    {
        let mut line = String::from_str("Via: SIP/2.0/");
        line.append(proto.as_str());
        line.append(" ");
        line.append(host.as_str());
        line.append(":");
        line.append(port.as_str());
        line.append(";branch=z9hG4bK\r\n");
        self.via = line;
        self
    }

    /// Sets the To header to the address of `ext` in the message's domain.
    pub fn to(&mut self, display_name: Option<String>, ext: String) -> (ret: &mut Message)
        ensures
            ret@ == (MessageView {
                to: address_line("To"@, shown_name(display_name), ext@, old(self)@.domain),
                ..old(self)@
            }),
            *final(self) == *final(ret),
    {
        self.to = address_line_text("To", &display_name, ext.as_str(), self.domain.as_str());
        self
    }

    /// The user of the address in the To header, as `to` has set it. Of a
    /// line of another shape it is whatever stands between the second colon
    /// and the next `@`.
    pub fn get_to(&self) -> (user: String)
        ensures
            user@ == user_part(self@.to),
    {
        user_part_text(self.to.as_str())
    }

    /// Sets the From header to the address of `ext` in the message's domain.
    pub fn from(&mut self, display_name: Option<String>, ext: String) -> (ret: &mut Message)
        ensures
            ret@ == (MessageView {
                from: address_line("From"@, shown_name(display_name), ext@, old(self)@.domain),
                ..old(self)@
            }),
            *final(self) == *final(ret),
    {
        self.from = address_line_text("From", &display_name, ext.as_str(), self.domain.as_str());
        self
    }

    /// The user of the address in the From header, as `from` has set it.
    pub fn get_from(&self) -> (user: String)
        ensures
            user@ == user_part(self@.from),
    {
        user_part_text(self.from.as_str())
    }

    /// Sets the Call-ID header.
    pub fn call_id(&mut self, call_id: String) -> (ret: &mut Message)
        ensures
            ret@ == (MessageView { call_id: header_line("Call-ID"@, call_id@), ..old(self)@ }),
            *final(self) == *final(ret),
    {
        self.call_id = header_line_text("Call-ID", call_id.as_str());
        self
    }

    /// Sets the CSeq header of a request to the number and the request's
    /// method. A response has no method: it is left as it is, with an error.
    pub fn cseq(&mut self, number: String) -> (r: Result<&mut Message, SipError>)
        ensures
            match old(self)@.mtype {
                MessageTypeView::Request(method) => r matches Ok(ret) && ret@ == (MessageView {
                    cseq: cseq_line(number@, method),
                    ..old(self)@
                }) && *final(self) == *final(ret),
                MessageTypeView::Response(_) => r matches Err(e) && e
                    == SipError::WrongMessageTypeForOperation && *final(self) == *old(self),
            },
    {
        match &self.mtype {
            MessageType::Request(method) => {
                let mut line = String::from_str("CSeq: ");
                line.append(number.as_str());
                line.append(" ");
                line.append(method.name());
                line.append("\r\n");
                self.cseq = line;
                Ok(self)
            },
            MessageType::Response(_) => Err(SipError::WrongMessageTypeForOperation),
        }
    }

    /// Sets the Event header.
    pub fn event(&mut self, event: String) -> (ret: &mut Message)
        ensures
            ret@ == (MessageView { event: header_line("Event"@, event@), ..old(self)@ }),
            *final(self) == *final(ret),
    {
        self.event = header_line_text("Event", event.as_str());
        self
    }

    /// Sets the Accept header.
    pub fn accept(&mut self, accept: String) -> (ret: &mut Message)
        ensures
            ret@ == (MessageView { accept: header_line("Accept"@, accept@), ..old(self)@ }),
            *final(self) == *final(ret),
    {
        self.accept = header_line_text("Accept", accept.as_str());
        self
    }

    /// Sets the Content-Type header.
    pub fn content_type(&mut self, content_type: String) -> (ret: &mut Message)
        ensures
            ret@ == (MessageView {
                content_type: header_line("Content-Type"@, content_type@),
                ..old(self)@
            }),
            *final(self) == *final(ret),
    {
        self.content_type = header_line_text("Content-Type", content_type.as_str());
        self
    }

    /// Sets the Contact header to the address of `ext` in the message's
    /// domain.
    pub fn contact(&mut self, ext: String) -> (ret: &mut Message)
        ensures
            ret@ == (MessageView {
                contact: contact_line(ext@, old(self)@.domain),
                ..old(self)@
            }),
            *final(self) == *final(ret),
    {
        let mut line = String::from_str("Contact: <sip:");
        line.append(ext.as_str());
        line.append("@");
        line.append(self.domain.as_str());
        line.append(">\r\n");
        self.contact = line;
        self
    }

    /// Sets the Max-Forwards header.
    pub fn max_forwards(&mut self, number: String) -> (ret: &mut Message)
        ensures
            ret@ == (MessageView {
                max_forwards: header_line("Max-Forwards"@, number@),
                ..old(self)@
            }),
            *final(self) == *final(ret),
    {
        self.max_forwards = header_line_text("Max-Forwards", number.as_str());
        self
    }

    /// Sets the request target, as it is given.
    pub fn request_uri(&mut self, uri: String) -> (ret: &mut Message)
        ensures
            ret@ == (MessageView { request_uri: uri@, ..old(self)@ }),
            *final(self) == *final(ret),
    {
        self.request_uri = uri;
        self
    }
}

} // verus!
