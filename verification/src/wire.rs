//! The wire text of a message: how a message is written out, and how a text
//! is read back into a message.
use crate::decimal::{decimal, decimal_string};
use crate::error::SipError;
use crate::message::{fresh, Message, MessageType, MessageTypeView, MessageView};
use crate::method::{method_of_token, RequestMethod};
use crate::text::{
    after, before, cut_after, cut_before, has_prefix, split, split_text, starts_with,
};
use vstd::prelude::*;

verus! {

/// The number of bytes that a text takes on the wire.
pub open spec fn byte_length(s: Seq<char>) -> nat {
    vstd::utf8::encode_utf8(s).len()
}

/// The first line of a message, with its line end.
pub open spec fn start_line(m: MessageView) -> Seq<char> {
    match m.mtype {
        MessageTypeView::Request(method) => method.token() + " sip:"@ + m.request_uri + "@"@
            + m.domain + " SIP/2.0\r\n"@,
        MessageTypeView::Response(status) => "SIP/2.0 "@ + status + "\r\n"@,
    }
}

/// The Content-Length line for a body, with the empty line that ends the
/// headers: the length is the number of bytes of the body.
pub open spec fn content_length_line(body: Seq<char>) -> Seq<char> {
    "Content-Length: "@ + decimal(byte_length(body)) + "\r\n\r\n"@
}

/// The wire text of a message: the start line, the headers in their fixed
/// order, the content length, the empty line and the body. An unset header
/// adds nothing.
pub open spec fn wire_text(m: MessageView) -> Seq<char> {
    start_line(m) + m.via + m.to + m.from + m.call_id + m.cseq + m.max_forwards + m.event
        + m.accept + m.contact + m.content_type + content_length_line(m.body) + m.body
}

/// The message is a request without a request target. Such a message cannot
/// be written out.
pub open spec fn lacks_target(m: MessageView) -> bool {
    m.mtype is Request && m.request_uri.len() == 0
}

/// What writing a message out gives, as `build_message` returns it: its wire
/// text, or an error for a request without a request target.
pub open spec fn written(m: MessageView) -> Result<Seq<char>, SipError> {
    if lacks_target(m) {
        Err(SipError::MissingRequestTarget)
    } else {
        Ok(wire_text(m))
    }
}

/// What a line after the start line is taken for.
#[derive(Debug, Clone, Copy, PartialEq, Eq)]
pub enum LineKind {
    Via,
    To,
    From,
    CallId,
    CSeq,
    MaxForwards,
    ContentLength,
    Other,
}

/// The kind of a line, by the header name that it begins with. A line that
/// begins with none of the names that are known is of the kind `Other`.
pub open spec fn line_kind(line: Seq<char>) -> LineKind {
    if starts_with(line, "Via:"@) {
        LineKind::Via
    } else if starts_with(line, "To:"@) {
        LineKind::To
    } else if starts_with(line, "From:"@) {
        LineKind::From
    } else if starts_with(line, "Call-ID:"@) {
        LineKind::CallId
    } else if starts_with(line, "CSeq:"@) {
        LineKind::CSeq
    } else if starts_with(line, "Max-Forwards:"@) {
        LineKind::MaxForwards
    } else if starts_with(line, "Content-Length:"@) {
        LineKind::ContentLength
    } else {
        LineKind::Other
    }
}

/// The last of the lines that is of the given kind, with its line end put
/// back; nothing where no line is of that kind.
pub open spec fn last_of_kind(lines: Seq<Seq<char>>, kind: LineKind) -> Seq<char>
    decreases lines.len(),
{
    if lines.len() == 0 {
        Seq::empty()
    } else if line_kind(lines.last()) == kind {
        lines.last() + "\r\n"@
    } else {
        last_of_kind(lines.drop_last(), kind)
    }
}

/// The user in the target of a request line: what stands between the
/// target's first colon and the first `@` after it.
pub open spec fn target_user(target: Seq<char>) -> Seq<char> {
    before(after(target, ":"@), "@"@)
}

/// What a start line says: the type of the message and, for a request, the
/// user in its target. A line whose first token begins with `SIP` is a
/// status line and needs three tokens; any other is a request line, whose
/// first token must be a method's and which needs two tokens.
pub open spec fn parsed_start(line: Seq<char>) -> Result<(MessageTypeView, Seq<char>), SipError> {
    let tokens = split(line, " "@);
    if starts_with(tokens[0], "SIP"@) {
        if tokens.len() < 3 {
            Err(SipError::MalformedStartLine)
        } else {
            Ok((MessageTypeView::Response(tokens[1] + " "@ + tokens[2]), Seq::empty()))
        }
    } else {
        match method_of_token(tokens[0]) {
            None => Err(SipError::UnknownMethodToken),
            Some(method) => if tokens.len() < 2 {
                Err(SipError::MalformedStartLine)
            } else {
                Ok((MessageTypeView::Request(method), target_user(tokens[1])))
            },
        }
    }
}

/// The message of the given type and target that the lines after the start
/// line and the body give: each header that is read holds the last line of
/// its kind, and the body is taken as it stands. A Content-Length line and a
/// line that begins with no known name are dropped. The domain and the
/// headers that are not read stay empty.
pub open spec fn message_read(
    mtype: MessageTypeView,
    target: Seq<char>,
    lines: Seq<Seq<char>>,
    body: Seq<char>,
) -> MessageView {
    MessageView {
        request_uri: target,
        via: last_of_kind(lines, LineKind::Via),
        to: last_of_kind(lines, LineKind::To),
        from: last_of_kind(lines, LineKind::From),
        call_id: last_of_kind(lines, LineKind::CallId),
        cseq: last_of_kind(lines, LineKind::CSeq),
        max_forwards: last_of_kind(lines, LineKind::MaxForwards),
        body,
        ..fresh(mtype, Seq::empty())
    }
}

/// The head of a wire text: what precedes its first empty line, which is
/// the whole text where it has none.
pub open spec fn head_of(text: Seq<char>) -> Seq<char> {
    before(text, "\r\n\r\n"@)
}

/// The body of a wire text: all that follows its first empty line, as it
/// stands; nothing where the text has no empty line.
pub open spec fn body_of(text: Seq<char>) -> Seq<char> {
    after(text, "\r\n\r\n"@)
}

/// What a wire text is read as. The text is cut at its first empty line. The
/// head is cut into lines at every line end: the first line is the start
/// line, the others are taken one by one for the headers. What follows the
/// empty line is the body.
pub open spec fn parsed(text: Seq<char>) -> Result<MessageView, SipError> {
    let lines = split(head_of(text), "\r\n"@);
    match parsed_start(lines[0]) {
        Err(e) => Err(e),
        Ok((mtype, target)) => Ok(message_read(mtype, target, lines.drop_first(), body_of(text))),
    }
}

/// Adding a line at the end changes what is read for the line's kind, and
/// for no other kind.
pub proof fn lemma_last_of_kind_push(lines: Seq<Seq<char>>, line: Seq<char>, kind: LineKind)
    ensures
        last_of_kind(lines.push(line), kind) == if line_kind(line) == kind {
            line + "\r\n"@
        } else {
            last_of_kind(lines, kind)
        },
{
    assert(lines.push(line).drop_last() =~= lines);
}

/// Tells the kind of a line.
pub fn kind_of(line: &str) -> (kind: LineKind)
    ensures
        kind == line_kind(line@),
{
    if has_prefix(line, "Via:") {
        LineKind::Via
    } else if has_prefix(line, "To:") {
        LineKind::To
    } else if has_prefix(line, "From:") {
        LineKind::From
    } else if has_prefix(line, "Call-ID:") {
        LineKind::CallId
    } else if has_prefix(line, "CSeq:") {
        LineKind::CSeq
    } else if has_prefix(line, "Max-Forwards:") {
        LineKind::MaxForwards
    } else if has_prefix(line, "Content-Length:") {
        LineKind::ContentLength
    } else {
        LineKind::Other
    }
}

/// Reads a start line.
pub fn parse_start(line: &str) -> (r: Result<(MessageType, String), SipError>)
    ensures
        match parsed_start(line@) {
            Ok((mtype, target)) => r matches Ok(got) && got.0@ == mtype && got.1@ == target,
            Err(e) => r matches Err(x) && x == e,
        },
{
    let tokens = split_text(line, " ");
    if has_prefix(tokens[0], "SIP") {
        if tokens.len() < 3 {
            return Err(SipError::MalformedStartLine);
        }
        let mut status = String::from_str(tokens[1]);
        status.append(" ");
        status.append(tokens[2]);
        Ok((MessageType::Response(status), String::new()))
    } else {
        match RequestMethod::from_name(tokens[0]) {
            None => Err(SipError::UnknownMethodToken),
            Some(method) => {
                if tokens.len() < 2 {
                    return Err(SipError::MalformedStartLine);
                }
                let user = cut_before(cut_after(tokens[1], ":"), "@");
                Ok((MessageType::Request(method), String::from_str(user)))
            },
        }
    }
}

/// A line with its line end put back.
fn with_line_end(line: &str) -> (r: String)
    ensures
        r@ == line@ + "\r\n"@,
{
    let mut r = String::from_str(line);
    r.append("\r\n");
    r
}

impl Message {
    /// Writes the message out as wire text. The message is only read. A
    /// request must have a request target: one without is not written, and
    /// an error is returned. Every other message gives its wire text.
    pub fn build_message(&self) -> (r: Result<String, SipError>)
        ensures
            lacks_target(self@) ==> r == Err::<String, SipError>(SipError::MissingRequestTarget),
            !lacks_target(self@) ==> (r matches Ok(text) && text@ == wire_text(self@)),
    {
        let mut text = match &self.mtype {
            MessageType::Request(method) => {
                if self.request_uri.as_str().is_empty() {
                    return Err(SipError::MissingRequestTarget);
                }
                let mut line = String::from_str(method.name());
                line.append(" sip:");
                line.append(self.request_uri.as_str());
                line.append("@");
                line.append(self.domain.as_str());
                line.append(" SIP/2.0\r\n");
                line
            },
            MessageType::Response(status) => {
                let mut line = String::from_str("SIP/2.0 ");
                line.append(status.as_str());
                line.append("\r\n");
                line
            },
        };
        let mut length = String::from_str("Content-Length: ");
        length.append(decimal_string(self.body.as_str().as_bytes().len()).as_str());
        length.append("\r\n\r\n");
        text.append(self.via.as_str());
        text.append(self.to.as_str());
        text.append(self.from.as_str());
        text.append(self.call_id.as_str());
        text.append(self.cseq.as_str());
        text.append(self.max_forwards.as_str());
        text.append(self.event.as_str());
        text.append(self.accept.as_str());
        text.append(self.contact.as_str());
        text.append(self.content_type.as_str());
        text.append(length.as_str());
        text.append(self.body.as_str());
        Ok(text)
    }

    /// Reads a wire text into a message. The headers are read from the lines
    /// before the first empty line, and the body is all that follows it, as
    /// it stands. Of the lines before the empty line, a Content-Length line
    /// and a line that begins with no known name are dropped. It fails where
    /// the start line names no method or lacks a token; every other text
    /// gives a message.
    pub fn parse(msg: &str) -> (r: Result<Message, SipError>)
        ensures
            match parsed(msg@) {
                Ok(m) => r matches Ok(message) && message@ == m,
                Err(e) => r matches Err(x) && x == e,
            },
    {
        let head = cut_before(msg, "\r\n\r\n");
        let body = cut_after(msg, "\r\n\r\n");
        let lines = split_text(head, "\r\n");
        let ghost all = split(head@, "\r\n"@);
        let (mtype, target) = match parse_start(lines[0]) {
            Ok(start) => start,
            Err(e) => {
                return Err(e);
            },
        };
        let ghost kind = mtype@;
        let ghost user = target@;
        let mut message = Message::new(mtype, String::new());
        message.request_uri = target;
        message.body = String::from_str(body);
        let mut i: usize = 1;
        assert(all.subrange(1, 1) =~= Seq::<Seq<char>>::empty());
        while i < lines.len()
            invariant
                1 <= i <= lines.len(),
                lines@.len() == all.len(),
                forall|k: int| 0 <= k < lines@.len() ==> (#[trigger] lines@[k])@ == all[k],
                message@ == message_read(kind, user, all.subrange(1, i as int), body@),
            decreases lines.len() - i,
        {
            let line = lines[i];
            proof {
                let seen = all.subrange(1, i as int);
                assert(all.subrange(1, i + 1) =~= seen.push(line@));
                lemma_last_of_kind_push(seen, line@, LineKind::Via);
                lemma_last_of_kind_push(seen, line@, LineKind::To);
                lemma_last_of_kind_push(seen, line@, LineKind::From);
                lemma_last_of_kind_push(seen, line@, LineKind::CallId);
                lemma_last_of_kind_push(seen, line@, LineKind::CSeq);
                lemma_last_of_kind_push(seen, line@, LineKind::MaxForwards);
            }
            match kind_of(line) {
                LineKind::Via => {
                    message.via = with_line_end(line);
                },
                LineKind::To => {
                    message.to = with_line_end(line);
                },
                LineKind::From => {
                    message.from = with_line_end(line);
                },
                LineKind::CallId => {
                    message.call_id = with_line_end(line);
                },
                LineKind::CSeq => {
                    message.cseq = with_line_end(line);
                },
                LineKind::MaxForwards => {
                    message.max_forwards = with_line_end(line);
                },
                LineKind::ContentLength => {},
                LineKind::Other => {},
            }
            i += 1;
        }
        assert(all.subrange(1, i as int) =~= all.drop_first());
        Ok(message)
    }
}

} // verus!
