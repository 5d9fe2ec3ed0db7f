//! What holds between writing a message out and reading it back.
use crate::decimal::decimal;
use crate::error::SipError;
use crate::lines::{
    breaks_at, gap_at, holds_line, lemma_call_id_line, lemma_cseq_line,
    lemma_cut_at_gap, lemma_decimal_plain, lemma_empty_line, lemma_from_line, lemma_gaps,
    lemma_glued, lemma_join_unbroken, lemma_kind_by_name, lemma_line, lemma_line_breaks,
    lemma_line_end, lemma_line_parts, lemma_line_then_solid, lemma_max_forwards_line,
    lemma_names_revealed, lemma_plain_unbroken, lemma_solid, lemma_starts_with,
    lemma_then_plain, lemma_to_line, lemma_token_plain, lemma_unbroken, lemma_via_line,
    opens_clear, plain, solid, unbroken,
};
use crate::message::{
    address_line, cseq_line, fresh, header_line, user_part, via_line, MessageTypeView,
    MessageView,
};
use crate::method::{lemma_method_of_its_token, RequestMethod};
use crate::text::{
    after, before, first_index, found, lemma_first_char, lemma_first_index_from, lemma_found_char,
    lemma_no_char, lemma_occurrence_found, lemma_occurs_one, lemma_split_found, split,
    starts_with,
};
use crate::wire::{
    body_of, byte_length, content_length_line, head_of, last_of_kind, lemma_last_of_kind_push, line_kind,
    message_read, parsed, parsed_start, start_line, target_user, wire_text, written, LineKind,
};
use vstd::prelude::*;

verus! {

/// Among the lines of two runs, one after the other, the last line of a kind
/// is the last such line of the second run, or of the first run where the
/// second has none.
pub proof fn lemma_last_of_kind_concat(a: Seq<Seq<char>>, b: Seq<Seq<char>>, kind: LineKind)
    ensures
        last_of_kind(a + b, kind) == if last_of_kind(b, kind).len() > 0 {
            last_of_kind(b, kind)
        } else {
            last_of_kind(a, kind)
        },
    decreases b.len(),
{
    lemma_line_end();
    if b.len() == 0 {
        assert(a + b =~= a);
    } else {
        assert((a + b).drop_last() =~= a + b.drop_last());
        assert((a + b).last() == b.last());
        lemma_last_of_kind_concat(a, b.drop_last(), kind);
    }
}

/// What a field that holds a line adds to what is read from the text after
/// it: the field is read for its own kind unless a later line is of that
/// kind, and the other kinds are read as before.
pub open spec fn read_after(
    field: Seq<char>,
    kind: LineKind,
    later: Seq<char>,
    asked: LineKind,
) -> Seq<char> {
    if later.len() > 0 {
        later
    } else if asked == kind {
        field
    } else {
        later
    }
}

/// The lines of a field that holds a line, followed by more text, are the
/// field's line, where it is set, and the lines of the text after it.
pub proof fn lemma_field_then(field: Seq<char>, kind: LineKind, rest: Seq<char>, asked: LineKind)
    requires
        holds_line(field, kind),
    ensures
        last_of_kind(split(field + rest, "\r\n"@), asked) == read_after(
            field,
            kind,
            last_of_kind(split(rest, "\r\n"@), asked),
            asked,
        ),
{
    lemma_line_end();
    let later = last_of_kind(split(rest, "\r\n"@), asked);
    if field.len() == 0 {
        assert(field + rest =~= rest);
        assert(later.len() == 0 ==> later =~= field);
    } else {
        let line = before(field, "\r\n"@);
        lemma_line_parts(field);
        lemma_split_found(field, rest, "\r\n"@);
        assert(after(field, "\r\n"@) + rest =~= rest);
        lemma_last_of_kind_concat(seq![line], split(rest, "\r\n"@), asked);
        lemma_last_of_kind_push(Seq::empty(), line, asked);
        assert(Seq::<Seq<char>>::empty().push(line) =~= seq![line]);
    }
}

/// The content length of an empty body is zero.
pub proof fn lemma_content_length_of_no_body()
    ensures
        content_length_line(Seq::empty()) == "Content-Length: 0"@ + "\r\n"@ + "\r\n"@,
        content_length_line(Seq::empty()) == "Content-Length: 0\r\n\r\n"@,
{
    reveal_strlit("Content-Length: ");
    reveal_strlit("Content-Length: 0");
    reveal_strlit("Content-Length: 0\r\n\r\n");
    reveal_strlit("\r\n\r\n");
    reveal_strlit("\r\n");
    let none = Seq::<char>::empty();
    assert(vstd::utf8::encode_utf8(none) =~= Seq::<u8>::empty());
    assert(decimal(0) =~= seq!['0']);
    assert(content_length_line(none) =~= "Content-Length: 0\r\n\r\n"@);
    assert(content_length_line(none) =~= "Content-Length: 0"@ + "\r\n"@ + "\r\n"@);
}

/// The Content-Length line of a body, without the line ends after it.
pub open spec fn length_line(body: Seq<char>) -> Seq<char> {
    "Content-Length: "@ + decimal(byte_length(body))
}

/// The Content-Length line of any body is plain and not empty, it is read
/// as a Content-Length line, and two line ends follow it in the wire text.
pub proof fn lemma_length_line(body: Seq<char>)
    ensures
        plain(length_line(body)),
        length_line(body).len() > 0,
        line_kind(length_line(body)) == LineKind::ContentLength,
        content_length_line(body) == length_line(body) + "\r\n"@ + "\r\n"@,
{
    reveal_strlit("Content-Length: ");
    lemma_names_revealed();
    lemma_empty_line();
    lemma_decimal_plain(byte_length(body));
    let x = length_line(body);
    assert(forall|i: int| 0 <= i < 16 ==> x[i] == "Content-Length: "@[i]);
    assert forall|i: int| 0 <= i < x.len() implies x[i] != '\r' && x[i] != '\n' by {
        if i >= 16 {
            assert(x[i] == decimal(byte_length(body))[i - 16]);
        }
    }
    lemma_starts_with(x, "Content-Length:"@);
    lemma_kind_by_name(x);
    assert(content_length_line(body) =~= x + "\r\n"@ + "\r\n"@);
}

/// The Content-Length line that ends the headers is read as no header.
pub proof fn lemma_end_of_headers(body: Seq<char>, asked: LineKind)
    requires
        asked != LineKind::ContentLength,
    ensures
        last_of_kind(split(length_line(body), "\r\n"@), asked) == Seq::<char>::empty(),
{
    let x = length_line(body);
    lemma_length_line(body);
    lemma_plain_unbroken(x);
    assert(split(x, "\r\n"@) =~= Seq::<Seq<char>>::empty().push(x));
    lemma_last_of_kind_push(Seq::empty(), x, asked);
}

/// The request line of a message, without its line end.
pub open spec fn request_line(method: RequestMethod, uri: Seq<char>, domain: Seq<char>) -> Seq<
    char,
> {
    method.token() + " sip:"@ + uri + "@"@ + domain + " SIP/2.0"@
}

/// The user is read out of a target that begins with the scheme, the user
/// and an `@`, where the user holds no `@`.
proof fn lemma_target_user(target: Seq<char>, user: Seq<char>)
    requires
        target.len() >= 5 + user.len(),
        target[0] == 's' && target[1] == 'i' && target[2] == 'p' && target[3] == ':',
        forall|i: int| 0 <= i < user.len() ==> target[4 + i] == user[i],
        target[4 + user.len() as int] == '@',
        !found(user, "@"@),
    ensures
        target_user(target) == user,
{
    reveal_strlit(":");
    reveal_strlit("@");
    assert(":"@ =~= seq![':']);
    assert("@"@ =~= seq!['@']);
    lemma_first_char(target, ':', 3);
    let rest = target.skip(4);
    lemma_no_char(user, '@');
    assert(forall|i: int| 0 <= i < user.len() ==> rest[i] == user[i]);
    lemma_first_char(rest, '@', user.len() as int);
    assert(rest.take(user.len() as int) =~= user);
}

/// The request line of a method, a user without space, `@` or line end, and
/// an unbroken domain is unbroken, and it is read as a request of that
/// method for that user.
pub proof fn lemma_request_line(method: RequestMethod, uri: Seq<char>, domain: Seq<char>)
    requires
        !found(uri, " "@),
        !found(uri, "@"@),
        unbroken(uri),
        unbroken(domain),
    ensures
        unbroken(request_line(method, uri, domain)),
        parsed_start(request_line(method, uri, domain)) == Ok::<
            (MessageTypeView, Seq<char>),
            SipError,
        >((MessageTypeView::Request(method), uri)),
{
    let t = method.token();
    let s0 = request_line(method, uri, domain);
    reveal_strlit(" sip:");
    reveal_strlit(" SIP/2.0");
    reveal_strlit(" ");
    reveal_strlit("@");
    let sp = " "@;
    assert(sp =~= seq![' ']);
    lemma_token_plain(method);
    lemma_method_of_its_token(method);
    let a0 = t + " sip:"@;
    let a1 = a0 + uri + "@"@;
    lemma_plain_unbroken(t);
    lemma_then_plain(t, " sip:"@);
    lemma_glued(a0, uri, "@"@);
    lemma_glued(a1, domain, " SIP/2.0"@);
    assert(forall|j: int| 0 <= j < t.len() ==> s0[j] == t[j]);
    assert(s0[t.len() as int] == " sip:"@[0]);
    lemma_first_char(s0, ' ', t.len() as int);
    assert(s0.take(t.len() as int) =~= t);
    let r1 = s0.skip(t.len() as int + 1);
    let p: int = 5 + uri.len() as int + domain.len() as int;
    assert(r1.len() == p + 8);
    assert(r1[p] == " SIP/2.0"@[0]);
    lemma_occurs_one(r1, ' ', p);
    lemma_occurrence_found(r1, sp, p);
    lemma_found_char(r1, ' ');
    lemma_no_char(uri, ' ');
    let j = first_index(r1, sp);
    assert(r1[0] == " sip:"@[1] && r1[1] == " sip:"@[2] && r1[2] == " sip:"@[3] && r1[3]
        == " sip:"@[4]);
    assert(forall|i: int| 0 <= i < uri.len() ==> r1[4 + i] == uri[i]);
    assert(r1[4 + uri.len() as int] == "@"@[0]);
    assert(j >= 5 + uri.len()) by {
        if j < 4 {
        } else if j < 4 + uri.len() {
            assert(r1[4 + (j - 4)] == uri[j - 4]);
        }
    }
    let tk = r1.take(j);
    assert(split(s0, sp) =~= seq![t] + split(r1, sp));
    assert(split(r1, sp) =~= seq![tk] + split(after(r1, sp), sp));
    assert(split(s0, sp)[0] == t);
    assert(split(s0, sp)[1] == tk);
    assert(split(s0, sp).len() >= 2);
    lemma_target_user(tk, uri);
}

/// The headers that are read and the Content-Length line, one after the
/// other: what stands in the head of the wire text after the start line.
pub open spec fn read_headers_text(m: MessageView) -> Seq<char> {
    m.via + (m.to + (m.from + (m.call_id + (m.cseq + (m.max_forwards + length_line(m.body))))))
}

/// The field of a message that lines of a kind are read into; nothing for
/// the kinds that are dropped.
pub open spec fn field_of(m: MessageView, kind: LineKind) -> Seq<char> {
    match kind {
        LineKind::Via => m.via,
        LineKind::To => m.to,
        LineKind::From => m.from,
        LineKind::CallId => m.call_id,
        LineKind::CSeq => m.cseq,
        LineKind::MaxForwards => m.max_forwards,
        LineKind::ContentLength => Seq::empty(),
        LineKind::Other => Seq::empty(),
    }
}

/// The six headers that are read each hold a line of their own kind, or are
/// unset.
pub open spec fn holds_read_headers(m: MessageView) -> bool {
    &&& holds_line(m.via, LineKind::Via)
    &&& holds_line(m.to, LineKind::To)
    &&& holds_line(m.from, LineKind::From)
    &&& holds_line(m.call_id, LineKind::CallId)
    &&& holds_line(m.cseq, LineKind::CSeq)
    &&& holds_line(m.max_forwards, LineKind::MaxForwards)
}

/// The headers that are not read are unset.
pub open spec fn other_headers_unset(m: MessageView) -> bool {
    &&& m.event.len() == 0
    &&& m.accept.len() == 0
    &&& m.contact.len() == 0
    &&& m.content_type.len() == 0
}

/// Where each header that is read holds a line of its own kind, or is unset,
/// the headers are read back from their text as they are.
pub proof fn lemma_headers_read(m: MessageView, asked: LineKind)
    requires
        holds_read_headers(m),
        asked != LineKind::ContentLength,
    ensures
        last_of_kind(split(read_headers_text(m), "\r\n"@), asked) == field_of(m, asked),
{
    lemma_line_end();
    let t7 = length_line(m.body);
    let t6 = m.max_forwards + t7;
    let t5 = m.cseq + t6;
    let t4 = m.call_id + t5;
    let t3 = m.from + t4;
    let t2 = m.to + t3;
    lemma_end_of_headers(m.body, asked);
    lemma_field_then(m.max_forwards, LineKind::MaxForwards, t7, asked);
    lemma_field_then(m.cseq, LineKind::CSeq, t6, asked);
    lemma_field_then(m.call_id, LineKind::CallId, t5, asked);
    lemma_field_then(m.from, LineKind::From, t4, asked);
    lemma_field_then(m.to, LineKind::To, t3, asked);
    lemma_field_then(m.via, LineKind::Via, t2, asked);
    let got = last_of_kind(split(read_headers_text(m), "\r\n"@), asked);
    assert(got =~= field_of(m, asked));
}

/// A field that holds a line of a known kind, then a solid text that does
/// not begin with a line end: together they are solid and do not begin with
/// a line end.
proof fn lemma_field_then_solid(field: Seq<char>, kind: LineKind, rest: Seq<char>)
    requires
        holds_line(field, kind),
        kind != LineKind::Other,
        solid(rest),
        opens_clear(rest),
    ensures
        solid(field + rest),
        opens_clear(field + rest),
{
    if field.len() == 0 {
        assert(field + rest =~= rest);
    } else {
        lemma_line_end();
        lemma_line_parts(field);
        lemma_kind_by_name(before(field, "\r\n"@));
        lemma_line_then_solid(field, rest);
    }
}

/// Texts side by side can be taken together in either way.
proof fn lemma_concat_assoc(a: Seq<char>, b: Seq<char>, c: Seq<char>)
    ensures
        (a + b) + c == a + (b + c),
{
    assert((a + b) + c =~= a + (b + c));
}

/// The head of a message whose read headers hold lines, with the line end
/// after it, holds no empty line.
proof fn lemma_head_solid(m: MessageView, first: Seq<char>)
    requires
        holds_read_headers(m),
        unbroken(first),
        first.len() > 0,
    ensures
        solid(first + "\r\n"@ + read_headers_text(m) + "\r\n"@),
{
    lemma_line_end();
    let end = "\r\n"@;
    let x = length_line(m.body);
    lemma_length_line(m.body);
    lemma_plain_unbroken(x);
    lemma_line(x);
    lemma_line_breaks(x + end);
    let none = Seq::<char>::empty();
    lemma_solid(none);
    lemma_line_then_solid(x + end, none);
    let z7 = x + end;
    assert(z7 + none =~= z7);
    let z6 = m.max_forwards + z7;
    let z5 = m.cseq + z6;
    let z4 = m.call_id + z5;
    let z3 = m.from + z4;
    let z2 = m.to + z3;
    let z1 = m.via + z2;
    lemma_field_then_solid(m.max_forwards, LineKind::MaxForwards, z7);
    lemma_field_then_solid(m.cseq, LineKind::CSeq, z6);
    lemma_field_then_solid(m.call_id, LineKind::CallId, z5);
    lemma_field_then_solid(m.from, LineKind::From, z4);
    lemma_field_then_solid(m.to, LineKind::To, z3);
    lemma_field_then_solid(m.via, LineKind::Via, z2);
    lemma_line(first);
    lemma_line_then_solid(first + end, z1);
    let r6 = m.max_forwards + x;
    let r5 = m.cseq + r6;
    let r4 = m.call_id + r5;
    let r3 = m.from + r4;
    let r2 = m.to + r3;
    let r1 = m.via + r2;
    lemma_concat_assoc(m.max_forwards, x, end);
    lemma_concat_assoc(m.cseq, r6, end);
    lemma_concat_assoc(m.call_id, r5, end);
    lemma_concat_assoc(m.from, r4, end);
    lemma_concat_assoc(m.to, r3, end);
    lemma_concat_assoc(m.via, r2, end);
    lemma_concat_assoc(first + end, r1, end);
}

/// The wire text of a message that carries only headers that are read is
/// its start line, those headers with the Content-Length line, an empty
/// line, and the body.
proof fn lemma_wire_text_shape(m: MessageView)
    requires
        other_headers_unset(m),
    ensures
        wire_text(m) == start_line(m) + read_headers_text(m) + "\r\n"@ + "\r\n"@ + m.body,
{
    let none = Seq::<char>::empty();
    let s = start_line(m);
    let x = length_line(m.body);
    lemma_length_line(m.body);
    lemma_empty_line();
    assert(m.event =~= none);
    assert(m.accept =~= none);
    assert(m.contact =~= none);
    assert(m.content_type =~= none);
    let w = s + m.via + m.to + m.from + m.call_id + m.cseq + m.max_forwards;
    assert(w + none =~= w);
    assert(wire_text(m) == w + content_length_line(m.body) + m.body);
    assert(w + (x + "\r\n"@ + "\r\n"@) =~= w + x + "\r\n"@ + "\r\n"@);
    lemma_concat_assoc(s + m.via + m.to + m.from + m.call_id + m.cseq, m.max_forwards, x);
    lemma_concat_assoc(s + m.via + m.to + m.from + m.call_id, m.cseq, m.max_forwards + x);
    lemma_concat_assoc(s + m.via + m.to + m.from, m.call_id, m.cseq + (m.max_forwards + x));
    lemma_concat_assoc(s + m.via + m.to, m.from, m.call_id + (m.cseq + (m.max_forwards + x)));
    lemma_concat_assoc(
        s + m.via,
        m.to,
        m.from + (m.call_id + (m.cseq + (m.max_forwards + x))),
    );
    lemma_concat_assoc(
        s,
        m.via,
        m.to + (m.from + (m.call_id + (m.cseq + (m.max_forwards + x)))),
    );
}

/// The start line of a request is its request line and a line end.
proof fn lemma_start_of_request(m: MessageView)
    requires
        m.mtype is Request,
    ensures
        start_line(m) == request_line(m.mtype->Request_0, m.request_uri, m.domain) + "\r\n"@,
        request_line(m.mtype->Request_0, m.request_uri, m.domain).len() > 0,
{
    reveal_strlit(" SIP/2.0");
    reveal_strlit(" SIP/2.0\r\n");
    lemma_line_end();
    assert(" SIP/2.0\r\n"@ =~= " SIP/2.0"@ + "\r\n"@);
    assert(start_line(m) =~= request_line(m.mtype->Request_0, m.request_uri, m.domain) + "\r\n"@);
}

/// The lines of a text that begins with an unbroken line: that line, and the
/// lines of the text after its line end.
proof fn lemma_split_line(x: Seq<char>, rest: Seq<char>)
    requires
        unbroken(x),
    ensures
        split(x + "\r\n"@ + rest, "\r\n"@)[0] == x,
        split(x + "\r\n"@ + rest, "\r\n"@).drop_first() == split(rest, "\r\n"@),
{
    lemma_line_end();
    let end = "\r\n"@;
    lemma_line(x);
    lemma_split_found(x + end, rest, end);
    assert(after(x + end, end) + rest =~= rest);
    assert(split(x + end + rest, end).drop_first() =~= split(rest, end));
}

/// A message whose start line is read as its own type, and which carries
/// only headers that are read, each unset or one line of its own kind, is
/// read back from its wire text with its type, those headers and its body as
/// they were written, and with the target that its start line gives.
proof fn lemma_round_trip(m: MessageView, first: Seq<char>, target: Seq<char>)
    requires
        start_line(m) == first + "\r\n"@,
        unbroken(first),
        first.len() > 0,
        parsed_start(first) == Ok::<(MessageTypeView, Seq<char>), SipError>((m.mtype, target)),
        holds_read_headers(m),
        other_headers_unset(m),
    ensures
        parsed(wire_text(m)) == Ok::<MessageView, SipError>(
            MessageView { domain: Seq::empty(), request_uri: target, ..m },
        ),
{
    let end = "\r\n"@;
    let rest = read_headers_text(m);
    let head = first + end + rest;
    lemma_wire_text_shape(m);
    lemma_head_solid(m, first);
    lemma_cut_at_gap(head, m.body);
    lemma_split_line(first, rest);
    lemma_headers_read(m, LineKind::Via);
    lemma_headers_read(m, LineKind::To);
    lemma_headers_read(m, LineKind::From);
    lemma_headers_read(m, LineKind::CallId);
    lemma_headers_read(m, LineKind::CSeq);
    lemma_headers_read(m, LineKind::MaxForwards);
    let got = message_read(m.mtype, target, split(rest, end), m.body);
    assert(m.event =~= got.event);
    assert(m.accept =~= got.accept);
    assert(m.contact =~= got.contact);
    assert(m.content_type =~= got.content_type);
}

/// A request that carries only headers that are read is written out, and is
/// read back as it was written, its body included. The request has a target
/// that is not empty and holds no space, `@` or line end, and an unbroken
/// domain; each of its Via, To, From, Call-ID, CSeq and Max-Forwards headers
/// is unset or holds one line of its own kind; no other header is set. Only
/// the domain is not read back.
pub proof fn lemma_request_round_trip(m: MessageView)
    requires
        m.mtype is Request,
        m.request_uri.len() > 0,
        !found(m.request_uri, " "@),
        !found(m.request_uri, "@"@),
        unbroken(m.request_uri),
        unbroken(m.domain),
        holds_read_headers(m),
        other_headers_unset(m),
    ensures
        written(m) == Ok::<Seq<char>, SipError>(wire_text(m)),
        parsed(wire_text(m)) == Ok::<MessageView, SipError>(
            MessageView { domain: Seq::empty(), ..m },
        ),
{
    let method = m.mtype->Request_0;
    let first = request_line(method, m.request_uri, m.domain);
    lemma_request_line(method, m.request_uri, m.domain);
    lemma_start_of_request(m);
    lemma_round_trip(m, first, m.request_uri);
}

/// The message that the builders make of a new request: its target, and
/// its Via, To, From, Call-ID, CSeq and Max-Forwards headers, each from its
/// parts.
pub open spec fn built_request(
    method: RequestMethod,
    domain: Seq<char>,
    uri: Seq<char>,
    via: (Seq<char>, Seq<char>, Seq<char>),
    to: (Option<Seq<char>>, Seq<char>),
    from: (Option<Seq<char>>, Seq<char>),
    call_id: Seq<char>,
    number: Seq<char>,
    hops: Seq<char>,
) -> MessageView {
    MessageView {
        request_uri: uri,
        via: via_line(via.0, via.1, via.2),
        to: address_line("To"@, to.0, to.1, domain),
        from: address_line("From"@, from.0, from.1, domain),
        call_id: header_line("Call-ID"@, call_id),
        cseq: cseq_line(number, method),
        max_forwards: header_line("Max-Forwards"@, hops),
        ..fresh(MessageTypeView::Request(method), domain)
    }
}

/// A request that is built and written out is read back with the same
/// method, the same target, the same Via, To, From, Call-ID, CSeq and
/// Max-Forwards lines, character by character, and the same body. This holds where no part
/// that the lines are built from holds a line end, and the target is not
/// empty and holds neither a space nor an `@`. The domain is not read back.
pub proof fn lemma_built_request_round_trip(
    method: RequestMethod,
    domain: Seq<char>,
    uri: Seq<char>,
    via: (Seq<char>, Seq<char>, Seq<char>),
    to: (Option<Seq<char>>, Seq<char>),
    from: (Option<Seq<char>>, Seq<char>),
    call_id: Seq<char>,
    number: Seq<char>,
    hops: Seq<char>,
)
    requires
        unbroken(domain),
        uri.len() > 0,
        unbroken(uri),
        !found(uri, " "@),
        !found(uri, "@"@),
        unbroken(via.0),
        unbroken(via.1),
        unbroken(via.2),
        to.0 matches Some(shown) ==> unbroken(shown),
        unbroken(to.1),
        from.0 matches Some(shown) ==> unbroken(shown),
        unbroken(from.1),
        unbroken(call_id),
        unbroken(number),
        unbroken(hops),
    ensures
        ({
            let m = built_request(method, domain, uri, via, to, from, call_id, number, hops);
            written(m) matches Ok(text) && parsed(text) matches Ok(read) && read.mtype == m.mtype
                && read.request_uri == uri && read.via == m.via && read.to == m.to && read.from
                == m.from && read.call_id == m.call_id && read.cseq == m.cseq
                && read.max_forwards == m.max_forwards && read.body == m.body
        }),
{
    let m = built_request(method, domain, uri, via, to, from, call_id, number, hops);
    lemma_via_line(via.0, via.1, via.2);
    lemma_to_line(to.0, to.1, domain);
    lemma_from_line(from.0, from.1, domain);
    lemma_call_id_line(call_id);
    lemma_cseq_line(number, method);
    lemma_max_forwards_line(hops);
    lemma_request_round_trip(m);
}

/// The status line of a response, without its line end.
pub open spec fn status_line(status: Seq<char>) -> Seq<char> {
    "SIP/2.0 "@ + status
}

/// The status line of a code and a reason of one word each is unbroken, and
/// it is read as a response with that code and that reason.
pub proof fn lemma_status_line(code: Seq<char>, reason: Seq<char>)
    requires
        unbroken(code),
        unbroken(reason),
        !found(code, " "@),
        !found(reason, " "@),
    ensures
        unbroken(status_line(code + " "@ + reason)),
        parsed_start(status_line(code + " "@ + reason)) == Ok::<
            (MessageTypeView, Seq<char>),
            SipError,
        >((MessageTypeView::Response(code + " "@ + reason), Seq::empty())),
{
    reveal_strlit("SIP/2.0 ");
    reveal_strlit("SIP");
    reveal_strlit(" ");
    let sp = " "@;
    assert(sp =~= seq![' ']);
    let a0 = "SIP/2.0 "@;
    let s0 = status_line(code + sp + reason);
    lemma_plain_unbroken(a0);
    lemma_glued(a0, code, sp);
    lemma_join_unbroken(a0 + code + sp, reason);
    assert(s0 =~= a0 + code + sp + reason);
    lemma_first_char(s0, ' ', 7);
    let t0 = s0.take(7);
    let r1 = s0.skip(8);
    assert(r1 =~= code + sp + reason);
    lemma_starts_with(t0, "SIP"@);
    lemma_no_char(code, ' ');
    lemma_first_char(r1, ' ', code.len() as int);
    assert(r1.take(code.len() as int) =~= code);
    assert(r1.skip(code.len() as int + 1) =~= reason);
    assert(split(s0, sp) =~= seq![t0] + split(r1, sp));
    assert(split(r1, sp) =~= seq![code] + split(reason, sp));
    assert(split(reason, sp) =~= seq![reason]);
    assert(split(s0, sp) =~= seq![t0, code, reason]);
}

/// The start line of a response is its status line and a line end.
proof fn lemma_start_of_response(m: MessageView)
    requires
        m.mtype is Response,
    ensures
        start_line(m) == status_line(m.mtype->Response_0) + "\r\n"@,
        status_line(m.mtype->Response_0).len() > 0,
{
    reveal_strlit("SIP/2.0 ");
    assert(start_line(m) =~= status_line(m.mtype->Response_0) + "\r\n"@);
}

/// The first line of the head of a text that begins with an unbroken line
/// is that line, whatever follows its line end.
proof fn lemma_first_line(x: Seq<char>, rest: Seq<char>)
    requires
        unbroken(x),
    ensures
        split(head_of(x + "\r\n"@ + rest), "\r\n"@)[0] == x,
{
    lemma_line_end();
    lemma_empty_line();
    let end = "\r\n"@;
    let gap = "\r\n\r\n"@;
    let t = x + end + rest;
    let n = x.len() as int;
    if found(t, gap) {
        let p = first_index(t, gap);
        lemma_first_index_from(t, gap, 0);
        lemma_gaps(t);
        assert(gap_at(t, p));
        lemma_unbroken(x);
        assert(forall|j: int| 0 <= j < n ==> t[j] == x[j]);
        assert(t[n] == '\r' && t[n + 1] == '\n');
        assert(p >= n) by {
            if p < n {
                if p + 1 < n {
                    assert(breaks_at(x, p));
                }
            }
        }
        assert(p != n + 1);
        if p == n {
            assert(t.take(p) =~= x);
            assert(split(x, end) =~= seq![x]);
        } else {
            let more = rest.take(p - n - 2);
            assert(t.take(p) =~= x + end + more);
            lemma_split_line(x, more);
        }
    } else {
        lemma_split_line(x, rest);
    }
}

/// A response whose status is a code and a reason of one word each is
/// written out, and is read back as a response with the same status, whatever
/// else the message carries. A response has no target, and none is read.
pub proof fn lemma_response_round_trip(m: MessageView, code: Seq<char>, reason: Seq<char>)
    requires
        m.mtype == MessageTypeView::Response(code + " "@ + reason),
        unbroken(code),
        unbroken(reason),
        !found(code, " "@),
        !found(reason, " "@),
    ensures
        written(m) matches Ok(text) && parsed(text) matches Ok(read) && read.mtype == m.mtype
            && read.request_uri == Seq::<char>::empty(),
{
    let end = "\r\n"@;
    let first = status_line(code + " "@ + reason);
    lemma_status_line(code, reason);
    lemma_start_of_response(m);
    let text = wire_text(m);
    let rest = text.skip(first.len() as int + 2);
    lemma_line_end();
    assert(text =~= first + end + rest);
    lemma_first_line(first, rest);
}

/// A response that carries only headers that are read is written out, and is
/// read back as it was written, its body included. The status is a code and
/// a reason of one word each; each of the Via, To, From, Call-ID, CSeq and
/// Max-Forwards headers is unset or holds one line of its own kind; no other
/// header is set. The domain is not read back, and a response has no target.
pub proof fn lemma_plain_response_round_trip(m: MessageView, code: Seq<char>, reason: Seq<char>)
    requires
        m.mtype == MessageTypeView::Response(code + " "@ + reason),
        unbroken(code),
        unbroken(reason),
        !found(code, " "@),
        !found(reason, " "@),
        holds_read_headers(m),
        other_headers_unset(m),
    ensures
        written(m) == Ok::<Seq<char>, SipError>(wire_text(m)),
        parsed(wire_text(m)) == Ok::<MessageView, SipError>(
            MessageView { domain: Seq::empty(), request_uri: Seq::empty(), ..m },
        ),
{
    let first = status_line(code + " "@ + reason);
    lemma_status_line(code, reason);
    lemma_start_of_response(m);
    lemma_round_trip(m, first, Seq::empty());
}

/// The body of a message that carries only headers that are read is read
/// back as it was written, whatever it holds: the text is cut at the empty
/// line that ends the headers, and not at one in the body.
pub proof fn lemma_body_read_back(m: MessageView, first: Seq<char>)
    requires
        start_line(m) == first + "\r\n"@,
        unbroken(first),
        first.len() > 0,
        holds_read_headers(m),
        other_headers_unset(m),
    ensures
        body_of(wire_text(m)) == m.body,
        head_of(wire_text(m)) == first + "\r\n"@ + read_headers_text(m),
{
    lemma_wire_text_shape(m);
    lemma_head_solid(m, first);
    lemma_cut_at_gap(first + "\r\n"@ + read_headers_text(m), m.body);
}

/// The user that `to` and `from` put into the address of their line is the
/// one that `get_to` and `get_from` read out of it, with a display name and
/// without one. This holds where the header's name and the display name hold
/// no colon and the user holds no `@`.
pub proof fn lemma_user_part_of_address_line(
    name: Seq<char>,
    display_name: Option<Seq<char>>,
    ext: Seq<char>,
    domain: Seq<char>,
)
    requires
        !found(name, ":"@),
        display_name matches Some(shown) ==> !found(shown, ":"@),
        !found(ext, "@"@),
    ensures
        user_part(address_line(name, display_name, ext, domain)) == ext,
{
    reveal_strlit(":");
    reveal_strlit("@");
    reveal_strlit(": sip:");
    reveal_strlit(": ");
    reveal_strlit(" <sip:");
    reveal_strlit(" ");
    assert(":"@ =~= seq![':']);
    assert("@"@ =~= seq!['@']);
    let line = address_line(name, display_name, ext, domain);
    let n = name.len() as int;
    lemma_no_char(name, ':');
    lemma_no_char(ext, '@');
    match display_name {
        None => {
            let tail = "@"@ + domain + "\r\n"@;
            assert(line =~= name + ": sip:"@ + (ext + tail));
            lemma_first_char(line, ':', n);
            let r = line.skip(n + 1);
            lemma_first_char(r, ':', 4);
            let u = r.skip(5);
            assert(u =~= ext + tail);
            lemma_first_char(u, '@', ext.len() as int);
            assert(u.take(ext.len() as int) =~= ext);
        },
        Some(shown) => {
            let tail = "@"@ + domain + ">\r\n"@;
            let d = shown.len() as int;
            assert(line =~= name + ": "@ + shown + " <sip:"@ + (ext + tail));
            lemma_no_char(shown, ':');
            lemma_first_char(line, ':', n);
            let r = line.skip(n + 1);
            assert(r =~= " "@ + shown + " <sip:"@ + (ext + tail));
            assert(forall|i: int| 0 <= i < d ==> r[1 + i] == shown[i]);
            assert forall|j: int| 0 <= j < d + 6 implies r[j] != ':' by {
                if 1 <= j < d + 1 {
                    assert(r[1 + (j - 1)] == shown[j - 1]);
                }
            }
            lemma_first_char(r, ':', d + 6);
            let u = r.skip(d + 7);
            assert(u =~= ext + tail);
            lemma_first_char(u, '@', ext.len() as int);
            assert(u.take(ext.len() as int) =~= ext);
        },
    }
}

/// A response carries no request target: it is written out, and its wire
/// text is the same whatever the target field holds.
pub proof fn lemma_response_carries_no_target(m: MessageView, target: Seq<char>)
    requires
        m.mtype is Response,
    ensures
        written(m) == Ok::<Seq<char>, SipError>(wire_text(m)),
        written(MessageView { request_uri: target, ..m }) == written(m),
{
}

/// A response that is read has no request target.
pub proof fn lemma_response_read_without_target(text: Seq<char>)
    ensures
        parsed(text) matches Ok(read) ==> (read.mtype is Response ==> read.request_uri
            == Seq::<char>::empty()),
{
}

/// A request is written out exactly when it has a request target, and the
/// text that is written begins with the method's token and the target.
pub proof fn lemma_request_written(m: MessageView)
    requires
        m.mtype is Request,
    ensures
        written(m) is Ok <==> m.request_uri.len() > 0,
        written(m) matches Ok(text) ==> starts_with(
            text,
            m.mtype->Request_0.token() + " sip:"@ + m.request_uri,
        ),
{
    if m.request_uri.len() > 0 {
        let head = m.mtype->Request_0.token() + " sip:"@ + m.request_uri;
        let text = wire_text(m);
        assert(text.subrange(0, head.len() as int) =~= head);
    }
}

} // verus!
