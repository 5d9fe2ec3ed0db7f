//! Texts without a line end, and the lines that the builders write.
use crate::message::{address_line, cseq_line, header_line, via_line};
use crate::method::{lemma_tokens_revealed, RequestMethod};
use crate::decimal::{decimal, digit};
use crate::text::{
    after, before, first_index, found, lemma_first_index_from, lemma_first_index_is,
    lemma_not_found, lemma_occurs_two, occurs_at, starts_with,
};
use crate::wire::{line_kind, LineKind};
use vstd::prelude::*;

verus! {

/// No line end stands in `s`.
pub open spec fn unbroken(s: Seq<char>) -> bool {
    !found(s, "\r\n"@)
}

/// Neither half of a line end stands in `s`.
pub open spec fn plain(s: Seq<char>) -> bool {
    forall|i: int| 0 <= i < s.len() ==> s[i] != '\r' && s[i] != '\n'
}

/// The text does not end with the first half of a line end.
pub open spec fn ends_clear(s: Seq<char>) -> bool {
    s.len() == 0 || s.last() != '\r'
}

/// A line end stands in `s` at `i`.
pub open spec fn breaks_at(s: Seq<char>, i: int) -> bool {
    0 <= i && i + 1 < s.len() && s[i] == '\r' && s[i + 1] == '\n'
}

/// The text is one line: its first line end is its end.
pub open spec fn is_line(s: Seq<char>) -> bool {
    found(s, "\r\n"@) && first_index(s, "\r\n"@) + 2 == s.len()
}

/// The field is unset, or it is one line and that line is of the given kind.
pub open spec fn holds_line(field: Seq<char>, kind: LineKind) -> bool {
    field.len() == 0 || (is_line(field) && line_kind(before(field, "\r\n"@)) == kind)
}

/// A line end is a carriage return and a line feed.
pub proof fn lemma_line_end()
    ensures
        "\r\n"@ == seq!['\r', '\n'],
        "\r\n"@.len() == 2,
{
    reveal_strlit("\r\n");
    assert("\r\n"@ =~= seq!['\r', '\n']);
}

/// A line end stands where its two characters stand side by side.
pub proof fn lemma_breaks(s: Seq<char>)
    ensures
        forall|i: int| occurs_at(s, "\r\n"@, i) <==> #[trigger] breaks_at(s, i),
{
    lemma_line_end();
    assert forall|i: int| occurs_at(s, "\r\n"@, i) <==> #[trigger] breaks_at(s, i) by {
        lemma_occurs_two(s, '\r', '\n', i);
    }
}

/// A text is unbroken exactly when a line end stands nowhere in it.
pub proof fn lemma_unbroken(s: Seq<char>)
    ensures
        unbroken(s) <==> forall|i: int| !breaks_at(s, i),
{
    lemma_line_end();
    lemma_breaks(s);
    if unbroken(s) {
        lemma_not_found(s, "\r\n"@);
        assert forall|i: int| !breaks_at(s, i) by {
            assert(!occurs_at(s, "\r\n"@, i));
        }
    } else {
        assert(breaks_at(s, first_index(s, "\r\n"@)));
    }
}

/// A plain text is unbroken.
pub proof fn lemma_plain_unbroken(s: Seq<char>)
    requires
        plain(s),
    ensures
        unbroken(s),
        ends_clear(s),
{
    lemma_unbroken(s);
}

/// Two unbroken texts stay unbroken side by side, unless the first ends
/// with a carriage return and the second begins with a line feed.
pub proof fn lemma_join_unbroken(a: Seq<char>, b: Seq<char>)
    requires
        unbroken(a),
        unbroken(b),
        a.len() == 0 || b.len() == 0 || a.last() != '\r' || b[0] != '\n',
    ensures
        unbroken(a + b),
{
    lemma_unbroken(a);
    lemma_unbroken(b);
    lemma_unbroken(a + b);
    assert forall|i: int| !breaks_at(a + b, i) by {
        if breaks_at(a + b, i) {
            if i + 1 < a.len() {
                assert(breaks_at(a, i));
            } else if i >= a.len() {
                assert(breaks_at(b, i - a.len()));
            }
        }
    }
}

/// An unbroken text that does not end with a carriage return, then an
/// unbroken text, then a plain text that is not empty: together they are
/// unbroken and do not end with a carriage return.
pub proof fn lemma_glued(acc: Seq<char>, part: Seq<char>, lit: Seq<char>)
    requires
        unbroken(acc),
        ends_clear(acc),
        unbroken(part),
        plain(lit),
        lit.len() > 0,
    ensures
        unbroken(acc + part + lit),
        ends_clear(acc + part + lit),
{
    lemma_join_unbroken(acc, part);
    lemma_plain_unbroken(lit);
    lemma_join_unbroken(acc + part, lit);
    assert((acc + part + lit).last() == lit.last());
}

/// An unbroken text, then a plain text that is not empty: together they are
/// unbroken and do not end with a carriage return.
pub proof fn lemma_then_plain(acc: Seq<char>, lit: Seq<char>)
    requires
        unbroken(acc),
        plain(lit),
        lit.len() > 0,
    ensures
        unbroken(acc + lit),
        ends_clear(acc + lit),
{
    lemma_plain_unbroken(lit);
    lemma_join_unbroken(acc, lit);
    assert((acc + lit).last() == lit.last());
}

/// An unbroken text with a line end after it is one line, and the line is
/// that text.
pub proof fn lemma_line(x: Seq<char>)
    requires
        unbroken(x),
    ensures
        is_line(x + "\r\n"@),
        before(x + "\r\n"@, "\r\n"@) == x,
        after(x + "\r\n"@, "\r\n"@) == Seq::<char>::empty(),
{
    lemma_line_end();
    let l = x + "\r\n"@;
    lemma_unbroken(x);
    lemma_breaks(l);
    assert(breaks_at(l, x.len() as int));
    assert forall|j: int| 0 <= j < x.len() implies !occurs_at(l, "\r\n"@, j) by {
        if breaks_at(l, j) {
            if j + 1 < x.len() {
                assert(breaks_at(x, j));
            }
        }
    }
    lemma_first_index_is(l, "\r\n"@, 0, x.len() as int);
    assert(l.take(x.len() as int) =~= x);
    assert(l.skip(x.len() as int + 2) =~= Seq::<char>::empty());
}

/// One line is what precedes its line end, and the line end.
pub proof fn lemma_line_parts(l: Seq<char>)
    requires
        is_line(l),
    ensures
        l == before(l, "\r\n"@) + "\r\n"@,
        after(l, "\r\n"@) == Seq::<char>::empty(),
{
    lemma_line_end();
    let i = first_index(l, "\r\n"@);
    assert(l.subrange(i, i + 2) == "\r\n"@);
    assert(l =~= l.take(i) + l.subrange(i, i + 2));
    assert(l.skip(i + 2) =~= Seq::<char>::empty());
}

/// An empty line stands in `s` at `i`: two line ends side by side.
pub open spec fn gap_at(s: Seq<char>, i: int) -> bool {
    breaks_at(s, i) && breaks_at(s, i + 2)
}

/// No empty line stands in `s`.
pub open spec fn solid(s: Seq<char>) -> bool {
    !found(s, "\r\n\r\n"@)
}

/// The text does not begin with a line end.
pub open spec fn opens_clear(s: Seq<char>) -> bool {
    !breaks_at(s, 0)
}

/// An empty line is two line ends.
pub proof fn lemma_empty_line()
    ensures
        "\r\n\r\n"@ == seq!['\r', '\n', '\r', '\n'],
        "\r\n\r\n"@ == "\r\n"@ + "\r\n"@,
        "\r\n\r\n"@.len() == 4,
{
    reveal_strlit("\r\n\r\n");
    lemma_line_end();
    assert("\r\n\r\n"@ =~= seq!['\r', '\n', '\r', '\n']);
    assert("\r\n\r\n"@ =~= "\r\n"@ + "\r\n"@);
}

/// An empty line stands where two line ends stand side by side.
pub proof fn lemma_gaps(s: Seq<char>)
    ensures
        forall|i: int| occurs_at(s, "\r\n\r\n"@, i) <==> #[trigger] gap_at(s, i),
{
    lemma_empty_line();
    assert forall|i: int| occurs_at(s, "\r\n\r\n"@, i) <==> #[trigger] gap_at(s, i) by {
        if 0 <= i && i + 4 <= s.len() {
            let part = s.subrange(i, i + 4);
            if gap_at(s, i) {
                assert(part =~= seq!['\r', '\n', '\r', '\n']);
            } else {
                assert(part[0] == s[i] && part[1] == s[i + 1] && part[2] == s[i + 2] && part[3]
                    == s[i + 3]);
            }
        }
    }
}

/// A text is solid exactly when an empty line stands nowhere in it.
pub proof fn lemma_solid(s: Seq<char>)
    ensures
        solid(s) <==> forall|i: int| !gap_at(s, i),
{
    lemma_empty_line();
    lemma_gaps(s);
    if solid(s) {
        lemma_not_found(s, "\r\n\r\n"@);
        assert forall|i: int| !gap_at(s, i) by {
            assert(!occurs_at(s, "\r\n\r\n"@, i));
        }
    } else {
        assert(gap_at(s, first_index(s, "\r\n\r\n"@)));
    }
}

/// The one line end of a line is at its end.
pub proof fn lemma_line_breaks(l: Seq<char>)
    requires
        is_line(l),
    ensures
        l.len() >= 2,
        breaks_at(l, l.len() - 2),
        forall|j: int| breaks_at(l, j) ==> j == l.len() - 2,
{
    lemma_line_end();
    lemma_breaks(l);
    lemma_first_index_from(l, "\r\n"@, 0);
    assert(breaks_at(l, first_index(l, "\r\n"@)));
    assert forall|j: int| breaks_at(l, j) implies j == l.len() - 2 by {
        if j < l.len() - 2 {
            assert(!occurs_at(l, "\r\n"@, j));
        }
    }
}

/// A line that is not empty, then a solid text that does not begin with a
/// line end: together they are solid and do not begin with a line end.
pub proof fn lemma_line_then_solid(l: Seq<char>, rest: Seq<char>)
    requires
        is_line(l),
        l.len() > 2,
        solid(rest),
        opens_clear(rest),
    ensures
        solid(l + rest),
        opens_clear(l + rest),
{
    let t = l + rest;
    let n = l.len() as int;
    lemma_line_breaks(l);
    lemma_solid(rest);
    lemma_solid(t);
    assert(forall|j: int| 0 <= j < n ==> t[j] == l[j]);
    assert(forall|j: int| 0 <= j < rest.len() ==> t[n + j] == rest[j]);
    assert forall|i: int| !gap_at(t, i) by {
        if gap_at(t, i) {
            if i >= n {
                assert(t[n + (i - n)] == rest[i - n]);
                assert(t[n + (i - n + 1)] == rest[i - n + 1]);
                assert(t[n + (i - n + 2)] == rest[i - n + 2]);
                assert(t[n + (i - n + 3)] == rest[i - n + 3]);
                assert(gap_at(rest, i - n));
            } else if i + 1 < n {
                assert(breaks_at(l, i));
                assert(i + 2 == n);
                assert(t[n + 0] == rest[0]);
                assert(t[n + 1] == rest[1]);
                assert(breaks_at(rest, 0));
            } else {
                assert(t[i] == l[n - 1]);
            }
        }
    }
    if breaks_at(t, 0) {
        assert(breaks_at(l, 0));
    }
}

/// A solid text that ends with a line end, then another line end and a body:
/// the first empty line is the one before the body, so that the text is cut
/// there.
pub proof fn lemma_cut_at_gap(head: Seq<char>, body: Seq<char>)
    requires
        solid(head + "\r\n"@),
    ensures
        found(head + "\r\n"@ + "\r\n"@ + body, "\r\n\r\n"@),
        before(head + "\r\n"@ + "\r\n"@ + body, "\r\n\r\n"@) == head,
        after(head + "\r\n"@ + "\r\n"@ + body, "\r\n\r\n"@) == body,
{
    lemma_empty_line();
    lemma_line_end();
    let t = head + "\r\n"@ + "\r\n"@ + body;
    let c = head + "\r\n"@;
    let n = head.len() as int;
    lemma_gaps(t);
    lemma_solid(c);
    assert(forall|j: int| 0 <= j < n + 2 ==> t[j] == c[j]);
    assert(t[n + 2] == '\r' && t[n + 3] == '\n');
    assert(gap_at(t, n));
    assert forall|j: int| 0 <= j < n implies !occurs_at(t, "\r\n\r\n"@, j) by {
        if gap_at(t, j) {
            if j + 3 < n + 2 {
                assert(gap_at(c, j));
            } else {
                assert(t[j + 2] == c[n + 1]);
            }
        }
    }
    lemma_first_index_is(t, "\r\n\r\n"@, 0, n);
    assert(t.take(n) =~= head);
    assert(t.skip(n + 4) =~= body);
}

/// A decimal numeral is plain and not empty.
pub proof fn lemma_decimal_plain(n: nat)
    ensures
        plain(decimal(n)),
        decimal(n).len() > 0,
    decreases n,
{
    if n >= 10 {
        lemma_decimal_plain(n / 10);
        let d = digit(n % 10);
        assert(d != '\r' && d != '\n');
    }
}

/// A text begins with `pat` where its first characters are those of `pat`.
pub proof fn lemma_starts_with(s: Seq<char>, pat: Seq<char>)
    ensures
        starts_with(s, pat) <==> (pat.len() <= s.len() && forall|i: int|
            0 <= i < pat.len() ==> s[i] == pat[i]),
{
    if pat.len() <= s.len() {
        if starts_with(s, pat) {
            assert forall|i: int| 0 <= i < pat.len() implies s[i] == pat[i] by {
                assert(s.subrange(0, pat.len() as int)[i] == s[i]);
            }
        }
        if forall|i: int| 0 <= i < pat.len() ==> s[i] == pat[i] {
            assert(s.subrange(0, pat.len() as int) =~= pat);
        }
    }
}

/// Makes known what the header names are that tell the lines apart.
pub proof fn lemma_names_revealed()
    ensures
        "Via:"@ =~= seq!['V', 'i', 'a', ':'],
        "To:"@ =~= seq!['T', 'o', ':'],
        "From:"@ =~= seq!['F', 'r', 'o', 'm', ':'],
        "Call-ID:"@ =~= seq!['C', 'a', 'l', 'l', '-', 'I', 'D', ':'],
        "CSeq:"@ =~= seq!['C', 'S', 'e', 'q', ':'],
        "Max-Forwards:"@ =~= seq!['M', 'a', 'x', '-', 'F', 'o', 'r', 'w', 'a', 'r', 'd', 's', ':'],
        "Content-Length:"@ =~= seq![
            'C',
            'o',
            'n',
            't',
            'e',
            'n',
            't',
            '-',
            'L',
            'e',
            'n',
            'g',
            't',
            'h',
            ':',
        ],
{
    reveal_strlit("Via:");
    reveal_strlit("To:");
    reveal_strlit("From:");
    reveal_strlit("Call-ID:");
    reveal_strlit("CSeq:");
    reveal_strlit("Max-Forwards:");
    reveal_strlit("Content-Length:");
}

/// A line is of the kind of the header name that it begins with: no line
/// begins with two of the names. A line that is empty is a line of the body.
pub proof fn lemma_kind_by_name(line: Seq<char>)
    ensures
        starts_with(line, "Via:"@) ==> line_kind(line) == LineKind::Via,
        starts_with(line, "To:"@) ==> line_kind(line) == LineKind::To,
        starts_with(line, "From:"@) ==> line_kind(line) == LineKind::From,
        starts_with(line, "Call-ID:"@) ==> line_kind(line) == LineKind::CallId,
        starts_with(line, "CSeq:"@) ==> line_kind(line) == LineKind::CSeq,
        starts_with(line, "Max-Forwards:"@) ==> line_kind(line) == LineKind::MaxForwards,
        starts_with(line, "Content-Length:"@) ==> line_kind(line) == LineKind::ContentLength,
        line.len() == 0 ==> line_kind(line) == LineKind::Other,
{
    lemma_names_revealed();
    lemma_starts_with(line, "Via:"@);
    lemma_starts_with(line, "To:"@);
    lemma_starts_with(line, "From:"@);
    lemma_starts_with(line, "Call-ID:"@);
    lemma_starts_with(line, "CSeq:"@);
    lemma_starts_with(line, "Max-Forwards:"@);
    lemma_starts_with(line, "Content-Length:"@);
    if line.len() >= 2 {
        assert("Via:"@[0] == 'V' && "To:"@[0] == 'T' && "From:"@[0] == 'F' && "Max-Forwards:"@[0]
            == 'M');
        assert("Call-ID:"@[0] == 'C' && "CSeq:"@[0] == 'C' && "Content-Length:"@[0] == 'C');
        assert("Call-ID:"@[1] == 'a' && "CSeq:"@[1] == 'S' && "Content-Length:"@[1] == 'o');
    }
}

/// An unbroken text of a given kind, with a line end after it, is a field
/// that holds a line of that kind.
pub proof fn lemma_holds_line(x: Seq<char>, kind: LineKind)
    requires
        unbroken(x),
        line_kind(x) == kind,
    ensures
        holds_line(x + "\r\n"@, kind),
        before(x + "\r\n"@, "\r\n"@) == x,
{
    lemma_line(x);
}

/// No token of a method holds a space or a half of a line end, and none
/// begins as the version of the protocol does.
pub proof fn lemma_token_plain(method: RequestMethod)
    ensures
        plain(method.token()),
        method.token().len() >= 3,
        forall|i: int| 0 <= i < method.token().len() ==> method.token()[i] != ' ',
        !starts_with(method.token(), "SIP"@),
{
    lemma_tokens_revealed();
    reveal_strlit("SIP");
    lemma_starts_with(method.token(), "SIP"@);
    assert("SIP"@[0] == 'S' && "SIP"@[1] == 'I');
}

/// Makes known that the texts between the parts of a header line are plain.
pub proof fn lemma_plain_literals()
    ensures
        plain("Via: SIP/2.0/"@) && "Via: SIP/2.0/"@.len() == 13,
        plain(" "@) && " "@.len() == 1,
        plain(":"@) && ":"@.len() == 1,
        plain("@"@) && "@"@.len() == 1,
        plain(">"@) && ">"@.len() == 1,
        plain(";branch=z9hG4bK"@) && ";branch=z9hG4bK"@.len() == 15,
        plain(": sip:"@) && ": sip:"@.len() == 6,
        plain(": "@) && ": "@.len() == 2,
        plain(" <sip:"@) && " <sip:"@.len() == 6,
        plain("CSeq: "@) && "CSeq: "@.len() == 6,
        plain("To"@) && "To"@.len() == 2,
        plain("From"@) && "From"@.len() == 4,
        plain("Call-ID"@) && "Call-ID"@.len() == 7,
        plain("Max-Forwards"@) && "Max-Forwards"@.len() == 12,
        ";branch=z9hG4bK\r\n"@ == ";branch=z9hG4bK"@ + "\r\n"@,
        ">\r\n"@ == ">"@ + "\r\n"@,
{
    reveal_strlit("Via: SIP/2.0/");
    reveal_strlit(" ");
    reveal_strlit(":");
    reveal_strlit("@");
    reveal_strlit(">");
    reveal_strlit(";branch=z9hG4bK");
    reveal_strlit(": sip:");
    reveal_strlit(": ");
    reveal_strlit(" <sip:");
    reveal_strlit("CSeq: ");
    reveal_strlit("To");
    reveal_strlit("From");
    reveal_strlit("Call-ID");
    reveal_strlit("Max-Forwards");
    reveal_strlit(";branch=z9hG4bK\r\n");
    reveal_strlit(">\r\n");
    lemma_line_end();
    assert(";branch=z9hG4bK\r\n"@ =~= ";branch=z9hG4bK"@ + "\r\n"@);
    assert(">\r\n"@ =~= ">"@ + "\r\n"@);
}

/// The Via line of unbroken parts is one line, and is read as a Via line.
pub proof fn lemma_via_line(proto: Seq<char>, host: Seq<char>, port: Seq<char>)
    requires
        unbroken(proto),
        unbroken(host),
        unbroken(port),
    ensures
        via_line(proto, host, port).len() > 0,
        holds_line(via_line(proto, host, port), LineKind::Via),
{
    lemma_plain_literals();
    lemma_names_revealed();
    reveal_strlit("Via: SIP/2.0/");
    let a0 = "Via: SIP/2.0/"@;
    let a1 = a0 + proto + " "@;
    let a2 = a1 + host + ":"@;
    let x = a2 + port + ";branch=z9hG4bK"@;
    lemma_plain_unbroken(a0);
    lemma_glued(a0, proto, " "@);
    lemma_glued(a1, host, ":"@);
    lemma_glued(a2, port, ";branch=z9hG4bK"@);
    assert(via_line(proto, host, port) =~= x + "\r\n"@);
    lemma_starts_with(x, "Via:"@);
    assert(forall|i: int| 0 <= i < 4 ==> x[i] == a0[i]);
    lemma_kind_by_name(x);
    lemma_holds_line(x, LineKind::Via);
}

/// The line of a header that names a party, without its line end: it is
/// unbroken where its parts are, and begins with the header's name and a
/// colon.
proof fn lemma_address_body(
    name: Seq<char>,
    display_name: Option<Seq<char>>,
    ext: Seq<char>,
    domain: Seq<char>,
) -> (x: Seq<char>)
    requires
        plain(name),
        name.len() > 0,
        display_name matches Some(shown) ==> unbroken(shown),
        unbroken(ext),
        unbroken(domain),
    ensures
        address_line(name, display_name, ext, domain) == x + "\r\n"@,
        unbroken(x),
        x.len() > name.len(),
        forall|i: int| 0 <= i < name.len() ==> x[i] == name[i],
        x[name.len() as int] == ':',
{
    lemma_plain_literals();
    reveal_strlit(": sip:");
    reveal_strlit(": ");
    lemma_plain_unbroken(name);
    match display_name {
        None => {
            let a0 = name + ": sip:"@;
            let a1 = a0 + ext + "@"@;
            let x = a1 + domain;
            lemma_then_plain(name, ": sip:"@);
            lemma_glued(a0, ext, "@"@);
            lemma_join_unbroken(a1, domain);
            assert(address_line(name, display_name, ext, domain) =~= x + "\r\n"@);
            assert(forall|i: int| 0 <= i < name.len() ==> x[i] == name[i]);
            assert(x[name.len() as int] == ": sip:"@[0]);
            x
        },
        Some(shown) => {
            let a0 = name + ": "@;
            let a1 = a0 + shown + " <sip:"@;
            let a2 = a1 + ext + "@"@;
            let x = a2 + domain + ">"@;
            lemma_then_plain(name, ": "@);
            lemma_glued(a0, shown, " <sip:"@);
            lemma_glued(a1, ext, "@"@);
            lemma_glued(a2, domain, ">"@);
            assert(address_line(name, display_name, ext, domain) =~= x + "\r\n"@);
            assert(forall|i: int| 0 <= i < name.len() ==> x[i] == name[i]);
            assert(x[name.len() as int] == ": "@[0]);
            x
        },
    }
}

/// The To line of unbroken parts is one line, and is read as a To line.
pub proof fn lemma_to_line(display_name: Option<Seq<char>>, ext: Seq<char>, domain: Seq<char>)
    requires
        display_name matches Some(shown) ==> unbroken(shown),
        unbroken(ext),
        unbroken(domain),
    ensures
        address_line("To"@, display_name, ext, domain).len() > 0,
        holds_line(address_line("To"@, display_name, ext, domain), LineKind::To),
{
    lemma_plain_literals();
    lemma_names_revealed();
    reveal_strlit("To");
    let x = lemma_address_body("To"@, display_name, ext, domain);
    lemma_starts_with(x, "To:"@);
    lemma_kind_by_name(x);
    lemma_holds_line(x, LineKind::To);
}

/// The From line of unbroken parts is one line, and is read as a From line.
pub proof fn lemma_from_line(display_name: Option<Seq<char>>, ext: Seq<char>, domain: Seq<char>)
    requires
        display_name matches Some(shown) ==> unbroken(shown),
        unbroken(ext),
        unbroken(domain),
    ensures
        address_line("From"@, display_name, ext, domain).len() > 0,
        holds_line(address_line("From"@, display_name, ext, domain), LineKind::From),
{
    lemma_plain_literals();
    lemma_names_revealed();
    reveal_strlit("From");
    let x = lemma_address_body("From"@, display_name, ext, domain);
    lemma_starts_with(x, "From:"@);
    lemma_kind_by_name(x);
    lemma_holds_line(x, LineKind::From);
}

/// The line of a header of a plain name and an unbroken value, without its
/// line end: it is unbroken and begins with the name and a colon.
proof fn lemma_header_body(name: Seq<char>, value: Seq<char>) -> (x: Seq<char>)
    requires
        plain(name),
        name.len() > 0,
        unbroken(value),
    ensures
        header_line(name, value) == x + "\r\n"@,
        unbroken(x),
        x.len() > name.len(),
        forall|i: int| 0 <= i < name.len() ==> x[i] == name[i],
        x[name.len() as int] == ':',
{
    lemma_plain_literals();
    reveal_strlit(": ");
    lemma_plain_unbroken(name);
    let a0 = name + ": "@;
    let x = a0 + value;
    lemma_then_plain(name, ": "@);
    lemma_join_unbroken(a0, value);
    assert(header_line(name, value) =~= x + "\r\n"@);
    assert(forall|i: int| 0 <= i < name.len() ==> x[i] == name[i]);
    assert(x[name.len() as int] == ": "@[0]);
    x
}

/// The Call-ID line of an unbroken value is one line, and is read as a
/// Call-ID line.
pub proof fn lemma_call_id_line(value: Seq<char>)
    requires
        unbroken(value),
    ensures
        header_line("Call-ID"@, value).len() > 0,
        holds_line(header_line("Call-ID"@, value), LineKind::CallId),
{
    lemma_plain_literals();
    lemma_names_revealed();
    reveal_strlit("Call-ID");
    let x = lemma_header_body("Call-ID"@, value);
    lemma_starts_with(x, "Call-ID:"@);
    lemma_kind_by_name(x);
    lemma_holds_line(x, LineKind::CallId);
}

/// The Max-Forwards line of an unbroken value is one line, and is read as a
/// Max-Forwards line.
pub proof fn lemma_max_forwards_line(value: Seq<char>)
    requires
        unbroken(value),
    ensures
        header_line("Max-Forwards"@, value).len() > 0,
        holds_line(header_line("Max-Forwards"@, value), LineKind::MaxForwards),
{
    lemma_plain_literals();
    lemma_names_revealed();
    reveal_strlit("Max-Forwards");
    let x = lemma_header_body("Max-Forwards"@, value);
    lemma_starts_with(x, "Max-Forwards:"@);
    lemma_kind_by_name(x);
    lemma_holds_line(x, LineKind::MaxForwards);
}

/// The CSeq line of an unbroken number is one line, and is read as a CSeq
/// line.
pub proof fn lemma_cseq_line(number: Seq<char>, method: RequestMethod)
    requires
        unbroken(number),
    ensures
        cseq_line(number, method).len() > 0,
        holds_line(cseq_line(number, method), LineKind::CSeq),
{
    lemma_plain_literals();
    lemma_names_revealed();
    lemma_token_plain(method);
    reveal_strlit("CSeq: ");
    let a0 = "CSeq: "@;
    let a1 = a0 + number + " "@;
    let x = a1 + method.token();
    lemma_plain_unbroken(a0);
    lemma_glued(a0, number, " "@);
    lemma_then_plain(a1, method.token());
    assert(cseq_line(number, method) =~= x + "\r\n"@);
    lemma_starts_with(x, "CSeq:"@);
    assert(forall|i: int| 0 <= i < 5 ==> x[i] == a0[i]);
    lemma_kind_by_name(x);
    lemma_holds_line(x, LineKind::CSeq);
}

} // verus!
