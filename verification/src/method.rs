//! The request methods and their tokens on the wire.
use crate::text::same_text;
use vstd::prelude::*;

verus! {

/// A request method.
#[derive(Debug, Clone, Copy, PartialEq, Eq)]
pub enum RequestMethod {
    Register,
    Invite,
    ACK,
    Cancel,
    Bye,
    Options,
    Subscribe,
    Notify,
    Publish,
}

impl RequestMethod {
    /// The token that stands for the method on the wire.
    pub open spec fn token(self) -> Seq<char> {
        match self {
            RequestMethod::Register => "REGISTER"@,
            RequestMethod::Invite => "INVITE"@,
            RequestMethod::ACK => "ACK"@,
            RequestMethod::Cancel => "CANCEL"@,
            RequestMethod::Bye => "BYE"@,
            RequestMethod::Options => "OPTIONS"@,
            RequestMethod::Subscribe => "SUBSCRIBE"@,
            RequestMethod::Notify => "NOTIFY"@,
            RequestMethod::Publish => "PUBLISH"@,
        }
    }

    /// The method's token.
    pub fn name(self) -> (r: &'static str)
        ensures
            r@ == self.token(),
    {
        match self {
            RequestMethod::Register => "REGISTER",
            RequestMethod::Invite => "INVITE",
            RequestMethod::ACK => "ACK",
            RequestMethod::Cancel => "CANCEL",
            RequestMethod::Bye => "BYE",
            RequestMethod::Options => "OPTIONS",
            RequestMethod::Subscribe => "SUBSCRIBE",
            RequestMethod::Notify => "NOTIFY",
            RequestMethod::Publish => "PUBLISH",
        }
    }

    /// The method that `name` is the token of, if it is one. The match is
    /// exact and tells upper case from lower case.
    pub fn from_name(name: &str) -> (r: Option<RequestMethod>)
        ensures
            r == method_of_token(name@),
    {
        if same_text(name, "ACK") {
            Some(RequestMethod::ACK)
        } else if same_text(name, "BYE") {
            Some(RequestMethod::Bye)
        } else if same_text(name, "CANCEL") {
            Some(RequestMethod::Cancel)
        } else if same_text(name, "INVITE") {
            Some(RequestMethod::Invite)
        } else if same_text(name, "OPTIONS") {
            Some(RequestMethod::Options)
        } else if same_text(name, "REGISTER") {
            Some(RequestMethod::Register)
        } else if same_text(name, "SUBSCRIBE") {
            Some(RequestMethod::Subscribe)
        } else if same_text(name, "NOTIFY") {
            Some(RequestMethod::Notify)
        } else if same_text(name, "PUBLISH") {
            Some(RequestMethod::Publish)
        } else {
            None
        }
    }
}

/// The method whose token is `t`; none where `t` is no method's token.
pub open spec fn method_of_token(t: Seq<char>) -> Option<RequestMethod> {
    if t == "ACK"@ {
        Some(RequestMethod::ACK)
    } else if t == "BYE"@ {
        Some(RequestMethod::Bye)
    } else if t == "CANCEL"@ {
        Some(RequestMethod::Cancel)
    } else if t == "INVITE"@ {
        Some(RequestMethod::Invite)
    } else if t == "OPTIONS"@ {
        Some(RequestMethod::Options)
    } else if t == "REGISTER"@ {
        Some(RequestMethod::Register)
    } else if t == "SUBSCRIBE"@ {
        Some(RequestMethod::Subscribe)
    } else if t == "NOTIFY"@ {
        Some(RequestMethod::Notify)
    } else if t == "PUBLISH"@ {
        Some(RequestMethod::Publish)
    } else {
        None
    }
}

/// Makes known what the nine tokens are, character by character.
pub proof fn lemma_tokens_revealed()
    ensures
        "ACK"@ =~= seq!['A', 'C', 'K'],
        "BYE"@ =~= seq!['B', 'Y', 'E'],
        "CANCEL"@ =~= seq!['C', 'A', 'N', 'C', 'E', 'L'],
        "INVITE"@ =~= seq!['I', 'N', 'V', 'I', 'T', 'E'],
        "OPTIONS"@ =~= seq!['O', 'P', 'T', 'I', 'O', 'N', 'S'],
        "REGISTER"@ =~= seq!['R', 'E', 'G', 'I', 'S', 'T', 'E', 'R'],
        "SUBSCRIBE"@ =~= seq!['S', 'U', 'B', 'S', 'C', 'R', 'I', 'B', 'E'],
        "NOTIFY"@ =~= seq!['N', 'O', 'T', 'I', 'F', 'Y'],
        "PUBLISH"@ =~= seq!['P', 'U', 'B', 'L', 'I', 'S', 'H'],
{
    reveal_strlit("ACK");
    reveal_strlit("BYE");
    reveal_strlit("CANCEL");
    reveal_strlit("INVITE");
    reveal_strlit("OPTIONS");
    reveal_strlit("REGISTER");
    reveal_strlit("SUBSCRIBE");
    reveal_strlit("NOTIFY");
    reveal_strlit("PUBLISH");
}

/// Each method is found again from its token: the tokens of two methods
/// differ, so the mapping between methods and tokens is one to one.
pub proof fn lemma_method_of_its_token(m: RequestMethod)
    ensures
        method_of_token(m.token()) == Some(m),
{
    lemma_tokens_revealed();
    let t = m.token();
    assert(t.len() > 0);
    assert(t[0] == m.token()[0]);
    assert("CANCEL"@[0] == 'C');
    assert("PUBLISH"@[0] == 'P');
}

/// A text that is the token of no method is the token of none: the lookup
/// gives a method exactly for the nine tokens, and then the method whose
/// token the text is.
pub proof fn lemma_method_of_token(t: Seq<char>)
    ensures
        match method_of_token(t) {
            Some(m) => m.token() == t,
            None => forall|m: RequestMethod| m.token() != t,
        },
{
}

} // verus!
