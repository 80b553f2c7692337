//! Client and server role names, and the strict URI validator used to reject
//! malformed topic and procedure names before they are put on the wire.

use vstd::prelude::*;

verus! {

/// Roles a client can announce when joining a realm.
#[derive(Clone, Copy, PartialEq, Eq, Structural, Debug)]
pub enum ClientRole {
    Caller,
    Callee,
    Publisher,
    Subscriber,
}

impl ClientRole {
    /// The protocol-level name of the role.
    pub open spec fn spec_str(self) -> Seq<char> {
        match self {
            ClientRole::Caller => "caller"@,
            ClientRole::Callee => "callee"@,
            ClientRole::Publisher => "publisher"@,
            ClientRole::Subscriber => "subscriber"@,
        }
    }

    pub fn to_string(&self) -> (r: String)
        ensures
            r@ == self.spec_str(),
    {
        match self {
            ClientRole::Caller => "caller".to_owned(),
            ClientRole::Callee => "callee".to_owned(),
            ClientRole::Publisher => "publisher".to_owned(),
            ClientRole::Subscriber => "subscriber".to_owned(),
        }
    }
}

/// Two distinct roles never share a protocol-level name.
pub proof fn lemma_role_str_injective(a: ClientRole, b: ClientRole)
    requires
        a.spec_str() == b.spec_str(),
    ensures
        a == b,
{
    reveal_strlit("caller");
    reveal_strlit("callee");
    reveal_strlit("publisher");
    reveal_strlit("subscriber");
    assert("caller"@.len() == 6);
    assert("callee"@.len() == 6);
    assert("publisher"@.len() == 9);
    assert("subscriber"@.len() == 10);
    assert("caller"@[5] == 'r');
    assert("callee"@[5] == 'e');
}

/// Roles a router can announce in its WELCOME details.
#[derive(Clone, Copy, PartialEq, Eq, Structural, Debug)]
pub enum ServerRole {
    Router,
    Broker,
}

impl ServerRole {
    /// The protocol-level name of the role.
    pub open spec fn spec_str(self) -> Seq<char> {
        match self {
            ServerRole::Router => "router"@,
            ServerRole::Broker => "broker"@,
        }
    }

    pub fn to_string(&self) -> (r: String)
        ensures
            r@ == self.spec_str(),
    {
        match self {
            ServerRole::Router => "router".to_owned(),
            ServerRole::Broker => "broker".to_owned(),
        }
    }
}

/// A character allowed inside a strict-URI token: a lowercase ASCII letter,
/// a digit, or an underscore.
pub open spec fn uri_char_ok(c: char) -> bool {
    ('a' <= c && c <= 'z') || ('0' <= c && c <= '9') || c == '_'
}

/// A strict URI: does not start with the reserved prefix `wamp.`, contains
/// only token characters and dots, and has no zero-length dot-delimited token
/// (no leading dot, no trailing dot, no two consecutive dots).
pub open spec fn spec_valid_strict_uri(s: Seq<char>) -> bool {
    &&& !(s.len() >= 5 && s.subrange(0, 5) == "wamp."@)
    &&& (forall|i: int| 0 <= i < s.len() ==> uri_char_ok(#[trigger] s[i]) || s[i] == '.')
    &&& (forall|i: int| 0 <= i < s.len() && #[trigger] s[i] == '.' ==> i > 0 && s[i - 1] != '.')
    &&& (s.len() > 0 ==> s[s.len() - 1] != '.')
}

/// Returns whether a uri is valid or not (using strict rules).
pub fn is_valid_strict_uri(in_uri: &str) -> (r: bool)
    ensures
        r == spec_valid_strict_uri(in_uri@),
{
    proof {
        reveal_strlit("wamp.");
    }
    let len = in_uri.unicode_len();
    if len >= 5 {
        if in_uri.get_char(0) == 'w' && in_uri.get_char(1) == 'a' && in_uri.get_char(2) == 'm'
            && in_uri.get_char(3) == 'p' && in_uri.get_char(4) == '.' {
            proof {
                assert(in_uri@.subrange(0, 5) =~= "wamp."@);
            }
            return false;
        }
        proof {
            assert(in_uri@.subrange(0, 5) != "wamp."@) by {
                if in_uri@.subrange(0, 5) == "wamp."@ {
                    assert(in_uri@.subrange(0, 5)[0] == in_uri@[0]);
                    assert(in_uri@.subrange(0, 5)[1] == in_uri@[1]);
                    assert(in_uri@.subrange(0, 5)[2] == in_uri@[2]);
                    assert(in_uri@.subrange(0, 5)[3] == in_uri@[3]);
                    assert(in_uri@.subrange(0, 5)[4] == in_uri@[4]);
                }
            }
        }
    }

    let mut i: usize = 0;
    // True exactly when the previous position is a token boundary: the start
    // of the string or a dot.
    let mut at_boundary: bool = true;
    while i < len
        invariant
            0 <= i <= len,
            len == in_uri@.len(),
            at_boundary == (i == 0 || in_uri@[i as int - 1] == '.'),
            forall|j: int| 0 <= j < i ==> uri_char_ok(#[trigger] in_uri@[j]) || in_uri@[j] == '.',
            forall|j: int| 0 <= j < i && #[trigger] in_uri@[j] == '.' ==> j > 0 && in_uri@[j - 1]
                != '.',
        decreases len - i,
    {
        let c = in_uri.get_char(i);
        if c == '.' {
            if at_boundary {
                return false;
            }
            at_boundary = true;
        } else {
            if !((('a' <= c && c <= 'z') || ('0' <= c && c <= '9')) || c == '_') {
                return false;
            }
            at_boundary = false;
        }
        i = i + 1;
    }
    if len > 0 && at_boundary {
        return false;
    }
    true
}

} // verus!
