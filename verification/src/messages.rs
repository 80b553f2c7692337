//! The protocol message model: argument values, string-keyed dictionaries,
//! the closed set of frame variants, and the error vocabulary.

use vstd::prelude::*;

verus! {

/// A protocol identifier. The protocol draws these from 1..2^53 and they must
/// never repeat within a session.
pub type WampId = u64;

pub type WampInteger = u64;

pub type WampString = String;

/// Ids range over 1..2^53.
pub const MAX_WAMP_ID: u64 = 0x20000000000000;

/// A payload value carried in frame arguments and dictionaries.
#[derive(PartialEq, Debug)]
pub enum Arg {
    Null,
    Bool(bool),
    Integer(u64),
    Str(String),
    List(Vec<Arg>),
    Dict(WampDict),
}

pub type WampPayloadValue = Arg;

/// Positional arguments of a frame.
pub type WampArgs = Vec<Arg>;

/// Keyword arguments of a frame.
pub type WampKwArgs = WampDict;

/// A string-keyed dictionary of payload values. Entries are kept in a list;
/// a lookup takes the most recent binding of a key, so `insert` shadows any
/// earlier binding of the same key.
#[derive(PartialEq, Debug)]
pub struct WampDict {
    entries: Vec<(String, Arg)>,
}

/// The binding of `k` in `s`, taking the front-most entry.
pub open spec fn seq_lookup(s: Seq<(String, Arg)>, k: Seq<char>) -> Option<Arg>
    decreases s.len(),
{
    if s.len() == 0 {
        None
    } else if s[0].0@ == k {
        Some(s[0].1)
    } else {
        seq_lookup(s.drop_first(), k)
    }
}

impl WampDict {
    /// The binding of key `k`, if any.
    pub closed spec fn spec_get(self, k: Seq<char>) -> Option<Arg> {
        seq_lookup(self.entries@, k)
    }

    pub open spec fn spec_contains(self, k: Seq<char>) -> bool {
        self.spec_get(k) is Some
    }

    /// A dictionary with no entries at all.
    pub closed spec fn spec_empty(self) -> bool {
        self.entries@.len() == 0
    }

    pub fn new() -> (r: WampDict)
        ensures
            r.spec_empty(),
            forall|k: Seq<char>| r.spec_get(k) is None,
    {
        WampDict { entries: Vec::new() }
    }

    /// Binds `k` to `v`, shadowing any earlier binding of `k` and leaving
    /// every other key as it was.
    pub fn insert(&mut self, k: String, v: Arg)
        ensures
            final(self).spec_get(k@) == Some(v),
            forall|k2: Seq<char>|
                k2 != k@ ==> final(self).spec_get(k2) == old(self).spec_get(k2),
            !final(self).spec_empty(),
    {
        self.entries.insert(0, (k, v));
        proof {
            assert(self.entries@.drop_first() =~= old(self).entries@);
        }
    }

    /// Moves the binding of `k` out of the dictionary, if there is one.
    pub fn take_key(&mut self, k: &str) -> (r: Option<Arg>)
        ensures
            r == old(self).spec_get(k@),
    {
        let key: String = k.to_owned();
        let n = self.entries.len();
        let mut i: usize = 0;
        proof {
            assert(self.entries@.skip(0) =~= self.entries@);
        }
        while i < n
            invariant
                0 <= i <= n,
                self == old(self),
                n == self.entries@.len(),
                key@ == k@,
                seq_lookup(self.entries@, k@) == seq_lookup(self.entries@.skip(i as int), k@),
            decreases n - i,
        {
            proof {
                assert(self.entries@.skip(i as int).drop_first() =~= self.entries@.skip(
                    i as int + 1,
                ));
                assert(self.entries@.skip(i as int)[0] == self.entries@[i as int]);
            }
            if self.entries[i].0 == key {
                let (_, v) = self.entries.remove(i);
                return Some(v);
            }
            i = i + 1;
        }
        proof {
            assert(self.entries@.skip(n as int) =~= Seq::<(String, Arg)>::empty());
        }
        None
    }

    /// Looks the key up, returning the binding that `insert` made last.
    pub fn get(&self, k: &str) -> (r: Option<&Arg>)
        ensures
            match r {
                Some(v) => self.spec_get(k@) == Some(*v),
                None => self.spec_get(k@) is None,
            },
    {
        let key: String = k.to_owned();
        let n = self.entries.len();
        let mut i: usize = 0;
        proof {
            assert(self.entries@.skip(0) =~= self.entries@);
        }
        while i < n
            invariant
                0 <= i <= n,
                n == self.entries@.len(),
                key@ == k@,
                seq_lookup(self.entries@, k@) == seq_lookup(self.entries@.skip(i as int), k@),
            decreases n - i,
        {
            if self.entries[i].0 == key {
                proof {
                    assert(self.entries@.skip(i as int)[0] == self.entries@[i as int]);
                }
                return Some(&self.entries[i].1);
            }
            proof {
                assert(self.entries@.skip(i as int).drop_first() =~= self.entries@.skip(
                    i as int + 1,
                ));
                assert(self.entries@.skip(i as int)[0] == self.entries@[i as int]);
            }
            i = i + 1;
        }
        proof {
            assert(self.entries@.skip(n as int) =~= Seq::<(String, Arg)>::empty());
        }
        None
    }
}

/// The error vocabulary of the session layer.
#[derive(PartialEq, Debug)]
pub enum WampError {
    /// I/O or connection failure: always fatal to the session.
    TransportError(String),
    /// The peer sent an unexpected frame type for the current state: fatal.
    ProtocolViolation(String),
    /// A challenge was issued with no handler configured, or the handler
    /// failed: fatal to the join attempt.
    AuthenticationError(String),
    /// An operation referenced an unknown local id: resolved immediately,
    /// the session stays valid.
    CallerError(String),
    /// A remote procedure returned an error URI with structured detail:
    /// surfaced to the caller as data, never fatal.
    ApplicationError(String, ErrorDetails),
    /// The engine was shut down while the operation was still outstanding.
    SessionShutdown,
}

/// The structured payload of an application-level error.
#[derive(PartialEq, Debug)]
pub struct ErrorDetails {
    pub arguments: Option<WampArgs>,
    pub arguments_kw: Option<WampKwArgs>,
}

impl WampError {
    /// A one-line account of the error, used where a frame carries the error
    /// as its sole positional argument.
    pub open spec fn spec_describe(self) -> Seq<char> {
        match self {
            WampError::TransportError(m) => "transport error: "@ + m@,
            WampError::ProtocolViolation(m) => "protocol violation: "@ + m@,
            WampError::AuthenticationError(m) => "authentication error: "@ + m@,
            WampError::CallerError(m) => "caller error: "@ + m@,
            WampError::ApplicationError(uri, _) => "application error: "@ + uri@,
            WampError::SessionShutdown => "session shut down"@,
        }
    }

    pub fn describe(&self) -> (r: String)
        ensures
            r@ == self.spec_describe(),
    {
        match self {
            WampError::TransportError(m) => "transport error: ".to_owned().concat(m.as_str()),
            WampError::ProtocolViolation(m) => "protocol violation: ".to_owned().concat(
                m.as_str(),
            ),
            WampError::AuthenticationError(m) => "authentication error: ".to_owned().concat(
                m.as_str(),
            ),
            WampError::CallerError(m) => "caller error: ".to_owned().concat(m.as_str()),
            WampError::ApplicationError(uri, _) => "application error: ".to_owned().concat(
                uri.as_str(),
            ),
            WampError::SessionShutdown => "session shut down".to_owned(),
        }
    }
}

// Frame type numbers, as the protocol assigns them. An ERROR frame repeats
// the type number of the request it answers.
pub const HELLO_ID: u64 = 1;

pub const WELCOME_ID: u64 = 2;

pub const CHALLENGE_ID: u64 = 4;

pub const AUTHENTICATE_ID: u64 = 5;

pub const GOODBYE_ID: u64 = 6;

pub const ERROR_ID: u64 = 8;

pub const PUBLISH_ID: u64 = 16;

pub const PUBLISHED_ID: u64 = 17;

pub const SUBSCRIBE_ID: u64 = 32;

pub const SUBSCRIBED_ID: u64 = 33;

pub const UNSUBSCRIBE_ID: u64 = 34;

pub const UNSUBSCRIBED_ID: u64 = 35;

pub const CALL_ID: u64 = 48;

pub const RESULT_ID: u64 = 50;

pub const REGISTER_ID: u64 = 64;

pub const REGISTERED_ID: u64 = 65;

pub const UNREGISTER_ID: u64 = 66;

pub const UNREGISTERED_ID: u64 = 67;

pub const INVOCATION_ID: u64 = 68;

pub const YIELD_ID: u64 = 70;

/// The closed set of protocol frames the session layer constructs and
/// pattern-matches. Wire framing and serialization live outside the engine.
#[derive(PartialEq, Debug)]
pub enum Msg {
    Hello { realm: WampString, details: WampDict },
    Welcome { session: WampId, details: WampDict },
    Challenge { authentication_method: WampString, extra: WampDict },
    Authenticate { signature: WampString, extra: WampDict },
    Goodbye { reason: WampString, details: WampDict },
    Subscribe { request: WampId, topic: WampString, options: WampDict },
    Subscribed { request: WampId, subscription: WampId },
    Unsubscribe { request: WampId, subscription: WampId },
    Unsubscribed { request: WampId },
    Publish {
        request: WampId,
        topic: WampString,
        options: WampDict,
        arguments: Option<WampArgs>,
        arguments_kw: Option<WampKwArgs>,
    },
    Published { request: WampId, publication: WampId },
    Register { request: WampId, procedure: WampString, options: WampDict },
    Registered { request: WampId, registration: WampId },
    Unregister { request: WampId, registration: WampId },
    Unregistered { request: WampId },
    Call {
        request: WampId,
        procedure: WampString,
        options: WampDict,
        arguments: Option<WampArgs>,
        arguments_kw: Option<WampKwArgs>,
    },
    RpcResult {
        request: WampId,
        details: WampDict,
        arguments: Option<WampArgs>,
        arguments_kw: Option<WampKwArgs>,
    },
    Invocation {
        request: WampId,
        registration: WampId,
        details: WampDict,
        arguments: Option<WampArgs>,
        arguments_kw: Option<WampKwArgs>,
    },
    Yield {
        request: WampId,
        options: WampDict,
        arguments: Option<WampArgs>,
        arguments_kw: Option<WampKwArgs>,
    },
    Error {
        typ: WampInteger,
        request: WampId,
        details: WampDict,
        error: WampString,
        arguments: Option<WampArgs>,
        arguments_kw: Option<WampKwArgs>,
    },
}

} // verus!
