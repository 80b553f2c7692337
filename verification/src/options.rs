//! Builders for the option dictionaries that SUBSCRIBE and REGISTER frames
//! carry.

use vstd::prelude::*;

use crate::messages::{Arg, WampDict};

verus! {

/// How the dealer picks among shared registrations of one procedure.
#[derive(Clone, Copy, PartialEq, Eq, Structural, Debug)]
pub enum InvokeOption {
    Single,
    RoundRobin,
    Random,
    First,
    Last,
}

impl InvokeOption {
    pub open spec fn spec_value(self) -> Seq<char> {
        match self {
            InvokeOption::Single => "single"@,
            InvokeOption::RoundRobin => "roundrobin"@,
            InvokeOption::Random => "random"@,
            InvokeOption::First => "first"@,
            InvokeOption::Last => "last"@,
        }
    }

    pub fn value(&self) -> (r: String)
        ensures
            r@ == self.spec_value(),
    {
        match self {
            InvokeOption::Single => "single".to_owned(),
            InvokeOption::RoundRobin => "roundrobin".to_owned(),
            InvokeOption::Random => "random".to_owned(),
            InvokeOption::First => "first".to_owned(),
            InvokeOption::Last => "last".to_owned(),
        }
    }
}

/// How a topic or procedure URI is matched against what the caller named.
#[derive(Clone, Copy, PartialEq, Eq, Structural, Debug)]
pub enum MatchOption {
    Exact,
    Prefix,
    Wildcard,
}

impl MatchOption {
    pub open spec fn spec_value(self) -> Seq<char> {
        match self {
            MatchOption::Exact => "exact"@,
            MatchOption::Prefix => "prefix"@,
            MatchOption::Wildcard => "wildcard"@,
        }
    }

    pub fn value(&self) -> (r: String)
        ensures
            r@ == self.spec_value(),
    {
        match self {
            MatchOption::Exact => "exact".to_owned(),
            MatchOption::Prefix => "prefix".to_owned(),
            MatchOption::Wildcard => "wildcard".to_owned(),
        }
    }
}

/// One option on its way into a frame's options dictionary.
pub enum WampOption {
    SubscribeOption(String, Arg),
    RegisterOption(String, Arg),
    PublishOption(String, Arg),
}

pub open spec fn wamp_option_key(o: WampOption) -> Seq<char> {
    match o {
        WampOption::SubscribeOption(k, _) => k@,
        WampOption::RegisterOption(k, _) => k@,
        WampOption::PublishOption(k, _) => k@,
    }
}

pub open spec fn wamp_option_value(o: WampOption) -> Arg {
    match o {
        WampOption::SubscribeOption(_, v) => v,
        WampOption::RegisterOption(_, v) => v,
        WampOption::PublishOption(_, v) => v,
    }
}

/// Base struct for storing the options dictionary being built; absent until
/// the first option is added.
pub struct RegistrationOptionItem(Option<WampDict>);

impl RegistrationOptionItem {
    pub closed spec fn spec_dict(self) -> Option<WampDict> {
        self.0
    }

    /// The binding of `k` in the stored dictionary; an absent dictionary
    /// binds nothing.
    pub open spec fn spec_get(self, k: Seq<char>) -> Option<Arg> {
        match self.spec_dict() {
            Some(d) => d.spec_get(k),
            None => None,
        }
    }

    /// Build a new item around a provided dictionary.
    pub fn create(options: Option<WampDict>) -> (r: Self)
        ensures
            r.spec_dict() == options,
    {
        RegistrationOptionItem(options)
    }

    /// A new item with no dictionary yet.
    pub fn empty() -> (r: Self)
        ensures
            r.spec_dict() is None,
    {
        Self::create(None)
    }

    /// Return the dictionary being operated on and stored by the item.
    pub fn get_dict(self) -> (r: Option<WampDict>)
        ensures
            r == self.spec_dict(),
    {
        self.0
    }

    /// Adds one option, creating the dictionary when this is the first.
    pub fn with_option(self, option: WampOption) -> (r: Self)
        ensures
            r.spec_get(wamp_option_key(option)) == Some(wamp_option_value(option)),
            forall|k2: Seq<char>|
                k2 != wamp_option_key(option) ==> r.spec_get(k2) == self.spec_get(k2),
            r.spec_dict() is Some,
    {
        let mut d = match self {
            RegistrationOptionItem(Some(d)) => d,
            RegistrationOptionItem(None) => WampDict::new(),
        };
        let (k, v) = match option {
            WampOption::SubscribeOption(k, v) => (k, v),
            WampOption::RegisterOption(k, v) => (k, v),
            WampOption::PublishOption(k, v) => (k, v),
        };
        d.insert(k, v);
        RegistrationOptionItem(Some(d))
    }

    /// Add an option naming the invocation policy of the registration.
    pub fn with_invoke(self, invoke_option: InvokeOption) -> (r: Self)
        ensures
            (r.spec_get("invoke"@) matches Some(Arg::Str(s)) && s@ == invoke_option.spec_value()),
            forall|k2: Seq<char>| k2 != "invoke"@ ==> r.spec_get(k2) == self.spec_get(k2),
    {
        self.with_option(
            WampOption::RegisterOption("invoke".to_owned(), Arg::Str(invoke_option.value())),
        )
    }

    /// Add an option for pattern matching the procedure URI of the
    /// registration.
    pub fn with_match(self, match_option: MatchOption) -> (r: Self)
        ensures
            (r.spec_get("match"@) matches Some(Arg::Str(s)) && s@ == match_option.spec_value()),
            forall|k2: Seq<char>| k2 != "match"@ ==> r.spec_get(k2) == self.spec_get(k2),
    {
        self.with_option(
            WampOption::RegisterOption("match".to_owned(), Arg::Str(match_option.value())),
        )
    }
}

impl Default for RegistrationOptionItem {
    /// Create a new empty item.
    fn default() -> (r: Self)
        ensures
            r.spec_dict() is None,
    {
        Self::empty()
    }
}

/// Alias for the registration option builder.
pub type RegistrationOptions = RegistrationOptionItem;

} // verus!
