use wamp_core::messages::{Arg, Msg, WampDict, WampError};
use wamp_core::options::{InvokeOption, MatchOption, RegistrationOptionItem, RegistrationOptions};
use wamp_core::session::{join_realm_start, Core};
use wamp_core::ClientRole;

#[test]
fn dict_insert_shadows_and_get_finds() {
    let mut d = WampDict::new();
    assert!(d.get("k").is_none());
    d.insert("k".to_string(), Arg::Integer(1));
    assert_eq!(d.get("k"), Some(&Arg::Integer(1)));
    d.insert("k".to_string(), Arg::Integer(2));
    assert_eq!(d.get("k"), Some(&Arg::Integer(2)));
    d.insert("other".to_string(), Arg::Bool(true));
    assert_eq!(d.get("k"), Some(&Arg::Integer(2)));
    assert_eq!(d.get("other"), Some(&Arg::Bool(true)));
}

#[test]
fn dict_take_key_moves_the_binding_out() {
    let mut d = WampDict::new();
    d.insert("k".to_string(), Arg::Str("v".to_string()));
    assert_eq!(d.take_key("k"), Some(Arg::Str("v".to_string())));
    assert_eq!(d.take_key("missing"), None);
}

#[test]
fn error_descriptions_name_the_kind() {
    assert_eq!(
        WampError::TransportError("broken pipe".to_string()).describe(),
        "transport error: broken pipe"
    );
    assert_eq!(WampError::SessionShutdown.describe(), "session shut down");
}

#[test]
fn registration_options_builders() {
    let opts = RegistrationOptionItem::empty()
        .with_invoke(InvokeOption::RoundRobin)
        .with_match(MatchOption::Prefix);
    let dict = opts.get_dict().expect("options were added");
    assert_eq!(dict.get("invoke"), Some(&Arg::Str("roundrobin".to_string())));
    assert_eq!(dict.get("match"), Some(&Arg::Str("prefix".to_string())));
}

#[test]
fn registration_options_default_is_empty() {
    let opts: RegistrationOptions = Default::default();
    assert!(opts.get_dict().is_none());
}

#[test]
fn registration_options_create_keeps_the_dict() {
    let mut d = WampDict::new();
    d.insert("invoke".to_string(), Arg::Str("single".to_string()));
    let opts = RegistrationOptionItem::create(Some(d));
    let dict = opts.get_dict().expect("a dict was provided");
    assert_eq!(dict.get("invoke"), Some(&Arg::Str("single".to_string())));
}

#[test]
fn invoke_and_match_option_values() {
    assert_eq!(InvokeOption::Single.value(), "single");
    assert_eq!(InvokeOption::Last.value(), "last");
    assert_eq!(MatchOption::Exact.value(), "exact");
    assert_eq!(MatchOption::Wildcard.value(), "wildcard");
}

fn hello_details(m: Msg) -> WampDict {
    match m {
        Msg::Hello { realm, details } => {
            assert_eq!(realm, "com.realm");
            details
        }
        other => panic!("expected HELLO, got {:?}", other),
    }
}

#[test]
fn hello_announces_roles_and_subscriber_features() {
    let mut core = Core::new();
    let m = join_realm_start(
        &mut core,
        "com.realm".to_string(),
        vec![ClientRole::Caller, ClientRole::Subscriber],
        None,
        Vec::new(),
        None,
        None,
    );
    let details = hello_details(m);
    let roles = match details.get("roles") {
        Some(Arg::Dict(d)) => d,
        other => panic!("expected a roles dict, got {:?}", other),
    };
    match roles.get("caller") {
        Some(Arg::Dict(rd)) => assert!(rd.get("features").is_none()),
        other => panic!("expected a caller entry, got {:?}", other),
    }
    match roles.get("subscriber") {
        Some(Arg::Dict(rd)) => match rd.get("features") {
            Some(Arg::Dict(fd)) => {
                assert_eq!(fd.get("pattern_based_subscription"), Some(&Arg::Bool(true)));
            }
            other => panic!("expected a features dict, got {:?}", other),
        },
        other => panic!("expected a subscriber entry, got {:?}", other),
    }
    assert!(details.get("agent").is_none());
    assert!(details.get("authmethods").is_none());
    assert!(details.get("authextra").is_none());
    assert!(details.get("authid").is_none());
}

#[test]
fn hello_announces_agent_and_authentication() {
    let mut core = Core::new();
    let mut extra = WampDict::new();
    extra.insert("pubkey".to_string(), Arg::Str("deadbeef".to_string()));
    let m = join_realm_start(
        &mut core,
        "com.realm".to_string(),
        vec![ClientRole::Publisher],
        Some("agent-x".to_string()),
        vec!["cryptosign".to_string(), "wampcra".to_string()],
        Some(extra),
        Some("alice".to_string()),
    );
    let details = hello_details(m);
    assert_eq!(details.get("agent"), Some(&Arg::Str("agent-x".to_string())));
    assert_eq!(details.get("authid"), Some(&Arg::Str("alice".to_string())));
    match details.get("authmethods") {
        Some(Arg::List(l)) => {
            assert_eq!(
                l,
                &vec![
                    Arg::Str("cryptosign".to_string()),
                    Arg::Str("wampcra".to_string()),
                ]
            );
        }
        other => panic!("expected an authmethods list, got {:?}", other),
    }
    match details.get("authextra") {
        Some(Arg::Dict(ad)) => {
            assert_eq!(ad.get("pubkey"), Some(&Arg::Str("deadbeef".to_string())));
        }
        other => panic!("expected an authextra dict, got {:?}", other),
    }
}

#[test]
fn hello_without_authmethods_omits_authextra() {
    let mut core = Core::new();
    let mut extra = WampDict::new();
    extra.insert("pubkey".to_string(), Arg::Str("deadbeef".to_string()));
    let m = join_realm_start(
        &mut core,
        "com.realm".to_string(),
        vec![ClientRole::Caller],
        None,
        Vec::new(),
        Some(extra),
        None,
    );
    let details = hello_details(m);
    assert!(details.get("authmethods").is_none());
    assert!(details.get("authextra").is_none());
}
