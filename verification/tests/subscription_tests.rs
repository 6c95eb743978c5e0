//! Subscriptions as comma-separated lists of event names.

use ht_core::api::{event_kind, InvalidEventName, Subscription};
use ht_core::session::EventKind;

fn sub(init: bool, output: bool, resize: bool, snapshot: bool) -> Subscription {
    Subscription { init, output, resize, snapshot }
}

#[test]
fn each_name_sets_its_flag() {
    assert_eq!(Subscription::parse("init"), Ok(sub(true, false, false, false)));
    assert_eq!(Subscription::parse("output"), Ok(sub(false, true, false, false)));
    assert_eq!(Subscription::parse("resize"), Ok(sub(false, false, true, false)));
    assert_eq!(Subscription::parse("snapshot"), Ok(sub(false, false, false, true)));
}

#[test]
fn a_list_sets_every_flag_it_names() {
    assert_eq!(Subscription::parse("init,output"), Ok(sub(true, true, false, false)));
    assert_eq!(Subscription::parse("output,init"), Ok(sub(true, true, false, false)));
    assert_eq!(
        Subscription::parse("snapshot,resize,output,init"),
        Ok(sub(true, true, true, true))
    );
    assert_eq!(Subscription::parse("output,output,output"), Ok(sub(false, true, false, false)));
    let parsed: Subscription = "init,resize".parse().unwrap();
    assert_eq!(parsed, sub(true, false, true, false));
    assert_eq!(Subscription::parse_bytes(b"resize,snapshot"), Ok(sub(false, false, true, true)));
}

#[test]
fn one_bad_name_spoils_the_list() {
    assert_eq!(Subscription::parse(""), Err(InvalidEventName { index: 0 }));
    assert_eq!(Subscription::parse("input"), Err(InvalidEventName { index: 0 }));
    assert_eq!(Subscription::parse("init,"), Err(InvalidEventName { index: 1 }));
    assert_eq!(Subscription::parse(",init"), Err(InvalidEventName { index: 0 }));
    assert_eq!(Subscription::parse("init,,output"), Err(InvalidEventName { index: 1 }));
    assert_eq!(Subscription::parse("init, output"), Err(InvalidEventName { index: 1 }));
    assert_eq!(Subscription::parse("init,output,bogus,resize"), Err(InvalidEventName { index: 2 }));
    assert_eq!(Subscription::parse("Init"), Err(InvalidEventName { index: 0 }));
    assert_eq!(Subscription::parse("OUTPUT"), Err(InvalidEventName { index: 0 }));
    assert_eq!(Subscription::parse("outputs"), Err(InvalidEventName { index: 0 }));
    assert_eq!(Subscription::parse("outpu"), Err(InvalidEventName { index: 0 }));
    assert_eq!(Subscription::parse("init;output"), Err(InvalidEventName { index: 0 }));
    assert_eq!(Subscription::parse("x,y"), Err(InvalidEventName { index: 0 }));
}

#[test]
fn a_missing_or_spoilt_parameter_subscribes_to_nothing() {
    assert_eq!(Subscription::from_param(None), Subscription::none());
    assert_eq!(Subscription::from_param(Some("")), Subscription::none());
    assert_eq!(Subscription::from_param(Some("init,bogus")), Subscription::none());
    assert_eq!(Subscription::from_param(Some("output")), sub(false, true, false, false));
    assert_eq!(
        Subscription::from_param(Some("init,output,resize,snapshot")),
        sub(true, true, true, true)
    );
}

#[test]
fn flags_answer_for_their_kind() {
    let s = sub(true, false, true, false);
    assert!(s.subscribes(EventKind::Init));
    assert!(!s.subscribes(EventKind::Output));
    assert!(s.subscribes(EventKind::Resize));
    assert!(!s.subscribes(EventKind::Snapshot));
    for kind in [EventKind::Init, EventKind::Output, EventKind::Resize, EventKind::Snapshot] {
        assert!(!Subscription::none().subscribes(kind));
        assert!(Subscription::none().including(kind).subscribes(kind));
        assert!(s.including(kind).subscribes(kind));
        assert!(s.including(kind).subscribes(EventKind::Init));
    }
}

#[test]
fn names_are_exact() {
    assert_eq!(event_kind(b"init"), Some(EventKind::Init));
    assert_eq!(event_kind(b"output"), Some(EventKind::Output));
    assert_eq!(event_kind(b"resize"), Some(EventKind::Resize));
    assert_eq!(event_kind(b"snapshot"), Some(EventKind::Snapshot));
    for name in ["", "i", "ini", "inits", "outpud", "resizf", "snapshoT", "tini", "resize "] {
        assert_eq!(event_kind(name.as_bytes()), None, "{:?}", name);
    }
}

/// The reader agrees with splitting on commas and looking each name up.
#[test]
fn lists_read_as_split_and_looked_up() {
    let words = ["init", "output", "resize", "snapshot", "", "bogus", "in it"];
    for a in words {
        for b in words {
            for c in words {
                for text in [format!("{}", a), format!("{},{}", a, b), format!("{},{},{}", a, b, c)] {
                    let mut expected = Ok(Subscription::none());
                    for (index, name) in text.split(',').enumerate() {
                        expected = match (expected, event_kind(name.as_bytes())) {
                            (Ok(s), Some(kind)) => Ok(s.including(kind)),
                            (Ok(_), None) => Err(InvalidEventName { index }),
                            (failed, _) => failed,
                        };
                    }
                    assert_eq!(Subscription::parse(&text), expected, "{:?}", text);
                }
            }
        }
    }
}
