use shared::alert::{Alert, Severity};

#[test]
fn alerts_carry_message_and_severity() {
    let cases = [
        (Alert::info("i".to_string()), Severity::Info, "i"),
        (Alert::error("e".to_string()), Severity::Error, "e"),
        (Alert::warning("w".to_string()), Severity::Warning, "w"),
        (Alert::ok("done".to_string()), Severity::Success, "done"),
    ];
    for (a, s, m) in cases.iter() {
        assert_eq!(a.severity(), *s);
        assert_eq!(a.message(), *m);
    }
    assert!(matches!(cases[3].0, Alert::Success { .. }));
}

#[test]
fn alerts_get_distinct_random_ids() {
    let a = Alert::info("x".to_string());
    let b = Alert::info("x".to_string());
    assert_ne!(a.id(), b.id());
    assert_eq!(a.id().get_version_num(), 4);
    assert_ne!(a.id(), uuid::Uuid::nil());
    match &a {
        Alert::Info { id, .. } => assert_eq!(*id, a.id()),
        _ => panic!("not info"),
    }
}
