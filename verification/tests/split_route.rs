use shared::split_route::{routing_rules, SplitRouteRules};
use std::str::FromStr;

#[test]
fn labels_round_trip() {
    for r in [SplitRouteRules::Ru, SplitRouteRules::Eu] {
        assert_eq!(SplitRouteRules::parse(r.as_ref()), r);
    }
    assert_eq!(SplitRouteRules::Ru.as_ref(), "Россия");
    assert_eq!(SplitRouteRules::Eu.as_ref(), "Европа");
    assert_eq!(SplitRouteRules::SPEC, ["Россия", "Европа"]);
}

#[test]
fn unknown_labels_select_russia() {
    assert_eq!(SplitRouteRules::parse("Европа"), SplitRouteRules::Eu);
    assert_eq!(SplitRouteRules::parse("europe"), SplitRouteRules::Ru);
    assert_eq!(SplitRouteRules::parse(""), SplitRouteRules::Ru);
    assert_eq!(SplitRouteRules::from_str("Европа"), Ok(SplitRouteRules::Eu));
    assert_eq!(SplitRouteRules::from_str("x"), Ok(SplitRouteRules::Ru));
    assert_eq!(SplitRouteRules::default(), SplitRouteRules::Ru);
}

#[test]
fn rule_sets_start_with_local_networks() {
    let local = [
        "IP-CIDR,127.0.0.1/8,DIRECT,no-resolve",
        "IP-CIDR,192.168.0.0/16,DIRECT,no-resolve",
        "IP-CIDR,10.0.0.0/8,DIRECT,no-resolve",
        "IP-CIDR,172.16.0.0/12,DIRECT,no-resolve",
    ];
    let ru = SplitRouteRules::Ru.as_rules();
    let eu = SplitRouteRules::Eu.as_rules();
    assert_eq!(ru.len(), 16);
    assert_eq!(eu.len(), 13);
    assert_eq!(&ru[..4], &local);
    assert_eq!(&eu[..4], &local);
    assert_eq!(ru[4], "GEOIP,RU,DIRECT");
    assert_eq!(ru[15], "GEOSITE,spotify,AUTO");
    assert_eq!(eu[4], "GEOSITE,google,DIRECT");
    assert_eq!(SplitRouteRules::match_rule(), vec!["MATCH,AUTO".to_string()]);
}

#[test]
fn rule_sets_have_no_repeats_and_no_catch_all() {
    for r in [SplitRouteRules::Ru, SplitRouteRules::Eu] {
        let rules = r.as_rules();
        for (i, a) in rules.iter().enumerate() {
            assert!(!a.starts_with("MATCH"));
            for b in &rules[i + 1..] {
                assert_ne!(a, b);
            }
        }
    }
    assert!(SplitRouteRules::Eu.as_rules().iter().all(|x| !x.ends_with(",AUTO")));
    assert!(SplitRouteRules::Ru.as_rules().contains(&"GEOIP,RU,DIRECT".to_string()));
}

#[test]
fn routing_rules_end_with_catch_all() {
    let r = routing_rules(
        vec!["A".to_string(), "B".to_string()],
        vec!["PROCESS-NAME,chrome,PROXY".to_string()],
    );
    assert_eq!(r, vec!["A", "B", "PROCESS-NAME,chrome,PROXY", "MATCH,AUTO"]);
    assert_eq!(routing_rules(Vec::new(), Vec::new()), vec!["MATCH,AUTO"]);
}
