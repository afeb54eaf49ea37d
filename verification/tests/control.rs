use shared::control::{
    after_ip_attempt, after_tun_attempt, connection_subject, connections_paused, monitor_paused,
    observe_connection, rule_notice, should_notify, system_proxy_on, tun_watch, IpReply, IpStep, Observation, TunStep,
    TunWatch,
};
use shared::proxy::{Rule, RuleStore, Target};

fn rule(id: &str, amt: u64, active: bool, ignored: bool) -> Rule {
    Rule { id: id.to_string(), name: id.to_string(), target: Target::App, amt, active, ignored }
}

#[test]
fn tun_switch_is_tried_three_times() {
    assert_eq!(after_tun_attempt(1, true), TunStep::Done);
    assert_eq!(after_tun_attempt(1, false), TunStep::RestartAndRetry);
    assert_eq!(after_tun_attempt(2, false), TunStep::RestartAndRetry);
    assert_eq!(after_tun_attempt(3, false), TunStep::GiveUp);
    assert_eq!(after_tun_attempt(3, true), TunStep::Done);
    assert!(system_proxy_on(true, true));
    assert!(!system_proxy_on(true, false));
    assert!(!system_proxy_on(false, true));
}

#[test]
fn ip_fetch_publishes_trimmed_or_gives_up() {
    assert!(matches!(
        after_ip_attempt(1, IpReply::Body(" 1.2.3.4\n".to_string())),
        IpStep::Publish(ref s) if s == "1.2.3.4"
    ));
    assert!(matches!(after_ip_attempt(1, IpReply::Unreachable), IpStep::Retry));
    assert!(matches!(after_ip_attempt(4, IpReply::BadStatus(503)), IpStep::Retry));
    assert!(matches!(after_ip_attempt(5, IpReply::BadStatus(503)), IpStep::GiveUpStatus(503)));
    assert!(matches!(after_ip_attempt(5, IpReply::Unreachable), IpStep::GiveUpUnreachable));
    assert!(matches!(
        after_ip_attempt(5, IpReply::Body("5.6.7.8".to_string())),
        IpStep::Publish(ref s) if s == "5.6.7.8"
    ));
}

#[test]
fn monitors_pause_when_hidden_or_off() {
    assert!(monitor_paused(false, false));
    assert!(monitor_paused(true, false));
    assert!(monitor_paused(false, true));
    assert!(!monitor_paused(true, true));
    assert!(connections_paused(false, false));
    assert!(!connections_paused(true, false));
    assert!(!connections_paused(false, true));
    assert!(!connections_paused(true, true));
}

#[test]
fn subjects_of_connections_matched_by_a_rule() {
    assert_eq!(
        connection_subject("DomainSuffix", "chrome", "x.com"),
        Some(("chrome".to_string(), Target::App))
    );
    assert_eq!(connection_subject("GeoIP", "", "x.com"), Some(("x.com".to_string(), Target::Host)));
    assert_eq!(connection_subject("Match", "chrome", "x.com"), None);
    assert_eq!(connection_subject("", "chrome", "x.com"), None);
    assert_eq!(connection_subject("DomainSuffix", "", ""), None);
}

#[test]
fn tunnel_supervisor_steps() {
    assert_eq!(tun_watch(false, true, false, false), TunWatch::Pause);
    assert_eq!(tun_watch(true, true, false, false), TunWatch::RestartTunnel);
    assert_eq!(tun_watch(true, true, false, true), TunWatch::Idle);
    assert_eq!(tun_watch(true, false, true, false), TunWatch::RefreshAddress);
    assert_eq!(tun_watch(true, false, false, false), TunWatch::Idle);
}

#[test]
fn notification_counts() {
    for n in [100u64, 500, 1000, 2000, 7000] {
        assert!(should_notify(n), "{n}");
    }
    for n in [0u64, 1, 99, 101, 499, 501, 999, 1500, 1001] {
        assert!(!should_notify(n), "{n}");
    }
}

#[test]
fn observing_connections_learns_and_counts() {
    let mut rules = RuleStore::new();
    assert_eq!(observe_connection(&mut rules, rule("app", 0, true, false)), Observation::Learned);
    let learned = rules.get("app").unwrap();
    assert_eq!(learned.amt, 1);
    assert!(!learned.active);

    for _ in 0..98 {
        assert_eq!(
            observe_connection(&mut rules, rule("app", 0, false, false)),
            Observation::Counted { notify: false }
        );
    }
    assert_eq!(
        observe_connection(&mut rules, rule("app", 0, false, false)),
        Observation::Counted { notify: true }
    );
    assert_eq!(rules.get("app").unwrap().amt, 100);

    rules.upsert(&rule("quiet", 99, false, true));
    assert_eq!(
        observe_connection(&mut rules, rule("quiet", 0, false, false)),
        Observation::Counted { notify: false }
    );
    assert_eq!(rules.get("quiet").unwrap().amt, 100);

    rules.upsert(&rule("on", 5, true, false));
    assert_eq!(observe_connection(&mut rules, rule("on", 0, false, false)), Observation::AlreadyActive);
    assert_eq!(rules.get("on").unwrap().amt, 5);

    rules.upsert(&rule("max", u64::MAX, false, false));
    observe_connection(&mut rules, rule("max", 0, false, false));
    assert_eq!(rules.get("max").unwrap().amt, u64::MAX);
}

#[test]
fn rule_notice_names_the_rule() {
    assert_eq!(rule_notice("chrome"), "Частые запросы к chrome. Настроить правило?");
}
