use shared::prefs::settings::{
    AiMemoryMapModelSetting, AiMemoryMapProviderSetting, AiMemoryMaxMessagesSetting,
    AiMemoryMaxTokensSetting, AiMemoryPolicySetting, AiOllamaUrlSetting, AiProviderSetting,
    AllowLanCapability, AutostartCapability, ChatCapability, FakeIpCapability,
    FindProcessCapability, GatewayCapability, PolicyCapability, SplitRouteCapability,
    SystemProxyCapability, VaultCapability,
};
use shared::prefs::registry::{
    after_change, check_preference, kind_of, registered_settings, AfterChange, CheckKind,
};
use shared::prefs::store::{AppPrefs, PrefsStore};
use shared::prefs::values::PrefError;
use shared::prefs::{Category, Requirement, SettingType};

#[test]
fn admin_only_modules_refuse_without_rights() {
    assert!(GatewayCapability::before_execute(true).is_ok());
    assert!(PolicyCapability::before_execute(true).is_ok());
    assert!(VaultCapability::before_execute(true).is_ok());
    for r in [
        GatewayCapability::before_execute(false),
        PolicyCapability::before_execute(false),
        VaultCapability::before_execute(false),
    ] {
        let e = r.unwrap_err();
        assert!(matches!(e, PrefError::AdminRequired));
        assert_eq!(
            e.message(),
            "Для изменения данной настройки, необходимо обладать правами администратора."
        );
    }
}

#[test]
fn providers_and_models_are_checked() {
    for p in ["gemini", "copilot", "ollama"] {
        assert!(AiProviderSetting::before_execute(p).is_ok());
    }
    let e = AiProviderSetting::before_execute("openai").unwrap_err();
    assert_eq!(e.message(), "Неподдерживаемый AI провайдер: openai");

    assert!(AiMemoryMapProviderSetting::before_execute("ollama").is_ok());
    let e = AiMemoryMapProviderSetting::before_execute("copilot").unwrap_err();
    assert_eq!(e.message(), "Неподдерживаемый провайдер embedding: copilot");

    assert!(AiMemoryMapModelSetting::before_execute("nomic-embed-text").is_ok());
    assert!(AiMemoryMapModelSetting::before_execute("text-embedding-3-large").is_ok());
    let e = AiMemoryMapModelSetting::before_execute("bert").unwrap_err();
    assert_eq!(e.message(), "Неподдерживаемая модель embedding: bert");

    assert!(AiMemoryPolicySetting::before_execute("sliding").is_ok());
    let e = AiMemoryPolicySetting::before_execute("all").unwrap_err();
    assert_eq!(e.message(), "Неподдерживаемая политика памяти: all");
}

#[test]
fn ollama_url_needs_web_scheme() {
    assert!(AiOllamaUrlSetting::before_execute("http://localhost:11434").is_ok());
    assert!(AiOllamaUrlSetting::before_execute("https://x").is_ok());
    let e = AiOllamaUrlSetting::before_execute("localhost:11434").unwrap_err();
    assert!(matches!(e, PrefError::InvalidOllamaUrl));
    assert_eq!(e.message(), "Ollama URL должен начинаться с http:// или https://");
}

#[test]
fn token_budget_bounds() {
    assert!(AiMemoryMaxTokensSetting::before_execute("1024").is_ok());
    assert!(AiMemoryMaxTokensSetting::before_execute(" 1000000 ").is_ok());
    let e = AiMemoryMaxTokensSetting::before_execute("1023").unwrap_err();
    assert!(matches!(e, PrefError::TokenBudgetOutOfRange));
    assert_eq!(e.message(), "Бюджет токенов должен быть от 1024 до 1000000");
    let e = AiMemoryMaxTokensSetting::before_execute("1000001").unwrap_err();
    assert!(matches!(e, PrefError::TokenBudgetOutOfRange));
    let e = AiMemoryMaxTokensSetting::before_execute("lots").unwrap_err();
    assert_eq!(e.message(), "Бюджет токенов должен быть целым числом: lots");
    let e = AiMemoryMaxTokensSetting::before_execute("99999999999").unwrap_err();
    assert!(matches!(e, PrefError::TokenBudgetNotInteger(ref v) if v == "99999999999"));
}

#[test]
fn message_count_bounds() {
    assert!(AiMemoryMaxMessagesSetting::before_execute("1").is_ok());
    assert!(AiMemoryMaxMessagesSetting::before_execute("100").is_ok());
    let e = AiMemoryMaxMessagesSetting::before_execute("0").unwrap_err();
    assert!(matches!(e, PrefError::MessageCountOutOfRange));
    assert_eq!(e.message(), "Количество сообщений должно быть от 1 до 100");
    let e = AiMemoryMaxMessagesSetting::before_execute("-5").unwrap_err();
    assert!(matches!(e, PrefError::MessageCountOutOfRange));
    let e = AiMemoryMaxMessagesSetting::before_execute("2.5").unwrap_err();
    assert_eq!(e.message(), "Количество сообщений должно быть целым числом: 2.5");
}

#[test]
fn network_modes_round_trip() {
    assert_eq!(FakeIpCapability::mode("true").unwrap(), "fake-ip");
    assert_eq!(FakeIpCapability::mode("false").unwrap(), "redir-host");
    let e = FakeIpCapability::mode("yes").unwrap_err();
    assert!(matches!(e, PrefError::InvalidFlag));
    assert_eq!(e.message(), "provided string was not `true` or `false`");
    assert_eq!(FakeIpCapability::state("fake-ip"), "true");
    assert_eq!(FakeIpCapability::state("redir-host"), "false");
    assert_eq!(FindProcessCapability::mode("true").unwrap(), "always");
    assert_eq!(FindProcessCapability::mode("false").unwrap(), "strict");
    assert!(matches!(FindProcessCapability::mode("1"), Err(PrefError::InvalidFlag)));
    assert_eq!(FindProcessCapability::state("always"), "true");
    assert_eq!(FindProcessCapability::state("off"), "false");
    for b in ["true", "false"] {
        assert_eq!(FakeIpCapability::state(&FakeIpCapability::mode(b).unwrap()), b);
        assert_eq!(FindProcessCapability::state(&FindProcessCapability::mode(b).unwrap()), b);
    }
    assert!(AllowLanCapability::enabled("true").unwrap());
    assert!(!AllowLanCapability::enabled("false").unwrap());
    assert!(matches!(AllowLanCapability::enabled("TRUE"), Err(PrefError::InvalidFlag)));
    assert_eq!(AllowLanCapability::state(true), "true");
    assert!(AutostartCapability::wanted("true"));
    assert_eq!(AutostartCapability::state(false), "false");
    assert!(SystemProxyCapability::wanted("true"));
    assert!(!SystemProxyCapability::wanted("1"));
}

#[test]
fn setting_metadata() {
    let m = ChatCapability::meta();
    assert_eq!(m.id, ChatCapability::ID);
    assert_eq!(m.id, "module.ai");
    assert_eq!(m.category, Category::Modules);
    assert_eq!(m.requirements, vec![Requirement::Restart]);
    assert_eq!(m.default_value, "false");

    let g = GatewayCapability::meta();
    assert_eq!(g.requirements, vec![Requirement::Restart, Requirement::Admin]);
    assert_eq!(g.default_value, "true");

    let t = AiMemoryMaxTokensSetting::meta();
    assert!(matches!(t.setting_type, SettingType::NumberInput { min: 1024, max: 1000000 }));
    assert_eq!(t.default_value, "32000");
    assert_eq!(AiMemoryMaxMessagesSetting::meta().default_value, "20");

    let s = SplitRouteCapability::meta();
    assert_eq!(s.id, "network.split_routing");
    assert_eq!(s.default_value, "Россия");
    assert!(matches!(s.setting_type, SettingType::Select(ref o) if o == &vec!["Россия", "Европа"]));

    let p = AiProviderSetting::meta();
    assert!(matches!(p.setting_type, SettingType::Select(ref o) if o.len() == 3));
    assert_eq!(FakeIpCapability::meta().default_value, "true");
    assert_eq!(AllowLanCapability::meta().id, "module.allow_lan");
    let lan = AllowLanCapability::meta();
    assert_eq!(lan.title, "Поддержка LAN (WSL/Docker)");
    assert_eq!(lan.tags, vec!["wsl", "docker", "lan", "локальная сеть", "виртуальная машина"]);
    assert_eq!(FakeIpCapability::meta().description, "Перехват DNS-запросов на уровне TUN");
    assert_eq!(SystemProxyCapability::meta().category, Category::System);
}

#[test]
fn store_reads_back_and_toggles() {
    let mut store = PrefsStore::new();
    assert!(store.get("k").is_none());
    assert!(!store.get_into_bool("k"));
    assert_eq!(store.toggled_value("k"), "true");
    store.save("k", AppPrefs::new("k", "true"));
    assert!(store.get_into_bool("k"));
    assert_eq!(store.get("k").unwrap().value, "true");
    let t = store.toggled_value("k");
    assert_eq!(t, "false");
    store.save("k", AppPrefs::new("k", &t));
    assert!(!store.get_into_bool("k"));
    assert!(AppPrefs::new("x", "true").as_bool());
    assert!(!AppPrefs::new("x", "no").as_bool());
}

#[test]
fn sync_prefers_reported_state() {
    let mut store = PrefsStore::new();
    store.sync_preference("a", "false", None);
    assert_eq!(store.get("a").unwrap().value, "false");
    store.sync_preference("a", "false", Some("true".to_string()));
    assert_eq!(store.get("a").unwrap().value, "true");
    store.sync_preference("a", "false", None);
    assert_eq!(store.get("a").unwrap().value, "true");
    store.sync_preference("b", "x", Some("y".to_string()));
    assert_eq!(store.get("b").unwrap().value, "y");
    store.sync_preference("b", "x", Some("y".to_string()));
    assert_eq!(store.get("b").unwrap().value, "y");
    assert_eq!(store.get("a").unwrap().value, "true");
}

#[test]
fn preference_checks_by_key() {
    assert!(check_preference("module.gateway", "true", true).is_ok());
    assert!(matches!(
        check_preference("module.vault", "true", false),
        Err(PrefError::AdminRequired)
    ));
    assert!(matches!(
        check_preference("module.policies", "false", false),
        Err(PrefError::AdminRequired)
    ));
    assert!(matches!(
        check_preference("network.fake_ip", "anything", false),
        Err(PrefError::InvalidFlag)
    ));
    assert!(check_preference("network.fake_ip", "false", false).is_ok());
    assert!(matches!(
        check_preference("module.allow_lan", "yes", true),
        Err(PrefError::InvalidFlag)
    ));
    assert!(check_preference("system.autostart", "anything", false).is_ok());
    assert!(check_preference("network.split_routing", "Европа", false).is_ok());
    assert_eq!(kind_of("network.find_process"), CheckKind::Flag);
    for key in ["ai.provider", "ai.model", "ai.memory.max_tokens", "module.ai", "no.such.key", ""] {
        let e = check_preference(key, "gemini", true).unwrap_err();
        assert!(matches!(e, PrefError::UnknownSetting), "{key}");
        assert_eq!(e.message(), "Настройка не найдена в реестре");
        assert_eq!(kind_of(key), CheckKind::Unknown);
    }
}

#[test]
fn checked_keys_are_the_registered_ones() {
    for m in registered_settings() {
        assert_ne!(kind_of(m.id), CheckKind::Unknown, "{}", m.id);
    }
}

#[test]
fn what_follows_a_change() {
    assert_eq!(after_change("module.gateway"), AfterChange::RestartNotice);
    assert_eq!(after_change("module.ai"), AfterChange::Nothing);
    assert_eq!(after_change("network.fake_ip"), AfterChange::ReloadCore { apply: true });
    assert_eq!(after_change("network.system_proxy"), AfterChange::ReloadCore { apply: false });
    assert_eq!(after_change("network.split_routing"), AfterChange::RestartWarning);
    assert_eq!(after_change("system.autostart"), AfterChange::Nothing);
}

#[test]
fn registered_setting_keys() {
    let ids: Vec<&str> = registered_settings().iter().map(|m| m.id).collect();
    assert_eq!(
        ids,
        vec![
            GatewayCapability::ID,
            PolicyCapability::ID,
            VaultCapability::ID,
            AutostartCapability::ID,
            AllowLanCapability::ID,
            FakeIpCapability::ID,
            FindProcessCapability::ID,
            SystemProxyCapability::ID,
            SplitRouteCapability::ID,
        ]
    );
}
