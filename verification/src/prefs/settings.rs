//! The settings of the application and of the assistant, with what each
//! is and how it is shown.

use vstd::prelude::*;
use crate::prefs::{Category, Requirement, SettingMeta, SettingType, strs};
use crate::split_route::SplitRouteRules;

verus! {

/// Whether the assistant chat section is shown.
pub struct ChatCapability;

impl ChatCapability {
    /// The key of the setting.
    pub const ID: &'static str = "module.ai";

    /// What the setting is and how it is shown.
    pub fn meta() -> (m: SettingMeta)
        ensures
            m.id@ == "module.ai"@,
            m.title@ == "AI Чат"@,
            m.description@ == "Отображать раздел AI-чата в приложении"@,
            strs(m.tags@) == seq!["ai"@, "chat"@, "ассистент"@, "модуль"@],
            m.category == Category::Modules,
            m.setting_type is Toggle,
            m.requirements@ == seq![Requirement::Restart],
            m.default_value@ == "false"@,
    {
        SettingMeta {
            id: Self::ID,
            title: "AI Чат",
            description: "Отображать раздел AI-чата в приложении",
            tags: vec!["ai", "chat", "ассистент", "модуль"],
            category: Category::Modules,
            setting_type: SettingType::Toggle,
            requirements: vec![Requirement::Restart],
            default_value: "false",
        }
    }
}

/// The model provider of the assistant.
pub struct AiProviderSetting;

impl AiProviderSetting {
    /// The key of the setting.
    pub const ID: &'static str = "ai.provider";

    /// What the setting is and how it is shown.
    pub fn meta() -> (m: SettingMeta)
        ensures
            m.id@ == "ai.provider"@,
            m.title@ == "AI Провайдер"@,
            m.description@ == "Провайдер модели для AI-чата"@,
            strs(m.tags@) == seq!["ai"@, "provider"@, "gemini"@, "copilot"@, "ollama"@],
            m.category == Category::Advanced,
            m.setting_type matches SettingType::Select(o) && strs(o@) == seq!["gemini"@, "copilot"@, "ollama"@],
            m.requirements@ == Seq::<Requirement>::empty(),
            m.default_value@ == "gemini"@,
    {
        SettingMeta {
            id: Self::ID,
            title: "AI Провайдер",
            description: "Провайдер модели для AI-чата",
            tags: vec!["ai", "provider", "gemini", "copilot", "ollama"],
            category: Category::Advanced,
            setting_type: SettingType::Select(vec!["gemini", "copilot", "ollama"]),
            requirements: Vec::new(),
            default_value: "gemini",
        }
    }
}

/// The model of the selected provider.
pub struct AiModelSetting;

impl AiModelSetting {
    /// The key of the setting.
    pub const ID: &'static str = "ai.model";

    /// What the setting is and how it is shown.
    pub fn meta() -> (m: SettingMeta)
        ensures
            m.id@ == "ai.model"@,
            m.title@ == "AI Модель"@,
            m.description@ == "Модель для выбранного AI-провайдера"@,
            strs(m.tags@) == seq!["ai"@, "model"@, "llm"@],
            m.category == Category::Advanced,
            m.setting_type is TextInput,
            m.requirements@ == Seq::<Requirement>::empty(),
            m.default_value@ == "gemini-2.5-flash"@,
    {
        SettingMeta {
            id: Self::ID,
            title: "AI Модель",
            description: "Модель для выбранного AI-провайдера",
            tags: vec!["ai", "model", "llm"],
            category: Category::Advanced,
            setting_type: SettingType::TextInput,
            requirements: Vec::new(),
            default_value: "gemini-2.5-flash",
        }
    }
}

/// The Google Gemini API key.
pub struct AiGeminiKeySetting;

impl AiGeminiKeySetting {
    /// The key of the setting.
    pub const ID: &'static str = "ai.api_key.gemini";

    /// What the setting is and how it is shown.
    pub fn meta() -> (m: SettingMeta)
        ensures
            m.id@ == "ai.api_key.gemini"@,
            m.title@ == "Gemini API Key"@,
            m.description@ == "API-ключ Google Gemini"@,
            strs(m.tags@) == seq!["ai"@, "gemini"@, "api"@, "key"@],
            m.category == Category::Advanced,
            m.setting_type is TextInput,
            m.requirements@ == Seq::<Requirement>::empty(),
            m.default_value@ == ""@,
    {
        SettingMeta {
            id: Self::ID,
            title: "Gemini API Key",
            description: "API-ключ Google Gemini",
            tags: vec!["ai", "gemini", "api", "key"],
            category: Category::Advanced,
            setting_type: SettingType::TextInput,
            requirements: Vec::new(),
            default_value: "",
        }
    }
}

/// The GitHub Copilot API key.
pub struct AiCopilotKeySetting;

impl AiCopilotKeySetting {
    /// The key of the setting.
    pub const ID: &'static str = "ai.api_key.copilot";

    /// What the setting is and how it is shown.
    pub fn meta() -> (m: SettingMeta)
        ensures
            m.id@ == "ai.api_key.copilot"@,
            m.title@ == "Copilot API Key"@,
            m.description@ == "API-ключ GitHub Copilot"@,
            strs(m.tags@) == seq!["ai"@, "copilot"@, "api"@, "key"@],
            m.category == Category::Advanced,
            m.setting_type is TextInput,
            m.requirements@ == Seq::<Requirement>::empty(),
            m.default_value@ == ""@,
    {
        SettingMeta {
            id: Self::ID,
            title: "Copilot API Key",
            description: "API-ключ GitHub Copilot",
            tags: vec!["ai", "copilot", "api", "key"],
            category: Category::Advanced,
            setting_type: SettingType::TextInput,
            requirements: Vec::new(),
            default_value: "",
        }
    }
}

/// The key of the web search service.
pub struct AiTavilyKeySetting;

impl AiTavilyKeySetting {
    /// The key of the setting.
    pub const ID: &'static str = "ai.api_key.tavily";

    /// What the setting is and how it is shown.
    pub fn meta() -> (m: SettingMeta)
        ensures
            m.id@ == "ai.api_key.tavily"@,
            m.title@ == "Tavily API Key"@,
            m.description@ == "API-ключ Tavily для веб-поиска"@,
            strs(m.tags@) == seq!["ai"@, "tavily"@, "api"@, "key"@, "search"@],
            m.category == Category::Advanced,
            m.setting_type is TextInput,
            m.requirements@ == seq![Requirement::Restart],
            m.default_value@ == ""@,
    {
        SettingMeta {
            id: Self::ID,
            title: "Tavily API Key",
            description: "API-ключ Tavily для веб-поиска",
            tags: vec!["ai", "tavily", "api", "key", "search"],
            category: Category::Advanced,
            setting_type: SettingType::TextInput,
            requirements: vec![Requirement::Restart],
            default_value: "",
        }
    }
}

/// The base address of a local Ollama server.
pub struct AiOllamaUrlSetting;

impl AiOllamaUrlSetting {
    /// The key of the setting.
    pub const ID: &'static str = "ai.ollama.base_url";

    /// What the setting is and how it is shown.
    pub fn meta() -> (m: SettingMeta)
        ensures
            m.id@ == "ai.ollama.base_url"@,
            m.title@ == "Ollama Base URL"@,
            m.description@ == "Базовый URL Ollama (например http://localhost:11434)"@,
            strs(m.tags@) == seq!["ai"@, "ollama"@, "url"@, "base_url"@],
            m.category == Category::Advanced,
            m.setting_type is TextInput,
            m.requirements@ == Seq::<Requirement>::empty(),
            m.default_value@ == "http://localhost:11434"@,
    {
        SettingMeta {
            id: Self::ID,
            title: "Ollama Base URL",
            description: "Базовый URL Ollama (например http://localhost:11434)",
            tags: vec!["ai", "ollama", "url", "base_url"],
            category: Category::Advanced,
            setting_type: SettingType::TextInput,
            requirements: Vec::new(),
            default_value: "http://localhost:11434",
        }
    }
}

/// Whether semantic search over the saved history is on.
pub struct AiMemoryMapEnabledSetting;

impl AiMemoryMapEnabledSetting {
    /// The key of the setting.
    pub const ID: &'static str = "ai.memory_map.enabled";

    /// What the setting is and how it is shown.
    pub fn meta() -> (m: SettingMeta)
        ensures
            m.id@ == "ai.memory_map.enabled"@,
            m.title@ == "Карта памяти"@,
            m.description@ == "Включить семантический поиск по сохранённым фрагментам истории через embedding-модель."@,
            strs(m.tags@) == seq!["ai"@, "memory"@, "map"@, "embedding"@, "поиск"@],
            m.category == Category::Advanced,
            m.setting_type is Toggle,
            m.requirements@ == seq![Requirement::Restart],
            m.default_value@ == "false"@,
    {
        SettingMeta {
            id: Self::ID,
            title: "Карта памяти",
            description: "Включить семантический поиск по сохранённым фрагментам истории через embedding-модель.",
            tags: vec!["ai", "memory", "map", "embedding", "поиск"],
            category: Category::Advanced,
            setting_type: SettingType::Toggle,
            requirements: vec![Requirement::Restart],
            default_value: "false",
        }
    }
}

/// The embedding provider of the memory map.
pub struct AiMemoryMapProviderSetting;

impl AiMemoryMapProviderSetting {
    /// The key of the setting.
    pub const ID: &'static str = "ai.memory_map.embedding.provider";

    /// What the setting is and how it is shown.
    pub fn meta() -> (m: SettingMeta)
        ensures
            m.id@ == "ai.memory_map.embedding.provider"@,
            m.title@ == "Провайдер embedding для карты памяти"@,
            m.description@ == "Провайдер, который будет использоваться для семантического поиска по памяти."@,
            strs(m.tags@) == seq!["ai"@, "memory"@, "embedding"@, "provider"@, "поиск"@],
            m.category == Category::Advanced,
            m.setting_type matches SettingType::Select(o) && strs(o@) == seq!["gemini"@, "ollama"@],
            m.requirements@ == seq![Requirement::Restart],
            m.default_value@ == "gemini"@,
    {
        SettingMeta {
            id: Self::ID,
            title: "Провайдер embedding для карты памяти",
            description: "Провайдер, который будет использоваться для семантического поиска по памяти.",
            tags: vec!["ai", "memory", "embedding", "provider", "поиск"],
            category: Category::Advanced,
            setting_type: SettingType::Select(vec!["gemini", "ollama"]),
            requirements: vec![Requirement::Restart],
            default_value: "gemini",
        }
    }
}

/// The embedding model of the memory map.
pub struct AiMemoryMapModelSetting;

impl AiMemoryMapModelSetting {
    /// The key of the setting.
    pub const ID: &'static str = "ai.memory_map.embedding.model";

    /// What the setting is and how it is shown.
    pub fn meta() -> (m: SettingMeta)
        ensures
            m.id@ == "ai.memory_map.embedding.model"@,
            m.title@ == "Модель embedding для карты памяти"@,
            m.description@ == "Модель embedding, которая будет использоваться для поиска по карте памяти."@,
            strs(m.tags@) == seq!["ai"@, "memory"@, "embedding"@, "model"@, "поиск"@],
            m.category == Category::Advanced,
            m.setting_type matches SettingType::Select(o) && strs(o@) == seq!["gemini-embedding-001"@, "text-embedding-004"@, "text-embedding-3-small"@, "text-embedding-3-large"@, "all-minilm"@, "nomic-embed-text"@],
            m.requirements@ == seq![Requirement::Restart],
            m.default_value@ == "gemini-embedding-001"@,
    {
        SettingMeta {
            id: Self::ID,
            title: "Модель embedding для карты памяти",
            description: "Модель embedding, которая будет использоваться для поиска по карте памяти.",
            tags: vec!["ai", "memory", "embedding", "model", "поиск"],
            category: Category::Advanced,
            setting_type: SettingType::Select(vec!["gemini-embedding-001", "text-embedding-004", "text-embedding-3-small", "text-embedding-3-large", "all-minilm", "nomic-embed-text"]),
            requirements: vec![Requirement::Restart],
            default_value: "gemini-embedding-001",
        }
    }
}

/// How the dialogue history is cut before it is sent.
pub struct AiMemoryPolicySetting;

impl AiMemoryPolicySetting {
    /// The key of the setting.
    pub const ID: &'static str = "ai.memory.policy";

    /// What the setting is and how it is shown.
    pub fn meta() -> (m: SettingMeta)
        ensures
            m.id@ == "ai.memory.policy"@,
            m.title@ == "Политика памяти"@,
            m.description@ == "Как обрезать историю диалога перед отправкой модели: none — отправлять целиком, token — в рамках бюджета токенов, sliding — последние N сообщений"@,
            strs(m.tags@) == seq!["ai"@, "memory"@, "память"@, "context"@, "контекст"@],
            m.category == Category::Advanced,
            m.setting_type matches SettingType::Select(o) && strs(o@) == seq!["none"@, "token"@, "sliding"@],
            m.requirements@ == Seq::<Requirement>::empty(),
            m.default_value@ == "token"@,
    {
        SettingMeta {
            id: Self::ID,
            title: "Политика памяти",
            description: "Как обрезать историю диалога перед отправкой модели: none — отправлять целиком, token — в рамках бюджета токенов, sliding — последние N сообщений",
            tags: vec!["ai", "memory", "память", "context", "контекст"],
            category: Category::Advanced,
            setting_type: SettingType::Select(vec!["none", "token", "sliding"]),
            requirements: Vec::new(),
            default_value: "token",
        }
    }
}

/// The token budget of the history.
pub struct AiMemoryMaxTokensSetting;

impl AiMemoryMaxTokensSetting {
    /// The key of the setting.
    pub const ID: &'static str = "ai.memory.max_tokens";

    /// What the setting is and how it is shown.
    pub fn meta() -> (m: SettingMeta)
        ensures
            m.id@ == "ai.memory.max_tokens"@,
            m.title@ == "Бюджет токенов памяти"@,
            m.description@ == "Сколько токенов истории отправлять модели при политике «token». Старые сообщения остаются в чате, но выпадают из контекста"@,
            strs(m.tags@) == seq!["ai"@, "memory"@, "память"@, "tokens"@, "токены"@],
            m.category == Category::Advanced,
            m.setting_type == (SettingType::NumberInput { min: 1024, max: 1000000 }),
            m.requirements@ == Seq::<Requirement>::empty(),
            m.default_value@ == "32000"@,
    {
        SettingMeta {
            id: Self::ID,
            title: "Бюджет токенов памяти",
            description: "Сколько токенов истории отправлять модели при политике «token». Старые сообщения остаются в чате, но выпадают из контекста",
            tags: vec!["ai", "memory", "память", "tokens", "токены"],
            category: Category::Advanced,
            setting_type: SettingType::NumberInput { min: 1024, max: 1000000 },
            requirements: Vec::new(),
            default_value: "32000",
        }
    }
}

/// The number of recent messages sent.
pub struct AiMemoryMaxMessagesSetting;

impl AiMemoryMaxMessagesSetting {
    /// The key of the setting.
    pub const ID: &'static str = "ai.memory.max_messages";

    /// What the setting is and how it is shown.
    pub fn meta() -> (m: SettingMeta)
        ensures
            m.id@ == "ai.memory.max_messages"@,
            m.title@ == "Окно сообщений памяти"@,
            m.description@ == "Сколько последних сообщений отправлять модели при политике «sliding». Старые сообщения остаются в чате, но выпадают из контекста"@,
            strs(m.tags@) == seq!["ai"@, "memory"@, "память"@, "messages"@, "сообщения"@],
            m.category == Category::Advanced,
            m.setting_type == (SettingType::NumberInput { min: 1, max: 100 }),
            m.requirements@ == Seq::<Requirement>::empty(),
            m.default_value@ == "20"@,
    {
        SettingMeta {
            id: Self::ID,
            title: "Окно сообщений памяти",
            description: "Сколько последних сообщений отправлять модели при политике «sliding». Старые сообщения остаются в чате, но выпадают из контекста",
            tags: vec!["ai", "memory", "память", "messages", "сообщения"],
            category: Category::Advanced,
            setting_type: SettingType::NumberInput { min: 1, max: 100 },
            requirements: Vec::new(),
            default_value: "20",
        }
    }
}

/// Whether the gateway section is shown.
pub struct GatewayCapability;

impl GatewayCapability {
    /// The key of the setting.
    pub const ID: &'static str = "module.gateway";

    /// What the setting is and how it is shown.
    pub fn meta() -> (m: SettingMeta)
        ensures
            m.id@ == "module.gateway"@,
            m.title@ == "Прокси"@,
            m.description@ == "Отображать раздел управления шлюзом в боковом меню"@,
            strs(m.tags@) == seq!["proxy"@, "gateway"@, "шлюз"@, "прокси"@, "интерфейс"@, "модуль"@],
            m.category == Category::Modules,
            m.setting_type is Toggle,
            m.requirements@ == seq![Requirement::Restart, Requirement::Admin],
            m.default_value@ == "true"@,
    {
        SettingMeta {
            id: Self::ID,
            title: "Прокси",
            description: "Отображать раздел управления шлюзом в боковом меню",
            tags: vec!["proxy", "gateway", "шлюз", "прокси", "интерфейс", "модуль"],
            category: Category::Modules,
            setting_type: SettingType::Toggle,
            requirements: vec![Requirement::Restart, Requirement::Admin],
            default_value: "true",
        }
    }
}

/// Whether the policy section is shown.
pub struct PolicyCapability;

impl PolicyCapability {
    /// The key of the setting.
    pub const ID: &'static str = "module.policies";

    /// What the setting is and how it is shown.
    pub fn meta() -> (m: SettingMeta)
        ensures
            m.id@ == "module.policies"@,
            m.title@ == "Политики"@,
            m.description@ == "Отображать раздел управления политиками в боковом меню"@,
            strs(m.tags@) == seq!["policy"@, "политики"@, "интерфейс"@, "модуль"@],
            m.category == Category::Modules,
            m.setting_type is Toggle,
            m.requirements@ == seq![Requirement::Restart, Requirement::Admin],
            m.default_value@ == "true"@,
    {
        SettingMeta {
            id: Self::ID,
            title: "Политики",
            description: "Отображать раздел управления политиками в боковом меню",
            tags: vec!["policy", "политики", "интерфейс", "модуль"],
            category: Category::Modules,
            setting_type: SettingType::Toggle,
            requirements: vec![Requirement::Restart, Requirement::Admin],
            default_value: "true",
        }
    }
}

/// Whether the Vault section is on.
pub struct VaultCapability;

impl VaultCapability {
    /// The key of the setting.
    pub const ID: &'static str = "module.vault";

    /// What the setting is and how it is shown.
    pub fn meta() -> (m: SettingMeta)
        ensures
            m.id@ == "module.vault"@,
            m.title@ == "Хранилище"@,
            m.description@ == "Включить модуль интеграции с HashiCorp Vault для управления секретами"@,
            strs(m.tags@) == seq!["vault"@, "секреты"@, "пароли"@, "хранилище"@, "интерфейс"@, "модуль"@],
            m.category == Category::Modules,
            m.setting_type is Toggle,
            m.requirements@ == seq![Requirement::Restart, Requirement::Admin],
            m.default_value@ == "false"@,
    {
        SettingMeta {
            id: Self::ID,
            title: "Хранилище",
            description: "Включить модуль интеграции с HashiCorp Vault для управления секретами",
            tags: vec!["vault", "секреты", "пароли", "хранилище", "интерфейс", "модуль"],
            category: Category::Modules,
            setting_type: SettingType::Toggle,
            requirements: vec![Requirement::Restart, Requirement::Admin],
            default_value: "false",
        }
    }
}

/// Whether devices of the local network may use the proxy.
pub struct AllowLanCapability;

impl AllowLanCapability {
    /// The key of the setting.
    pub const ID: &'static str = "module.allow_lan";

    /// What the setting is and how it is shown.
    pub fn meta() -> (m: SettingMeta)
        ensures
            m.id@ == "module.allow_lan"@,
            m.title@ == "Поддержка LAN (WSL/Docker)"@,
            m.description@ == "Разрешить устройствам в локальной сети и виртуальным машинам использовать прокси."@,
            strs(m.tags@) == seq!["wsl"@, "docker"@, "lan"@, "локальная сеть"@, "виртуальная машина"@],
            m.category == Category::Network,
            m.setting_type is Toggle,
            m.requirements@ == seq![Requirement::CoreReload],
            m.default_value@ == "false"@,
    {
        SettingMeta {
            id: Self::ID,
            title: "Поддержка LAN (WSL/Docker)",
            description: "Разрешить устройствам в локальной сети и виртуальным машинам использовать прокси.",
            tags: vec!["wsl", "docker", "lan", "локальная сеть", "виртуальная машина"],
            category: Category::Network,
            setting_type: SettingType::Toggle,
            requirements: vec![Requirement::CoreReload],
            default_value: "false",
        }
    }
}

/// Whether DNS queries are answered with fake addresses.
pub struct FakeIpCapability;

impl FakeIpCapability {
    /// The key of the setting.
    pub const ID: &'static str = "network.fake_ip";

    /// What the setting is and how it is shown.
    pub fn meta() -> (m: SettingMeta)
        ensures
            m.id@ == "network.fake_ip"@,
            m.title@ == "Fake-IP DNS"@,
            m.description@ == "Перехват DNS-запросов на уровне TUN"@,
            strs(m.tags@) == seq!["fake"@, "ip"@, "dns"@, "днс"@, "фейк"@],
            m.category == Category::Network,
            m.setting_type is Toggle,
            m.requirements@ == seq![Requirement::CoreReload],
            m.default_value@ == "true"@,
    {
        SettingMeta {
            id: Self::ID,
            title: "Fake-IP DNS",
            description: "Перехват DNS-запросов на уровне TUN",
            tags: vec!["fake", "ip", "dns", "днс", "фейк"],
            category: Category::Network,
            setting_type: SettingType::Toggle,
            requirements: vec![Requirement::CoreReload],
            default_value: "true",
        }
    }
}

/// Whether the process behind each request is looked up.
pub struct FindProcessCapability;

impl FindProcessCapability {
    /// The key of the setting.
    pub const ID: &'static str = "network.find_process";

    /// What the setting is and how it is shown.
    pub fn meta() -> (m: SettingMeta)
        ensures
            m.id@ == "network.find_process"@,
            m.title@ == "Журнал процессов"@,
            m.description@ == "Определять приложение, создавшее запрос"@,
            strs(m.tags@) == seq!["find"@, "process"@, "процессы"@, "журнал"@],
            m.category == Category::Network,
            m.setting_type is Toggle,
            m.requirements@ == seq![Requirement::CoreReload],
            m.default_value@ == "false"@,
    {
        SettingMeta {
            id: Self::ID,
            title: "Журнал процессов",
            description: "Определять приложение, создавшее запрос",
            tags: vec!["find", "process", "процессы", "журнал"],
            category: Category::Network,
            setting_type: SettingType::Toggle,
            requirements: vec![Requirement::CoreReload],
            default_value: "false",
        }
    }
}

/// Which regional rule set is installed.
pub struct SplitRouteCapability;

impl SplitRouteCapability {
    /// The key of the setting.
    pub const ID: &'static str = "network.split_routing";

    /// What the setting is and how it is shown.
    pub fn meta() -> (m: SettingMeta)
        ensures
            m.id@ == "network.split_routing"@,
            m.title@ == "Пакет роутинга"@,
            m.description@ == "Определяет какой список изначальных правил установлен в приложении."@,
            strs(m.tags@) == seq!["split"@, "routing"@, "маршрут"@, "раздельно"@],
            m.category == Category::Network,
            m.setting_type matches SettingType::Select(o) && strs(o@) == seq!["Россия"@, "Европа"@],
            m.requirements@ == seq![Requirement::Restart],
            m.default_value@ == "Россия"@,
    {
        SettingMeta {
            id: Self::ID,
            title: "Пакет роутинга",
            description: "Определяет какой список изначальных правил установлен в приложении.",
            tags: vec!["split", "routing", "маршрут", "раздельно"],
            category: Category::Network,
            setting_type: SettingType::Select(vec![SplitRouteRules::SPEC[0], SplitRouteRules::SPEC[1]]),
            requirements: vec![Requirement::Restart],
            default_value: SplitRouteRules::Ru.as_ref(),
        }
    }
}

/// Whether the core starts with the system.
pub struct AutostartCapability;

impl AutostartCapability {
    /// The key of the setting.
    pub const ID: &'static str = "system.autostart";

    /// What the setting is and how it is shown.
    pub fn meta() -> (m: SettingMeta)
        ensures
            m.id@ == "system.autostart"@,
            m.title@ == "Автозапуск"@,
            m.description@ == "Запускать ядро при старте системы"@,
            strs(m.tags@) == seq!["startup"@, "boot"@, "автозагрузка"@, "система"@, "трей"@, "фоновый"@],
            m.category == Category::System,
            m.setting_type is Toggle,
            m.requirements@ == Seq::<Requirement>::empty(),
            m.default_value@ == "false"@,
    {
        SettingMeta {
            id: Self::ID,
            title: "Автозапуск",
            description: "Запускать ядро при старте системы",
            tags: vec!["startup", "boot", "автозагрузка", "система", "трей", "фоновый"],
            category: Category::System,
            setting_type: SettingType::Toggle,
            requirements: Vec::new(),
            default_value: "false",
        }
    }
}

/// Whether the system proxy is set while connected.
pub struct SystemProxyCapability;

impl SystemProxyCapability {
    /// The key of the setting.
    pub const ID: &'static str = "network.system_proxy";

    /// What the setting is and how it is shown.
    pub fn meta() -> (m: SettingMeta)
        ensures
            m.id@ == "network.system_proxy"@,
            m.title@ == "Системный прокси"@,
            m.description@ == "Использовать системный прокси для сетевых запросов"@,
            strs(m.tags@) == seq!["system"@, "proxy"@, "сетевой"@, "прокси"@],
            m.category == Category::System,
            m.setting_type is Toggle,
            m.requirements@ == seq![Requirement::CoreReload],
            m.default_value@ == "false"@,
    {
        SettingMeta {
            id: Self::ID,
            title: "Системный прокси",
            description: "Использовать системный прокси для сетевых запросов",
            tags: vec!["system", "proxy", "сетевой", "прокси"],
            category: Category::System,
            setting_type: SettingType::Toggle,
            requirements: vec![Requirement::CoreReload],
            default_value: "false",
        }
    }
}

} // verus!
