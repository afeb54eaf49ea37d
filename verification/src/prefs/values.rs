//! Which values the settings accept, why a value is refused, and the
//! state that a stored value stands for.

use vstd::prelude::*;
use vstd::string::*;
use crate::prefs::settings::{
    AiMemoryMapModelSetting, AiMemoryMapProviderSetting, AiMemoryMaxMessagesSetting,
    AiMemoryMaxTokensSetting, AiMemoryPolicySetting, AiOllamaUrlSetting, AiProviderSetting,
    AllowLanCapability, AutostartCapability, FakeIpCapability, FindProcessCapability,
    GatewayCapability, PolicyCapability, SystemProxyCapability, VaultCapability,
};
use crate::text::{
    bool_text, bool_text_spec, flag, flag_spec, parse_bool, parse_bool_spec, parse_i32,
    parse_i32_spec, same_text, starts_with, trim, trim_spec,
};

verus! {

/// Why a setting refused a value.
#[derive(Debug)]
pub enum PrefError {
    /// The setting may only be changed with administrator rights.
    AdminRequired,
    /// The model provider named is not supported.
    UnsupportedProvider(String),
    /// The Ollama address does not start with `http://` or `https://`.
    InvalidOllamaUrl,
    /// The embedding provider named is not supported.
    UnsupportedEmbeddingProvider(String),
    /// The embedding model named is not supported.
    UnsupportedEmbeddingModel(String),
    /// The memory policy named is not supported.
    UnsupportedMemoryPolicy(String),
    /// The token budget given is not a whole number.
    TokenBudgetNotInteger(String),
    /// The token budget is outside its bounds.
    TokenBudgetOutOfRange,
    /// The message count given is not a whole number.
    MessageCountNotInteger(String),
    /// The message count is outside its bounds.
    MessageCountOutOfRange,
    /// No setting has the key given.
    UnknownSetting,
    /// A switch was given a value other than `true` or `false`.
    InvalidFlag,
}

/// The message shown for a refused value.
pub open spec fn error_message(e: PrefError) -> Seq<char> {
    match e {
        PrefError::AdminRequired =>
            "Для изменения данной настройки, необходимо обладать правами администратора."@,
        PrefError::UnsupportedProvider(v) => "Неподдерживаемый AI провайдер: "@ + v@,
        PrefError::InvalidOllamaUrl => "Ollama URL должен начинаться с http:// или https://"@,
        PrefError::UnsupportedEmbeddingProvider(v) => "Неподдерживаемый провайдер embedding: "@
            + v@,
        PrefError::UnsupportedEmbeddingModel(v) => "Неподдерживаемая модель embedding: "@ + v@,
        PrefError::UnsupportedMemoryPolicy(v) => "Неподдерживаемая политика памяти: "@ + v@,
        PrefError::TokenBudgetNotInteger(v) => "Бюджет токенов должен быть целым числом: "@
            + v@,
        PrefError::TokenBudgetOutOfRange => "Бюджет токенов должен быть от 1024 до 1000000"@,
        PrefError::MessageCountNotInteger(v) =>
            "Количество сообщений должно быть целым числом: "@ + v@,
        PrefError::MessageCountOutOfRange => "Количество сообщений должно быть от 1 до 100"@,
        PrefError::UnknownSetting => "Настройка не найдена в реестре"@,
        PrefError::InvalidFlag => "provided string was not `true` or `false`"@,
    }
}

/// `head` followed by `tail`.
fn concat_text(head: &str, tail: &str) -> (r: String)
    ensures
        r@ == head@ + tail@,
{
    let mut r = head.to_owned();
    r.append(tail);
    r
}

impl PrefError {
    /// The message shown for the refusal.
    pub fn message(&self) -> (r: String)
        ensures
            r@ == error_message(*self),
    {
        match self {
            PrefError::AdminRequired => {
                "Для изменения данной настройки, необходимо обладать правами администратора.".to_owned()
            },
            PrefError::UnsupportedProvider(v) => concat_text(
                "Неподдерживаемый AI провайдер: ",
                v.as_str(),
            ),
            PrefError::InvalidOllamaUrl => "Ollama URL должен начинаться с http:// или https://".to_owned(),
            PrefError::UnsupportedEmbeddingProvider(v) => concat_text(
                "Неподдерживаемый провайдер embedding: ",
                v.as_str(),
            ),
            PrefError::UnsupportedEmbeddingModel(v) => concat_text(
                "Неподдерживаемая модель embedding: ",
                v.as_str(),
            ),
            PrefError::UnsupportedMemoryPolicy(v) => concat_text(
                "Неподдерживаемая политика памяти: ",
                v.as_str(),
            ),
            PrefError::TokenBudgetNotInteger(v) => concat_text(
                "Бюджет токенов должен быть целым числом: ",
                v.as_str(),
            ),
            PrefError::TokenBudgetOutOfRange => "Бюджет токенов должен быть от 1024 до 1000000".to_owned(),
            PrefError::MessageCountNotInteger(v) => concat_text(
                "Количество сообщений должно быть целым числом: ",
                v.as_str(),
            ),
            PrefError::MessageCountOutOfRange => "Количество сообщений должно быть от 1 до 100".to_owned(),
            PrefError::UnknownSetting => "Настройка не найдена в реестре".to_owned(),
            PrefError::InvalidFlag => "provided string was not `true` or `false`".to_owned(),
        }
    }
}

/// The model providers that the assistant supports.
pub open spec fn provider_ok(s: Seq<char>) -> bool {
    s == "gemini"@ || s == "copilot"@ || s == "ollama"@
}

/// The embedding providers that the memory map supports.
pub open spec fn embedding_provider_ok(s: Seq<char>) -> bool {
    s == "gemini"@ || s == "ollama"@
}

/// The embedding models that the memory map supports.
pub open spec fn embedding_model_ok(s: Seq<char>) -> bool {
    ||| s == "gemini-embedding-001"@
    ||| s == "text-embedding-004"@
    ||| s == "text-embedding-3-small"@
    ||| s == "text-embedding-3-large"@
    ||| s == "all-minilm"@
    ||| s == "nomic-embed-text"@
}

/// The memory policies.
pub open spec fn memory_policy_ok(s: Seq<char>) -> bool {
    s == "none"@ || s == "token"@ || s == "sliding"@
}

/// Whether `s` starts with `p`.
pub open spec fn has_prefix(s: Seq<char>, p: Seq<char>) -> bool {
    p.len() <= s.len() && s.subrange(0, p.len() as int) == p
}

/// A web address that an Ollama server can be reached at.
pub open spec fn ollama_url_ok(s: Seq<char>) -> bool {
    has_prefix(s, "http://"@) || has_prefix(s, "https://"@)
}

/// Whether the number that `new` writes, once trimmed, lies within the
/// bounds: `None` when it writes no `i32` at all.
pub open spec fn bounded_number(new: Seq<char>, lo: int, hi: int) -> Option<bool> {
    match parse_i32_spec(trim_spec(new)) {
        Some(n) => Some(lo <= n <= hi),
        None => None,
    }
}

/// Refusal unless the caller has administrator rights.
fn admin_check(is_admin: bool) -> (r: Result<(), PrefError>)
    ensures
        is_admin ==> r is Ok,
        !is_admin ==> r matches Err(PrefError::AdminRequired),
{
    if !is_admin {
        return Err(PrefError::AdminRequired);
    }
    Ok(())
}

impl GatewayCapability {
    /// Changing the setting needs administrator rights.
    pub fn before_execute(is_admin: bool) -> (r: Result<(), PrefError>)
        ensures
            is_admin ==> r is Ok,
            !is_admin ==> r matches Err(PrefError::AdminRequired),
    {
        admin_check(is_admin)
    }
}

impl PolicyCapability {
    /// Changing the setting needs administrator rights.
    pub fn before_execute(is_admin: bool) -> (r: Result<(), PrefError>)
        ensures
            is_admin ==> r is Ok,
            !is_admin ==> r matches Err(PrefError::AdminRequired),
    {
        admin_check(is_admin)
    }
}

impl VaultCapability {
    /// Changing the setting needs administrator rights.
    pub fn before_execute(is_admin: bool) -> (r: Result<(), PrefError>)
        ensures
            is_admin ==> r is Ok,
            !is_admin ==> r matches Err(PrefError::AdminRequired),
    {
        admin_check(is_admin)
    }
}

impl AiProviderSetting {
    /// Accepts the supported providers only.
    pub fn before_execute(new: &str) -> (r: Result<(), PrefError>)
        ensures
            provider_ok(new@) ==> r is Ok,
            !provider_ok(new@) ==> (r matches Err(PrefError::UnsupportedProvider(v)) && v@ == new@),
    {
        if same_text(new, "gemini") || same_text(new, "copilot") || same_text(new, "ollama") {
            Ok(())
        } else {
            Err(PrefError::UnsupportedProvider(new.to_owned()))
        }
    }
}

impl AiOllamaUrlSetting {
    /// Accepts web addresses only.
    pub fn before_execute(new: &str) -> (r: Result<(), PrefError>)
        ensures
            ollama_url_ok(new@) ==> r is Ok,
            !ollama_url_ok(new@) ==> r matches Err(PrefError::InvalidOllamaUrl),
    {
        if starts_with(new, "http://") || starts_with(new, "https://") {
            Ok(())
        } else {
            Err(PrefError::InvalidOllamaUrl)
        }
    }
}

impl AiMemoryMapProviderSetting {
    /// Accepts the supported embedding providers only.
    pub fn before_execute(new: &str) -> (r: Result<(), PrefError>)
        ensures
            embedding_provider_ok(new@) ==> r is Ok,
            !embedding_provider_ok(new@) ==> (r matches Err(
                PrefError::UnsupportedEmbeddingProvider(v),
            ) && v@ == new@),
    {
        if same_text(new, "gemini") || same_text(new, "ollama") {
            Ok(())
        } else {
            Err(PrefError::UnsupportedEmbeddingProvider(new.to_owned()))
        }
    }
}

impl AiMemoryMapModelSetting {
    /// Accepts the supported embedding models only.
    pub fn before_execute(new: &str) -> (r: Result<(), PrefError>)
        ensures
            embedding_model_ok(new@) ==> r is Ok,
            !embedding_model_ok(new@) ==> (r matches Err(PrefError::UnsupportedEmbeddingModel(v))
                && v@ == new@),
    {
        if same_text(new, "gemini-embedding-001") || same_text(new, "text-embedding-004")
            || same_text(new, "text-embedding-3-small") || same_text(new, "text-embedding-3-large")
            || same_text(new, "all-minilm") || same_text(new, "nomic-embed-text") {
            Ok(())
        } else {
            Err(PrefError::UnsupportedEmbeddingModel(new.to_owned()))
        }
    }
}

impl AiMemoryPolicySetting {
    /// Accepts the memory policies only.
    pub fn before_execute(new: &str) -> (r: Result<(), PrefError>)
        ensures
            memory_policy_ok(new@) ==> r is Ok,
            !memory_policy_ok(new@) ==> (r matches Err(PrefError::UnsupportedMemoryPolicy(v))
                && v@ == new@),
    {
        if same_text(new, "none") || same_text(new, "token") || same_text(new, "sliding") {
            Ok(())
        } else {
            Err(PrefError::UnsupportedMemoryPolicy(new.to_owned()))
        }
    }
}

impl AiMemoryMaxTokensSetting {
    /// Accepts a whole number from 1024 to 1000000, surrounding whitespace
    /// allowed.
    pub fn before_execute(new: &str) -> (r: Result<(), PrefError>)
        ensures
            bounded_number(new@, 1024, 1000000) == Some(true) ==> r is Ok,
            bounded_number(new@, 1024, 1000000) == Some(false) ==> r matches Err(
                PrefError::TokenBudgetOutOfRange,
            ),
            bounded_number(new@, 1024, 1000000) is None ==> (r matches Err(
                PrefError::TokenBudgetNotInteger(v),
            ) && v@ == new@),
    {
        let t = trim(new);
        match parse_i32(t.as_str()) {
            None => Err(PrefError::TokenBudgetNotInteger(new.to_owned())),
            Some(budget) => if 1024 <= budget && budget <= 1000000 {
                Ok(())
            } else {
                Err(PrefError::TokenBudgetOutOfRange)
            },
        }
    }
}

impl AiMemoryMaxMessagesSetting {
    /// Accepts a whole number from 1 to 100, surrounding whitespace allowed.
    pub fn before_execute(new: &str) -> (r: Result<(), PrefError>)
        ensures
            bounded_number(new@, 1, 100) == Some(true) ==> r is Ok,
            bounded_number(new@, 1, 100) == Some(false) ==> r matches Err(
                PrefError::MessageCountOutOfRange,
            ),
            bounded_number(new@, 1, 100) is None ==> (r matches Err(
                PrefError::MessageCountNotInteger(v),
            ) && v@ == new@),
    {
        let t = trim(new);
        match parse_i32(t.as_str()) {
            None => Err(PrefError::MessageCountNotInteger(new.to_owned())),
            Some(count) => if 1 <= count && count <= 100 {
                Ok(())
            } else {
                Err(PrefError::MessageCountOutOfRange)
            },
        }
    }
}

/// The flag that a switch value sets: `true` and `false` only; any other
/// text is refused.
pub open spec fn flag_value(new: Seq<char>) -> Result<bool, PrefError> {
    match parse_bool_spec(new) {
        Some(b) => Ok(b),
        None => Err(PrefError::InvalidFlag),
    }
}

/// The flag that a switch value sets, or the refusal of a value other than
/// `true` or `false`.
pub fn flag_of(new: &str) -> (r: Result<bool, PrefError>)
    ensures
        r == flag_value(new@),
{
    match parse_bool(new) {
        Some(b) => Ok(b),
        None => Err(PrefError::InvalidFlag),
    }
}

/// A value of a switch that is neither `true` nor `false` is refused.
pub open spec fn flag_check(new: Seq<char>) -> bool {
    parse_bool_spec(new) is Some
}

impl AllowLanCapability {
    /// Whether a stored value lets the local network use the proxy; a value
    /// other than `true` or `false` is refused.
    pub fn enabled(new: &str) -> (r: Result<bool, PrefError>)
        ensures
            r == flag_value(new@),
    {
        flag_of(new)
    }

    /// The stored value that the core's setting stands for.
    pub fn state(allow_lan: bool) -> (r: String)
        ensures
            r@ == bool_text_spec(allow_lan),
    {
        bool_text(allow_lan)
    }
}

/// The DNS mode that the fake-IP switch selects.
pub open spec fn fake_ip_mode(on: bool) -> Seq<char> {
    if on {
        "fake-ip"@
    } else {
        "redir-host"@
    }
}

/// The stored value that a DNS mode stands for.
pub open spec fn fake_ip_state(mode: Seq<char>) -> Seq<char> {
    bool_text_spec(mode == "fake-ip"@)
}

impl FakeIpCapability {
    /// The DNS mode that a stored value selects; a value other than `true`
    /// or `false` is refused and selects nothing.
    pub fn mode(new: &str) -> (r: Result<String, PrefError>)
        ensures
            parse_bool_spec(new@) matches Some(b) ==> (r matches Ok(m) && m@ == fake_ip_mode(b)),
            parse_bool_spec(new@) is None ==> r matches Err(PrefError::InvalidFlag),
    {
        match parse_bool(new) {
            Some(true) => Ok("fake-ip".to_owned()),
            Some(false) => Ok("redir-host".to_owned()),
            None => Err(PrefError::InvalidFlag),
        }
    }

    /// The stored value that the core's DNS mode stands for.
    pub fn state(mode: &str) -> (r: String)
        ensures
            r@ == fake_ip_state(mode@),
    {
        bool_text(same_text(mode, "fake-ip"))
    }
}

/// The process lookup mode that the switch selects.
pub open spec fn find_process_mode(on: bool) -> Seq<char> {
    if on {
        "always"@
    } else {
        "strict"@
    }
}

/// The stored value that a process lookup mode stands for.
pub open spec fn find_process_state(mode: Seq<char>) -> Seq<char> {
    bool_text_spec(mode == "always"@)
}

impl FindProcessCapability {
    /// The process lookup mode that a stored value selects; a value other
    /// than `true` or `false` is refused and selects nothing.
    pub fn mode(new: &str) -> (r: Result<String, PrefError>)
        ensures
            parse_bool_spec(new@) matches Some(b) ==> (r matches Ok(m) && m@ == find_process_mode(
                b,
            )),
            parse_bool_spec(new@) is None ==> r matches Err(PrefError::InvalidFlag),
    {
        match parse_bool(new) {
            Some(true) => Ok("always".to_owned()),
            Some(false) => Ok("strict".to_owned()),
            None => Err(PrefError::InvalidFlag),
        }
    }

    /// The stored value that the core's process lookup mode stands for.
    pub fn state(mode: &str) -> (r: String)
        ensures
            r@ == find_process_state(mode@),
    {
        bool_text(same_text(mode, "always"))
    }
}

impl AutostartCapability {
    /// Whether a stored value asks for the core to start with the system.
    pub fn wanted(new: &str) -> (r: bool)
        ensures
            r == flag_spec(new@),
    {
        flag(new)
    }

    /// The stored value that the system's autostart entry stands for.
    pub fn state(enabled: bool) -> (r: String)
        ensures
            r@ == bool_text_spec(enabled),
    {
        bool_text(enabled)
    }
}

impl SystemProxyCapability {
    /// Whether a stored value asks for the system proxy.
    pub fn wanted(new: &str) -> (r: bool)
        ensures
            r == flag_spec(new@),
    {
        flag(new)
    }
}

/// Each select setting of the assistant accepts exactly the options it
/// offers (as its metadata lists them) and refuses every other value, so its
/// default, one of those options, is accepted too.
pub proof fn lemma_options_accepted(s: Seq<char>)
    ensures
        provider_ok(s) <==> seq!["gemini"@, "copilot"@, "ollama"@].contains(s),
        embedding_provider_ok(s) <==> seq!["gemini"@, "ollama"@].contains(s),
        embedding_model_ok(s) <==> seq![
            "gemini-embedding-001"@,
            "text-embedding-004"@,
            "text-embedding-3-small"@,
            "text-embedding-3-large"@,
            "all-minilm"@,
            "nomic-embed-text"@,
        ].contains(s),
        memory_policy_ok(s) <==> seq!["none"@, "token"@, "sliding"@].contains(s),
        provider_ok("gemini"@),
        embedding_provider_ok("gemini"@),
        embedding_model_ok("gemini-embedding-001"@),
        memory_policy_ok("token"@),
{
    let p = seq!["gemini"@, "copilot"@, "ollama"@];
    let e = seq!["gemini"@, "ollama"@];
    let m = seq![
        "gemini-embedding-001"@,
        "text-embedding-004"@,
        "text-embedding-3-small"@,
        "text-embedding-3-large"@,
        "all-minilm"@,
        "nomic-embed-text"@,
    ];
    let q = seq!["none"@, "token"@, "sliding"@];
    assert(p[0] == "gemini"@ && p[1] == "copilot"@ && p[2] == "ollama"@);
    assert(e[0] == "gemini"@ && e[1] == "ollama"@);
    assert(m[0] == "gemini-embedding-001"@ && m[1] == "text-embedding-004"@ && m[2]
        == "text-embedding-3-small"@ && m[3] == "text-embedding-3-large"@ && m[4] == "all-minilm"@
        && m[5] == "nomic-embed-text"@);
    assert(q[0] == "none"@ && q[1] == "token"@ && q[2] == "sliding"@);
}

/// A boolean written as text reads back as the same boolean.
pub proof fn lemma_flag_of_bool_text(b: bool)
    ensures
        flag_spec(bool_text_spec(b)) == b,
{
    reveal_strlit("true");
    reveal_strlit("false");
    if !b {
        assert(bool_text_spec(b).len() != "true"@.len());
    }
}

/// Setting the fake-IP mode from a boolean and reading the mode back gives
/// that boolean's text.
pub proof fn lemma_fake_ip_round_trip(b: bool)
    ensures
        parse_bool_spec(bool_text_spec(b)) == Some(b),
        fake_ip_state(fake_ip_mode(b)) == bool_text_spec(b),
{
    lemma_parse_bool_text(b);
    reveal_strlit("fake-ip");
    reveal_strlit("redir-host");
    if !b {
        assert("redir-host"@.len() != "fake-ip"@.len());
    }
}

/// Setting the process lookup mode from a boolean and reading the mode back
/// gives that boolean's text.
pub proof fn lemma_find_process_round_trip(b: bool)
    ensures
        parse_bool_spec(bool_text_spec(b)) == Some(b),
        find_process_state(find_process_mode(b)) == bool_text_spec(b),
{
    lemma_parse_bool_text(b);
    reveal_strlit("always");
    reveal_strlit("strict");
    if !b {
        assert("strict"@[0] != "always"@[0]);
    }
}

/// A boolean written as text parses back as the same boolean.
pub proof fn lemma_parse_bool_text(b: bool)
    ensures
        parse_bool_spec(bool_text_spec(b)) == Some(b),
{
    reveal_strlit("true");
    reveal_strlit("false");
    if !b {
        assert(bool_text_spec(b).len() != "true"@.len());
    }
}

} // verus!
