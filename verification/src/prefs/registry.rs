//! Which settings the application registers, which check a new value of a
//! setting goes through, and what follows once the value is stored.

use vstd::prelude::*;
use crate::prefs::SettingMeta;
use crate::prefs::settings::{
    AllowLanCapability, AutostartCapability, FakeIpCapability, FindProcessCapability,
    GatewayCapability, PolicyCapability, SplitRouteCapability, SystemProxyCapability,
    VaultCapability,
};
use crate::prefs::values::{flag_check, flag_of, PrefError};
use crate::text::same_text;

verus! {

/// The check that a registered setting puts a new value through.
#[derive(Debug, Clone, Copy, PartialEq, Eq, Structural)]
pub enum CheckKind {
    /// Administrator rights, for the gateway module.
    Gateway,
    /// Administrator rights, for the policy module.
    Policy,
    /// Administrator rights, for the Vault module.
    Vault,
    /// `true` or `false`, for a switch of the proxy core.
    Flag,
    /// A registered setting that takes any value.
    Free,
    /// No registered setting has this key.
    Unknown,
}

/// The check of the setting with key `id`: that of the registered setting
/// with this key, or `Unknown` when none is registered under it.
pub open spec fn check_kind(id: Seq<char>) -> CheckKind {
    if id == "module.gateway"@ {
        CheckKind::Gateway
    } else if id == "module.policies"@ {
        CheckKind::Policy
    } else if id == "module.vault"@ {
        CheckKind::Vault
    } else if id == "module.allow_lan"@ || id == "network.fake_ip"@ || id
        == "network.find_process"@ {
        CheckKind::Flag
    } else if id == "system.autostart"@ || id == "network.system_proxy"@ || id
        == "network.split_routing"@ {
        CheckKind::Free
    } else {
        CheckKind::Unknown
    }
}

/// The check of the setting with key `id`.
pub fn kind_of(id: &str) -> (k: CheckKind)
    ensures
        k == check_kind(id@),
{
    if same_text(id, "module.gateway") {
        CheckKind::Gateway
    } else if same_text(id, "module.policies") {
        CheckKind::Policy
    } else if same_text(id, "module.vault") {
        CheckKind::Vault
    } else if same_text(id, "module.allow_lan") || same_text(id, "network.fake_ip") || same_text(
        id,
        "network.find_process",
    ) {
        CheckKind::Flag
    } else if same_text(id, "system.autostart") || same_text(id, "network.system_proxy")
        || same_text(id, "network.split_routing") {
        CheckKind::Free
    } else {
        CheckKind::Unknown
    }
}

/// The check that a new `value` of the setting `id` goes through before it
/// is carried out and stored: the registered setting's own check, none for
/// registered settings that check nothing, and a refusal for keys under
/// which no setting is registered.
pub fn check_preference(id: &str, value: &str, is_admin: bool) -> (r: Result<(), PrefError>)
    ensures
        (check_kind(id@) == CheckKind::Gateway || check_kind(id@) == CheckKind::Policy
            || check_kind(id@) == CheckKind::Vault) ==> (is_admin ==> r is Ok) && (!is_admin
            ==> r matches Err(PrefError::AdminRequired)),
        check_kind(id@) == CheckKind::Flag ==> (flag_check(value@) ==> r is Ok) && (!flag_check(
            value@,
        ) ==> r matches Err(PrefError::InvalidFlag)),
        check_kind(id@) == CheckKind::Free ==> r is Ok,
        check_kind(id@) == CheckKind::Unknown ==> r matches Err(PrefError::UnknownSetting),
{
    match kind_of(id) {
        CheckKind::Gateway => GatewayCapability::before_execute(is_admin),
        CheckKind::Policy => PolicyCapability::before_execute(is_admin),
        CheckKind::Vault => VaultCapability::before_execute(is_admin),
        CheckKind::Flag => match flag_of(value) {
            Ok(_) => Ok(()),
            Err(e) => Err(e),
        },
        CheckKind::Free => Ok(()),
        CheckKind::Unknown => Err(PrefError::UnknownSetting),
    }
}

/// A key has a check exactly when a setting is registered under it: values
/// of any other key are refused.
pub proof fn lemma_checked_iff_registered(id: Seq<char>)
    ensures
        check_kind(id) != CheckKind::Unknown <==> registered_ids().contains(id),
{
    let ids = registered_ids();
    if check_kind(id) != CheckKind::Unknown {
        if id == ids[0] {
        } else if id == ids[1] {
        } else if id == ids[2] {
        } else if id == ids[3] {
        } else if id == ids[4] {
        } else if id == ids[5] {
        } else if id == ids[6] {
        } else if id == ids[7] {
        } else {
            assert(id == ids[8]);
        }
    }
}

/// What follows once a new value of a setting is stored.
#[derive(Debug, Clone, Copy, PartialEq, Eq, Structural)]
pub enum AfterChange {
    /// Tell the user that a restart of the application applies it.
    RestartNotice,
    /// Warn the user that the application must be restarted to apply it.
    RestartWarning,
    /// Apply the core's configuration when `apply` holds, then, while
    /// connected, reconnect and tell the user the core was reloaded.
    ReloadCore { apply: bool },
    /// Nothing more.
    Nothing,
}

/// What follows a change of the setting with key `id`.
pub open spec fn after_change_spec(id: Seq<char>) -> AfterChange {
    if id == "module.gateway"@ || id == "module.policies"@ || id == "module.vault"@ {
        AfterChange::RestartNotice
    } else if id == "module.allow_lan"@ || id == "network.fake_ip"@ || id
        == "network.find_process"@ {
        AfterChange::ReloadCore { apply: true }
    } else if id == "network.system_proxy"@ {
        AfterChange::ReloadCore { apply: false }
    } else if id == "network.split_routing"@ {
        AfterChange::RestartWarning
    } else {
        AfterChange::Nothing
    }
}

/// What follows a change of the setting `id`.
pub fn after_change(id: &str) -> (r: AfterChange)
    ensures
        r == after_change_spec(id@),
{
    if same_text(id, "module.gateway") || same_text(id, "module.policies") || same_text(
        id,
        "module.vault",
    ) {
        AfterChange::RestartNotice
    } else if same_text(id, "module.allow_lan") || same_text(id, "network.fake_ip") || same_text(
        id,
        "network.find_process",
    ) {
        AfterChange::ReloadCore { apply: true }
    } else if same_text(id, "network.system_proxy") {
        AfterChange::ReloadCore { apply: false }
    } else if same_text(id, "network.split_routing") {
        AfterChange::RestartWarning
    } else {
        AfterChange::Nothing
    }
}

/// The keys of the settings that the application registers, in the order
/// of registration.
pub open spec fn registered_ids() -> Seq<Seq<char>> {
    seq![
        "module.gateway"@,
        "module.policies"@,
        "module.vault"@,
        "system.autostart"@,
        "module.allow_lan"@,
        "network.fake_ip"@,
        "network.find_process"@,
        "network.system_proxy"@,
        "network.split_routing"@,
    ]
}

/// What the registered settings are, in the order of registration.
pub fn registered_settings() -> (r: Vec<SettingMeta>)
    ensures
        r@.map_values(|m: SettingMeta| m.id@) == registered_ids(),
{
    let r = vec![
        GatewayCapability::meta(),
        PolicyCapability::meta(),
        VaultCapability::meta(),
        AutostartCapability::meta(),
        AllowLanCapability::meta(),
        FakeIpCapability::meta(),
        FindProcessCapability::meta(),
        SystemProxyCapability::meta(),
        SplitRouteCapability::meta(),
    ];
    assert(r@.map_values(|m: SettingMeta| m.id@) =~= registered_ids());
    r
}

} // verus!
