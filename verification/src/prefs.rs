//! Preferences: what each setting is, which values it accepts, how a
//! stored text becomes the state it sets, and the stored preference tree.

pub mod settings;
pub mod values;
pub mod store;
pub mod registry;

use vstd::prelude::*;

verus! {

/// Where a setting is shown.
#[derive(Debug, Clone, Copy, PartialEq, Eq, Structural)]
pub enum Category {
    Modules,
    Advanced,
    Network,
    System,
}

/// What changing a setting asks for.
#[derive(Debug, Clone, Copy, PartialEq, Eq, Structural)]
pub enum Requirement {
    /// A restart of the application.
    Restart,
    /// Administrator rights.
    Admin,
    /// A reload of the proxy core.
    CoreReload,
}

/// How a setting is edited.
#[derive(Debug)]
pub enum SettingType {
    /// On or off.
    Toggle,
    /// Free text.
    TextInput,
    /// One of the options.
    Select(Vec<&'static str>),
    /// A whole number between the bounds.
    NumberInput { min: i32, max: i32 },
}

/// What a setting is and how it is shown.
#[derive(Debug)]
pub struct SettingMeta {
    pub id: &'static str,
    pub title: &'static str,
    pub description: &'static str,
    pub tags: Vec<&'static str>,
    pub category: Category,
    pub setting_type: SettingType,
    pub requirements: Vec<Requirement>,
    pub default_value: &'static str,
}

/// The views of a list of texts.
pub open spec fn strs(v: Seq<&'static str>) -> Seq<Seq<char>> {
    v.map_values(|s: &'static str| s@)
}

} // verus!
