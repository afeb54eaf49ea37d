//! Verified core of the desktop proxy manager: subscription profiles,
//! routing rule sets, preference validation, Vault visit history and the
//! decisions taken by the background supervisors.

pub mod alert;
pub mod control;
pub mod docker;
pub mod nodes;
pub mod prefs;
pub mod proxy;
pub mod split_route;
pub mod store;
pub mod tavily;
pub mod text;
pub mod tools;
pub mod vault;
