//! What the assistant's tools report: proxy status, profiles, and the
//! error a tool fails with.

use vstd::prelude::*;
use crate::proxy::{Profile, ProfileView};

verus! {

/// Prompt scaffolding for the assistant.
#[derive(Debug, Clone, Copy)]
pub struct PromptRegistry;

impl PromptRegistry {
    pub fn new() -> (r: Self)
        ensures
            r == PromptRegistry,
    {
        PromptRegistry
    }
}

/// Resource scaffolding for the assistant.
#[derive(Debug, Clone, Copy)]
pub struct ResourceRegistry;

impl ResourceRegistry {
    pub fn new() -> (r: Self)
        ensures
            r == ResourceRegistry,
    {
        ResourceRegistry
    }
}

/// The error a tool fails with, as a message.
#[derive(Debug)]
pub struct AiToolError(pub String);

impl AiToolError {
    /// The message of the error.
    pub fn message(&self) -> (r: &str)
        ensures
            r@ == self.0@,
    {
        self.0.as_str()
    }
}

/// The arguments of tools that take none.
#[derive(Debug, Clone, Copy)]
pub struct EmptyArgs;

/// The argument of the proxy switch: the state wanted.
#[derive(Debug, Clone, Copy)]
pub struct ToggleProxyArgs {
    pub active: bool,
}

/// What the proxy status tool reports.
#[derive(Debug)]
pub struct ProxyStatusOutput {
    pub connected: bool,
    pub active_profile: String,
    pub ip: String,
}

impl ProxyStatusOutput {
    /// The status report from the connection flag, the active profile and
    /// the external address.
    pub fn new(connected: bool, active_profile: String, ip: String) -> (r: Self)
        ensures
            r.connected == connected,
            r.active_profile@ == active_profile@,
            r.ip@ == ip@,
    {
        ProxyStatusOutput { connected, active_profile, ip }
    }
}

/// A subscription profile as the profile listing tool reports it.
#[derive(Debug)]
pub struct ProxyProfileOutput {
    pub id: String,
    pub name: Option<String>,
    pub source_url: String,
    pub update_interval: u64,
    pub enabled: bool,
}

/// The view of a reported profile: that of the profile it reports.
pub open spec fn output_view(o: ProxyProfileOutput) -> ProfileView {
    ProfileView {
        id: o.id@,
        name: match o.name {
            Some(n) => Some(n@),
            None => None,
        },
        source_url: o.source_url@,
        update_interval: o.update_interval,
        enabled: o.enabled,
    }
}

impl ProxyProfileOutput {
    /// The report of `profile`.
    pub fn from_profile(profile: Profile) -> (r: Self)
        ensures
            output_view(r) == profile@,
    {
        let crate::proxy::Source::Remote(source_url) = profile.source;
        ProxyProfileOutput {
            id: profile.id,
            name: profile.name,
            source_url,
            update_interval: profile.update_interval,
            enabled: profile.enabled,
        }
    }
}

/// The reports of the profiles, in order.
pub fn profile_outputs(profiles: Vec<Profile>) -> (r: Vec<ProxyProfileOutput>)
    ensures
        r@.len() == profiles@.len(),
        forall|i: int| 0 <= i < r@.len() ==> output_view(#[trigger] r@[i]) == profiles@[i]@,
{
    let mut profiles = profiles;
    let ghost orig = profiles@;
    let mut rev: Vec<ProxyProfileOutput> = Vec::new();
    while profiles.len() > 0
        invariant
            profiles@.len() + rev@.len() == orig.len(),
            forall|i: int| 0 <= i < profiles@.len() ==> profiles@[i] == orig[i],
            forall|i: int|
                0 <= i < rev@.len() ==> output_view(#[trigger] rev@[i]) == orig[orig.len() - 1
                    - i]@,
        decreases profiles@.len(),
    {
        let p = profiles.pop().unwrap();
        rev.push(ProxyProfileOutput::from_profile(p));
    }
    let mut r: Vec<ProxyProfileOutput> = Vec::new();
    while rev.len() > 0
        invariant
            rev@.len() + r@.len() == orig.len(),
            forall|i: int|
                0 <= i < rev@.len() ==> output_view(#[trigger] rev@[i]) == orig[orig.len() - 1
                    - i]@,
            forall|i: int| 0 <= i < r@.len() ==> output_view(#[trigger] r@[i]) == orig[i]@,
        decreases rev@.len(),
    {
        let o = rev.pop().unwrap();
        r.push(o);
    }
    r
}

/// The tool that lists the Docker containers.
#[derive(Debug, Clone, Copy)]
pub struct DockerListTool;

impl DockerListTool {
    /// The name the assistant calls the tool by.
    pub const NAME: &'static str = "docker_list_containers";

    /// What the tool does, for the assistant.
    pub fn description(&self) -> (r: String)
        ensures
            r@ == "List Docker containers with state and metadata"@,
    {
        "List Docker containers with state and metadata".to_owned()
    }
}

/// The tool that reads the system's resource usage.
#[derive(Debug, Clone, Copy)]
pub struct SystemResourcesTool;

impl SystemResourcesTool {
    /// The name the assistant calls the tool by.
    pub const NAME: &'static str = "system_resources";

    /// What the tool does, for the assistant.
    pub fn description(&self) -> (r: String)
        ensures
            r@ == "Read current CPU, memory, disk, network and GPU metrics"@,
    {
        "Read current CPU, memory, disk, network and GPU metrics".to_owned()
    }
}

} // verus!
