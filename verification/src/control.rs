//! The decisions of the connection supervisors: how switching the tunnel
//! is retried, how the external address is fetched, which connections
//! teach the rule tree a new rule, and when the user is told about one.

use vstd::prelude::*;
use crate::proxy::{Rule, RuleStore, RuleView, Target};
use crate::text::{same_text, trim, trim_spec};

verus! {

/// What follows an attempt to switch the tunnel device.
#[derive(Debug, Clone, Copy, PartialEq, Eq, Structural)]
pub enum TunStep {
    /// The device switched: the connection state can be recorded.
    Done,
    /// Restart the core, wait a second, and try again.
    RestartAndRetry,
    /// Three attempts failed: the switch fails.
    GiveUp,
}

/// The step after the `attempt`-th attempt (counted from one) to switch
/// the tunnel device, which `succeeded` or not. Three attempts are made at
/// most.
pub fn after_tun_attempt(attempt: u8, succeeded: bool) -> (r: TunStep)
    requires
        1 <= attempt <= 3,
    ensures
        succeeded ==> r == TunStep::Done,
        !succeeded && attempt < 3 ==> r == TunStep::RestartAndRetry,
        !succeeded && attempt == 3 ==> r == TunStep::GiveUp,
{
    if succeeded {
        TunStep::Done
    } else if attempt < 3 {
        TunStep::RestartAndRetry
    } else {
        TunStep::GiveUp
    }
}

/// Whether the system proxy is turned on after a switch: only when the
/// connection is turned on and the system proxy preference is on.
pub fn system_proxy_on(active: bool, preference_on: bool) -> (r: bool)
    ensures
        r == (active && preference_on),
{
    active && preference_on
}

/// What a request for the external address brought.
#[derive(Debug)]
pub enum IpReply {
    /// A success status with this body.
    Body(String),
    /// A response whose status is not a success.
    BadStatus(u16),
    /// No response at all.
    Unreachable,
}

/// What follows a request for the external address.
#[derive(Debug)]
pub enum IpStep {
    /// Publish this address.
    Publish(String),
    /// Wait half a second and ask again.
    Retry,
    /// The last attempt found no server: the fetch fails.
    GiveUpUnreachable,
    /// The last attempt got this status: the user is told, and the fetch
    /// fails.
    GiveUpStatus(u16),
}

/// The step after the `attempts`-th request (counted from one) for the
/// external address. Five requests are made at most; a body is published
/// trimmed.
pub fn after_ip_attempt(attempts: u32, reply: IpReply) -> (r: IpStep)
    requires
        1 <= attempts <= 5,
    ensures
        reply matches IpReply::Body(b) ==> (r matches IpStep::Publish(ip) && ip@ == trim_spec(b@)),
        !(reply is Body) && attempts < 5 ==> r is Retry,
        reply is Unreachable && attempts == 5 ==> r is GiveUpUnreachable,
        reply matches IpReply::BadStatus(c) ==> (attempts == 5 ==> r == IpStep::GiveUpStatus(c)),
{
    match reply {
        IpReply::Body(b) => IpStep::Publish(trim(b.as_str())),
        IpReply::BadStatus(c) => if attempts < 5 {
            IpStep::Retry
        } else {
            IpStep::GiveUpStatus(c)
        },
        IpReply::Unreachable => if attempts < 5 {
            IpStep::Retry
        } else {
            IpStep::GiveUpUnreachable
        },
    }
}

/// Whether the traffic supervisor pauses: when the window is hidden or the
/// proxy is off.
pub fn monitor_paused(active: bool, connected: bool) -> (r: bool)
    ensures
        r == (!active || !connected),
{
    !active || !connected
}

/// Whether the connection supervisor pauses: only when the window is hidden
/// and the proxy is off as well.
pub fn connections_paused(active: bool, connected: bool) -> (r: bool)
    ensures
        r == (!active && !connected),
{
    !active && !connected
}

/// What the tunnel supervisor does next.
#[derive(Debug, Clone, Copy, PartialEq, Eq, Structural)]
pub enum TunWatch {
    /// Disconnected: wait five seconds and look again.
    Pause,
    /// The tunnel device went down: switch it on again, then wait fifteen
    /// seconds.
    RestartTunnel,
    /// Fetch the external address again, then wait forty seconds.
    RefreshAddress,
    /// Nothing to do: wait forty seconds.
    Idle,
}

/// The next step of the tunnel supervisor: nothing while disconnected; on
/// Windows, a tunnel device found off is switched on again; on Linux, the
/// external address is refreshed.
pub fn tun_watch(connected: bool, windows: bool, linux: bool, tun_on: bool) -> (r: TunWatch)
    ensures
        !connected ==> r == TunWatch::Pause,
        connected && windows && !tun_on ==> r == TunWatch::RestartTunnel,
        connected && !(windows && !tun_on) && linux ==> r == TunWatch::RefreshAddress,
        connected && !(windows && !tun_on) && !linux ==> r == TunWatch::Idle,
{
    if !connected {
        TunWatch::Pause
    } else if windows && !tun_on {
        TunWatch::RestartTunnel
    } else if linux {
        TunWatch::RefreshAddress
    } else {
        TunWatch::Idle
    }
}

/// What a connection that another rule matched is about: the process that
/// opened it, else its host. Connections that no rule or the catch-all rule
/// matched, and those without process or host, are about nothing.
pub open spec fn subject_spec(rule: Seq<char>, process: Seq<char>, host: Seq<char>) -> Option<
    (Seq<char>, Target),
> {
    if rule.len() == 0 || rule == "Match"@ {
        None
    } else if process.len() != 0 {
        Some((process, Target::App))
    } else if host.len() != 0 {
        Some((host, Target::Host))
    } else {
        None
    }
}

/// What a connection is about, for learning a rule from it.
pub fn connection_subject(rule: &str, process: &str, host: &str) -> (r: Option<(String, Target)>)
    ensures
        match r {
            Some((n, t)) => subject_spec(rule@, process@, host@) == Some((n@, t)),
            None => subject_spec(rule@, process@, host@) is None,
        },
{
    if rule.unicode_len() == 0 || same_text(rule, "Match") {
        None
    } else if process.unicode_len() != 0 {
        Some((process.to_owned(), Target::App))
    } else if host.unicode_len() != 0 {
        Some((host.to_owned(), Target::Host))
    } else {
        None
    }
}

/// The counts at which the user is asked to set up a rule: 100, 500, and
/// every thousand above 500.
pub open spec fn notify_spec(amt: u64) -> bool {
    amt == 100 || amt == 500 || (amt > 500 && amt % 1000 == 0)
}

/// Whether the count of a rule calls for asking the user to set it up.
pub fn should_notify(amt: u64) -> (r: bool)
    ensures
        r == notify_spec(amt),
{
    amt == 100 || amt == 500 || (amt > 500 && amt % 1000 == 0)
}

/// The question put to the user about the rule named `name` once its
/// count calls for it.
pub fn rule_notice(name: &str) -> (r: String)
    ensures
        r@ == "Частые запросы к "@ + name@ + ". Настроить правило?"@,
{
    let mut r = "Частые запросы к ".to_owned();
    r.append(name);
    r.append(". Настроить правило?");
    r
}

/// What a connection did to the rule tree.
#[derive(Debug, Clone, Copy, PartialEq, Eq, Structural)]
pub enum Observation {
    /// An active rule covers it: nothing changed.
    AlreadyActive,
    /// The count of the inactive rule grew; `notify` tells whether the
    /// user is to be asked to set it up.
    Counted { notify: bool },
    /// A new inactive rule with a count of one was learned.
    Learned,
}

/// `c + 1`, saturating at the largest `u64`.
pub open spec fn saturating_inc64(c: u64) -> u64 {
    if c == u64::MAX {
        c
    } else {
        (c + 1) as u64
    }
}

/// Counts a connection that the rule `fresh` describes: an active rule
/// under its identifier is left alone; an inactive one counts one more
/// match and, unless ignored, asks for the user's attention at the counts
/// of [`notify_spec`]; without one, `fresh` is learned, inactive, with a
/// count of one more than its own.
pub fn observe_connection(rules: &mut RuleStore, fresh: Rule) -> (r: Observation)
    requires
        old(rules).wf(),
    ensures
        final(rules).wf(),
        forall|k: Seq<char>| k != fresh@.id ==> final(rules).stored(k) == old(rules).stored(k),
        old(rules).stored(fresh@.id) matches Some(e) ==> (e.active ==> r
            == Observation::AlreadyActive && final(rules).stored(fresh@.id) == Some(e)),
        old(rules).stored(fresh@.id) matches Some(e) ==> (!e.active ==> r == (Observation::Counted {
            notify: !e.ignored && notify_spec(saturating_inc64(e.amt)),
        }) && final(rules).stored(fresh@.id) == Some(
            RuleView { amt: saturating_inc64(e.amt), ..e },
        )),
        old(rules).stored(fresh@.id) is None ==> r == Observation::Learned && final(rules).stored(
            fresh@.id,
        ) == Some(RuleView { amt: saturating_inc64(fresh@.amt), active: false, ..fresh@ }),
{
    match rules.get(fresh.id.as_str()) {
        Some(mut existing) => {
            if existing.active {
                return Observation::AlreadyActive;
            }
            existing.amt = if existing.amt == u64::MAX {
                existing.amt
            } else {
                existing.amt + 1
            };
            let amt = existing.amt;
            let ignored = existing.ignored;
            rules.upsert(&existing);
            if ignored {
                Observation::Counted { notify: false }
            } else {
                Observation::Counted { notify: should_notify(amt) }
            }
        },
        None => {
            let mut learned = fresh;
            learned.amt = if learned.amt == u64::MAX {
                learned.amt
            } else {
                learned.amt + 1
            };
            learned.active = false;
            rules.upsert(&learned);
            Observation::Learned
        },
    }
}

} // verus!
