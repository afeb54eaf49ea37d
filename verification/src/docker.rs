//! Docker containers as the interface lists them, built from the
//! summaries that the Docker daemon reports.

use vstd::prelude::*;
use std::collections::HashMap;
use crate::text::{join, joined, same_text, texts};

verus! {

/// The state of a container, as the Docker daemon names it.
#[derive(Debug, Clone, Copy, PartialEq, Eq, Structural)]
pub enum ContainerStatus {
    Empty,
    Created,
    Running,
    Paused,
    Restarting,
    Exited,
    Removing,
    Dead,
    Stopping,
}

/// A published port of a container summary.
#[derive(Debug, Clone, Copy)]
pub struct PortParts {
    pub private_port: u16,
    pub public_port: Option<u16>,
}

/// What a container summary of the Docker daemon holds.
#[derive(Debug)]
pub struct ContainerParts {
    pub id: Option<String>,
    pub image: Option<String>,
    pub command: Option<String>,
    pub created: Option<i64>,
    pub state: Option<ContainerStatus>,
    pub status: Option<String>,
    pub ports: Option<Vec<PortParts>>,
    pub names: Option<Vec<String>>,
    pub size_rw: Option<i64>,
    pub size_root_fs: Option<i64>,
    pub labels: Option<HashMap<String, String>>,
}

/// A Docker container.
#[derive(Debug)]
pub struct Container {
    pub id: String,
    pub image: String,
    pub command: String,
    /// When the container was created, in seconds since the Unix epoch.
    pub created: i64,
    pub state: ContainerStatus,
    pub status: String,
    pub ports: String,
    pub names: String,
    pub size_rw: i64,
    pub size_root_fs: i64,
    pub labels: HashMap<String, String>,
}

/// The decimal digit `d` as text.
pub open spec fn digit_text(d: nat) -> Seq<char> {
    if d == 0 {
        "0"@
    } else if d == 1 {
        "1"@
    } else if d == 2 {
        "2"@
    } else if d == 3 {
        "3"@
    } else if d == 4 {
        "4"@
    } else if d == 5 {
        "5"@
    } else if d == 6 {
        "6"@
    } else if d == 7 {
        "7"@
    } else if d == 8 {
        "8"@
    } else {
        "9"@
    }
}

/// `n` written in decimal, as `Display` writes an unsigned number.
pub open spec fn decimal_text(n: nat) -> Seq<char>
    decreases n,
{
    if n < 10 {
        digit_text(n)
    } else {
        decimal_text(n / 10) + digit_text(n % 10)
    }
}

fn digit(d: u64) -> (r: &'static str)
    requires
        d < 10,
    ensures
        r@ == digit_text(d as nat),
{
    if d == 0 {
        "0"
    } else if d == 1 {
        "1"
    } else if d == 2 {
        "2"
    } else if d == 3 {
        "3"
    } else if d == 4 {
        "4"
    } else if d == 5 {
        "5"
    } else if d == 6 {
        "6"
    } else if d == 7 {
        "7"
    } else if d == 8 {
        "8"
    } else {
        "9"
    }
}

/// `n` written in decimal.
pub fn decimal(n: u64) -> (r: String)
    ensures
        r@ == decimal_text(n as nat),
    decreases n,
{
    if n < 10 {
        digit(n).to_owned()
    } else {
        let mut s = decimal(n / 10);
        s.append(digit(n % 10));
        s
    }
}

/// How a published port is shown: the private port, an arrow, and the
/// public port (0 when none is published).
pub open spec fn port_text(p: PortParts) -> Seq<char> {
    decimal_text(p.private_port as nat) + " → "@ + decimal_text(
        match p.public_port {
            Some(q) => q as nat,
            None => 0,
        },
    )
}

/// How each of a list of published ports is shown.
pub open spec fn port_texts(ps: Seq<PortParts>) -> Seq<Seq<char>> {
    ps.map_values(|p: PortParts| port_text(p))
}

/// How a list of published ports is shown.
pub open spec fn ports_text(ps: Seq<PortParts>) -> Seq<char> {
    joined(port_texts(ps), ", "@)
}

/// The text of an optional text, empty when there is none.
pub open spec fn text_or_empty(o: Option<String>) -> Seq<char> {
    match o {
        Some(s) => s@,
        None => Seq::empty(),
    }
}

fn owned_or_empty(o: Option<String>) -> (r: String)
    ensures
        r@ == text_or_empty(o),
{
    match o {
        Some(s) => s,
        None => String::new(),
    }
}

fn show_ports(ps: &Vec<PortParts>) -> (r: String)
    ensures
        r@ == ports_text(ps@),
{
    let n = ps.len();
    let mut shown: Vec<String> = Vec::new();
    let mut i: usize = 0;
    while i < n
        invariant
            n == ps@.len(),
            i <= n,
            shown@.len() == i,
            texts(shown@) == port_texts(ps@.subrange(0, i as int)),
        decreases n - i,
    {
        let p = ps[i];
        let public = match p.public_port {
            Some(q) => q,
            None => 0,
        };
        let mut t = decimal(p.private_port as u64);
        t.append(" → ");
        let tail = decimal(public as u64);
        t.append(tail.as_str());
        let ghost prev = shown@;
        shown.push(t);
        proof {
            assert forall|q: int| 0 <= q < i + 1 implies #[trigger] texts(shown@)[q] == port_texts(
                ps@.subrange(0, i + 1),
            )[q] by {
                if q < i {
                    assert(shown@[q] == prev[q]);
                    assert(texts(prev)[q] == port_texts(ps@.subrange(0, i as int))[q]);
                }
            }
            assert(texts(shown@) =~= port_texts(ps@.subrange(0, i + 1)));
        }
        i = i + 1;
    }
    assert(ps@.subrange(0, n as int) =~= ps@);
    join(&shown, ", ")
}

impl Container {
    /// The container that a summary describes: missing texts become empty,
    /// a missing state is `Created`, missing sizes and creation time are zero, the ports and
    /// names are listed with `, ` between them.
    pub fn from_parts(c: ContainerParts) -> (r: Self)
        ensures
            r.id@ == text_or_empty(c.id),
            r.image@ == text_or_empty(c.image),
            r.command@ == text_or_empty(c.command),
            r.created == (match c.created {
                Some(t) => t,
                None => 0,
            }),
            r.state == (match c.state {
                Some(s) => s,
                None => ContainerStatus::Created,
            }),
            r.status@ == text_or_empty(c.status),
            r.ports@ == (match c.ports {
                Some(ps) => ports_text(ps@),
                None => Seq::empty(),
            }),
            r.names@ == (match c.names {
                Some(ns) => joined(texts(ns@), ", "@),
                None => Seq::empty(),
            }),
            r.size_rw == (match c.size_rw {
                Some(s) => s,
                None => 0,
            }),
            r.size_root_fs == (match c.size_root_fs {
                Some(s) => s,
                None => 0,
            }),
            r.labels@ == (match c.labels {
                Some(l) => l@,
                None => Map::empty(),
            }),
    {
        let ports = match &c.ports {
            Some(ps) => show_ports(ps),
            None => String::new(),
        };
        let names = match &c.names {
            Some(ns) => join(ns, ", "),
            None => String::new(),
        };
        Container {
            id: owned_or_empty(c.id),
            image: owned_or_empty(c.image),
            command: owned_or_empty(c.command),
            created: match c.created {
                Some(t) => t,
                None => 0,
            },
            state: match c.state {
                Some(s) => s,
                None => ContainerStatus::Created,
            },
            status: owned_or_empty(c.status),
            ports,
            names,
            size_rw: match c.size_rw {
                Some(s) => s,
                None => 0,
            },
            size_root_fs: match c.size_root_fs {
                Some(s) => s,
                None => 0,
            },
            labels: match c.labels {
                Some(l) => l,
                None => HashMap::new(),
            },
        }
    }

    /// Whether the container is running.
    pub fn is_running(&self) -> (r: bool)
        ensures
            r == (self.state == ContainerStatus::Running),
    {
        self.state == ContainerStatus::Running
    }
}

/// The position of the first container of the list with identifier `id`,
/// if any.
pub fn find_container(list: &Vec<Container>, id: &str) -> (r: Option<usize>)
    ensures
        match r {
            Some(i) => i < list@.len() && list@[i as int].id@ == id@ && forall|j: int|
                0 <= j < i ==> (#[trigger] list@[j]).id@ != id@,
            None => forall|j: int| 0 <= j < list@.len() ==> (#[trigger] list@[j]).id@ != id@,
        },
{
    let n = list.len();
    let mut i: usize = 0;
    while i < n
        invariant
            n == list@.len(),
            i <= n,
            forall|j: int| 0 <= j < i ==> (#[trigger] list@[j]).id@ != id@,
        decreases n - i,
    {
        if same_text(list[i].id.as_str(), id) {
            return Some(i);
        }
        i = i + 1;
    }
    None
}

} // verus!
