//! Proxy groups and nodes as the interface shows them, built from the
//! proxy listing that the core reports.

use vstd::prelude::*;
use crate::store::views;
use crate::text::{
    lemma_text_lt_total, lemma_text_lt_transitive, same_text, text_before, text_lt, texts,
};

verus! {

/// A proxy node.
#[derive(Debug)]
pub struct Node {
    pub name: String,
    pub latency: u32,
    pub protocol: String,
    pub transport: String,
    pub available: bool,
    pub activated: bool,
}

/// The abstract value of a [`Node`].
pub struct NodeView {
    pub name: Seq<char>,
    pub latency: u32,
    pub protocol: Seq<char>,
    pub transport: Seq<char>,
    pub available: bool,
    pub activated: bool,
}

impl View for Node {
    type V = NodeView;

    open spec fn view(&self) -> NodeView {
        NodeView {
            name: self.name@,
            latency: self.latency,
            protocol: self.protocol@,
            transport: self.transport@,
            available: self.available,
            activated: self.activated,
        }
    }
}

/// A group of proxy nodes, with the node that it selects.
#[derive(Debug)]
pub struct GroupNode {
    pub name: String,
    pub nodes: Vec<Node>,
    pub selector: String,
    pub selected: String,
}

/// The abstract value of a [`GroupNode`].
pub struct GroupView {
    pub name: Seq<char>,
    pub nodes: Seq<NodeView>,
    pub selector: Seq<char>,
    pub selected: Seq<char>,
}

impl View for GroupNode {
    type V = GroupView;

    open spec fn view(&self) -> GroupView {
        GroupView {
            name: self.name@,
            nodes: views(self.nodes@),
            selector: self.selector@,
            selected: self.selected@,
        }
    }
}

/// The proxy groups available.
#[derive(Debug)]
pub struct Proxy {
    pub groups: Vec<GroupNode>,
}

/// Upload and download rates.
#[derive(Debug, Clone, Copy)]
pub struct Traffic {
    pub up: u64,
    pub down: u64,
}

impl Default for Traffic {
    fn default() -> (r: Self)
        ensures
            r.up == 0 && r.down == 0,
    {
        Traffic { up: 0, down: 0 }
    }
}

/// One proxy of the core's listing, under its key in the listing.
#[derive(Debug)]
pub struct ProxyEntry {
    /// The key of the proxy in the listing.
    pub key: String,
    /// The name that the proxy reports.
    pub name: String,
    /// The kind of group, for a group.
    pub group_type: String,
    /// The member that a group currently selects.
    pub now: Option<String>,
    /// The members of a group; none for a single proxy.
    pub all: Option<Vec<String>>,
    /// Whether the proxy answered its last check.
    pub alive: bool,
    /// The latency of its last check.
    pub latency: u32,
    /// The protocol it speaks.
    pub protocol: String,
    /// The transport it uses.
    pub transport: String,
}

/// The abstract value of a [`ProxyEntry`].
pub struct EntryView {
    pub key: Seq<char>,
    pub name: Seq<char>,
    pub group_type: Seq<char>,
    pub now: Option<Seq<char>>,
    pub all: Option<Seq<Seq<char>>>,
    pub alive: bool,
    pub latency: u32,
    pub protocol: Seq<char>,
    pub transport: Seq<char>,
}

impl View for ProxyEntry {
    type V = EntryView;

    open spec fn view(&self) -> EntryView {
        EntryView {
            key: self.key@,
            name: self.name@,
            group_type: self.group_type@,
            now: match self.now {
                Some(n) => Some(n@),
                None => None,
            },
            all: match self.all {
                Some(m) => Some(texts(m@)),
                None => None,
            },
            alive: self.alive,
            latency: self.latency,
            protocol: self.protocol@,
            transport: self.transport@,
        }
    }
}

/// The node that a listed proxy stands for.
pub open spec fn node_of(e: EntryView, activated: bool) -> NodeView {
    NodeView {
        name: e.name,
        latency: e.latency,
        protocol: e.protocol,
        transport: e.transport,
        available: e.alive,
        activated,
    }
}

/// The first listed proxy under key `k`.
pub open spec fn entry_for(es: Seq<EntryView>, k: Seq<char>) -> Option<EntryView>
    decreases es.len(),
{
    if es.len() == 0 {
        None
    } else if es[0].key == k {
        Some(es[0])
    } else {
        entry_for(es.drop_first(), k)
    }
}

/// The nodes of the members found in the listing, in member order; the
/// one named `selected` is marked active.
pub open spec fn member_nodes(es: Seq<EntryView>, members: Seq<Seq<char>>, selected: Seq<char>) -> Seq<
    NodeView,
>
    decreases members.len(),
{
    if members.len() == 0 {
        Seq::empty()
    } else {
        let rest = member_nodes(es, members.drop_last(), selected);
        match entry_for(es, members.last()) {
            Some(e) => rest.push(node_of(e, members.last() == selected)),
            None => rest,
        }
    }
}

/// `x` inserted into `t` after the leading nodes not slower than it.
pub open spec fn insert_by_latency(t: Seq<NodeView>, x: NodeView) -> Seq<NodeView>
    decreases t.len(),
{
    if t.len() == 0 {
        seq![x]
    } else if t[0].latency <= x.latency {
        seq![t[0]] + insert_by_latency(t.drop_first(), x)
    } else {
        seq![x] + t
    }
}

/// The nodes from the fastest to the slowest, nodes of equal latency
/// keeping their order: a stable sort by latency.
pub open spec fn by_latency(s: Seq<NodeView>) -> Seq<NodeView>
    decreases s.len(),
{
    if s.len() == 0 {
        s
    } else {
        insert_by_latency(by_latency(s.drop_last()), s.last())
    }
}

/// The group that a listed proxy stands for: proxies with members do,
/// except the global one.
pub open spec fn group_of(es: Seq<EntryView>, e: EntryView) -> Option<GroupView> {
    match e.all {
        Some(ms) => if e.name == "GLOBAL"@ {
            None
        } else {
            let sel = match e.now {
                Some(n) => n,
                None => Seq::empty(),
            };
            Some(
                GroupView {
                    name: e.key,
                    nodes: by_latency(member_nodes(es, ms, sel)),
                    selector: e.group_type,
                    selected: sel,
                },
            )
        },
        None => None,
    }
}

/// The groups of the proxies in `part`, in listing order.
pub open spec fn collected(es: Seq<EntryView>, part: Seq<EntryView>) -> Seq<GroupView>
    decreases part.len(),
{
    if part.len() == 0 {
        Seq::empty()
    } else {
        let rest = collected(es, part.drop_last());
        match group_of(es, part.last()) {
            Some(g) => rest.push(g),
            None => rest,
        }
    }
}

/// `x` inserted into `t` after the leading groups whose names do not come
/// after its name.
pub open spec fn insert_by_name(t: Seq<GroupView>, x: GroupView) -> Seq<GroupView>
    decreases t.len(),
{
    if t.len() == 0 {
        seq![x]
    } else if !text_lt(x.name, t[0].name) {
        seq![t[0]] + insert_by_name(t.drop_first(), x)
    } else {
        seq![x] + t
    }
}

/// The groups in the order of their names: a stable sort by name.
pub open spec fn by_name(s: Seq<GroupView>) -> Seq<GroupView>
    decreases s.len(),
{
    if s.len() == 0 {
        s
    } else {
        insert_by_name(by_name(s.drop_last()), s.last())
    }
}

/// The groups of a proxy listing, in the order of their names.
pub open spec fn groups_spec(es: Seq<EntryView>) -> Seq<GroupView> {
    by_name(collected(es, es))
}

proof fn lemma_insert_by_latency_at(t: Seq<NodeView>, x: NodeView, p: int)
    requires
        0 <= p <= t.len(),
        forall|j: int| 0 <= j < p ==> (#[trigger] t[j]).latency <= x.latency,
        p == t.len() || t[p].latency > x.latency,
    ensures
        insert_by_latency(t, x) == t.insert(p, x),
    decreases p,
{
    if p == 0 {
        if t.len() == 0 {
            assert(t.insert(0, x) =~= seq![x]);
        } else {
            assert(t.insert(0, x) =~= seq![x] + t);
        }
    } else {
        let u = t.drop_first();
        assert forall|j: int| 0 <= j < p - 1 implies (#[trigger] u[j]).latency <= x.latency by {
            assert(u[j] == t[j + 1]);
        }
        if p < t.len() {
            assert(u[p - 1] == t[p]);
        }
        lemma_insert_by_latency_at(u, x, p - 1);
        assert(t[0].latency <= x.latency);
        assert(seq![t[0]] + u.insert(p - 1, x) =~= t.insert(p, x));
    }
}

proof fn lemma_insert_by_name_at(t: Seq<GroupView>, x: GroupView, p: int)
    requires
        0 <= p <= t.len(),
        forall|j: int| 0 <= j < p ==> !text_lt(x.name, (#[trigger] t[j]).name),
        p == t.len() || text_lt(x.name, t[p].name),
    ensures
        insert_by_name(t, x) == t.insert(p, x),
    decreases p,
{
    if p == 0 {
        if t.len() == 0 {
            assert(t.insert(0, x) =~= seq![x]);
        } else {
            assert(t.insert(0, x) =~= seq![x] + t);
        }
    } else {
        let u = t.drop_first();
        assert forall|j: int| 0 <= j < p - 1 implies !text_lt(x.name, (#[trigger] u[j]).name) by {
            assert(u[j] == t[j + 1]);
        }
        if p < t.len() {
            assert(u[p - 1] == t[p]);
        }
        lemma_insert_by_name_at(u, x, p - 1);
        assert(!text_lt(x.name, t[0].name));
        assert(seq![t[0]] + u.insert(p - 1, x) =~= t.insert(p, x));
    }
}

/// The position of the first listed proxy under key `k`.
fn find_entry(es: &Vec<ProxyEntry>, k: &str) -> (r: Option<usize>)
    ensures
        match r {
            Some(i) => i < es@.len() && entry_for(views(es@), k@) == Some(es@[i as int]@),
            None => entry_for(views(es@), k@) is None,
        },
{
    let n = es.len();
    let mut i: usize = 0;
    assert(views(es@).subrange(0, n as int) =~= views(es@));
    while i < n
        invariant
            n == es@.len(),
            i <= n,
            entry_for(views(es@), k@) == entry_for(views(es@).subrange(i as int, n as int), k@),
        decreases n - i,
    {
        let ghost rest = views(es@).subrange(i as int, n as int);
        assert(rest[0] == es@[i as int]@);
        if same_text(es[i].key.as_str(), k) {
            return Some(i);
        }
        assert(rest.drop_first() =~= views(es@).subrange(i + 1, n as int));
        i = i + 1;
    }
    None
}

impl Node {
    /// The node that a listed proxy stands for.
    pub fn from_entry(e: &ProxyEntry, activated: bool) -> (r: Self)
        ensures
            r@ == node_of(e@, activated),
    {
        Node {
            name: e.name.clone(),
            latency: e.latency,
            protocol: e.protocol.clone(),
            transport: e.transport.clone(),
            available: e.alive,
            activated,
        }
    }
}

/// The nodes of a group's members, marked and ordered by latency.
fn group_nodes(es: &Vec<ProxyEntry>, members: &Vec<String>, selected: &str) -> (r: Vec<Node>)
    ensures
        views(r@) == by_latency(member_nodes(views(es@), texts(members@), selected@)),
{
    let m = members.len();
    let mut found: Vec<Node> = Vec::new();
    let mut j: usize = 0;
    while j < m
        invariant
            m == members@.len(),
            j <= m,
            views(found@) == member_nodes(views(es@), texts(members@).subrange(0, j as int), selected@),
        decreases m - j,
    {
        let ghost pre = texts(members@).subrange(0, j as int);
        let ghost cur = texts(members@).subrange(0, j + 1);
        assert(cur.drop_last() =~= pre);
        assert(cur.last() == members@[j as int]@);
        if let Some(i) = find_entry(es, members[j].as_str()) {
            let activated = same_text(members[j].as_str(), selected);
            let node = Node::from_entry(&es[i], activated);
            let ghost prev = found@;
            let ghost nv = node@;
            found.push(node);
            assert(views(found@) =~= views(prev).push(nv));
        }
        j = j + 1;
    }
    assert(texts(members@).subrange(0, m as int) =~= texts(members@));
    let ghost unsorted = views(found@);
    let total = found.len();
    let mut rest = found;
    let mut sorted: Vec<Node> = Vec::new();
    let mut k: usize = 0;
    while rest.len() > 0
        invariant
            k + rest@.len() == unsorted.len(),
            total == unsorted.len(),
            views(rest@) == unsorted.subrange(k as int, unsorted.len() as int),
            views(sorted@) == by_latency(unsorted.subrange(0, k as int)),
        decreases rest@.len(),
    {
        let ghost before = rest@;
        assert(views(before)[0] == unsorted.subrange(k as int, unsorted.len() as int)[0]);
        let x = rest.remove(0);
        proof {
            assert(x@ == unsorted[k as int]);
            assert forall|q: int| 0 <= q < rest@.len() implies #[trigger] views(rest@)[q]
                == unsorted[k + 1 + q] by {
                assert(rest@[q] == before[q + 1]);
                assert(views(before)[q + 1] == unsorted.subrange(
                    k as int,
                    unsorted.len() as int,
                )[q + 1]);
            }
            assert(views(rest@) =~= unsorted.subrange(k + 1, unsorted.len() as int));
        }
        let s = sorted.len();
        let mut p: usize = 0;
        while p < s && sorted[p].latency <= x.latency
            invariant
                s == sorted@.len(),
                p <= s,
                forall|q: int| 0 <= q < p ==> (#[trigger] views(sorted@)[q]).latency <= x@.latency,
            decreases s - p,
        {
            assert(views(sorted@)[p as int] == sorted@[p as int]@);
            p = p + 1;
        }
        proof {
            if p < s {
                assert(views(sorted@)[p as int] == sorted@[p as int]@);
            }
            lemma_insert_by_latency_at(views(sorted@), x@, p as int);
            let pre = unsorted.subrange(0, k as int);
            let cur = unsorted.subrange(0, k + 1);
            assert(cur.drop_last() =~= pre);
        }
        let ghost prev = sorted@;
        let ghost xv = x@;
        sorted.insert(p, x);
        assert(views(sorted@) =~= views(prev).insert(p as int, xv));
        k = k + 1;
    }
    assert(unsorted.subrange(0, k as int) =~= unsorted);
    sorted
}

/// The groups of the core's proxy listing: each proxy with members except
/// the global one becomes a group of the members found in the listing,
/// ordered by latency, with the member it selects marked; the groups come
/// in the order of their names.
pub fn groups_from(es: &Vec<ProxyEntry>) -> (r: Vec<GroupNode>)
    ensures
        views(r@) == groups_spec(views(es@)),
{
    let n = es.len();
    let mut groups: Vec<GroupNode> = Vec::new();
    let mut i: usize = 0;
    while i < n
        invariant
            n == es@.len(),
            i <= n,
            views(groups@) == collected(views(es@), views(es@).subrange(0, i as int)),
        decreases n - i,
    {
        let ghost pre = views(es@).subrange(0, i as int);
        let ghost cur = views(es@).subrange(0, i + 1);
        assert(cur.drop_last() =~= pre);
        assert(cur.last() == es@[i as int]@);
        let e = &es[i];
        match &e.all {
            Some(members) => {
                if !same_text(e.name.as_str(), "GLOBAL") {
                    let selected = match &e.now {
                        Some(s) => s.clone(),
                        None => String::new(),
                    };
                    let nodes = group_nodes(es, members, selected.as_str());
                    let g = GroupNode {
                        name: e.key.clone(),
                        nodes,
                        selector: e.group_type.clone(),
                        selected,
                    };
                    let ghost prev = groups@;
                    let ghost gv = g@;
                    groups.push(g);
                    assert(views(groups@) =~= views(prev).push(gv));
                }
            },
            None => {},
        }
        i = i + 1;
    }
    assert(views(es@).subrange(0, n as int) =~= views(es@));
    let ghost unsorted = views(groups@);
    let total = groups.len();
    let mut rest = groups;
    let mut sorted: Vec<GroupNode> = Vec::new();
    let mut k: usize = 0;
    while rest.len() > 0
        invariant
            k + rest@.len() == unsorted.len(),
            total == unsorted.len(),
            views(rest@) == unsorted.subrange(k as int, unsorted.len() as int),
            views(sorted@) == by_name(unsorted.subrange(0, k as int)),
        decreases rest@.len(),
    {
        let ghost before = rest@;
        assert(views(before)[0] == unsorted.subrange(k as int, unsorted.len() as int)[0]);
        let x = rest.remove(0);
        proof {
            assert(x@ == unsorted[k as int]);
            assert forall|q: int| 0 <= q < rest@.len() implies #[trigger] views(rest@)[q]
                == unsorted[k + 1 + q] by {
                assert(rest@[q] == before[q + 1]);
                assert(views(before)[q + 1] == unsorted.subrange(
                    k as int,
                    unsorted.len() as int,
                )[q + 1]);
            }
            assert(views(rest@) =~= unsorted.subrange(k + 1, unsorted.len() as int));
        }
        let s = sorted.len();
        let mut p: usize = 0;
        while p < s && !text_before(x.name.as_str(), sorted[p].name.as_str())
            invariant
                s == sorted@.len(),
                p <= s,
                forall|q: int| 0 <= q < p ==> !text_lt(x@.name, (#[trigger] views(sorted@)[q]).name),
            decreases s - p,
        {
            assert(views(sorted@)[p as int] == sorted@[p as int]@);
            p = p + 1;
        }
        proof {
            if p < s {
                assert(views(sorted@)[p as int] == sorted@[p as int]@);
            }
            lemma_insert_by_name_at(views(sorted@), x@, p as int);
            let pre = unsorted.subrange(0, k as int);
            let cur = unsorted.subrange(0, k + 1);
            assert(cur.drop_last() =~= pre);
        }
        let ghost prev = sorted@;
        let ghost xv = x@;
        sorted.insert(p, x);
        assert(views(sorted@) =~= views(prev).insert(p as int, xv));
        k = k + 1;
    }
    assert(unsorted.subrange(0, k as int) =~= unsorted);
    sorted
}

/// The profile shown as active: what the first group selects.
pub fn active_selection(groups: &Vec<GroupNode>) -> (r: Option<String>)
    ensures
        groups@.len() == 0 ==> r is None,
        groups@.len() > 0 ==> (r matches Some(s) && s@ == groups@[0]@.selected),
{
    if groups.len() == 0 {
        None
    } else {
        Some(groups[0].selected.clone())
    }
}


/// Latencies never decrease along the nodes.
pub open spec fn latency_sorted(s: Seq<NodeView>) -> bool {
    forall|i: int, j: int| 0 <= i < j < s.len() ==> (#[trigger] s[i]).latency <= (#[trigger] s[j]).latency
}

/// No group name comes after the name of a later group.
pub open spec fn name_sorted(s: Seq<GroupView>) -> bool {
    forall|i: int, j: int| 0 <= i < j < s.len() ==> !text_lt((#[trigger] s[j]).name, (#[trigger] s[i]).name)
}

proof fn lemma_insert_by_latency_sorted(t: Seq<NodeView>, x: NodeView)
    requires
        latency_sorted(t),
    ensures
        latency_sorted(insert_by_latency(t, x)),
        insert_by_latency(t, x).len() == t.len() + 1,
        forall|k: int| 0 <= k < insert_by_latency(t, x).len() ==> #[trigger] insert_by_latency(t, x)[k] == x || t.contains(insert_by_latency(t, x)[k]),
    decreases t.len(),
{
    let r = insert_by_latency(t, x);
    if t.len() == 0 {
    } else if t[0].latency <= x.latency {
        let u = t.drop_first();
        assert forall|i: int, j: int| 0 <= i < j < u.len() implies (#[trigger] u[i]).latency <= (
        #[trigger] u[j]).latency by {
            assert(u[i] == t[i + 1] && u[j] == t[j + 1]);
        }
        lemma_insert_by_latency_sorted(u, x);
        let ru = insert_by_latency(u, x);
        assert(r == seq![t[0]] + ru);
        assert forall|k: int| 0 <= k < r.len() implies #[trigger] r[k] == x || t.contains(r[k]) by {
            if k == 0 {
                assert(t[0] == r[0]);
            } else {
                assert(r[k] == ru[k - 1]);
                if ru[k - 1] != x {
                    let w = choose|w: int| 0 <= w < u.len() && u[w] == ru[k - 1];
                    assert(t[w + 1] == r[k]);
                }
            }
        }
        assert forall|i: int, j: int| 0 <= i < j < r.len() implies (#[trigger] r[i]).latency <= (
        #[trigger] r[j]).latency by {
            if i == 0 {
                assert(r[j] == ru[j - 1]);
                if ru[j - 1] == x {
                } else {
                    let w = choose|w: int| 0 <= w < u.len() && u[w] == ru[j - 1];
                    assert(t[w + 1] == ru[j - 1]);
                }
            } else {
                assert(r[i] == ru[i - 1] && r[j] == ru[j - 1]);
            }
        }
    } else {
        assert(r == seq![x] + t);
        assert forall|k: int| 0 <= k < r.len() implies #[trigger] r[k] == x || t.contains(r[k]) by {
            if k > 0 {
                assert(r[k] == t[k - 1]);
            }
        }
        assert forall|i: int, j: int| 0 <= i < j < r.len() implies (#[trigger] r[i]).latency <= (
        #[trigger] r[j]).latency by {
            if i == 0 {
                assert(r[j] == t[j - 1]);
                if j - 1 > 0 {
                    assert(t[0].latency <= t[j - 1].latency);
                }
            } else {
                assert(r[i] == t[i - 1] && r[j] == t[j - 1]);
            }
        }
    }
}

/// Ordering by latency leaves no node slower than a later one.
pub proof fn lemma_by_latency_sorted(s: Seq<NodeView>)
    ensures
        latency_sorted(by_latency(s)),
    decreases s.len(),
{
    if s.len() > 0 {
        lemma_by_latency_sorted(s.drop_last());
        lemma_insert_by_latency_sorted(by_latency(s.drop_last()), s.last());
    }
}

/// The nodes of `s` with latency `l`, in their order in `s`.
pub open spec fn of_latency(s: Seq<NodeView>, l: u32) -> Seq<NodeView>
    decreases s.len(),
{
    if s.len() == 0 {
        s
    } else if s.last().latency == l {
        of_latency(s.drop_last(), l).push(s.last())
    } else {
        of_latency(s.drop_last(), l)
    }
}

proof fn lemma_of_latency_concat(a: Seq<NodeView>, b: Seq<NodeView>, l: u32)
    ensures
        of_latency(a + b, l) == of_latency(a, l) + of_latency(b, l),
    decreases b.len(),
{
    if b.len() == 0 {
        assert(a + b =~= a);
        assert(of_latency(a, l) + of_latency(b, l) =~= of_latency(a, l));
    } else {
        lemma_of_latency_concat(a, b.drop_last(), l);
        assert((a + b).drop_last() =~= a + b.drop_last());
        assert((a + b).last() == b.last());
        assert(of_latency(a + b, l) =~= of_latency(a, l) + of_latency(b, l));
    }
}

proof fn lemma_of_latency_none(t: Seq<NodeView>, l: u32)
    requires
        forall|i: int| 0 <= i < t.len() ==> (#[trigger] t[i]).latency > l,
    ensures
        of_latency(t, l) == Seq::<NodeView>::empty(),
    decreases t.len(),
{
    if t.len() > 0 {
        let u = t.drop_last();
        assert forall|i: int| 0 <= i < u.len() implies (#[trigger] u[i]).latency > l by {
            assert(u[i] == t[i]);
        }
        lemma_of_latency_none(u, l);
        assert(t.last() == t[t.len() - 1]);
    }
}

proof fn lemma_of_latency_single(x: NodeView, l: u32)
    ensures
        of_latency(seq![x], l) == if x.latency == l {
            seq![x]
        } else {
            Seq::<NodeView>::empty()
        },
{
    let e = Seq::<NodeView>::empty();
    assert(seq![x].drop_last() =~= e);
    assert(seq![x].last() == x);
    assert(of_latency(e, l) == e);
    if x.latency == l {
        assert(e.push(x) =~= seq![x]);
    }
}

proof fn lemma_insert_by_latency_stable(t: Seq<NodeView>, x: NodeView, l: u32)
    requires
        latency_sorted(t),
    ensures
        of_latency(insert_by_latency(t, x), l) == if x.latency == l {
            of_latency(t, l).push(x)
        } else {
            of_latency(t, l)
        },
    decreases t.len(),
{
    let r = insert_by_latency(t, x);
    lemma_of_latency_single(x, l);
    if t.len() == 0 {
        assert(r == seq![x]);
        assert(of_latency(t, l) == t);
        if x.latency == l {
            assert(t.push(x) =~= seq![x]);
        }
    } else if t[0].latency <= x.latency {
        let u = t.drop_first();
        assert forall|i: int, j: int| 0 <= i < j < u.len() implies (#[trigger] u[i]).latency <= (
        #[trigger] u[j]).latency by {
            assert(u[i] == t[i + 1] && u[j] == t[j + 1]);
        }
        lemma_insert_by_latency_stable(u, x, l);
        assert(t =~= seq![t[0]] + u);
        assert(r == seq![t[0]] + insert_by_latency(u, x));
        lemma_of_latency_concat(seq![t[0]], u, l);
        lemma_of_latency_concat(seq![t[0]], insert_by_latency(u, x), l);
        let h = of_latency(seq![t[0]], l);
        if x.latency == l {
            assert(h + of_latency(u, l).push(x) =~= (h + of_latency(u, l)).push(x));
        }
    } else {
        assert(r == seq![x] + t);
        lemma_of_latency_concat(seq![x], t, l);
        if x.latency == l {
            assert forall|i: int| 0 <= i < t.len() implies (#[trigger] t[i]).latency > l by {
                if i > 0 {
                    assert(t[0].latency <= t[i].latency);
                }
            }
            lemma_of_latency_none(t, l);
            assert(seq![x] + Seq::<NodeView>::empty() =~= Seq::<NodeView>::empty().push(x));
        } else {
            assert(Seq::<NodeView>::empty() + of_latency(t, l) =~= of_latency(t, l));
        }
    }
}

/// Ordering by latency keeps nodes of equal latency in their order: for
/// every latency, the nodes with that latency come in the same order
/// before and after, as a stable sort by latency leaves them.
pub proof fn lemma_by_latency_stable(s: Seq<NodeView>, l: u32)
    ensures
        of_latency(by_latency(s), l) == of_latency(s, l),
    decreases s.len(),
{
    if s.len() > 0 {
        lemma_by_latency_stable(s.drop_last(), l);
        lemma_by_latency_sorted(s.drop_last());
        lemma_insert_by_latency_stable(by_latency(s.drop_last()), s.last(), l);
    }
}

proof fn lemma_insert_by_name_sorted(t: Seq<GroupView>, x: GroupView)
    requires
        name_sorted(t),
    ensures
        name_sorted(insert_by_name(t, x)),
        insert_by_name(t, x).len() == t.len() + 1,
        forall|k: int| 0 <= k < insert_by_name(t, x).len() ==> #[trigger] insert_by_name(t, x)[k] == x || t.contains(insert_by_name(t, x)[k]),
    decreases t.len(),
{
    let r = insert_by_name(t, x);
    if t.len() == 0 {
    } else if !text_lt(x.name, t[0].name) {
        let u = t.drop_first();
        assert forall|i: int, j: int| 0 <= i < j < u.len() implies !text_lt((#[trigger] u[j]).name, (
        #[trigger] u[i]).name) by {
            assert(u[i] == t[i + 1] && u[j] == t[j + 1]);
        }
        lemma_insert_by_name_sorted(u, x);
        let ru = insert_by_name(u, x);
        assert(r == seq![t[0]] + ru);
        assert forall|k: int| 0 <= k < r.len() implies #[trigger] r[k] == x || t.contains(r[k]) by {
            if k == 0 {
                assert(t[0] == r[0]);
            } else {
                assert(r[k] == ru[k - 1]);
                if ru[k - 1] != x {
                    let w = choose|w: int| 0 <= w < u.len() && u[w] == ru[k - 1];
                    assert(t[w + 1] == r[k]);
                }
            }
        }
        assert forall|i: int, j: int| 0 <= i < j < r.len() implies !text_lt((#[trigger] r[j]).name, (
        #[trigger] r[i]).name) by {
            if i == 0 {
                assert(r[j] == ru[j - 1]);
                if ru[j - 1] == x {
                    lemma_text_lt_total(x.name, t[0].name);
                } else {
                    let w = choose|w: int| 0 <= w < u.len() && u[w] == ru[j - 1];
                    assert(t[w + 1] == ru[j - 1]);
                }
            } else {
                assert(r[i] == ru[i - 1] && r[j] == ru[j - 1]);
            }
        }
    } else {
        assert(r == seq![x] + t);
        assert forall|k: int| 0 <= k < r.len() implies #[trigger] r[k] == x || t.contains(r[k]) by {
            if k > 0 {
                assert(r[k] == t[k - 1]);
            }
        }
        assert forall|i: int, j: int| 0 <= i < j < r.len() implies !text_lt((#[trigger] r[j]).name, (
        #[trigger] r[i]).name) by {
            if i == 0 {
                let tj = t[j - 1];
                assert(r[j] == tj);
                // x comes before t[0], and t[0] does not come after t[j - 1]
                if j - 1 > 0 {
                    assert(!text_lt(tj.name, t[0].name));
                    lemma_text_lt_total(tj.name, t[0].name);
                    if tj.name != t[0].name {
                        lemma_text_lt_transitive(x.name, t[0].name, tj.name);
                    }
                }
                lemma_text_lt_total(x.name, tj.name);
            } else {
                assert(r[i] == t[i - 1] && r[j] == t[j - 1]);
            }
        }
    }
}

/// Ordering by name leaves no group name after the name of a later group.
pub proof fn lemma_by_name_sorted(s: Seq<GroupView>)
    ensures
        name_sorted(by_name(s)),
    decreases s.len(),
{
    if s.len() > 0 {
        lemma_by_name_sorted(s.drop_last());
        lemma_insert_by_name_sorted(by_name(s.drop_last()), s.last());
    }
}

/// Ordering by name keeps only the groups it was given.
proof fn lemma_by_name_members(s: Seq<GroupView>)
    ensures
        forall|k: int| 0 <= k < by_name(s).len() ==> s.contains(#[trigger] by_name(s)[k]),
    decreases s.len(),
{
    if s.len() > 0 {
        let t = by_name(s.drop_last());
        lemma_by_name_members(s.drop_last());
        lemma_by_name_sorted(s.drop_last());
        lemma_insert_by_name_sorted(t, s.last());
        assert forall|k: int| 0 <= k < by_name(s).len() implies s.contains(#[trigger] by_name(s)[k]) by {
            let g = by_name(s)[k];
            if g == s.last() {
                assert(s[s.len() - 1] == g);
            } else {
                let w = choose|w: int| 0 <= w < t.len() && t[w] == g;
                let v = choose|v: int| 0 <= v < s.drop_last().len() && s.drop_last()[v] == t[w];
                assert(s[v] == g);
            }
        }
    }
}

/// Every group collected from a listing has its nodes ordered by latency.
proof fn lemma_collected_nodes_sorted(es: Seq<EntryView>, part: Seq<EntryView>)
    ensures
        forall|k: int| 0 <= k < collected(es, part).len() ==> latency_sorted(#[trigger] collected(es, part)[k].nodes),
    decreases part.len(),
{
    if part.len() > 0 {
        lemma_collected_nodes_sorted(es, part.drop_last());
        let rest = collected(es, part.drop_last());
        let e = part.last();
        if let Some(ms) = e.all {
            let sel = match e.now {
                Some(n) => n,
                None => Seq::empty(),
            };
            lemma_by_latency_sorted(member_nodes(es, ms, sel));
        }
        assert forall|k: int| 0 <= k < collected(es, part).len() implies latency_sorted(
            #[trigger] collected(es, part)[k].nodes,
        ) by {
            if k < rest.len() {
                assert(collected(es, part)[k] == rest[k]);
            }
        }
    }
}

/// The groups built from a listing come in the order of their names, and
/// within each group the nodes come from the fastest to the slowest.
pub proof fn lemma_groups_ordered(es: Seq<EntryView>)
    ensures
        name_sorted(groups_spec(es)),
        forall|k: int| 0 <= k < groups_spec(es).len() ==> latency_sorted(#[trigger] groups_spec(es)[k].nodes),
{
    let c = collected(es, es);
    lemma_by_name_sorted(c);
    lemma_by_name_members(c);
    lemma_collected_nodes_sorted(es, es);
    assert forall|k: int| 0 <= k < groups_spec(es).len() implies latency_sorted(#[trigger] groups_spec(es)[k].nodes) by {
        let g = groups_spec(es)[k];
        assert(c.contains(g));
        let w = choose|w: int| 0 <= w < c.len() && c[w] == g;
    }
}

/// `n` is the node of a member of `ms` listed in `es`: it carries that
/// proxy's name, latency, protocol, transport and health, and is marked
/// active exactly when the member's name is `sel`.
pub open spec fn resolved_node(es: Seq<EntryView>, ms: Seq<Seq<char>>, sel: Seq<char>, n: NodeView) -> bool {
    exists|t: int, x: int|
        0 <= t < ms.len() && 0 <= x < es.len() && (#[trigger] es[x]).key == #[trigger] ms[t] && n
            == (NodeView {
            name: es[x].name,
            latency: es[x].latency,
            protocol: es[x].protocol,
            transport: es[x].transport,
            available: es[x].alive,
            activated: ms[t] == sel,
        })
}

proof fn lemma_entry_for_listed(es: Seq<EntryView>, k: Seq<char>)
    ensures
        entry_for(es, k) matches Some(e) ==> exists|x: int| 0 <= x < es.len() && es[x] == e && es[x].key == k,
    decreases es.len(),
{
    if es.len() > 0 && es[0].key != k {
        lemma_entry_for_listed(es.drop_first(), k);
        if let Some(e) = entry_for(es, k) {
            let x = choose|x: int| 0 <= x < es.drop_first().len() && es.drop_first()[x] == e
                && es.drop_first()[x].key == k;
            assert(es[x + 1] == e);
        }
    }
}

proof fn lemma_member_nodes_resolved(es: Seq<EntryView>, ms: Seq<Seq<char>>, sel: Seq<char>)
    ensures
        forall|j: int| 0 <= j < member_nodes(es, ms, sel).len() ==> resolved_node(es, ms, sel, #[trigger] member_nodes(es, ms, sel)[j]),
    decreases ms.len(),
{
    if ms.len() > 0 {
        let pre = ms.drop_last();
        lemma_member_nodes_resolved(es, pre, sel);
        lemma_entry_for_listed(es, ms.last());
        let rest = member_nodes(es, pre, sel);
        assert forall|j: int| 0 <= j < member_nodes(es, ms, sel).len() implies resolved_node(
            es,
            ms,
            sel,
            #[trigger] member_nodes(es, ms, sel)[j],
        ) by {
            let n = member_nodes(es, ms, sel)[j];
            if j < rest.len() {
                assert(n == rest[j]);
                assert(resolved_node(es, pre, sel, n));
                let (t, x) = choose|t: int, x: int|
                    0 <= t < pre.len() && 0 <= x < es.len() && (#[trigger] es[x]).key == #[trigger] pre[t]
                        && n == (NodeView {
                        name: es[x].name,
                        latency: es[x].latency,
                        protocol: es[x].protocol,
                        transport: es[x].transport,
                        available: es[x].alive,
                        activated: pre[t] == sel,
                    });
                assert(ms[t] == pre[t]);
            } else {
                let e = entry_for(es, ms.last())->0;
                let x = choose|x: int| 0 <= x < es.len() && es[x] == e && es[x].key == ms.last();
                let t = ms.len() - 1;
                assert(ms[t] == ms.last());
                assert(es[x].key == ms[t]);
            }
        }
    }
}

proof fn lemma_by_latency_members(s: Seq<NodeView>)
    ensures
        forall|k: int| 0 <= k < by_latency(s).len() ==> s.contains(#[trigger] by_latency(s)[k]),
    decreases s.len(),
{
    if s.len() > 0 {
        let t = by_latency(s.drop_last());
        lemma_by_latency_members(s.drop_last());
        lemma_by_latency_sorted(s.drop_last());
        lemma_insert_by_latency_sorted(t, s.last());
        assert forall|k: int| 0 <= k < by_latency(s).len() implies s.contains(#[trigger] by_latency(s)[k]) by {
            let n = by_latency(s)[k];
            if n == s.last() {
                assert(s[s.len() - 1] == n);
            } else {
                let w = choose|w: int| 0 <= w < t.len() && t[w] == n;
                let v = choose|v: int| 0 <= v < s.drop_last().len() && s.drop_last()[v] == t[w];
                assert(s[v] == n);
            }
        }
    }
}

/// `g` is the group of the listed proxy `e`: a proxy with members other
/// than the global one, under its key and kind, with the member it selects
/// (none: empty), whose nodes are nodes of its members found in `es`.
pub open spec fn group_of_entry(es: Seq<EntryView>, e: EntryView, g: GroupView) -> bool {
    &&& e.all is Some
    &&& e.name != "GLOBAL"@
    &&& g.name == e.key
    &&& g.selector == e.group_type
    &&& g.selected == match e.now {
        Some(n) => n,
        None => Seq::empty(),
    }
    &&& forall|j: int| 0 <= j < g.nodes.len() ==> resolved_node(es, e.all->0, g.selected, #[trigger] g.nodes[j])
    &&& forall|t: int| 0 <= t < (e.all->0).len() ==> member_shown(es, (e.all->0)[t], g)
}

/// The member named `m`, when a proxy is listed under that key, has its
/// node in `g`: the first such proxy's, marked active exactly when `m` is
/// the selected member.
pub open spec fn member_shown(es: Seq<EntryView>, m: Seq<char>, g: GroupView) -> bool {
    entry_for(es, m) matches Some(e) ==> g.nodes.contains(
        NodeView {
            name: e.name,
            latency: e.latency,
            protocol: e.protocol,
            transport: e.transport,
            available: e.alive,
            activated: m == g.selected,
        },
    )
}

proof fn lemma_insert_by_latency_keeps(t: Seq<NodeView>, x: NodeView)
    ensures
        insert_by_latency(t, x).contains(x),
        forall|k: int| 0 <= k < t.len() ==> insert_by_latency(t, x).contains(#[trigger] t[k]),
    decreases t.len(),
{
    let r = insert_by_latency(t, x);
    if t.len() == 0 {
        assert(r[0] == x);
    } else if t[0].latency <= x.latency {
        let u = t.drop_first();
        lemma_insert_by_latency_keeps(u, x);
        let ru = insert_by_latency(u, x);
        assert(r == seq![t[0]] + ru);
        let w = choose|w: int| 0 <= w < ru.len() && ru[w] == x;
        assert(r[w + 1] == x);
        assert forall|k: int| 0 <= k < t.len() implies r.contains(#[trigger] t[k]) by {
            if k == 0 {
                assert(r[0] == t[0]);
            } else {
                assert(t[k] == u[k - 1]);
                let v = choose|v: int| 0 <= v < ru.len() && ru[v] == u[k - 1];
                assert(r[v + 1] == t[k]);
            }
        }
    } else {
        assert(r == seq![x] + t);
        assert(r[0] == x);
        assert forall|k: int| 0 <= k < t.len() implies r.contains(#[trigger] t[k]) by {
            assert(r[k + 1] == t[k]);
        }
    }
}

proof fn lemma_by_latency_keeps(s: Seq<NodeView>)
    ensures
        forall|k: int| 0 <= k < s.len() ==> by_latency(s).contains(#[trigger] s[k]),
    decreases s.len(),
{
    if s.len() > 0 {
        let pre = s.drop_last();
        lemma_by_latency_keeps(pre);
        let t = by_latency(pre);
        lemma_insert_by_latency_keeps(t, s.last());
        assert forall|k: int| 0 <= k < s.len() implies by_latency(s).contains(#[trigger] s[k]) by {
            if k < pre.len() {
                assert(s[k] == pre[k]);
                let w = choose|w: int| 0 <= w < t.len() && t[w] == pre[k];
                assert(t.contains(t[w]));
            }
        }
    }
}

proof fn lemma_member_nodes_complete(es: Seq<EntryView>, ms: Seq<Seq<char>>, sel: Seq<char>)
    ensures
        forall|t: int| 0 <= t < ms.len() ==> (entry_for(es, #[trigger] ms[t]) matches Some(e)
            ==> member_nodes(es, ms, sel).contains(node_of(e, ms[t] == sel))),
    decreases ms.len(),
{
    if ms.len() > 0 {
        let pre = ms.drop_last();
        lemma_member_nodes_complete(es, pre, sel);
        let rest = member_nodes(es, pre, sel);
        let all = member_nodes(es, ms, sel);
        assert forall|t: int| 0 <= t < ms.len() implies (entry_for(es, #[trigger] ms[t]) matches Some(e)
            ==> all.contains(node_of(e, ms[t] == sel))) by {
            if let Some(e) = entry_for(es, ms[t]) {
                if t < pre.len() {
                    assert(ms[t] == pre[t]);
                    let w = choose|w: int| 0 <= w < rest.len() && rest[w] == node_of(e, pre[t] == sel);
                    assert(all[w] == rest[w]);
                } else {
                    assert(ms[t] == ms.last());
                    assert(all[all.len() - 1] == node_of(e, ms[t] == sel));
                }
            }
        }
    }
}

proof fn lemma_collected_from_entries(es: Seq<EntryView>, part: Seq<EntryView>)
    requires
        forall|i: int| 0 <= i < part.len() ==> es.contains(#[trigger] part[i]),
    ensures
        forall|k: int| 0 <= k < collected(es, part).len() ==> exists|i: int| 0 <= i < es.len() && group_of_entry(es, es[i], #[trigger] collected(es, part)[k]),
    decreases part.len(),
{
    if part.len() > 0 {
        let pre = part.drop_last();
        assert forall|i: int| 0 <= i < pre.len() implies es.contains(#[trigger] pre[i]) by {
            assert(pre[i] == part[i]);
        }
        lemma_collected_from_entries(es, pre);
        let rest = collected(es, pre);
        let e = part.last();
        assert(es.contains(part[part.len() - 1]));
        assert forall|k: int| 0 <= k < collected(es, part).len() implies exists|i: int| 0 <= i < es.len() && group_of_entry(es, es[i], #[trigger] collected(es, part)[k]) by {
            let g = collected(es, part)[k];
            if k < rest.len() {
                assert(g == rest[k]);
            } else {
                let i = choose|i: int| 0 <= i < es.len() && es[i] == e;
                let ms = e.all->0;
                let sel = match e.now {
                    Some(n) => n,
                    None => Seq::<char>::empty(),
                };
                lemma_member_nodes_resolved(es, ms, sel);
                lemma_by_latency_members(member_nodes(es, ms, sel));
                assert forall|j: int| 0 <= j < g.nodes.len() implies resolved_node(es, ms, g.selected, #[trigger] g.nodes[j]) by {
                    let w = choose|w: int| 0 <= w < member_nodes(es, ms, sel).len() && member_nodes(es, ms, sel)[w] == g.nodes[j];
                }
                lemma_member_nodes_complete(es, ms, sel);
                lemma_by_latency_keeps(member_nodes(es, ms, sel));
                assert forall|t: int| 0 <= t < ms.len() implies member_shown(es, #[trigger] ms[t], g) by {
                    if let Some(f) = entry_for(es, ms[t]) {
                        let mn = member_nodes(es, ms, sel);
                        let w = choose|w: int| 0 <= w < mn.len() && mn[w] == node_of(f, ms[t] == sel);
                        assert(g.nodes.contains(mn[w]));
                    }
                }
                assert(group_of_entry(es, es[i], g));
            }
        }
    }
}

/// Every group shown is the group of a listed proxy with members other than
/// the global one: under that proxy's key and kind, with the member it
/// selects, and holding the nodes of its members found in the listing and
/// no others, each carrying its proxy's name, latency, protocol, transport
/// and health and marked active exactly when its member is the selected
/// one, whatever its health.
pub proof fn lemma_groups_resolved(es: Seq<EntryView>)
    ensures
        forall|k: int| 0 <= k < groups_spec(es).len() ==> exists|i: int| 0 <= i < es.len() && group_of_entry(es, es[i], #[trigger] groups_spec(es)[k]),
{
    assert forall|i: int| 0 <= i < es.len() implies es.contains(#[trigger] es[i]) by {}
    lemma_collected_from_entries(es, es);
    let c = collected(es, es);
    lemma_by_name_members(c);
    assert forall|k: int| 0 <= k < groups_spec(es).len() implies exists|i: int| 0 <= i < es.len() && group_of_entry(es, es[i], #[trigger] groups_spec(es)[k]) by {
        let g = groups_spec(es)[k];
        assert(c.contains(g));
        let w = choose|w: int| 0 <= w < c.len() && c[w] == g;
    }
}

} // verus!
