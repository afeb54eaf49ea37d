//! Vault secret listings, token details and the history of visited
//! secrets that the Vault section keeps to offer the most used ones.

use vstd::prelude::*;
use crate::store::{Record, Tree, views};
use crate::text::{
    ends_with_char, join, joined, same_text, strip_lead, strip_trail, texts, trim_end_char,
    trim_start_char,
};

verus! {

/// Whether a Vault secret entry is a folder or a single value.
#[derive(Debug, Clone, Copy, PartialEq, Eq, Structural)]
pub enum SecretType {
    /// A folder entry.
    Folder,
    /// A secret value entry.
    Key,
}

/// A single secret entry listed under a Vault mount.
#[derive(Debug)]
pub struct SecretItem {
    /// The name shown for the entry.
    pub name: String,
    /// The storage path of the entry in Vault.
    pub path: String,
    /// Folder or key.
    pub secret_type: SecretType,
}

/// The abstract value of a [`SecretItem`].
pub struct SecretItemView {
    pub name: Seq<char>,
    pub path: Seq<char>,
    pub secret_type: SecretType,
}

impl View for SecretItem {
    type V = SecretItemView;

    open spec fn view(&self) -> SecretItemView {
        SecretItemView { name: self.name@, path: self.path@, secret_type: self.secret_type }
    }
}

/// The item that a Vault listing entry stands for: an entry that ends in
/// `/` is a folder, and its name is the entry without its trailing slashes.
pub open spec fn listed_item(entry: Seq<char>) -> SecretItemView {
    SecretItemView {
        name: strip_trail(entry, '/'),
        path: entry,
        secret_type: if entry.len() > 0 && entry.last() == '/' {
            SecretType::Folder
        } else {
            SecretType::Key
        },
    }
}

impl SecretItem {
    /// Creates a folder item whose path is its name.
    pub fn new_folder(name: String) -> (r: Self)
        ensures
            r@ == (SecretItemView { name: name@, path: name@, secret_type: SecretType::Folder }),
    {
        let path = name.clone();
        SecretItem { name, path, secret_type: SecretType::Folder }
    }

    /// The item that a Vault listing entry stands for.
    pub fn from_listing(value: String) -> (r: Self)
        ensures
            r@ == listed_item(value@),
    {
        let is_folder = ends_with_char(value.as_str(), '/');
        let name = trim_end_char(value.as_str(), '/');
        SecretItem {
            name,
            path: value,
            secret_type: if is_folder {
                SecretType::Folder
            } else {
                SecretType::Key
            },
        }
    }
}

/// Details of the token that the Vault session uses.
#[derive(Debug)]
pub struct TokenInfo {
    /// The identifier of the token.
    pub id: String,
    /// The name shown for the token.
    pub display_name: String,
    /// The policies attached to the token.
    pub policies: Vec<String>,
    /// Time to live, in seconds.
    pub ttl: u64,
    /// Time to live at creation, in seconds.
    pub creation_ttl: u64,
    /// Whether the token can be renewed.
    pub renewable: Option<bool>,
    /// When the token expires, as an ISO 8601 text.
    pub expire_time: Option<String>,
}

impl TokenInfo {
    /// The policies, separated by commas.
    pub fn policies_str(&self) -> (r: String)
        ensures
            r@ == joined(texts(self.policies@), ","@),
    {
        join(&self.policies, ",")
    }
}

/// The path of a secret as requests use it: without leading slashes.
pub fn secret_path(path: &str) -> (r: String)
    ensures
        r@ == strip_lead(path@, '/'),
{
    trim_start_char(path, '/')
}

/// A Vault mount as the mount listing describes it.
pub struct MountEntry {
    /// The mount path, as listed (with a trailing slash).
    pub path: String,
    /// The kind of secrets engine mounted there.
    pub mount_type: String,
}

/// The paths, without trailing slashes, of the key-value mounts listed.
pub open spec fn kv_paths(mounts: Seq<(Seq<char>, Seq<char>)>) -> Seq<Seq<char>>
    decreases mounts.len(),
{
    if mounts.len() == 0 {
        Seq::empty()
    } else {
        let rest = kv_paths(mounts.drop_last());
        if mounts.last().1 == "kv"@ {
            rest.push(strip_trail(mounts.last().0, '/'))
        } else {
            rest
        }
    }
}

/// The views of a listing of mounts.
pub open spec fn mount_views(m: Seq<MountEntry>) -> Seq<(Seq<char>, Seq<char>)> {
    m.map_values(|e: MountEntry| (e.path@, e.mount_type@))
}

/// The key-value mounts among the listed ones, by path without the
/// trailing slash, in listing order.
pub fn kv_mounts(mounts: &Vec<MountEntry>) -> (r: Vec<String>)
    ensures
        texts(r@) == kv_paths(mount_views(mounts@)),
{
    let n = mounts.len();
    let mut r: Vec<String> = Vec::new();
    let mut i: usize = 0;
    while i < n
        invariant
            n == mounts@.len(),
            i <= n,
            texts(r@) == kv_paths(mount_views(mounts@).subrange(0, i as int)),
        decreases n - i,
    {
        let ghost pre = mount_views(mounts@).subrange(0, i as int);
        let ghost cur = mount_views(mounts@).subrange(0, i + 1);
        assert(cur.drop_last() =~= pre);
        let ghost prev = r@;
        if same_text(mounts[i].mount_type.as_str(), "kv") {
            let p = trim_end_char(mounts[i].path.as_str(), '/');
            r.push(p);
            assert(texts(r@) =~= texts(prev).push(strip_trail(cur.last().0, '/')));
        } else {
            assert(texts(r@) =~= texts(prev));
        }
        i = i + 1;
    }
    assert(mount_views(mounts@).subrange(0, n as int) =~= mount_views(mounts@));
    r
}

/// How often a secret was opened.
#[derive(Debug)]
pub struct SecretVisit {
    /// The mount of the secret.
    pub mount: String,
    /// The path of the secret within the mount.
    pub path: String,
    /// How many visits were counted.
    pub count: usize,
}

/// The abstract value of a [`SecretVisit`].
pub struct VisitView {
    pub mount: Seq<char>,
    pub path: Seq<char>,
    pub count: usize,
}

impl View for SecretVisit {
    type V = VisitView;

    open spec fn view(&self) -> VisitView {
        VisitView { mount: self.mount@, path: self.path@, count: self.count }
    }
}

impl SecretVisit {
    /// A first visit of `path` under `mount`.
    pub fn new(mount: &str, path: &str) -> (r: Self)
        ensures
            r@ == (VisitView { mount: mount@, path: path@, count: 1 }),
    {
        SecretVisit { mount: mount.to_owned(), path: path.to_owned(), count: 1 }
    }

    /// A copy of this visit.
    pub fn duplicate(&self) -> (r: Self)
        ensures
            r@ == self@,
    {
        SecretVisit { mount: self.mount.clone(), path: self.path.clone(), count: self.count }
    }
}

/// The Vault connection settings and the visit history.
#[derive(Debug)]
pub struct VaultConfig {
    /// The address of the Vault server.
    pub url: String,
    /// The token used to authenticate.
    pub token: String,
    /// The visits counted so far.
    pub visited: Vec<SecretVisit>,
}

/// The abstract value of a [`VaultConfig`].
pub struct VaultConfigView {
    pub url: Seq<char>,
    pub token: Seq<char>,
    pub visited: Seq<VisitView>,
}

impl View for VaultConfig {
    type V = VaultConfigView;

    open spec fn view(&self) -> VaultConfigView {
        VaultConfigView { url: self.url@, token: self.token@, visited: views(self.visited@) }
    }
}

/// Copies of the visits, in order.
fn duplicate_visits(v: &Vec<SecretVisit>) -> (r: Vec<SecretVisit>)
    ensures
        views(r@) == views(v@),
{
    let n = v.len();
    let mut r: Vec<SecretVisit> = Vec::new();
    let mut i: usize = 0;
    while i < n
        invariant
            n == v@.len(),
            i <= n,
            r@.len() == i,
            views(r@) == views(v@).subrange(0, i as int),
        decreases n - i,
    {
        let d = v[i].duplicate();
        let ghost prev = r@;
        r.push(d);
        proof {
            assert forall|k: int| 0 <= k < i + 1 implies #[trigger] views(r@)[k] == views(v@)[k] by {
                if k < i {
                    assert(r@[k] == prev[k]);
                    assert(views(prev)[k] == views(v@).subrange(0, i as int)[k]);
                }
            }
            assert(views(r@) =~= views(v@).subrange(0, i + 1));
        }
        i = i + 1;
    }
    assert(views(v@).subrange(0, n as int) =~= views(v@));
    r
}

impl VaultConfig {
    /// Settings for the server at `url` with `token`, and no visits yet.
    pub fn new(url: String, token: String) -> (r: Self)
        ensures
            r@ == (VaultConfigView { url: url@, token: token@, visited: Seq::empty() }),
    {
        let r = VaultConfig { url, token, visited: Vec::new() };
        assert(views(r.visited@) =~= Seq::<VisitView>::empty());
        r
    }
}

impl Record for VaultConfig {
    fn duplicate(&self) -> (r: Self)
        ensures
            r@ == self@,
    {
        VaultConfig {
            url: self.url.clone(),
            token: self.token.clone(),
            visited: duplicate_visits(&self.visited),
        }
    }
}

/// The tree of the Vault settings, under the one key `global`.
pub struct VaultStore {
    tree: Tree<VaultConfig>,
}

/// The key under which the settings are stored.
pub open spec fn global_key() -> Seq<char> {
    "global"@
}

impl VaultStore {
    /// The tree of settings that this store keeps.
    pub closed spec fn records(&self) -> Tree<VaultConfig> {
        self.tree
    }

    /// The stored settings, if any.
    pub open spec fn stored(&self) -> Option<VaultConfigView> {
        self.records().lookup(global_key())
    }

    /// Well-formedness of the underlying tree.
    pub open spec fn wf(&self) -> bool {
        self.records().wf()
    }

    /// A store with no settings.
    pub fn new() -> (s: Self)
        ensures
            s.wf(),
            s.stored() is None,
    {
        VaultStore { tree: Tree::new() }
    }

    /// The stored settings.
    pub fn fetch(&self) -> (r: Option<VaultConfig>)
        requires
            self.wf(),
        ensures
            r matches Some(c) ==> self.stored() == Some(c@),
            r is None ==> self.stored() is None,
    {
        self.tree.get("global")
    }

    /// Stores `config` in place of the settings before.
    pub fn update(&mut self, config: VaultConfig)
        requires
            old(self).wf(),
        ensures
            final(self).wf(),
            final(self).stored() == Some(config@),
            forall|k: Seq<char>|
                k != global_key() ==> final(self).records().lookup(k) == old(
                    self,
                ).records().lookup(k),
    {
        self.tree.save("global", config);
    }

    /// Removes the stored settings.
    pub fn cleanup(&mut self)
        requires
            old(self).wf(),
        ensures
            final(self).wf(),
            final(self).stored() is None,
            forall|k: Seq<char>|
                k != global_key() ==> final(self).records().lookup(k) == old(
                    self,
                ).records().lookup(k),
    {
        self.tree.delete("global");
    }
}


/// `x` inserted into `t` after the leading visits counted at least as
/// often as `x`.
pub open spec fn insert_by_count(t: Seq<VisitView>, x: VisitView) -> Seq<VisitView>
    decreases t.len(),
{
    if t.len() == 0 {
        seq![x]
    } else if t[0].count >= x.count {
        seq![t[0]] + insert_by_count(t.drop_first(), x)
    } else {
        seq![x] + t
    }
}

/// The visits ordered from the most counted to the least, visits with
/// equal counts keeping their order: what a stable sort by descending
/// count gives.
pub open spec fn by_count(s: Seq<VisitView>) -> Seq<VisitView>
    decreases s.len(),
{
    if s.len() == 0 {
        s
    } else {
        insert_by_count(by_count(s.drop_last()), s.last())
    }
}

/// Counts never increase along the sequence.
pub open spec fn descending(s: Seq<VisitView>) -> bool {
    forall|i: int, j: int| 0 <= i < j < s.len() ==> (#[trigger] s[i]).count >= (#[trigger] s[j]).count
}

proof fn lemma_insert_by_count_at(t: Seq<VisitView>, x: VisitView, p: int)
    requires
        0 <= p <= t.len(),
        forall|j: int| 0 <= j < p ==> (#[trigger] t[j]).count >= x.count,
        p == t.len() || t[p].count < x.count,
    ensures
        insert_by_count(t, x) == t.insert(p, x),
    decreases p,
{
    if p == 0 {
        if t.len() == 0 {
            assert(t.insert(0, x) =~= seq![x]);
        } else {
            assert(t.insert(0, x) =~= seq![x] + t);
        }
    } else {
        let u = t.drop_first();
        assert forall|j: int| 0 <= j < p - 1 implies (#[trigger] u[j]).count >= x.count by {
            assert(u[j] == t[j + 1]);
        }
        if p < t.len() {
            assert(u[p - 1] == t[p]);
        }
        lemma_insert_by_count_at(u, x, p - 1);
        assert(t[0].count >= x.count);
        assert(seq![t[0]] + u.insert(p - 1, x) =~= t.insert(p, x));
    }
}

proof fn lemma_insert_by_count_len(t: Seq<VisitView>, x: VisitView)
    ensures
        insert_by_count(t, x).len() == t.len() + 1,
    decreases t.len(),
{
    if t.len() > 0 && t[0].count >= x.count {
        lemma_insert_by_count_len(t.drop_first(), x);
    }
}

/// Ordering by count keeps the number of visits.
pub proof fn lemma_by_count_len(s: Seq<VisitView>)
    ensures
        by_count(s).len() == s.len(),
    decreases s.len(),
{
    if s.len() > 0 {
        lemma_by_count_len(s.drop_last());
        lemma_insert_by_count_len(by_count(s.drop_last()), s.last());
    }
}

proof fn lemma_insert_by_count_multiset(t: Seq<VisitView>, x: VisitView)
    ensures
        insert_by_count(t, x).to_multiset() == t.to_multiset().insert(x),
    decreases t.len(),
{
    broadcast use vstd::seq_lib::group_to_multiset_ensures;

    if t.len() == 0 {
        assert(seq![x] =~= Seq::<VisitView>::empty().push(x));
    } else if t[0].count >= x.count {
        let u = t.drop_first();
        lemma_insert_by_count_multiset(u, x);
        assert(t =~= seq![t[0]] + u);
        vstd::seq_lib::lemma_multiset_commutative(seq![t[0]], u);
        vstd::seq_lib::lemma_multiset_commutative(seq![t[0]], insert_by_count(u, x));
        assert(seq![t[0]] =~= Seq::<VisitView>::empty().push(t[0]));
    } else {
        vstd::seq_lib::lemma_multiset_commutative(seq![x], t);
        assert(seq![x] =~= Seq::<VisitView>::empty().push(x));
    }
}

/// Ordering by count neither adds nor drops a visit.
pub proof fn lemma_by_count_permutes(s: Seq<VisitView>)
    ensures
        by_count(s).to_multiset() == s.to_multiset(),
    decreases s.len(),
{
    broadcast use vstd::seq_lib::group_to_multiset_ensures;

    if s.len() > 0 {
        lemma_by_count_permutes(s.drop_last());
        lemma_insert_by_count_multiset(by_count(s.drop_last()), s.last());
        assert(s =~= s.drop_last().push(s.last()));
    }
}

proof fn lemma_insert_by_count_descending(t: Seq<VisitView>, x: VisitView)
    requires
        descending(t),
    ensures
        descending(insert_by_count(t, x)),
        insert_by_count(t, x).len() > 0,
        insert_by_count(t, x)[0].count == (if t.len() > 0 && t[0].count >= x.count {
            t[0].count
        } else {
            x.count
        }),
    decreases t.len(),
{
    lemma_insert_by_count_len(t, x);
    if t.len() == 0 {
    } else if t[0].count >= x.count {
        let u = t.drop_first();
        assert forall|i: int, j: int| 0 <= i < j < u.len() implies (#[trigger] u[i]).count >= (
        #[trigger] u[j]).count by {
            assert(u[i] == t[i + 1] && u[j] == t[j + 1]);
        }
        lemma_insert_by_count_descending(u, x);
        let r = insert_by_count(t, x);
        let ru = insert_by_count(u, x);
        assert(r == seq![t[0]] + ru);
        assert forall|i: int, j: int| 0 <= i < j < r.len() implies (#[trigger] r[i]).count >= (
        #[trigger] r[j]).count by {
            if i == 0 {
                assert(r[j] == ru[j - 1]);
                assert(ru[0].count <= t[0].count) by {
                    if u.len() > 0 {
                        assert(u[0] == t[1]);
                    }
                }
                if j - 1 > 0 {
                    assert(ru[0].count >= ru[j - 1].count);
                }
            } else {
                assert(r[i] == ru[i - 1] && r[j] == ru[j - 1]);
            }
        }
    } else {
        let r = insert_by_count(t, x);
        assert(r == seq![x] + t);
        assert forall|i: int, j: int| 0 <= i < j < r.len() implies (#[trigger] r[i]).count >= (
        #[trigger] r[j]).count by {
            if i == 0 {
                assert(r[j] == t[j - 1]);
                if j - 1 > 0 {
                    assert(t[0].count >= t[j - 1].count);
                }
            } else {
                assert(r[i] == t[i - 1] && r[j] == t[j - 1]);
            }
        }
    }
}

/// Ordering by count yields counts that never increase.
pub proof fn lemma_by_count_descending(s: Seq<VisitView>)
    ensures
        descending(by_count(s)),
    decreases s.len(),
{
    if s.len() > 0 {
        lemma_by_count_descending(s.drop_last());
        lemma_insert_by_count_descending(by_count(s.drop_last()), s.last());
    }
}

/// The visits, from the most counted to the least; visits with equal
/// counts keep their order.
pub fn sort_by_count(v: Vec<SecretVisit>) -> (r: Vec<SecretVisit>)
    ensures
        views(r@) == by_count(views(v@)),
{
    let n = v.len();
    let mut r: Vec<SecretVisit> = Vec::new();
    let mut i: usize = 0;
    while i < n
        invariant
            n == v@.len(),
            i <= n,
            views(r@) == by_count(views(v@).subrange(0, i as int)),
        decreases n - i,
    {
        let x = v[i].duplicate();
        let m = r.len();
        let mut p: usize = 0;
        while p < m && r[p].count >= x.count
            invariant
                m == r@.len(),
                p <= m,
                forall|j: int| 0 <= j < p ==> (#[trigger] views(r@)[j]).count >= x@.count,
            decreases m - p,
        {
            assert(views(r@)[p as int] == r@[p as int]@);
            p = p + 1;
        }
        proof {
            if p < m {
                assert(views(r@)[p as int] == r@[p as int]@);
            }
            lemma_insert_by_count_at(views(r@), x@, p as int);
            let pre = views(v@).subrange(0, i as int);
            let cur = views(v@).subrange(0, i + 1);
            assert(cur.drop_last() =~= pre);
            assert(cur.last() == x@);
        }
        let ghost prev = r@;
        let ghost xv = x@;
        r.insert(p, x);
        assert(views(r@) =~= views(prev).insert(p as int, xv));
        i = i + 1;
    }
    assert(views(v@).subrange(0, n as int) =~= views(v@));
    r
}


/// Whether `v` counts visits of `path` under `mount`.
pub open spec fn same_place(v: VisitView, mount: Seq<char>, path: Seq<char>) -> bool {
    v.mount == mount && v.path == path
}

/// The position of the first visit of `path` under `mount`, or the
/// length of the history when there is none.
pub open spec fn visit_pos(s: Seq<VisitView>, mount: Seq<char>, path: Seq<char>) -> int
    decreases s.len(),
{
    if s.len() == 0 {
        0
    } else if same_place(s[0], mount, path) {
        0
    } else {
        1 + visit_pos(s.drop_first(), mount, path)
    }
}

/// `c + 1`, saturating at the largest `usize`.
pub open spec fn saturating_inc(c: usize) -> usize {
    if c == usize::MAX {
        c
    } else {
        (c + 1) as usize
    }
}

/// The history with one more visit of `path` under `mount`: the count of
/// the first matching entry grows by one, or a new entry with count one
/// is appended.
pub open spec fn bumped(s: Seq<VisitView>, mount: Seq<char>, path: Seq<char>) -> Seq<VisitView> {
    let i = visit_pos(s, mount, path);
    if i < s.len() {
        s.update(i, VisitView { mount: s[i].mount, path: s[i].path, count: saturating_inc(s[i].count) })
    } else {
        s.push(VisitView { mount, path, count: 1 })
    }
}

/// The history after a visit: once it holds more than a hundred entries,
/// only the fifty most counted stay.
pub open spec fn after_visit(s: Seq<VisitView>, mount: Seq<char>, path: Seq<char>) -> Seq<
    VisitView,
> {
    let b = bumped(s, mount, path);
    if b.len() > 100 {
        by_count(b).take(50)
    } else {
        b
    }
}

/// The ten most counted visits, most counted first.
pub open spec fn top_visits_spec(s: Seq<VisitView>) -> Seq<VisitView> {
    let b = by_count(s);
    if b.len() > 10 {
        b.take(10)
    } else {
        b
    }
}

proof fn lemma_visit_pos_at(s: Seq<VisitView>, mount: Seq<char>, path: Seq<char>, i: int)
    requires
        0 <= i <= s.len(),
        forall|j: int| 0 <= j < i ==> !same_place(#[trigger] s[j], mount, path),
        i == s.len() || same_place(s[i], mount, path),
    ensures
        visit_pos(s, mount, path) == i,
    decreases i,
{
    if i > 0 {
        let u = s.drop_first();
        assert(!same_place(s[0], mount, path));
        assert forall|j: int| 0 <= j < i - 1 implies !same_place(#[trigger] u[j], mount, path) by {
            assert(u[j] == s[j + 1]);
        }
        if i < s.len() {
            assert(u[i - 1] == s[i]);
        }
        lemma_visit_pos_at(u, mount, path, i - 1);
    }
}

/// Counts one more visit of `path` under `mount` in `cfg`.
pub fn record_visit(cfg: &mut VaultConfig, mount: &str, path: &str)
    ensures
        final(cfg)@ == (VaultConfigView {
            url: old(cfg)@.url,
            token: old(cfg)@.token,
            visited: after_visit(old(cfg)@.visited, mount@, path@),
        }),
{
    let ghost s = views(cfg.visited@);
    let n = cfg.visited.len();
    let mut i: usize = 0;
    while i < n && !(same_text(cfg.visited[i].mount.as_str(), mount) && same_text(
        cfg.visited[i].path.as_str(),
        path,
    ))
        invariant
            n == cfg.visited@.len(),
            s == views(cfg.visited@),
            i <= n,
            forall|j: int| 0 <= j < i ==> !same_place(#[trigger] s[j], mount@, path@),
        decreases n - i,
    {
        assert(s[i as int] == cfg.visited@[i as int]@);
        i = i + 1;
    }
    proof {
        if i < n {
            assert(s[i as int] == cfg.visited@[i as int]@);
        }
        lemma_visit_pos_at(s, mount@, path@, i as int);
    }
    if i < n {
        let old_count = cfg.visited[i].count;
        let count = if old_count == usize::MAX {
            old_count
        } else {
            old_count + 1
        };
        let updated = SecretVisit {
            mount: cfg.visited[i].mount.clone(),
            path: cfg.visited[i].path.clone(),
            count,
        };
        let ghost prev = cfg.visited@;
        let ghost uv = updated@;
        cfg.visited.set(i, updated);
        assert(views(cfg.visited@) =~= s.update(i as int, uv));
    } else {
        let ghost prev = cfg.visited@;
        let fresh = SecretVisit::new(mount, path);
        let ghost fv = fresh@;
        cfg.visited.push(fresh);
        assert(views(cfg.visited@) =~= s.push(fv));
    }
    if cfg.visited.len() > 100 {
        let mut all: Vec<SecretVisit> = Vec::new();
        std::mem::swap(&mut all, &mut cfg.visited);
        let mut sorted = sort_by_count(all);
        proof {
            lemma_by_count_len(bumped(s, mount@, path@));
        }
        sorted.truncate(50);
        assert(views(sorted@) =~= by_count(bumped(s, mount@, path@)).take(50));
        cfg.visited = sorted;
    }
}

/// The ten most counted visits of the history, most counted first.
pub fn top_visits(visited: Vec<SecretVisit>) -> (r: Vec<SecretVisit>)
    ensures
        views(r@) == top_visits_spec(views(visited@)),
{
    let mut sorted = sort_by_count(visited);
    proof {
        lemma_by_count_len(views(visited@));
    }
    if sorted.len() > 10 {
        sorted.truncate(10);
        assert(views(sorted@) =~= by_count(views(visited@)).take(10));
    }
    sorted
}

impl VaultStore {
    /// Counts a visit of `path` under `mount` in the stored history; without
    /// stored settings nothing changes.
    pub fn track_visit(&mut self, mount: &str, path: &str)
        requires
            old(self).wf(),
        ensures
            final(self).wf(),
            old(self).stored() is None ==> final(self).stored() is None,
            old(self).stored() matches Some(c) ==> final(self).stored() == Some(
                VaultConfigView {
                    url: c.url,
                    token: c.token,
                    visited: after_visit(c.visited, mount@, path@),
                },
            ),
    {
        if let Some(mut cfg) = self.fetch() {
            record_visit(&mut cfg, mount, path);
            self.update(cfg);
        }
    }

    /// The ten most counted visits of the stored history, most counted
    /// first; none without stored settings.
    pub fn frequent_visits(&self) -> (r: Vec<SecretVisit>)
        requires
            self.wf(),
        ensures
            self.stored() matches Some(c) ==> views(r@) == top_visits_spec(c.visited),
            self.stored() is None ==> r@.len() == 0,
    {
        match self.fetch() {
            Some(cfg) => top_visits(cfg.visited),
            None => Vec::new(),
        }
    }
}

/// The visits of `s` counted exactly `c` times, in their order in `s`.
pub open spec fn of_count(s: Seq<VisitView>, c: usize) -> Seq<VisitView>
    decreases s.len(),
{
    if s.len() == 0 {
        s
    } else if s.last().count == c {
        of_count(s.drop_last(), c).push(s.last())
    } else {
        of_count(s.drop_last(), c)
    }
}

proof fn lemma_of_count_concat(a: Seq<VisitView>, b: Seq<VisitView>, c: usize)
    ensures
        of_count(a + b, c) == of_count(a, c) + of_count(b, c),
    decreases b.len(),
{
    if b.len() == 0 {
        assert(a + b =~= a);
        assert(of_count(a, c) + of_count(b, c) =~= of_count(a, c));
    } else {
        lemma_of_count_concat(a, b.drop_last(), c);
        assert((a + b).drop_last() =~= a + b.drop_last());
        assert((a + b).last() == b.last());
        if b.last().count == c {
            assert(of_count(a + b, c) =~= of_count(a, c) + of_count(b, c));
        } else {
            assert(of_count(a + b, c) =~= of_count(a, c) + of_count(b, c));
        }
    }
}

proof fn lemma_of_count_none(t: Seq<VisitView>, c: usize)
    requires
        forall|i: int| 0 <= i < t.len() ==> (#[trigger] t[i]).count < c,
    ensures
        of_count(t, c) == Seq::<VisitView>::empty(),
    decreases t.len(),
{
    if t.len() > 0 {
        let u = t.drop_last();
        assert forall|i: int| 0 <= i < u.len() implies (#[trigger] u[i]).count < c by {
            assert(u[i] == t[i]);
        }
        lemma_of_count_none(u, c);
        assert(t.last() == t[t.len() - 1]);
    }
}

proof fn lemma_of_count_single(x: VisitView, c: usize)
    ensures
        of_count(seq![x], c) == if x.count == c {
            seq![x]
        } else {
            Seq::<VisitView>::empty()
        },
{
    let e = Seq::<VisitView>::empty();
    assert(seq![x].drop_last() =~= e);
    assert(seq![x].last() == x);
    assert(of_count(e, c) == e);
    if x.count == c {
        assert(e.push(x) =~= seq![x]);
    }
}

proof fn lemma_insert_by_count_stable(t: Seq<VisitView>, x: VisitView, c: usize)
    requires
        descending(t),
    ensures
        of_count(insert_by_count(t, x), c) == if x.count == c {
            of_count(t, c).push(x)
        } else {
            of_count(t, c)
        },
    decreases t.len(),
{
    let r = insert_by_count(t, x);
    lemma_of_count_single(x, c);
    if t.len() == 0 {
        assert(r == seq![x]);
        assert(of_count(t, c) == t);
        if x.count == c {
            assert(t.push(x) =~= seq![x]);
        }
    } else if t[0].count >= x.count {
        let u = t.drop_first();
        assert forall|i: int, j: int| 0 <= i < j < u.len() implies (#[trigger] u[i]).count >= (
        #[trigger] u[j]).count by {
            assert(u[i] == t[i + 1] && u[j] == t[j + 1]);
        }
        lemma_insert_by_count_stable(u, x, c);
        assert(t =~= seq![t[0]] + u);
        assert(r == seq![t[0]] + insert_by_count(u, x));
        lemma_of_count_concat(seq![t[0]], u, c);
        lemma_of_count_concat(seq![t[0]], insert_by_count(u, x), c);
        let h = of_count(seq![t[0]], c);
        if x.count == c {
            assert(h + of_count(u, c).push(x) =~= (h + of_count(u, c)).push(x));
        }
    } else {
        assert(r == seq![x] + t);
        lemma_of_count_concat(seq![x], t, c);
        if x.count == c {
            assert forall|i: int| 0 <= i < t.len() implies (#[trigger] t[i]).count < c by {
                if i > 0 {
                    assert(t[0].count >= t[i].count);
                }
            }
            lemma_of_count_none(t, c);
            assert(seq![x] + Seq::<VisitView>::empty() =~= Seq::<VisitView>::empty().push(x));
        } else {
            assert(Seq::<VisitView>::empty() + of_count(t, c) =~= of_count(t, c));
        }
    }
}

/// Ordering by count keeps visits of equal count in their order: for every
/// count, the visits with that count come in the same order before and
/// after. With the two laws before, this is what a stable sort by
/// descending count gives.
pub proof fn lemma_by_count_stable(s: Seq<VisitView>, c: usize)
    ensures
        of_count(by_count(s), c) == of_count(s, c),
    decreases s.len(),
{
    if s.len() > 0 {
        lemma_by_count_stable(s.drop_last(), c);
        lemma_by_count_descending(s.drop_last());
        lemma_insert_by_count_stable(by_count(s.drop_last()), s.last(), c);
    }
}

/// The history never grows beyond a hundred entries.
pub proof fn lemma_history_bounded(s: Seq<VisitView>, mount: Seq<char>, path: Seq<char>)
    requires
        s.len() <= 100,
    ensures
        after_visit(s, mount, path).len() <= 100,
{
    let b = bumped(s, mount, path);
    if b.len() > 100 {
        lemma_by_count_len(b);
    }
}

/// When the history overflows, the entries kept are the fifty most
/// counted: ordering neither adds nor drops an entry, and no entry kept is
/// counted less often than an entry dropped.
pub proof fn lemma_pruning_keeps_most_visited(s: Seq<VisitView>, mount: Seq<char>, path: Seq<char>)
    requires
        bumped(s, mount, path).len() > 100,
    ensures
        after_visit(s, mount, path) == by_count(bumped(s, mount, path)).take(50),
        by_count(bumped(s, mount, path)).to_multiset() == bumped(s, mount, path).to_multiset(),
        forall|i: int, j: int|
            0 <= i < 50 <= j < bumped(s, mount, path).len() ==> (#[trigger] by_count(
                bumped(s, mount, path),
            )[i]).count >= (#[trigger] by_count(bumped(s, mount, path))[j]).count,
{
    let b = bumped(s, mount, path);
    lemma_by_count_len(b);
    lemma_by_count_permutes(b);
    lemma_by_count_descending(b);
}

/// A visit of a place already in the history, when no pruning follows,
/// adds one to its count and changes nothing else.
pub proof fn lemma_revisit_counts(s: Seq<VisitView>, mount: Seq<char>, path: Seq<char>, i: int)
    requires
        s.len() <= 100,
        0 <= i < s.len(),
        same_place(s[i], mount, path),
        forall|j: int| 0 <= j < i ==> !same_place(#[trigger] s[j], mount, path),
    ensures
        after_visit(s, mount, path).len() == s.len(),
        after_visit(s, mount, path)[i].count == saturating_inc(s[i].count),
        forall|j: int| 0 <= j < s.len() && j != i ==> #[trigger] after_visit(s, mount, path)[j] == s[j],
{
    lemma_visit_pos_at(s, mount, path, i);
}

/// A visit of a secret counted before adds one to the count (up to the
/// largest `usize`) of the first entry with the same mount and the same
/// path, and changes no other entry, while no pruning follows.
pub proof fn lemma_visit_counts_its_place(s: Seq<VisitView>, mount: Seq<char>, path: Seq<char>, i: int)
    requires
        s.len() <= 100,
        0 <= i < s.len(),
        s[i].mount == mount,
        s[i].path == path,
        forall|j: int| 0 <= j < i ==> !((#[trigger] s[j]).mount == mount && s[j].path == path),
    ensures
        after_visit(s, mount, path).len() == s.len(),
        after_visit(s, mount, path)[i].mount == mount,
        after_visit(s, mount, path)[i].path == path,
        after_visit(s, mount, path)[i].count == if s[i].count == usize::MAX {
            s[i].count as int
        } else {
            s[i].count + 1
        },
        forall|j: int| 0 <= j < s.len() && j != i ==> #[trigger] after_visit(s, mount, path)[j] == s[j],
{
    lemma_visit_pos_at(s, mount, path, i);
}

/// A visit of a secret that no entry has under the same mount and the same
/// path appends it with a count of one and leaves every entry before as it
/// was, while no pruning follows.
pub proof fn lemma_new_place_appended(s: Seq<VisitView>, mount: Seq<char>, path: Seq<char>)
    requires
        s.len() < 100,
        forall|j: int| 0 <= j < s.len() ==> !((#[trigger] s[j]).mount == mount && s[j].path == path),
    ensures
        after_visit(s, mount, path) == s.push(VisitView { mount, path, count: 1 }),
{
    lemma_visit_pos_at(s, mount, path, s.len() as int);
}

} // verus!
