//! Subscription profiles and the trees of profiles and routing rules.

use vstd::prelude::*;
use crate::store::{Record, Tree, views};

verus! {

/// Where a subscription profile lists its proxies.
#[derive(Debug)]
pub enum Source {
    /// A list fetched from this address.
    Remote(String),
}

/// A proxy node subscription profile.
#[derive(Debug)]
pub struct Profile {
    pub id: String,
    pub name: Option<String>,
    pub source: Source,
    pub update_interval: u64,
    pub enabled: bool,
}

/// The abstract value of a [`Profile`].
pub struct ProfileView {
    pub id: Seq<char>,
    pub name: Option<Seq<char>>,
    pub source_url: Seq<char>,
    pub update_interval: u64,
    pub enabled: bool,
}

impl View for Profile {
    type V = ProfileView;

    open spec fn view(&self) -> ProfileView {
        ProfileView {
            id: self.id@,
            name: match self.name {
                Some(n) => Some(n@),
                None => None,
            },
            source_url: match self.source {
                Source::Remote(u) => u@,
            },
            update_interval: self.update_interval,
            enabled: self.enabled,
        }
    }
}

/// The identifier of the profile of a subscription address: a name-based
/// identifier of the address, the same for the same address every time.
pub uninterp spec fn profile_id(url: Seq<char>) -> Seq<char>;

/// Calls `uuid::Uuid::new_v5` in the URL namespace on the bytes of `url`,
/// and its `to_string`: the contract claims that the text depends on the
/// address alone, as a name-based (SHA-1) identifier does.
#[verifier::external_body]
fn url_identifier(url: &str) -> (id: String)
    ensures
        id@ == profile_id(url@),
{
    uuid::Uuid::new_v5(&uuid::Uuid::NAMESPACE_URL, url.as_bytes()).to_string()
}

/// The profile of a new subscription at `url`.
pub open spec fn new_profile(url: Seq<char>) -> ProfileView {
    ProfileView {
        id: profile_id(url),
        name: None,
        source_url: url,
        update_interval: 3600,
        enabled: true,
    }
}

impl Default for Profile {
    fn default() -> (r: Self)
        ensures
            r@ == (ProfileView {
                id: Seq::empty(),
                name: None,
                source_url: Seq::empty(),
                update_interval: 3600,
                enabled: true,
            }),
    {
        Profile {
            id: String::new(),
            name: None,
            source: Source::Remote(String::new()),
            update_interval: 3600,
            enabled: true,
        }
    }
}

/// The profile switched on or off.
pub open spec fn toggled(p: ProfileView) -> ProfileView {
    ProfileView { enabled: !p.enabled, ..p }
}

/// Switching a profile twice gives it back as it was.
pub proof fn lemma_toggle_twice(p: ProfileView)
    ensures
        toggled(toggled(p)) == p,
{
}

impl Profile {
    /// The profile of a new subscription at `url`: enabled, without a name,
    /// refreshed hourly, and identified by its address.
    pub fn new(url: &str) -> (r: Self)
        ensures
            r@ == new_profile(url@),
    {
        let source = Source::Remote(url.to_owned());
        let id = Self::generate_id(&source);
        Profile { id, name: None, source, update_interval: 3600, enabled: true }
    }

    /// The identifier of the profile of subscriptions listed at `source`.
    fn generate_id(source: &Source) -> (id: String)
        ensures
            id@ == profile_id(
                match source {
                    Source::Remote(u) => u@,
                },
            ),
    {
        match source {
            Source::Remote(url) => url_identifier(url.as_str()),
        }
    }

    /// The address of the profile's subscription.
    pub fn source_url(&self) -> (r: &str)
        ensures
            r@ == self@.source_url,
    {
        match &self.source {
            Source::Remote(u) => u.as_str(),
        }
    }

    /// Switches the profile on or off.
    pub fn toggle(&mut self)
        ensures
            final(self)@ == toggled(old(self)@),
    {
        self.enabled = !self.enabled;
    }
}


impl Record for Profile {
    fn duplicate(&self) -> (r: Self)
        ensures
            r@ == self@,
    {
        Profile {
            id: self.id.clone(),
            name: match &self.name {
                Some(n) => Some(n.clone()),
                None => None,
            },
            source: match &self.source {
                Source::Remote(u) => Source::Remote(u.clone()),
            },
            update_interval: self.update_interval,
            enabled: self.enabled,
        }
    }
}

/// The stored subscription profiles, by identifier.
pub struct ProfileStore {
    tree: Tree<Profile>,
}

/// Why a profile operation failed.
#[derive(Debug, Clone, Copy, PartialEq, Eq, Structural)]
pub enum ProfileError {
    /// No profile is stored under the identifier.
    NotFound,
}

/// The enabled profiles, as pairs of identifier and address, in order.
pub open spec fn enabled_sources(s: Seq<ProfileView>) -> Seq<(Seq<char>, Seq<char>)>
    decreases s.len(),
{
    if s.len() == 0 {
        Seq::empty()
    } else {
        let rest = enabled_sources(s.drop_last());
        if s.last().enabled {
            rest.push((s.last().id, s.last().source_url))
        } else {
            rest
        }
    }
}

impl ProfileStore {
    /// The tree of profiles.
    pub closed spec fn records(&self) -> Tree<Profile> {
        self.tree
    }

    /// The profile stored under `id`, if any.
    pub open spec fn stored(&self, id: Seq<char>) -> Option<ProfileView> {
        self.records().lookup(id)
    }

    /// Well-formedness of the tree, each profile stored under its
    /// identifier.
    pub open spec fn wf(&self) -> bool {
        &&& self.records().wf()
        &&& forall|k: Seq<char>| #[trigger] self.stored(k) is Some ==> self.stored(k)->0.id == k
    }

    /// A store without profiles.
    pub fn new() -> (s: Self)
        ensures
            s.wf(),
            forall|k: Seq<char>| s.stored(k) is None,
            s.records().value_list().len() == 0,
    {
        ProfileStore { tree: Tree::new() }
    }

    /// Stores `profile` under its identifier, in place of the one before.
    pub fn add(&mut self, profile: &Profile)
        requires
            old(self).wf(),
        ensures
            final(self).wf(),
            final(self).stored(profile@.id) == Some(profile@),
            forall|k: Seq<char>| k != profile@.id ==> final(self).stored(k) == old(self).stored(k),
    {
        let copy = profile.duplicate();
        self.tree.save(profile.id.as_str(), copy);
        proof {
            assert forall|k: Seq<char>| #[trigger] self.stored(k) is Some implies self.stored(k)->0.id
                == k by {
                if k != profile@.id {
                    assert(self.stored(k) == old(self).stored(k));
                }
            }
        }
    }

    /// The profile stored under `id`.
    pub fn get(&self, id: &str) -> (r: Option<Profile>)
        requires
            self.wf(),
        ensures
            r matches Some(p) ==> self.stored(id@) == Some(p@),
            r is None ==> self.stored(id@) is None,
    {
        self.tree.get(id)
    }

    /// Removes the profile stored under `id`.
    pub fn delete(&mut self, id: &str)
        requires
            old(self).wf(),
        ensures
            final(self).wf(),
            final(self).stored(id@) is None,
            forall|k: Seq<char>| k != id@ ==> final(self).stored(k) == old(self).stored(k),
    {
        self.tree.delete(id);
        proof {
            assert forall|k: Seq<char>| #[trigger] self.stored(k) is Some implies self.stored(k)->0.id
                == k by {
                if k != id@ {
                    assert(self.stored(k) == old(self).stored(k));
                }
            }
        }
    }

    /// All profiles, in the order of their identifiers.
    pub fn all(&self) -> (r: Vec<Profile>)
        requires
            self.wf(),
        ensures
            views(r@) == self.records().value_list(),
    {
        self.tree.all()
    }

    /// Switches the profile stored under `id` on or off, and gives its new
    /// state; without such a profile nothing changes.
    pub fn toggle_profile(&mut self, id: &str) -> (r: Result<bool, ProfileError>)
        requires
            old(self).wf(),
        ensures
            final(self).wf(),
            old(self).stored(id@) is None ==> r == Err::<bool, ProfileError>(ProfileError::NotFound)
                && final(self).records() == old(self).records(),
            old(self).stored(id@) matches Some(p) ==> r == Ok::<bool, ProfileError>(!p.enabled)
                && final(self).stored(id@) == Some(toggled(p))
                && forall|k: Seq<char>| k != id@ ==> final(self).stored(k) == old(self).stored(k),
    {
        match self.tree.get(id) {
            None => Err(ProfileError::NotFound),
            Some(mut p) => {
                assert(old(self).stored(id@) matches Some(q) && q.id == id@);
                p.toggle();
                let enabled = p.enabled;
                self.tree.save(id, p);
                proof {
                    assert forall|k: Seq<char>| #[trigger] self.stored(k) is Some implies self.stored(k)->0.id
                        == k by {
                        if k != id@ {
                            assert(self.stored(k) == old(self).stored(k));
                        }
                    }
                }
                Ok(enabled)
            },
        }
    }

    /// The enabled profiles, as pairs of identifier and address, in the
    /// order of their identifiers: the providers that the proxy core loads.
    pub fn providers(&self) -> (r: Vec<(String, String)>)
        requires
            self.wf(),
        ensures
            r@.map_values(|e: (String, String)| (e.0@, e.1@)) == enabled_sources(
                self.records().value_list(),
            ),
    {
        let all = self.tree.all();
        let n = all.len();
        let mut r: Vec<(String, String)> = Vec::new();
        let mut i: usize = 0;
        while i < n
            invariant
                n == all@.len(),
                i <= n,
                views(all@) == self.records().value_list(),
                r@.map_values(|e: (String, String)| (e.0@, e.1@)) == enabled_sources(
                    views(all@).subrange(0, i as int),
                ),
            decreases n - i,
        {
            let ghost pre = views(all@).subrange(0, i as int);
            let ghost cur = views(all@).subrange(0, i + 1);
            assert(cur.drop_last() =~= pre);
            assert(cur.last() == all@[i as int]@);
            let ghost prev = r@;
            if all[i].enabled {
                let id = all[i].id.clone();
                let url = all[i].source_url().to_owned();
                r.push((id, url));
                assert(r@.map_values(|e: (String, String)| (e.0@, e.1@)) =~= prev.map_values(
                    |e: (String, String)| (e.0@, e.1@),
                ).push((cur.last().id, cur.last().source_url)));
            }
            i = i + 1;
        }
        assert(views(all@).subrange(0, n as int) =~= views(all@));
        r
    }
}

/// Whom a routing rule matches.
#[derive(Debug, Clone, Copy, PartialEq, Eq, Structural)]
pub enum Target {
    /// An application, by process name.
    App,
    /// A host name.
    Host,
}

/// A routing rule learned from the connections seen, with how often it
/// matched.
#[derive(Debug)]
pub struct Rule {
    pub id: String,
    pub name: String,
    pub target: Target,
    pub amt: u64,
    pub active: bool,
    pub ignored: bool,
}

/// The abstract value of a [`Rule`].
pub struct RuleView {
    pub id: Seq<char>,
    pub name: Seq<char>,
    pub target: Target,
    pub amt: u64,
    pub active: bool,
    pub ignored: bool,
}

impl View for Rule {
    type V = RuleView;

    open spec fn view(&self) -> RuleView {
        RuleView {
            id: self.id@,
            name: self.name@,
            target: self.target,
            amt: self.amt,
            active: self.active,
            ignored: self.ignored,
        }
    }
}

impl Record for Rule {
    fn duplicate(&self) -> (r: Self)
        ensures
            r@ == self@,
    {
        Rule {
            id: self.id.clone(),
            name: self.name.clone(),
            target: self.target,
            amt: self.amt,
            active: self.active,
            ignored: self.ignored,
        }
    }
}

/// The active rules that are not ignored, in order.
pub open spec fn routable_rules(s: Seq<RuleView>) -> Seq<RuleView>
    decreases s.len(),
{
    if s.len() == 0 {
        Seq::empty()
    } else {
        let rest = routable_rules(s.drop_last());
        if s.last().active && !s.last().ignored {
            rest.push(s.last())
        } else {
            rest
        }
    }
}

/// The stored routing rules, by identifier.
pub struct RuleStore {
    tree: Tree<Rule>,
}

impl RuleStore {
    /// The tree of rules.
    pub closed spec fn records(&self) -> Tree<Rule> {
        self.tree
    }

    /// The rule stored under `id`, if any.
    pub open spec fn stored(&self, id: Seq<char>) -> Option<RuleView> {
        self.records().lookup(id)
    }

    /// Well-formedness of the tree, each rule stored under its identifier.
    pub open spec fn wf(&self) -> bool {
        &&& self.records().wf()
        &&& forall|k: Seq<char>| #[trigger] self.stored(k) is Some ==> self.stored(k)->0.id == k
    }

    /// A store without rules.
    pub fn new() -> (s: Self)
        ensures
            s.wf(),
            forall|k: Seq<char>| s.stored(k) is None,
            s.records().value_list().len() == 0,
    {
        RuleStore { tree: Tree::new() }
    }

    /// Stores `rule` under its identifier, in place of the one before.
    pub fn upsert(&mut self, rule: &Rule)
        requires
            old(self).wf(),
        ensures
            final(self).wf(),
            final(self).stored(rule@.id) == Some(rule@),
            forall|k: Seq<char>| k != rule@.id ==> final(self).stored(k) == old(self).stored(k),
    {
        let copy = rule.duplicate();
        self.tree.save(rule.id.as_str(), copy);
        proof {
            assert forall|k: Seq<char>| #[trigger] self.stored(k) is Some implies self.stored(k)->0.id
                == k by {
                if k != rule@.id {
                    assert(self.stored(k) == old(self).stored(k));
                }
            }
        }
    }

    /// The rule stored under `id`.
    pub fn get(&self, id: &str) -> (r: Option<Rule>)
        requires
            self.wf(),
        ensures
            r matches Some(p) ==> self.stored(id@) == Some(p@),
            r is None ==> self.stored(id@) is None,
    {
        self.tree.get(id)
    }

    /// The rules that routing uses: the active ones not ignored, in the
    /// order of their identifiers.
    pub fn routable(&self) -> (r: Vec<Rule>)
        requires
            self.wf(),
        ensures
            views(r@) == routable_rules(self.records().value_list()),
    {
        let all = self.tree.all();
        let n = all.len();
        let mut r: Vec<Rule> = Vec::new();
        let mut i: usize = 0;
        while i < n
            invariant
                n == all@.len(),
                i <= n,
                views(all@) == self.records().value_list(),
                views(r@) == routable_rules(views(all@).subrange(0, i as int)),
            decreases n - i,
        {
            let ghost pre = views(all@).subrange(0, i as int);
            let ghost cur = views(all@).subrange(0, i + 1);
            assert(cur.drop_last() =~= pre);
            assert(cur.last() == all@[i as int]@);
            if all[i].active && !all[i].ignored {
                let d = all[i].duplicate();
                let ghost prev = r@;
                let ghost dv = d@;
                r.push(d);
                assert(views(r@) =~= views(prev).push(dv));
            }
            i = i + 1;
        }
        assert(views(all@).subrange(0, n as int) =~= views(all@));
        r
    }

    /// All rules, in the order of their identifiers.
    pub fn extract(&self) -> (r: Vec<Rule>)
        requires
            self.wf(),
        ensures
            views(r@) == self.records().value_list(),
    {
        self.tree.all()
    }
}

} // verus!
