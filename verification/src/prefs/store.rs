//! The stored preferences: one record per setting key, holding the value
//! as text.

use vstd::prelude::*;
use crate::store::{Record, Tree, views};
use crate::text::{bool_text, bool_text_spec, flag, flag_spec, same_text};

verus! {

/// A stored preference: the key of its setting and its value as text.
#[derive(Debug)]
pub struct AppPrefs {
    pub id: String,
    pub value: String,
}

/// The abstract value of an [`AppPrefs`].
pub struct AppPrefsView {
    pub id: Seq<char>,
    pub value: Seq<char>,
}

impl View for AppPrefs {
    type V = AppPrefsView;

    open spec fn view(&self) -> AppPrefsView {
        AppPrefsView { id: self.id@, value: self.value@ }
    }
}

impl AppPrefs {
    /// The record of `value` for the setting `id`.
    pub fn new(id: &str, value: &str) -> (r: Self)
        ensures
            r@ == (AppPrefsView { id: id@, value: value@ }),
    {
        AppPrefs { id: id.to_owned(), value: value.to_owned() }
    }

    /// The flag that the value sets: only the text `true` sets it.
    pub fn as_bool(&self) -> (r: bool)
        ensures
            r == flag_spec(self.value@),
    {
        flag(self.value.as_str())
    }
}

impl Record for AppPrefs {
    fn duplicate(&self) -> (r: Self)
        ensures
            r@ == self@,
    {
        AppPrefs { id: self.id.clone(), value: self.value.clone() }
    }
}

/// The value that a preference holds once synchronised: the state that
/// the system reports when it reports one, else the stored value, else the
/// default.
pub open spec fn synced_value(
    stored: Option<Seq<char>>,
    default: Seq<char>,
    actual: Option<Seq<char>>,
) -> Seq<char> {
    match actual {
        Some(a) => a,
        None => match stored {
            Some(s) => s,
            None => default,
        },
    }
}

/// The stored preferences, by setting key.
pub struct PrefsStore {
    tree: Tree<AppPrefs>,
}

impl PrefsStore {
    /// The tree of preferences.
    pub closed spec fn records(&self) -> Tree<AppPrefs> {
        self.tree
    }

    /// The record stored under `key`, if any.
    pub open spec fn stored(&self, key: Seq<char>) -> Option<AppPrefsView> {
        self.records().lookup(key)
    }

    /// The value stored under `key`, if any.
    pub open spec fn value_of(&self, key: Seq<char>) -> Option<Seq<char>> {
        match self.stored(key) {
            Some(p) => Some(p.value),
            None => None,
        }
    }

    /// What `get_into_bool` answers for `key`.
    pub open spec fn flag_of(&self, key: Seq<char>) -> bool {
        match self.stored(key) {
            Some(p) => flag_spec(p.value),
            None => false,
        }
    }

    /// Well-formedness of the tree.
    pub open spec fn wf(&self) -> bool {
        self.records().wf()
    }

    /// A store without preferences.
    pub fn new() -> (s: Self)
        ensures
            s.wf(),
            forall|k: Seq<char>| s.stored(k) is None,
    {
        PrefsStore { tree: Tree::new() }
    }

    /// The record stored under `key`.
    pub fn get(&self, key: &str) -> (r: Option<AppPrefs>)
        requires
            self.wf(),
        ensures
            r matches Some(p) ==> self.stored(key@) == Some(p@),
            r is None ==> self.stored(key@) is None,
    {
        self.tree.get(key)
    }

    /// Stores `prefs` under `key`, in place of the record before.
    pub fn save(&mut self, key: &str, prefs: AppPrefs)
        requires
            old(self).wf(),
        ensures
            final(self).wf(),
            final(self).stored(key@) == Some(prefs@),
            forall|k: Seq<char>| k != key@ ==> final(self).stored(k) == old(self).stored(k),
    {
        self.tree.save(key, prefs);
    }

    /// All stored preferences, in the order of their keys.
    pub fn all(&self) -> (r: Vec<AppPrefs>)
        requires
            self.wf(),
        ensures
            views(r@) == self.records().value_list(),
    {
        self.tree.all()
    }

    /// Whether the preference under `key` is on: only a stored `true` is.
    pub fn get_into_bool(&self, key: &str) -> (r: bool)
        requires
            self.wf(),
        ensures
            r == self.flag_of(key@),
    {
        match self.tree.get(key) {
            Some(p) => p.as_bool(),
            None => false,
        }
    }

    /// The value that toggling the preference under `key` stores.
    pub fn toggled_value(&self, key: &str) -> (r: String)
        requires
            self.wf(),
        ensures
            r@ == bool_text_spec(!self.flag_of(key@)),
    {
        let now = self.get_into_bool(key);
        bool_text(!now)
    }

    /// Synchronises the preference `id` with its default and with the state
    /// the system reports: a missing record is stored with the default, and
    /// a reported state that differs from the stored value replaces it.
    pub fn sync_preference(&mut self, id: &str, default: &str, actual: Option<String>)
        requires
            old(self).wf(),
        ensures
            final(self).wf(),
            final(self).value_of(id@) == Some(
                synced_value(
                    old(self).value_of(id@),
                    default@,
                    match actual {
                        Some(a) => Some(a@),
                        None => None,
                    },
                ),
            ),
            actual matches Some(a) ==> final(self).value_of(id@) == Some(a@),
            actual is None && old(self).value_of(id@) is Some ==> final(self).value_of(id@) == old(
                self,
            ).value_of(id@),
            actual is None && old(self).value_of(id@) is None ==> final(self).value_of(id@) == Some(
                default@,
            ),
            forall|k: Seq<char>| k != id@ ==> final(self).stored(k) == old(self).stored(k),
    {
        if self.tree.get(id).is_none() {
            self.tree.save(id, AppPrefs::new(id, default));
        }
        if let Some(a) = actual {
            let db_val = match self.tree.get(id) {
                Some(p) => p.value,
                None => default.to_owned(),
            };
            if !same_text(a.as_str(), db_val.as_str()) {
                self.tree.save(id, AppPrefs::new(id, a.as_str()));
            }
        }
    }
}

/// A state that the system reports always wins: whatever was stored and
/// whatever the default is, the synchronised value is the reported one.
/// Without a report, a stored value is kept and a missing one becomes the
/// default.
pub proof fn lemma_sync_follows_system(
    stored: Option<Seq<char>>,
    default: Seq<char>,
    actual: Option<Seq<char>>,
)
    ensures
        actual matches Some(a) ==> synced_value(stored, default, actual) == a,
        actual is None ==> (stored matches Some(s) ==> synced_value(stored, default, actual) == s),
        actual is None && stored is None ==> synced_value(stored, default, actual) == default,
{
}

/// Synchronising twice with the same reported state leaves the value that
/// the first synchronisation stored.
pub proof fn lemma_sync_idempotent(
    stored: Option<Seq<char>>,
    default: Seq<char>,
    actual: Option<Seq<char>>,
)
    ensures
        synced_value(Some(synced_value(stored, default, actual)), default, actual)
            == synced_value(stored, default, actual),
{
}

/// Toggling a preference turns its flag over: once the value that
/// [`PrefsStore::toggled_value`] gives is stored under the key, the flag
/// read back is the opposite of the flag before.
pub proof fn lemma_toggle_flips(before: PrefsStore, after: PrefsStore, key: Seq<char>)
    requires
        after.value_of(key) == Some(bool_text_spec(!before.flag_of(key))),
    ensures
        after.flag_of(key) == !before.flag_of(key),
{
    crate::prefs::values::lemma_flag_of_bool_text(!before.flag_of(key));
}

} // verus!
