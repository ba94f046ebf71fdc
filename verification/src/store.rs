//! The store as a whole: articles, users and settings of one database.

use crate::articles::{Articles, ArticlesView};
use crate::engine::{flush_db, open_tree, tree_get, tree_insert, tree_map, tree_name, tree_name_of};
use crate::error::{engine_failed, Failure, WikiError};
use crate::forms::AdminSettings;
use crate::text::spells;
use crate::users::{flag_byte, Users, UsersView};
use vstd::prelude::*;
use vstd::utf8::encode_utf8;

verus! {

/// Proof that registration is open, for those who must not proceed without.
#[derive(Debug, Clone, Copy)]
pub struct EnabledRegistration;

/// The key of the setting that opens or closes registration.
pub open spec fn registration_key() -> Seq<u8> {
    encode_utf8("global:registration_enabled"@)
}

/// What a stored setting says of registration: open unless a value is
/// stored whose first byte is zero.
pub open spec fn registration_open(stored: Option<Seq<u8>>) -> bool {
    match stored {
        Some(value) => value.len() == 0 || value[0] != 0,
        None => true,
    }
}

/// Whether what was found for the setting says that registration is open.
pub fn registration_value(found: &Option<Vec<u8>>) -> (r: bool)
    ensures
        r == registration_open(
            match *found {
                Some(value) => Some(value@),
                None => None,
            },
        ),
{
    match found {
        Some(value) => value.len() == 0 || value[0] != 0,
        None => true,
    }
}

/// The settings of the wiki, and the database that everything is kept in.
pub struct Settings {
    tree: sled::Tree,
    db: sled::Db,
}

impl View for Settings {
    type V = Map<Seq<u8>, Seq<u8>>;

    closed spec fn view(&self) -> Map<Seq<u8>, Seq<u8>> {
        tree_map(self.tree)
    }
}

impl Settings {
    /// The handle bears the name of the relation of settings.
    pub closed spec fn wf(&self) -> bool {
        tree_name(self.tree) == encode_utf8("settings"@)
    }

    /// Whether the handle bears the name of the relation of settings.
    pub fn is_valid(&self) -> (r: bool)
        ensures
            r == self.wf(),
    {
        spells(tree_name_of(&self.tree).as_slice(), "settings")
    }

    /// Opens the relation of settings in `db`, and keeps `db`.
    pub(crate) fn open(db: sled::Db) -> (r: Result<Settings, WikiError>)
        ensures
            r matches Ok(settings) ==> settings.wf(),
            r matches Err(e) ==> e@ == Failure::Engine,
    {
        match open_tree(&db, "settings") {
            Ok(tree) => Ok(Settings { tree, db }),
            Err(e) => Err(WikiError::Storage(e)),
        }
    }

    /// Whether new users may register. They may, unless it was switched off.
    pub fn registration_enabled(&self) -> (r: Result<bool, WikiError>)
        ensures
            engine_failed(r) || (r is Ok && r->Ok_0 == registration_open(
                self@.get(registration_key()),
            )),
    {
        match tree_get(&self.tree, "global:registration_enabled".as_bytes()) {
            Ok(found) => Ok(registration_value(&found)),
            Err(e) => Err(WikiError::Storage(e)),
        }
    }

    /// Opens or closes registration.
    pub fn set_registration_enabled(&mut self, value: bool) -> (r: Result<(), WikiError>)
        ensures
            final(self).wf() == old(self).wf(),
            match r {
                Ok(()) => final(self)@ == old(self)@.insert(
                    registration_key(),
                    seq![flag_byte(value)],
                ),
                Err(e) => e@ == Failure::Engine,
            },
    {
        let flag: [u8; 1] = [if value { 1 } else { 0 }];
        match tree_insert(&mut self.tree, "global:registration_enabled".as_bytes(), flag.as_slice()) {
            Ok(()) => {
                assert(flag@ =~= seq![flag_byte(value)]);
                Ok(())
            },
            Err(e) => Err(WikiError::Storage(e)),
        }
    }

    /// Waits until what was written to the database has reached the disk.
    pub fn flush(&self) -> (r: Result<(), WikiError>)
        ensures
            r is Err ==> r->Err_0@ == Failure::Engine,
    {
        match flush_db(&self.db) {
            Ok(_) => Ok(()),
            Err(e) => Err(WikiError::Storage(e)),
        }
    }
}

/// The wiki's store.
pub struct Store {
    pub users: Users,
    pub articles: Articles,
    pub settings: Settings,
}

/// What the store holds: its articles, its users and its settings.
pub struct StoreView {
    pub users: UsersView,
    pub articles: ArticlesView,
    pub settings: Map<Seq<u8>, Seq<u8>>,
}

impl View for Store {
    type V = StoreView;

    open spec fn view(&self) -> StoreView {
        StoreView { users: self.users@, articles: self.articles@, settings: self.settings@ }
    }
}

impl StoreView {
    /// Whether new users may register.
    pub open spec fn registration_enabled(self) -> bool {
        registration_open(self.settings.get(registration_key()))
    }
}

impl Store {
    /// The store is over its own relations: those of its users, those of
    /// its articles, and the settings, each handle bearing the name of the
    /// relation that it is kept for.
    pub open spec fn wf(&self) -> bool {
        &&& self.users.wf()
        &&& self.articles.wf()
        &&& self.settings.wf()
    }

    /// Whether the store is over its own relations. A store that was opened
    /// is, and stays so.
    pub fn is_valid(&self) -> (r: bool)
        ensures
            r == self.wf(),
    {
        self.users.is_valid() && self.articles.is_valid() && self.settings.is_valid()
    }

    /// Opens the store in `db`, with whatever `db` holds already. The store
    /// takes the database to be its own: while the store is in use, nothing
    /// else writes to the trees it opens.
    pub fn load_or_create(db: sled::Db) -> (r: Result<Store, WikiError>)
        ensures
            r matches Ok(store) ==> store.wf(),
            r is Err ==> r->Err_0@ == Failure::Engine,
    {
        let users = match Users::open(&db) {
            Ok(users) => users,
            Err(e) => { return Err(e); },
        };
        let articles = match Articles::open(&db) {
            Ok(articles) => articles,
            Err(e) => { return Err(e); },
        };
        let settings = match Settings::open(db) {
            Ok(settings) => settings,
            Err(e) => { return Err(e); },
        };
        Ok(Store { users, articles, settings })
    }

    /// Whether new users may register. They may, unless it was switched off.
    pub fn registration_enabled(&self) -> (r: Result<bool, WikiError>)
        ensures
            engine_failed(r) || (r is Ok && r->Ok_0 == self@.registration_enabled()),
    {
        self.settings.registration_enabled()
    }

    /// Opens or closes registration.
    pub fn set_registration_enabled(&mut self, value: bool) -> (r: Result<(), WikiError>)
        ensures
            final(self).wf() == old(self).wf(),
            match r {
                Ok(()) => final(self)@ == (StoreView {
                    settings: old(self)@.settings.insert(registration_key(), seq![flag_byte(value)]),
                    ..old(self)@
                }),
                Err(e) => e@ == Failure::Engine,
            },
    {
        self.settings.set_registration_enabled(value)
    }

    /// Applies the settings of an administrator, and says whether anything
    /// changed.
    pub fn apply_admin_settings(&mut self, settings: AdminSettings) -> (r: Result<bool, WikiError>)
        ensures
            final(self).wf() == old(self).wf(),
            match r {
                Ok(changed) => changed == (old(self)@.registration_enabled()
                    != settings.registration_enabled) && final(self)@ == if changed {
                    StoreView {
                        settings: old(self)@.settings.insert(
                            registration_key(),
                            seq![flag_byte(settings.registration_enabled)],
                        ),
                        ..old(self)@
                    }
                } else {
                    old(self)@
                },
                Err(e) => e@ == Failure::Engine,
            },
    {
        let enabled = match self.registration_enabled() {
            Ok(enabled) => enabled,
            Err(e) => { return Err(e); },
        };
        if enabled != settings.registration_enabled {
            match self.set_registration_enabled(settings.registration_enabled) {
                Ok(()) => Ok(true),
                Err(e) => Err(e),
            }
        } else {
            Ok(false)
        }
    }

    /// The proof that registration is open, if it is.
    pub fn enabled_registration(&self) -> (r: Result<Option<EnabledRegistration>, WikiError>)
        ensures
            engine_failed(r) || (r is Ok && r->Ok_0 is Some == self@.registration_enabled()),
    {
        match self.registration_enabled() {
            Ok(true) => Ok(Some(EnabledRegistration)),
            Ok(false) => Ok(None),
            Err(e) => Err(e),
        }
    }

    /// Waits until what was written has reached the disk.
    pub fn flush(&self) -> (r: Result<(), WikiError>)
        ensures
            r is Err ==> r->Err_0@ == Failure::Engine,
    {
        self.settings.flush()
    }
}

} // verus!
