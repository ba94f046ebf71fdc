//! User accounts, their passwords and their sessions, over five trees of
//! the engine.

use crate::allocator::{next_id, next_id_of};
use crate::engine::{
    batch_insert, batch_new, commit4, open_tree, tree_contains_key, tree_get, tree_insert,
    tree_map, tree_name, tree_name_of, tree_remove,
};
use crate::error::{engine_failed, fails_with, reports, Failure, WikiError};
use crate::id::{be_bytes, be_value, Id};
use crate::text::{spells, string_from_utf8};
use rand::Rng;
use vstd::prelude::*;
use vstd::utf8::{decode_utf8, encode_utf8, valid_utf8};

verus! {

/// The identifier of a user account.
#[derive(Debug, Clone, Copy, PartialEq, Eq, Structural)]
pub struct UserId(pub Id);

impl UserId {
    /// The key under which the account is stored.
    pub open spec fn key(self) -> Seq<u8> {
        be_bytes(self.0.0)
    }

    /// The plain identifier.
    pub fn id(&self) -> (r: Id)
        ensures
            r == self.0,
    {
        self.0
    }

    /// Encodes the identifier as four big-endian bytes.
    pub fn to_bytes(&self) -> (r: [u8; 4])
        ensures
            r@ == self.key(),
    {
        self.0.to_bytes()
    }
}

/// The identifier of a session: sixteen random bytes.
#[derive(Debug, Clone, Copy, PartialEq, Eq)]
pub struct SessionId(pub [u8; 16]);

/// What `base64::decode` makes of a text: the bytes it stands for in the
/// standard alphabet, or `None` where it stands for none.
pub uninterp spec fn base64_decoded(text: Seq<char>) -> Option<Seq<u8>>;

/// What `base64::encode` makes of bytes: their text in the standard
/// alphabet.
pub uninterp spec fn base64_encoded(bytes: Seq<u8>) -> Seq<char>;

/// `base64::decode`.
#[verifier::external_body]
pub(crate) fn base64_decode(text: &str) -> (r: Option<Vec<u8>>)
    ensures
        match r {
            Some(bytes) => base64_decoded(text@) == Some(bytes@),
            None => base64_decoded(text@) is None,
        },
{
    base64::decode(text).ok()
}

/// `base64::encode`.
#[verifier::external_body]
pub(crate) fn base64_encode(bytes: &[u8]) -> (r: String)
    ensures
        r@ == base64_encoded(bytes@),
{
    base64::encode(bytes)
}

/// The session that a cookie names: its text must stand for exactly
/// sixteen bytes.
pub open spec fn session_of_cookie(value: Seq<char>) -> Option<Seq<u8>> {
    match base64_decoded(value) {
        Some(bytes) => if bytes.len() == 16 {
            Some(bytes)
        } else {
            None
        },
        None => None,
    }
}

/// The session that decoded bytes name, if there are exactly sixteen.
pub fn session_of_bytes(bytes: &[u8]) -> (r: Option<SessionId>)
    ensures
        r is Some == (bytes@.len() == 16),
        r matches Some(id) ==> id.0@ == bytes@,
{
    if bytes.len() != 16 {
        return None;
    }
    let id: [u8; 16] = [
        bytes[0],
        bytes[1],
        bytes[2],
        bytes[3],
        bytes[4],
        bytes[5],
        bytes[6],
        bytes[7],
        bytes[8],
        bytes[9],
        bytes[10],
        bytes[11],
        bytes[12],
        bytes[13],
        bytes[14],
        bytes[15],
    ];
    assert(id@ =~= bytes@);
    Some(SessionId(id))
}

impl SessionId {
    /// The session that the value of a cookie names, if it names one.
    pub fn from_cookie(value: &str) -> (r: Option<SessionId>)
        ensures
            match r {
                Some(id) => session_of_cookie(value@) == Some(id.0@),
                None => session_of_cookie(value@) is None,
            },
    {
        match base64_decode(value) {
            Some(bytes) => session_of_bytes(bytes.as_slice()),
            None => None,
        }
    }

    /// The value of the cookie that names this session.
    pub fn to_cookie(&self) -> (r: String)
        ensures
            r@ == base64_encoded(self.0@),
    {
        base64_encode(self.0.as_slice())
    }
}

/// A session and the user who opened it.
#[derive(Debug, Clone, Copy)]
pub struct UserSession {
    pub session_id: SessionId,
    pub user_id: UserId,
}

/// A user who is logged in.
#[derive(Debug, Clone)]
pub struct LoggedUser {
    pub id: UserId,
    pub name: String,
    pub is_admin: bool,
}

impl LoggedUser {
    /// Whether the user may administer the wiki.
    pub fn is_admin(&self) -> (r: bool)
        ensures
            r == self.is_admin,
    {
        self.is_admin
    }
}

/// A logged-in user who may administer the wiki.
#[derive(Debug, Clone)]
pub struct LoggedAdmin(pub LoggedUser);

impl LoggedAdmin {
    /// `user` as an administrator, if they are one.
    pub fn new(user: LoggedUser) -> (r: Option<LoggedAdmin>)
        ensures
            r is Some == user.is_admin,
            r matches Some(admin) ==> admin.0 == user,
    {
        if user.is_admin {
            Some(LoggedAdmin(user))
        } else {
            None
        }
    }
}

/// The accounts, passwords, flags and sessions of the wiki.
pub struct Users {
    pub(crate) username_userid: sled::Tree,
    pub(crate) userid_username: sled::Tree,
    pub(crate) userid_password: sled::Tree,
    pub(crate) userid_flag_value: sled::Tree,
    #[allow(dead_code)]
    pub(crate) userid_email: sled::Tree,
    pub(crate) sessionid_userid: sled::Tree,
}

/// What the store holds of users, relation by relation.
pub struct UsersView {
    /// The bytes of a user name to the key of the user who bears it.
    pub ids: Map<Seq<u8>, Seq<u8>>,
    /// User key to the bytes of the user's name.
    pub names: Map<Seq<u8>, Seq<u8>>,
    /// User key to the bytes of the user's password hash.
    pub passwords: Map<Seq<u8>, Seq<u8>>,
    /// User key followed by a flag's name, to the flag's value.
    pub flags: Map<Seq<u8>, Seq<u8>>,
    /// Session identifier to the key of the user who opened the session.
    pub sessions: Map<Seq<u8>, Seq<u8>>,
}

/// The names of the four relations that a registration writes differ, and
/// so do their bytes.
pub proof fn lemma_user_relations_differ()
    ensures
        encode_utf8("username_userid"@) != encode_utf8("userid_username"@),
        encode_utf8("username_userid"@) != encode_utf8("userid_password"@),
        encode_utf8("username_userid"@) != encode_utf8("userid_flag_value"@),
        encode_utf8("userid_username"@) != encode_utf8("userid_password"@),
        encode_utf8("userid_username"@) != encode_utf8("userid_flag_value"@),
        encode_utf8("userid_password"@) != encode_utf8("userid_flag_value"@),
{
    reveal_strlit("username_userid");
    reveal_strlit("userid_username");
    reveal_strlit("userid_password");
    reveal_strlit("userid_flag_value");
    assert("username_userid"@[4] != "userid_username"@[4]);
    assert("username_userid"@[4] != "userid_password"@[4]);
    assert("userid_username"@[7] != "userid_password"@[7]);
    assert("userid_flag_value"@.len() == 17);
    assert("username_userid"@.len() == 15);
    assert("userid_username"@.len() == 15);
    assert("userid_password"@.len() == 15);
    crate::text::lemma_encode_utf8_differs("username_userid"@, "userid_username"@);
    crate::text::lemma_encode_utf8_differs("username_userid"@, "userid_password"@);
    crate::text::lemma_encode_utf8_differs("username_userid"@, "userid_flag_value"@);
    crate::text::lemma_encode_utf8_differs("userid_username"@, "userid_password"@);
    crate::text::lemma_encode_utf8_differs("userid_username"@, "userid_flag_value"@);
    crate::text::lemma_encode_utf8_differs("userid_password"@, "userid_flag_value"@);
}

impl Users {
    /// The store is over its own relations: each handle bears the name of
    /// the relation that it is kept for, so no two are handles onto one
    /// tree.
    pub closed spec fn wf(&self) -> bool {
        &&& tree_name(self.username_userid) == encode_utf8("username_userid"@)
        &&& tree_name(self.userid_username) == encode_utf8("userid_username"@)
        &&& tree_name(self.userid_password) == encode_utf8("userid_password"@)
        &&& tree_name(self.userid_flag_value) == encode_utf8("userid_flag_value"@)
        &&& tree_name(self.userid_email) == encode_utf8("userid_email"@)
        &&& tree_name(self.sessionid_userid) == encode_utf8("sessionid_userid"@)
    }

    /// Whether the store is over its own relations. A store that was opened
    /// is, and stays so.
    pub fn is_valid(&self) -> (r: bool)
        ensures
            r == self.wf(),
    {
        spells(tree_name_of(&self.username_userid).as_slice(), "username_userid") && spells(
            tree_name_of(&self.userid_username).as_slice(),
            "userid_username",
        ) && spells(tree_name_of(&self.userid_password).as_slice(), "userid_password") && spells(
            tree_name_of(&self.userid_flag_value).as_slice(),
            "userid_flag_value",
        ) && spells(tree_name_of(&self.userid_email).as_slice(), "userid_email") && spells(
            tree_name_of(&self.sessionid_userid).as_slice(),
            "sessionid_userid",
        )
    }

    /// Opens the relations of users in `db`, with whatever they hold
    /// already.
    pub(crate) fn open(db: &sled::Db) -> (r: Result<Users, WikiError>)
        ensures
            r matches Ok(users) ==> users.wf(),
            r matches Err(e) ==> e@ == Failure::Engine,
    {
        let username_userid = match open_tree(db, "username_userid") {
            Ok(tree) => tree,
            Err(e) => { return Err(WikiError::Storage(e)); },
        };
        let userid_username = match open_tree(db, "userid_username") {
            Ok(tree) => tree,
            Err(e) => { return Err(WikiError::Storage(e)); },
        };
        let userid_password = match open_tree(db, "userid_password") {
            Ok(tree) => tree,
            Err(e) => { return Err(WikiError::Storage(e)); },
        };
        let userid_flag_value = match open_tree(db, "userid_flag_value") {
            Ok(tree) => tree,
            Err(e) => { return Err(WikiError::Storage(e)); },
        };
        let userid_email = match open_tree(db, "userid_email") {
            Ok(tree) => tree,
            Err(e) => { return Err(WikiError::Storage(e)); },
        };
        let sessionid_userid = match open_tree(db, "sessionid_userid") {
            Ok(tree) => tree,
            Err(e) => { return Err(WikiError::Storage(e)); },
        };
        Ok(
            Users {
                username_userid,
                userid_username,
                userid_password,
                userid_flag_value,
                userid_email,
                sessionid_userid,
            },
        )
    }
}

impl View for Users {
    type V = UsersView;

    closed spec fn view(&self) -> UsersView {
        UsersView {
            ids: tree_map(self.username_userid),
            names: tree_map(self.userid_username),
            passwords: tree_map(self.userid_password),
            flags: tree_map(self.userid_flag_value),
            sessions: tree_map(self.sessionid_userid),
        }
    }
}

/// The name of the flag that marks an administrator: the bytes of `admin`.
pub open spec fn admin_flag() -> Seq<u8> {
    seq![97u8, 100u8, 109u8, 105u8, 110u8]
}

/// The key of a user's administrator flag.
pub open spec fn admin_flag_key(id: UserId) -> Seq<u8> {
    id.key() + admin_flag()
}

/// Whether a stored flag is set: its first byte is not zero. A flag that is
/// not stored, or stored empty, is not set.
pub open spec fn flag_is_set(stored: Option<Seq<u8>>) -> bool {
    match stored {
        Some(value) => value.len() > 0 && value[0] != 0,
        None => false,
    }
}

/// The byte that stores a flag.
pub open spec fn flag_byte(value: bool) -> u8 {
    if value {
        1
    } else {
        0
    }
}

/// What `argon2::hash_encoded` makes of a password and a salt with the
/// Argon2i variant and otherwise default settings: the encoded hash, or
/// `None` where it refuses.
pub uninterp spec fn argon2i_encoded(password: Seq<u8>, salt: Seq<u8>) -> Option<Seq<char>>;

/// What `argon2::verify_encoded` says of an encoded hash and a password:
/// whether they match, or `None` where it cannot tell.
pub uninterp spec fn argon2_verdict(hash: Seq<char>, password: Seq<u8>) -> Option<bool>;

/// `argon2::hash_encoded`, with the Argon2i variant and otherwise default
/// settings.
#[verifier::external_body]
pub(crate) fn argon2i_hash(password: &[u8], salt: &[u8]) -> (r: Result<String, argon2::Error>)
    ensures
        match r {
            Ok(hash) => argon2i_encoded(password@, salt@) == Some(hash@),
            Err(_) => argon2i_encoded(password@, salt@) is None,
        },
{
    let config = argon2::Config { variant: argon2::Variant::Argon2i, ..Default::default() };
    argon2::hash_encoded(password, salt, &config)
}

/// `argon2::verify_encoded`.
#[verifier::external_body]
pub(crate) fn argon2_verify(hash: &str, password: &[u8]) -> (r: Result<bool, argon2::Error>)
    ensures
        match r {
            Ok(matches) => argon2_verdict(hash@, password@) == Some(matches),
            Err(_) => argon2_verdict(hash@, password@) is None,
        },
{
    argon2::verify_encoded(hash, password)
}

/// The byte is an ASCII letter or digit.
pub open spec fn is_alphanumeric(byte: u8) -> bool {
    (48 <= byte && byte <= 57) || (65 <= byte && byte <= 90) || (97 <= byte && byte <= 122)
}

/// One sample of `rand::distributions::Alphanumeric` from
/// `rand::thread_rng`: a random ASCII letter or digit. Which one is not
/// claimed.
#[verifier::external_body]
pub(crate) fn random_alphanumeric() -> (r: u8)
    ensures
        is_alphanumeric(r),
{
    rand::thread_rng().sample(rand::distributions::Alphanumeric)
}

/// The bytes are a salt as the store makes them: thirty-two letters and
/// digits.
pub open spec fn is_salt(bytes: Seq<u8>) -> bool {
    bytes.len() == 32 && forall|i: int| 0 <= i < 32 ==> is_alphanumeric(#[trigger] bytes[i])
}

/// A fresh salt: thirty-two random letters and digits.
pub fn random_salt() -> (r: Vec<u8>)
    ensures
        is_salt(r@),
{
    let mut salt: Vec<u8> = Vec::new();
    while salt.len() < 32
        invariant
            salt@.len() <= 32,
            forall|i: int| 0 <= i < salt@.len() ==> is_alphanumeric(#[trigger] salt@[i]),
        decreases 32 - salt@.len(),
    {
        salt.push(random_alphanumeric());
    }
    salt
}

/// The sixteen bytes are a UUID of version 4: the high half of the seventh
/// byte is 4, and the eighth starts with the bits 1 and 0. The other bits
/// are free.
pub open spec fn is_uuid_v4(bytes: Seq<u8>) -> bool {
    &&& bytes.len() == 16
    &&& 0x40 <= bytes[6] <= 0x4f
    &&& 0x80 <= bytes[8] <= 0xbf
}

/// `uuid::Uuid::new_v4`, as its sixteen bytes: a UUID of version 4 whose
/// free bits are random. Which bits they are is not claimed.
#[verifier::external_body]
pub(crate) fn random_uuid() -> (r: [u8; 16])
    ensures
        is_uuid_v4(r@),
{
    uuid::Uuid::new_v4().into_bytes()
}

impl UsersView {
    /// The user who bears `name`, if one does.
    pub open spec fn id_of(self, name: Seq<char>) -> Result<Option<UserId>, Failure> {
        let key = encode_utf8(name);
        if !self.ids.contains_key(key) {
            Ok(None)
        } else if self.ids[key].len() != 4 {
            Err(Failure::MalformedKey)
        } else {
            Ok(Some(UserId(Id(be_value(self.ids[key])))))
        }
    }

    /// The name of user `id`.
    pub open spec fn name_of(self, id: UserId) -> Result<Seq<char>, Failure> {
        if self.names.contains_key(id.key()) && valid_utf8(self.names[id.key()]) {
            Ok(decode_utf8(self.names[id.key()]))
        } else {
            Err(Failure::UserDataInconsistent(id))
        }
    }

    /// The password hash of user `id`.
    pub open spec fn hash_of(self, id: UserId) -> Result<Seq<char>, Failure> {
        if self.passwords.contains_key(id.key()) && valid_utf8(self.passwords[id.key()]) {
            Ok(decode_utf8(self.passwords[id.key()]))
        } else {
            Err(Failure::PasswordNotFound(id))
        }
    }

    /// Whether user `id` is an administrator.
    pub open spec fn admin(self, id: UserId) -> bool {
        flag_is_set(self.flags.get(admin_flag_key(id)))
    }

    /// The user who opened session `session`, if it is open.
    pub open spec fn session_user(self, session: SessionId) -> Result<Option<UserId>, Failure> {
        if !self.sessions.contains_key(session.0@) {
            Ok(None)
        } else if self.sessions[session.0@].len() != 4 {
            Err(Failure::MalformedKey)
        } else {
            Ok(Some(UserId(Id(be_value(self.sessions[session.0@])))))
        }
    }

    /// The account to hand out to a registration: the name must be free,
    /// and the identifier is the next unused one.
    pub open spec fn registered(self, name: Seq<char>) -> Result<UserId, Failure> {
        if self.ids.contains_key(encode_utf8(name)) {
            Err(Failure::UserAlreadyExists(name))
        } else {
            match next_id_of(self.passwords) {
                Ok(id) => Ok(UserId(id)),
                Err(failure) => Err(failure),
            }
        }
    }

    /// The store with user `id` entered: name, password hash and
    /// administrator flag. The first user ever is an administrator.
    pub open spec fn with_user(self, id: UserId, name: Seq<char>, hash: Seq<char>) -> UsersView {
        UsersView {
            ids: self.ids.insert(encode_utf8(name), id.key()),
            names: self.names.insert(id.key(), encode_utf8(name)),
            passwords: self.passwords.insert(id.key(), encode_utf8(hash)),
            flags: self.flags.insert(admin_flag_key(id), seq![flag_byte(id.0.0 == 0)]),
            ..self
        }
    }
}

/// The key of a user's administrator flag.
pub fn admin_key(user_id: UserId) -> (r: Vec<u8>)
    ensures
        r@ == admin_flag_key(user_id),
{
    let id = user_id.to_bytes();
    let mut key: Vec<u8> = Vec::new();
    key.push(id[0]);
    key.push(id[1]);
    key.push(id[2]);
    key.push(id[3]);
    key.push(97);
    key.push(100);
    key.push(109);
    key.push(105);
    key.push(110);
    assert(key@ =~= admin_flag_key(user_id));
    key
}

/// Whether what was found for a flag says that the flag is set.
pub fn flag_value(found: &Option<Vec<u8>>) -> (r: bool)
    ensures
        r == flag_is_set(
            match *found {
                Some(value) => Some(value@),
                None => None,
            },
        ),
{
    match found {
        Some(value) => value.len() > 0 && value[0] != 0,
        None => false,
    }
}

impl Users {
    /// Whether a user bears `username`.
    pub fn name_exists(&self, username: &str) -> (r: Result<bool, WikiError>)
        ensures
            engine_failed(r) || (r is Ok && r->Ok_0 == self@.ids.contains_key(
                encode_utf8(username@),
            )),
    {
        match tree_contains_key(&self.username_userid, username.as_bytes()) {
            Ok(found) => Ok(found),
            Err(e) => Err(WikiError::Storage(e)),
        }
    }

    /// The user who bears `username`, if one does.
    pub fn id_by_name(&self, username: &str) -> (r: Result<Option<UserId>, WikiError>)
        ensures
            engine_failed(r) || match self@.id_of(username@) {
                Ok(found) => r is Ok && r->Ok_0 == found,
                Err(failure) => reports(r, failure),
            },
    {
        match tree_get(&self.username_userid, username.as_bytes()) {
            Err(e) => Err(WikiError::Storage(e)),
            Ok(None) => Ok(None),
            Ok(Some(bytes)) => match Id::from_bytes(bytes.as_slice()) {
                Ok(id) => Ok(Some(UserId(id))),
                Err(e) => Err(e),
            },
        }
    }

    /// The name of user `user_id`. An identifier comes from the store, so a
    /// missing or unreadable name means that the store is damaged.
    pub fn name_by_id(&self, user_id: UserId) -> (r: Result<String, WikiError>)
        ensures
            engine_failed(r) || match self@.name_of(user_id) {
                Ok(name) => r is Ok && r->Ok_0@ == name,
                Err(failure) => reports(r, failure),
            },
    {
        let key = user_id.to_bytes();
        match tree_get(&self.userid_username, key.as_slice()) {
            Err(e) => Err(WikiError::Storage(e)),
            Ok(None) => Err(WikiError::UserDataInconsistent(user_id)),
            Ok(Some(bytes)) => match string_from_utf8(bytes.as_slice()) {
                Some(name) => Ok(name),
                None => Err(WikiError::UserDataInconsistent(user_id)),
            },
        }
    }

    /// The password hash of user `user_id`.
    pub fn password_hash(&self, user_id: UserId) -> (r: Result<String, WikiError>)
        ensures
            engine_failed(r) || match self@.hash_of(user_id) {
                Ok(hash) => r is Ok && r->Ok_0@ == hash,
                Err(failure) => reports(r, failure),
            },
    {
        let key = user_id.to_bytes();
        match tree_get(&self.userid_password, key.as_slice()) {
            Err(e) => Err(WikiError::Storage(e)),
            Ok(None) => Err(WikiError::PasswordNotFound(user_id)),
            Ok(Some(bytes)) => match string_from_utf8(bytes.as_slice()) {
                Some(hash) => Ok(hash),
                None => Err(WikiError::PasswordNotFound(user_id)),
            },
        }
    }

    /// Enters a user named `username` whose password hashes to `hash`. The
    /// name must be free. The first user ever becomes an administrator.
    pub fn register_hashed(&mut self, username: &str, hash: &str) -> (r: Result<UserId, WikiError>)
        requires
            old(self).wf(),
        ensures
            final(self).wf(),
            match r {
                Ok(id) => old(self)@.registered(username@) == Ok::<UserId, Failure>(id) && final(self)@ == old(self)@.with_user(id, username@, hash@),
                Err(e) => e@ == Failure::Engine || (final(self)@ == old(self)@ && fails_with(
                    old(self)@.registered(username@),
                    e@,
                )),
            },
    {
        match tree_contains_key(&self.username_userid, username.as_bytes()) {
            Err(e) => { return Err(WikiError::Storage(e)); },
            Ok(true) => { return Err(WikiError::UserAlreadyExists(username.to_owned())); },
            Ok(false) => {},
        }
        let id = match next_id(&self.userid_password) {
            Ok(id) => UserId(id),
            Err(e) => { return Err(e); },
        };
        let key = id.to_bytes();
        let flag_key = admin_key(id);
        let flag: [u8; 1] = [if id.0.0 == 0 { 1 } else { 0 }];
        let mut ids = batch_new();
        batch_insert(&mut ids, username.as_bytes(), key.as_slice());
        let mut names = batch_new();
        batch_insert(&mut names, key.as_slice(), username.as_bytes());
        let mut passwords = batch_new();
        batch_insert(&mut passwords, key.as_slice(), hash.as_bytes());
        let mut flags = batch_new();
        batch_insert(&mut flags, flag_key.as_slice(), flag.as_slice());
        proof {
            lemma_user_relations_differ();
        }
        match commit4(
            &mut self.username_userid,
            &ids,
            &mut self.userid_username,
            &names,
            &mut self.userid_password,
            &passwords,
            &mut self.userid_flag_value,
            &flags,
        ) {
            Err(e) => Err(WikiError::Transaction(e)),
            Ok(()) => {
                proof {
                    let after = old(self)@.with_user(id, username@, hash@);
                    assert(flag@ =~= seq![flag_byte(id.0.0 == 0)]);
                    assert(self@.ids =~= after.ids);
                    assert(self@.names =~= after.names);
                    assert(self@.passwords =~= after.passwords);
                    assert(self@.flags =~= after.flags);
                }
                Ok(id)
            },
        }
    }

    /// Enters a user named `username` with password `password`, hashed
    /// with `salt`.
    pub fn register_salted(&mut self, username: &str, password: &str, salt: &[u8]) -> (r: Result<
        UserId,
        WikiError,
    >)
        requires
            old(self).wf(),
        ensures
            final(self).wf(),
            match r {
                Ok(id) => old(self)@.registered(username@) == Ok::<UserId, Failure>(id)
                    && argon2i_encoded(encode_utf8(password@), salt@) is Some && final(self)@ == old(self)@.with_user(id, username@, argon2i_encoded(encode_utf8(password@), salt@)->Some_0),
                Err(e) => e@ == Failure::Engine || (final(self)@ == old(self)@ && (fails_with(
                    old(self)@.registered(username@),
                    e@,
                ) || (e@ == Failure::PasswordHash && argon2i_encoded(
                    encode_utf8(password@),
                    salt@,
                ) is None))),
            },
    {
        let hash = match argon2i_hash(password.as_bytes(), salt) {
            Ok(hash) => hash,
            Err(e) => { return Err(WikiError::Argon2(e)); },
        };
        self.register_hashed(username, hash.as_str())
    }

    /// Enters a user named `username` with password `password`, hashed
    /// with a random salt. The name must be free. The first user ever
    /// becomes an administrator.
    pub fn register(&mut self, username: &str, password: &str) -> (r: Result<UserId, WikiError>)
        requires
            old(self).wf(),
        ensures
            final(self).wf(),
            match r {
                Ok(id) => old(self)@.registered(username@) == Ok::<UserId, Failure>(id)
                    && exists|salt: Seq<u8>| #[trigger]
                    argon2i_encoded(encode_utf8(password@), salt) is Some && is_salt(salt)
                        && final(self)@ == old(self)@.with_user(
                        id,
                        username@,
                        argon2i_encoded(encode_utf8(password@), salt)->Some_0,
                    ),
                Err(e) => e@ == Failure::Engine || (final(self)@ == old(self)@ && (e@
                    == Failure::PasswordHash || fails_with(old(self)@.registered(username@), e@))),
            },
    {
        let salt = random_salt();
        let r = self.register_salted(username, password, salt.as_slice());
        proof {
            if r is Ok {
                assert(argon2i_encoded(encode_utf8(password@), salt@) is Some && is_salt(salt@));
            }
        }
        r
    }

    /// Opens a session for `user_id`.
    pub fn create_session(&mut self, user_id: UserId) -> (r: Result<SessionId, WikiError>)
        ensures
            final(self).wf() == old(self).wf(),
            match r {
                Ok(session) => final(self)@ == (UsersView {
                    sessions: old(self)@.sessions.insert(session.0@, user_id.key()),
                    ..old(self)@
                }),
                Err(e) => e@ == Failure::Engine,
            },
    {
        let session_id = SessionId(random_uuid());
        let key = user_id.to_bytes();
        match tree_insert(&mut self.sessionid_userid, session_id.0.as_slice(), key.as_slice()) {
            Ok(()) => Ok(session_id),
            Err(e) => Err(WikiError::Storage(e)),
        }
    }

    /// Opens a session for `user_id` if their password was found to match.
    pub fn open_session_if(&mut self, user_id: UserId, matches: bool) -> (r: Result<
        Option<UserSession>,
        WikiError,
    >)
        ensures
            final(self).wf() == old(self).wf(),
            match r {
                Ok(Some(session)) => matches && session.user_id == user_id && final(self)@ == (
                UsersView {
                    sessions: old(self)@.sessions.insert(session.session_id.0@, user_id.key()),
                    ..old(self)@
                }),
                Ok(None) => !matches && final(self)@ == old(self)@,
                Err(e) => matches && e@ == Failure::Engine,
            },
    {
        if matches {
            match self.create_session(user_id) {
                Ok(session_id) => Ok(Some(UserSession { session_id, user_id })),
                Err(e) => Err(e),
            }
        } else {
            Ok(None)
        }
    }

    /// Opens a session for `user_id` if `password` is theirs; `None` if it
    /// is not.
    pub fn try_login(&mut self, user_id: UserId, password: &str) -> (r: Result<
        Option<UserSession>,
        WikiError,
    >)
        ensures
            final(self).wf() == old(self).wf(),
            match r {
                Ok(Some(session)) => session.user_id == user_id && old(self)@.hash_of(user_id) is Ok
                    && argon2_verdict(
                    old(self)@.hash_of(user_id)->Ok_0,
                    encode_utf8(password@),
                ) == Some(true) && final(self)@ == (UsersView {
                    sessions: old(self)@.sessions.insert(session.session_id.0@, user_id.key()),
                    ..old(self)@
                }),
                Ok(None) => old(self)@.hash_of(user_id) is Ok && argon2_verdict(
                    old(self)@.hash_of(user_id)->Ok_0,
                    encode_utf8(password@),
                ) == Some(false) && final(self)@ == old(self)@,
                Err(e) => e@ == Failure::Engine || (final(self)@ == old(self)@ && (fails_with(
                    old(self)@.hash_of(user_id),
                    e@,
                ) || (e@ == Failure::PasswordHash && old(self)@.hash_of(user_id) is Ok
                    && argon2_verdict(
                    old(self)@.hash_of(user_id)->Ok_0,
                    encode_utf8(password@),
                ) is None))),
            },
    {
        let hash = match self.password_hash(user_id) {
            Ok(hash) => hash,
            Err(e) => { return Err(e); },
        };
        let matches = match argon2_verify(hash.as_str(), password.as_bytes()) {
            Ok(matches) => matches,
            Err(e) => { return Err(WikiError::Argon2(e)); },
        };
        self.open_session_if(user_id, matches)
    }

    /// Closes session `session_id`.
    pub fn destroy_session(&mut self, session_id: SessionId) -> (r: Result<(), WikiError>)
        ensures
            final(self).wf() == old(self).wf(),
            match r {
                Ok(()) => final(self)@ == (UsersView {
                    sessions: old(self)@.sessions.remove(session_id.0@),
                    ..old(self)@
                }),
                Err(e) => e@ == Failure::Engine,
            },
    {
        match tree_remove(&mut self.sessionid_userid, session_id.0.as_slice()) {
            Ok(()) => Ok(()),
            Err(e) => Err(WikiError::Storage(e)),
        }
    }

    /// The user who opened session `session_id`, if it is open.
    pub fn get_session_user(&self, session_id: SessionId) -> (r: Result<Option<UserId>, WikiError>)
        ensures
            engine_failed(r) || match self@.session_user(session_id) {
                Ok(found) => r is Ok && r->Ok_0 == found,
                Err(failure) => reports(r, failure),
            },
    {
        match tree_get(&self.sessionid_userid, session_id.0.as_slice()) {
            Err(e) => Err(WikiError::Storage(e)),
            Ok(None) => Ok(None),
            Ok(Some(bytes)) => match Id::from_bytes(bytes.as_slice()) {
                Ok(id) => Ok(Some(UserId(id))),
                Err(e) => Err(e),
            },
        }
    }

    /// Whether user `user_id` is an administrator.
    pub fn is_admin(&self, user_id: UserId) -> (r: Result<bool, WikiError>)
        ensures
            engine_failed(r) || (r is Ok && r->Ok_0 == self@.admin(user_id)),
    {
        let key = admin_key(user_id);
        match tree_get(&self.userid_flag_value, key.as_slice()) {
            Err(e) => Err(WikiError::Storage(e)),
            Ok(found) => Ok(flag_value(&found)),
        }
    }

    /// Makes user `user_id` an administrator, or an ordinary user.
    pub fn set_is_admin(&mut self, user_id: UserId, is_admin: bool) -> (r: Result<(), WikiError>)
        ensures
            final(self).wf() == old(self).wf(),
            match r {
                Ok(()) => final(self)@ == (UsersView {
                    flags: old(self)@.flags.insert(
                        admin_flag_key(user_id),
                        seq![flag_byte(is_admin)],
                    ),
                    ..old(self)@
                }),
                Err(e) => e@ == Failure::Engine,
            },
    {
        let key = admin_key(user_id);
        let flag: [u8; 1] = [if is_admin { 1 } else { 0 }];
        match tree_insert(&mut self.userid_flag_value, key.as_slice(), flag.as_slice()) {
            Ok(()) => {
                assert(flag@ =~= seq![flag_byte(is_admin)]);
                Ok(())
            },
            Err(e) => Err(WikiError::Storage(e)),
        }
    }

    /// The user behind `session`, with name and rights.
    pub fn logged_user(&self, session: &UserSession) -> (r: Result<LoggedUser, WikiError>)
        ensures
            engine_failed(r) || match self@.name_of(session.user_id) {
                Ok(name) => r is Ok && r->Ok_0.id == session.user_id && r->Ok_0.name@ == name
                    && r->Ok_0.is_admin == self@.admin(session.user_id),
                Err(failure) => reports(r, failure),
            },
    {
        let name = match self.name_by_id(session.user_id) {
            Ok(name) => name,
            Err(e) => { return Err(e); },
        };
        let is_admin = match self.is_admin(session.user_id) {
            Ok(is_admin) => is_admin,
            Err(e) => { return Err(e); },
        };
        Ok(LoggedUser { id: session.user_id, name, is_admin })
    }
}

/// A user who was entered is found again: by name, by identifier, with
/// the password hash that was stored and with the rights of the first user
/// or of a later one.
pub proof fn lemma_registered_user_is_found(
    before: UsersView,
    id: UserId,
    name: Seq<char>,
    hash: Seq<char>,
)
    ensures
        ({
            let after = before.with_user(id, name, hash);
            &&& after.id_of(name) == Ok::<Option<UserId>, Failure>(Some(id))
            &&& after.name_of(id) == Ok::<Seq<char>, Failure>(name)
            &&& after.hash_of(id) == Ok::<Seq<char>, Failure>(hash)
            &&& after.admin(id) == (id.0.0 == 0)
        }),
{
    crate::id::lemma_be_value_of_bytes(id.0.0);
    vstd::utf8::encode_utf8_valid_utf8(name);
    vstd::utf8::encode_utf8_decode_utf8(name);
    vstd::utf8::encode_utf8_valid_utf8(hash);
    vstd::utf8::encode_utf8_decode_utf8(hash);
}

/// A session that was opened leads to its user until it is closed.
pub proof fn lemma_session_leads_to_its_user(before: UsersView, session: SessionId, user: UserId)
    ensures
        ({
            let open = UsersView {
                sessions: before.sessions.insert(session.0@, user.key()),
                ..before
            };
            let closed = UsersView { sessions: open.sessions.remove(session.0@), ..open };
            &&& open.session_user(session) == Ok::<Option<UserId>, Failure>(Some(user))
            &&& closed.session_user(session) == Ok::<Option<UserId>, Failure>(None)
        }),
{
    crate::id::lemma_be_value_of_bytes(user.0.0);
}

} // verus!
