//! The failures that the store reports.

use crate::articles::rev_id::RevId;
use crate::articles::ArticleId;
use crate::id::Id;
use crate::users::UserId;
use vstd::prelude::*;

verus! {

/// `argon2::Error`: why a password could not be hashed or checked.
#[verifier::external_type_specification]
#[verifier::external_body]
pub struct ExHashError(argon2::Error);

/// Why an operation of the store did not succeed.
#[derive(Debug)]
pub enum WikiError {
    /// The engine failed to read or write.
    Storage(sled::Error),
    /// The engine failed to commit a transaction.
    Transaction(sled::transaction::TransactionError<()>),
    /// A point in time could not be written down, or what was stored for one
    /// could not be read.
    Bincode(bincode::Error),
    /// A password could not be hashed or checked.
    Argon2(argon2::Error),
    /// A stored key or identifier did not have the width of its encoding.
    MalformedKey,
    /// No identifier is left in the namespace.
    IdSpaceExhausted,
    /// The user name is taken.
    UserAlreadyExists(String),
    /// The store holds no name for this user.
    UserDataInconsistent(UserId),
    /// The store holds no password for this user.
    PasswordNotFound(UserId),
    /// The article has no revision of this number.
    RevisionUnknown(ArticleId, Id),
    /// The new content is the content of the current revision.
    IdenticalNewRevision,
    /// The article name is taken by another article.
    DuplicateArticleName(String),
    /// The store holds only a part of this revision.
    RevisionDataInconsistent(RevId),
    /// The store holds no name for this article.
    ArticleDataInconsistent(ArticleId),
}

/// What a failure says, without the detail that an outside error carries:
/// the view of a `WikiError`, in which contracts are stated.
pub enum Failure {
    /// The engine failed: `Storage` or `Transaction`.
    Engine,
    /// A point in time could not be written or read: `Bincode`.
    Encoding,
    /// A password could not be hashed or checked: `Argon2`.
    PasswordHash,
    /// See `WikiError::MalformedKey`.
    MalformedKey,
    /// See `WikiError::IdSpaceExhausted`.
    IdSpaceExhausted,
    /// See `WikiError::UserAlreadyExists`.
    UserAlreadyExists(Seq<char>),
    /// See `WikiError::UserDataInconsistent`.
    UserDataInconsistent(UserId),
    /// See `WikiError::PasswordNotFound`.
    PasswordNotFound(UserId),
    /// See `WikiError::RevisionUnknown`.
    RevisionUnknown(ArticleId, Id),
    /// See `WikiError::IdenticalNewRevision`.
    IdenticalNewRevision,
    /// See `WikiError::DuplicateArticleName`.
    DuplicateArticleName(Seq<char>),
    /// See `WikiError::RevisionDataInconsistent`.
    RevisionDataInconsistent(RevId),
    /// See `WikiError::ArticleDataInconsistent`.
    ArticleDataInconsistent(ArticleId),
}

/// How a failure is to be presented to whoever made the request.
#[derive(Debug, Clone, Copy, PartialEq, Eq, Structural)]
pub enum StatusClass {
    /// The request was at fault and can be corrected.
    BadRequest,
    /// What was asked for is not there.
    NotFound,
    /// The store or its data is at fault.
    InternalServerError,
}

impl StatusClass {
    /// The HTTP status code of the class.
    pub fn code(self) -> (r: u16)
        ensures
            r == match self {
                StatusClass::BadRequest => 400u16,
                StatusClass::NotFound => 404u16,
                StatusClass::InternalServerError => 500u16,
            },
    {
        match self {
            StatusClass::BadRequest => 400,
            StatusClass::NotFound => 404,
            StatusClass::InternalServerError => 500,
        }
    }
}

impl View for WikiError {
    type V = Failure;

    open spec fn view(&self) -> Failure {
        match self {
            WikiError::Storage(_) => Failure::Engine,
            WikiError::Transaction(_) => Failure::Engine,
            WikiError::Bincode(_) => Failure::Encoding,
            WikiError::Argon2(_) => Failure::PasswordHash,
            WikiError::MalformedKey => Failure::MalformedKey,
            WikiError::IdSpaceExhausted => Failure::IdSpaceExhausted,
            WikiError::UserAlreadyExists(name) => Failure::UserAlreadyExists(name@),
            WikiError::UserDataInconsistent(id) => Failure::UserDataInconsistent(*id),
            WikiError::PasswordNotFound(id) => Failure::PasswordNotFound(*id),
            WikiError::RevisionUnknown(article, number) => Failure::RevisionUnknown(
                *article,
                *number,
            ),
            WikiError::IdenticalNewRevision => Failure::IdenticalNewRevision,
            WikiError::DuplicateArticleName(name) => Failure::DuplicateArticleName(name@),
            WikiError::RevisionDataInconsistent(rev) => Failure::RevisionDataInconsistent(*rev),
            WikiError::ArticleDataInconsistent(id) => Failure::ArticleDataInconsistent(*id),
        }
    }
}

/// The call failed in the engine.
pub open spec fn engine_failed<T>(r: Result<T, WikiError>) -> bool {
    r is Err && r->Err_0@ == Failure::Engine
}

/// The call failed, and for this reason.
pub open spec fn reports<T>(r: Result<T, WikiError>, failure: Failure) -> bool {
    r is Err && r->Err_0@ == failure
}

/// The outcome says that the call fails, and for this reason.
pub open spec fn fails_with<T>(outcome: Result<T, Failure>, failure: Failure) -> bool {
    outcome is Err && outcome->Err_0 == failure
}

impl Failure {
    /// The class of the failure: a rejected request, an absence, or a fault
    /// of the store.
    pub open spec fn class(self) -> StatusClass {
        match self {
            Failure::UserAlreadyExists(_)
            | Failure::IdenticalNewRevision
            | Failure::DuplicateArticleName(_) => StatusClass::BadRequest,
            Failure::RevisionUnknown(_, _) => StatusClass::NotFound,
            _ => StatusClass::InternalServerError,
        }
    }
}

impl WikiError {
    /// The class of the failure.
    pub fn status(&self) -> (r: StatusClass)
        ensures
            r == self@.class(),
    {
        match self {
            WikiError::UserAlreadyExists(_)
            | WikiError::IdenticalNewRevision
            | WikiError::DuplicateArticleName(_) => StatusClass::BadRequest,
            WikiError::RevisionUnknown(_, _) => StatusClass::NotFound,
            WikiError::Storage(_)
            | WikiError::Transaction(_)
            | WikiError::Bincode(_)
            | WikiError::Argon2(_)
            | WikiError::MalformedKey
            | WikiError::IdSpaceExhausted
            | WikiError::UserDataInconsistent(_)
            | WikiError::PasswordNotFound(_)
            | WikiError::RevisionDataInconsistent(_)
            | WikiError::ArticleDataInconsistent(_) => StatusClass::InternalServerError,
        }
    }
}

} // verus!
