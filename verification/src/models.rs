//! Persisted records and the build-status state machine.
//!
//! Identifiers are carried as 128-bit integers and timestamps as signed
//! 64-bit integers, so the records hold plain values the contracts can
//! speak about; the storage layer converts at its edge.

use vstd::prelude::*;

verus! {

/// Lifecycle state of a submitted file. `NotStarted` until the sandbox
/// begins the build, `Started` while it runs, then exactly one of `Done`
/// or `Failed`; terminal states are never left.
#[derive(Clone, Copy, PartialEq, Eq, Structural, Debug)]
pub enum Buildstatus {
    NotStarted,
    Started,
    Done,
    Failed,
}

/// Whether `s` is a terminal status: a finished build never changes
/// status again.
pub open spec fn is_terminal(s: Buildstatus) -> bool {
    s == Buildstatus::Done || s == Buildstatus::Failed
}

/// The allowed build-status transitions: a build starts exactly once and
/// then finishes exactly once; nothing skips `Started` and nothing leaves
/// a terminal state.
pub open spec fn valid_transition(from: Buildstatus, to: Buildstatus) -> bool {
    ||| (from == Buildstatus::NotStarted && to == Buildstatus::Started)
    ||| (from == Buildstatus::Started && to == Buildstatus::Done)
    ||| (from == Buildstatus::Started && to == Buildstatus::Failed)
}

impl Buildstatus {
    /// Whether the store may move from `self` to `to`.
    pub fn can_transition(self, to: Buildstatus) -> (b: bool)
        ensures
            b == valid_transition(self, to),
    {
        match (self, to) {
            (Buildstatus::NotStarted, Buildstatus::Started) => true,
            (Buildstatus::Started, Buildstatus::Done) => true,
            (Buildstatus::Started, Buildstatus::Failed) => true,
            _ => false,
        }
    }
}

/// Guards a status write: the requested status when the transition is
/// allowed, otherwise the current status unchanged, as an error, so a
/// refused write leaves the record as it was.
pub fn apply_status_update(current: Buildstatus, requested: Buildstatus) -> (r: Result<
    Buildstatus,
    Buildstatus,
>)
    ensures
        valid_transition(current, requested) ==> r == Result::<Buildstatus, Buildstatus>::Ok(
            requested,
        ),
        !valid_transition(current, requested) ==> r == Result::<Buildstatus, Buildstatus>::Err(
            current,
        ),
{
    if current.can_transition(requested) {
        Ok(requested)
    } else {
        Err(current)
    }
}

/// Any chain of valid transitions out of `NotStarted` is a prefix of
/// `NotStarted`, `Started`, then one terminal state: a build passes
/// through exactly one such sequence, and `Done` is reached only through
/// `Started`.
pub proof fn lemma_status_chain(h: Seq<Buildstatus>)
    requires
        h.len() > 0,
        h[0] == Buildstatus::NotStarted,
        forall|i: int| 0 <= i < h.len() - 1 ==> valid_transition(#[trigger] h[i], h[i + 1]),
    ensures
        h.len() <= 3,
        h.len() >= 2 ==> h[1] == Buildstatus::Started,
        h.len() == 3 ==> is_terminal(h[2]),
        forall|i: int| 0 <= i < h.len() && #[trigger] h[i] == Buildstatus::Done ==> i == 2 && h[1]
            == Buildstatus::Started,
{
    if h.len() >= 2 {
        assert(valid_transition(h[0], h[1]));
    }
    if h.len() >= 3 {
        assert(valid_transition(h[1], h[2]));
    }
    if h.len() >= 4 {
        assert(valid_transition(h[2], h[3]));
        assert(false);
    }
}

/// A user record as the storage layer reports it.
pub struct User {
    pub id: u128,
    pub username: String,
    pub password_hash: String,
    pub salt: String,
}

/// A user record ready for insertion.
pub struct NewUser {
    pub id: u128,
    pub username: String,
    pub password_hash: String,
    pub salt: String,
}

/// A stored file record.
pub struct File {
    pub id: u128,
    pub filename: String,
    pub programming_language: String,
    pub filesize: i32,
    pub lastchanges: i64,
    pub file_content: Option<Vec<u8>>,
    pub owner_uuid: u128,
    pub build_status: Buildstatus,
}

/// A file record ready for insertion.
pub struct NewFile {
    pub id: u128,
    pub filename: String,
    pub programming_language: String,
    pub filesize: i32,
    pub lastchanges: i64,
    pub file_content: Option<Vec<u8>>,
    pub owner_uuid: u128,
    pub build_status: Buildstatus,
}

impl NewFile {
    /// The record an upload creates: size taken from the content, the
    /// epoch timestamp as last change, and a build that has not started.
    pub fn new(id: u128, filename: String, programming_language: String, content: Vec<u8>,
        owner_uuid: u128) -> (f: NewFile)
        requires
            content@.len() <= i32::MAX,
        ensures
            f.id == id,
            f.filename == filename,
            f.programming_language == programming_language,
            f.filesize == content@.len(),
            f.lastchanges == 0,
            f.file_content matches Some(c) && c@ == content@,
            f.owner_uuid == owner_uuid,
            f.build_status == Buildstatus::NotStarted,
    {
        let filesize = content.len() as i32;
        NewFile {
            id,
            filename,
            programming_language,
            filesize,
            lastchanges: 0i64,
            file_content: Some(content),
            owner_uuid,
            build_status: Buildstatus::NotStarted,
        }
    }
}

/// A session token ready for insertion.
#[derive(Clone)]
pub struct UploadToken {
    pub user_uuid: u128,
    pub token: String,
    pub expiration_date: i64,
}

/// Decides whether a token lookup found a real owner: the nil identifier
/// marks a missing user, any other identifier is the owner.
pub fn token_owner(user: User) -> (r: Option<User>)
    ensures
        user.id == 0 ==> r is None,
        user.id != 0 ==> r == Some(user),
{
    if user.id == 0 {
        None
    } else {
        Some(user)
    }
}

} // verus!
