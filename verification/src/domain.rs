use vstd::prelude::*;

use crate::clock::timestamp_now;
use crate::hashing::{hash_password, pwd_matches, verify_password};

verus! {

/// One chat message together with its creation timestamp.
#[derive(Debug)]
pub struct Payload {
    pub message: String,
    pub date: u64,
}

impl Payload {
    /// Builds a payload carrying `msg`, stamped with the current time.
    pub fn new(msg: &str) -> (p: Payload)
        ensures
            p.message@ == msg@,
    {
        Payload { message: msg.to_owned(), date: timestamp_now() }
    }
}

/// A registered identity. The password is retained only as a salted
/// one-way hash in `pwd`; the plaintext is never stored.
#[derive(Debug)]
pub struct User {
    pub uid: u64,
    pub username: String,
    pub created_at: u64,
    pub token_version: u64,
    pub pwd: String,
}

impl User {
    /// The stored salted hash, as contracts speak of it.
    pub open spec fn stored_hash(&self) -> Seq<char> {
        self.pwd@
    }

    /// Creates a user record with the given name and a salted hash of
    /// `pwd`. The identifier is assigned later, by the identity store
    /// that adopts the record. Fails only when the hashing primitive
    /// cannot draw a salt, which surfaces as a storage write fault.
    pub fn new(username: String, pwd: String) -> (r: Result<User, FailureReason>)
        ensures
            r matches Ok(u) ==> u.username@ == username@
                && u.token_version == 0
                && u.uid == 0
                && pwd_matches(pwd@, u.stored_hash()),
            r matches Err(e) ==> e is ACCESSWRITEERROR,
    {
        match hash_password(pwd.as_str()) {
            Some(h) => Ok(User {
                username,
                uid: 0,
                created_at: timestamp_now(),
                token_version: 0,
                pwd: h,
            }),
            None => Err(FailureReason::ACCESSWRITEERROR),
        }
    }

    /// Checks a plaintext password against the stored salted hash.
    pub fn comp_pass(&self, pass: &str) -> (r: bool)
        ensures
            r == pwd_matches(pass@, self.stored_hash()),
    {
        verify_password(pass, self.pwd.as_str())
    }
}

/// A connected session: one authenticated user, and a live delivery
/// handle while (and only while) the session is connected.
#[derive(Debug, Clone, Copy, PartialEq, Eq, Structural)]
pub struct Client {
    pub client_id: u64,
    pub address: Option<u64>,
    pub user_id: u64,
}

impl Client {
    /// A fresh, not yet connected session for the given user. The
    /// identifier is assigned by the coordinator that adopts the record.
    pub fn new(user_id: u64) -> (c: Client)
        ensures
            c.client_id == 0,
            c.address is None,
            c.user_id == user_id,
    {
        Client { client_id: 0, address: None, user_id }
    }
}

/// An outbound chat message submitted for fan-out to a room.
pub struct ClientMessage {
    pub cl_id: u64,
    pub room_id: u64,
    pub message: String,
}

/// Why an input was refused outright.
#[derive(Debug, Clone, Copy, PartialEq, Eq, Structural)]
pub enum RefusedReason {
    /// The input does not have the expected shape.
    BADFORMAT,
    /// A required input was empty.
    EMPTY,
    /// The room already holds as many members as its capacity allows.
    FULL,
    /// The client is already a member of the room.
    ALREADYMEMBER,
}

/// The field of a request that a refusal points at.
pub type Field = String;

/// Outcome of a registration request.
#[derive(Debug)]
pub enum RegistrationStatus {
    CREATED,
    REFUSED(RefusedReason, Field),
    FAILED(FailureReason),
}

/// A fault of the underlying storage, classified.
#[derive(Debug, Clone, Copy, PartialEq, Eq, Structural)]
pub enum FailureReason {
    ACCESSWRITEERROR,
    COLLISION,
    ACCESSREADERROR,
}

/// A registration request.
pub struct Registration {
    pub username: String,
    pub password: String,
}

/// Reply to a registration request.
pub struct RegisterRes {
    pub status: RegistrationStatus,
    pub cl_id: Option<u64>,
}

/// A request for a snapshot of every registered user.
pub struct ListUser;

/// Reply to a room creation request.
#[derive(Debug)]
pub struct RoomCreation {
    pub status: RoomCreationStatus,
    pub handle: Option<u64>,
}

/// Why a room could not be created.
#[derive(Debug)]
pub enum RoomError {
    UNACCEPTABLE(String),
    REFUSED(RoomRejection),
    INTERNALERROR(FailureReason),
}

/// Outcome of a room creation request.
#[derive(Debug)]
pub enum RoomCreationStatus {
    CREATED,
    ERROR(RoomError),
}

/// A room creation request.
pub struct CreateRoom {
    pub name: String,
    pub capacity: Option<i32>,
    pub creator: u64,
}

/// A request for a snapshot of every room.
pub struct RoomRetrieval {}

/// A presence transition to request.
#[derive(Debug, Clone, Copy, PartialEq, Eq, Structural)]
pub enum SignalCode {
    Connect,
    Disconnect,
    Pending,
}

/// A presence-transition request: who, which transition, the live
/// delivery handle the transport minted, and the room concerned.
pub struct SignalInput {
    pub id: u64,
    pub code: SignalCode,
    pub addr: u64,
    pub room_id: u64,
}

/// Reply to a presence-transition request.
pub struct SignalOutput {
    pub status: ConnectionStatus,
    pub signaled_at: u64,
}

/// Why a presence transition was aborted.
#[derive(Debug)]
pub enum AbortReason {
    Internal(FailureReason),
    External(RefusedReason),
    UNACCEPTABLE(RoomRejection),
}

/// The presence state reached by a transition request.
#[derive(Debug)]
pub enum ConnectionStatus {
    Connected,
    Aborted(AbortReason),
    Disconnected,
}

/// A room join request.
pub struct JoinInput {
    pub target_id: u64,
    pub client_id: u64,
    pub addr: u64,
}

/// Why a join request was turned down.
#[derive(Debug)]
pub enum RoomRejection {
    UnknownRoom,
    UnknownUser,
    Reject(RefusedReason),
}

/// Outcome of a join request.
#[derive(Debug)]
pub enum JoinOutput {
    Success,
    Rejected(RoomRejection),
    Failed(FailureReason),
}

/// Why a login failed.
#[derive(Debug, Clone, Copy, PartialEq, Eq, Structural)]
pub enum LoginFailure {
    Internal(FailureReason),
    UserFailure,
}

/// Outcome of a login request.
#[derive(Debug, Clone, Copy, PartialEq, Eq, Structural)]
pub enum LoginStatus {
    Passed,
    Failed(LoginFailure),
}

/// Reply to a login request.
pub struct LoginRes {
    pub status: LoginStatus,
    pub cl_id: Option<u64>,
}

/// A login request.
pub struct LoginMessage {
    pub username: String,
    pub password: String,
}

/// Which precondition of bearer-token validation failed.
#[derive(Debug, Clone, Copy, PartialEq, Eq, Structural)]
pub enum BearerFailure {
    /// The token's embedded identity or version does not match the user.
    InvalidToken,
    /// No credential material came with the request header.
    EmptyHeader,
    /// The token's expiry instant has been reached.
    ExpiredJwt,
    /// No authorizing cookie came with the request.
    EmptyCookie,
    /// The credential material could not be parsed at all.
    ParsingError,
    /// The credential material parsed, but its components are irregular.
    BadJwtComponent,
}

/// Outcome of validating a bearer token.
#[derive(Debug, Clone, Copy, PartialEq, Eq, Structural)]
pub enum AuthStatus {
    Success,
    Fail(BearerFailure),
}

/// An authorization failure in the shape a caller-facing reply takes.
pub struct AuthorizationError {
    pub status: String,
    pub reason: String,
}

/// Raw bearer material as the transport hands it over: the serialized
/// token and the subject it claims.
pub struct Rtoken(pub String, pub String);

/// The claims a bearer token embeds: the subject, the subject's token
/// version at issue time, and the expiry instant in seconds.
#[derive(Debug, Clone, Copy, PartialEq, Eq, Structural)]
pub struct Token {
    pub uid: u64,
    pub version: u64,
    pub expires_at: u64,
}

/// Credential material after the transport has unwrapped the wire bytes:
/// either the parsed claims, or which unwrapping step found nothing or
/// failed. Wire framing itself stays outside the library.
#[derive(Debug, Clone, Copy, PartialEq, Eq, Structural)]
pub enum BearerMaterial {
    /// The request carried no authorization header.
    MissingHeader,
    /// The request carried no authorizing cookie.
    MissingCookie,
    /// The material could not be parsed.
    Garbled,
    /// The material parsed into irregular components.
    IrregularComponents,
    /// The parsed claims.
    Claims(Token),
}

} // verus!
