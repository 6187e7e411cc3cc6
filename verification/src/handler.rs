//! The server side of a connection: the authentication handshake as a state
//! machine, the decoding of commands, and the frames sent in reply.
//!
//! The caller owns the socket, the task store and the files. It reads a
//! frame, asks here what to do, does it, and comes back with what happened.

use crate::crypto::base58_decoded;
use crate::crypto::base58_text;
use crate::crypto::decode_bs58;
use crate::crypto::encode_bs58;
use crate::crypto::new_challenge;
use crate::crypto::signature_valid;
use crate::crypto::verify_signature;
use crate::error::AppError;
use crate::frame::encode_frame;
use crate::frame::frame_bytes;
use crate::frame::Frame;
use crate::ids::uuid_parsed;
use crate::ids::Uuid;
use crate::json::json_literal;
use crate::json::json_text_field;
use crate::json::list_text;
use crate::json::object_one;
use crate::json::read_text_field;
use crate::json::read_utf8;
use crate::json::read_utf8_lossy;
use crate::json::strings_view;
use crate::json::utf8_lossy;
use crate::json::write_list;
use crate::json::write_literal;
use crate::json::write_object_one;
use crate::protocol::parse_chat_text;
use crate::protocol::parse_spec;
use crate::text::push_str;
use crate::text::string_of;
use crate::time::Timestamp;
use crate::types::ChatLog;
use crate::types::PacketType;
use vstd::prelude::*;
use vstd::string::StringExecFns;
use vstd::utf8::decode_utf8;
use vstd::utf8::encode_utf8;
use vstd::utf8::valid_utf8;

verus! {

/// The frame that tells the client of an error: an `Error` frame with the
/// error's display text.
pub open spec fn error_frame_bytes(e: AppError) -> Seq<u8> {
    frame_bytes(PacketType::Error, encode_utf8(e.display()))
}

/// The frame that tells the client of an error.
pub fn error_frame(e: &AppError) -> (frame: Vec<u8>)
    ensures
        frame@ == error_frame_bytes(*e),
{
    encode_frame(PacketType::Error, e.to_text().as_str().as_bytes())
}

/// Where a handshake stands.
pub enum AuthState {
    /// Nothing was read yet.
    AwaitingUsername,
    /// The client named itself; its public key is being looked up.
    AwaitingKey { username: String },
    /// The challenge was sent; the signature is awaited.
    AwaitingSignature { username: String, public_key: String, challenge: Vec<u8> },
    /// The client proved that it holds the key.
    Authenticated { username: String },
    /// The handshake failed; the connection is to be dropped.
    Rejected,
}

/// What the caller reports to the handshake.
pub enum AuthEvent {
    /// A frame was read, or the stream ended.
    Frame(Option<Frame>),
    /// The key lookup ended, with the user's public key text if there is one.
    Key(Option<String>),
}

/// What the caller is to do next.
pub enum AuthAction {
    /// Look up the public key of this user and report it.
    LookUpKey { username: String },
    /// Send the challenge frame, read a frame and report it.
    Send { frame: Vec<u8> },
    /// Send the final acknowledgement: the session is open.
    Accept { frame: Vec<u8> },
    /// Send the error frame and drop the connection.
    Reject { frame: Vec<u8>, error: AppError },
}

/// The user name that an authentication request carries, if the frame is
/// one: an `CmdAuthRequest` frame whose JSON payload has a string under
/// `username`.
pub open spec fn username_of(frame: Option<Frame>) -> Option<Seq<char>> {
    match frame {
        Some(f) => if f.packet_type == PacketType::CmdAuthRequest {
            match json_text_field(f.payload@, "username"@) {
                Some(Some(name)) => Some(name),
                _ => None,
            }
        } else {
            None
        },
        None => None,
    }
}

/// The signature that an authentication response carries, if the frame is
/// one: a `CmdAuthResponse` frame whose JSON payload has a Base58 string
/// under `signature`.
pub open spec fn signature_of(frame: Option<Frame>) -> Option<Seq<u8>> {
    match frame {
        Some(f) => if f.packet_type == PacketType::CmdAuthResponse {
            match json_text_field(f.payload@, "signature"@) {
                Some(Some(text)) => base58_decoded(text),
                _ => None,
            }
        } else {
            None
        },
        None => None,
    }
}

/// What is wrong with a handshake frame.
pub enum Flaw {
    /// The payload is not JSON.
    NotJson,
    /// The signature is not Base58.
    NotBase58,
    /// Anything else: no frame, a frame of another kind, a missing field, an
    /// unknown user, a signature that does not verify.
    Denied,
}

impl Flaw {
    /// Whether an error is of the category that stands for this flaw.
    pub open spec fn told_by(self, e: AppError) -> bool {
        match self {
            Flaw::NotJson => e is JsonError,
            Flaw::NotBase58 => e is Bs58Error,
            Flaw::Denied => e is AuthError,
        }
    }
}

/// Whether a frame is of the kind awaited but its payload is not JSON.
pub open spec fn not_json(frame: Option<Frame>, awaited: PacketType, key: Seq<char>) -> bool {
    frame matches Some(f) && f.packet_type == awaited && json_text_field(f.payload@, key) is None
}

/// What is wrong with a first frame that names no user.
pub open spec fn request_flaw(frame: Option<Frame>) -> Flaw {
    if not_json(frame, PacketType::CmdAuthRequest, "username"@) {
        Flaw::NotJson
    } else {
        Flaw::Denied
    }
}

/// What is wrong with a response that carries no signature.
pub open spec fn response_flaw(frame: Option<Frame>) -> Flaw {
    if not_json(frame, PacketType::CmdAuthResponse, "signature"@) {
        Flaw::NotJson
    } else if frame matches Some(f) && f.packet_type == PacketType::CmdAuthResponse
        && json_text_field(f.payload@, "signature"@) matches Some(Some(text)) {
        Flaw::NotBase58
    } else {
        Flaw::Denied
    }
}

/// The challenge frame for a challenge: its Base58 text under `challenge`.
pub open spec fn challenge_frame_bytes(challenge: Seq<u8>) -> Seq<u8> {
    frame_bytes(
        PacketType::CmdAuthChallenge,
        encode_utf8(object_one("challenge"@, base58_text(challenge))),
    )
}

/// The payload of the final acknowledgement: the default model and the
/// available models.
pub open spec fn ack_text(models: Seq<Seq<char>>, default_model: Seq<char>) -> Seq<char> {
    "{"@ + json_literal("default_model"@) + ":"@ + json_literal(default_model) + ","@
        + json_literal("models"@) + ":"@ + list_text(models) + "}"@
}

/// The final acknowledgement frame.
pub open spec fn ack_frame_bytes(models: Seq<Seq<char>>, default_model: Seq<char>) -> Seq<u8> {
    frame_bytes(PacketType::Ack, encode_utf8(ack_text(models, default_model)))
}

/// Reads the user name out of the first frame of a connection. Fails with a
/// `JsonError` where the payload of an authentication request is not JSON,
/// and with an `AuthError` where the stream ended, the frame is of another
/// type, or the payload names no user.
pub fn read_auth_request(frame: &Option<Frame>) -> (r: Result<String, AppError>)
    ensures
        match r {
            Ok(name) => username_of(*frame) == Some(name@),
            Err(e) => username_of(*frame) is None && request_flaw(*frame).told_by(e),
        },
{
    let f = match frame {
        Some(f) => f,
        None => {
            return Err(AppError::AuthError(String::from_str("Client disconnected before auth")));
        },
    };
    if f.packet_type != PacketType::CmdAuthRequest {
        return Err(AppError::AuthError(String::from_str("Expected auth request")));
    }
    match read_text_field(f.payload.as_slice(), "username") {
        Ok(Some(name)) => Ok(name),
        Ok(None) => Err(AppError::AuthError(String::from_str("Username not provided"))),
        Err(e) => Err(e),
    }
}

/// Reads the signature out of the frame that answers a challenge. Fails with
/// a `JsonError` where the payload is not JSON, a `Bs58Error` where the
/// signature is not Base58, and an `AuthError` where the stream ended, the
/// frame is of another type, or the payload holds no signature.
pub fn read_auth_response(frame: &Option<Frame>) -> (r: Result<Vec<u8>, AppError>)
    ensures
        match r {
            Ok(signature) => signature_of(*frame) == Some(signature@),
            Err(e) => signature_of(*frame) is None && response_flaw(*frame).told_by(e),
        },
{
    let f = match frame {
        Some(f) => f,
        None => {
            return Err(
                AppError::AuthError(String::from_str("Client disconnected during challenge")),
            );
        },
    };
    if f.packet_type != PacketType::CmdAuthResponse {
        return Err(AppError::AuthError(String::from_str("Expected auth response")));
    }
    match read_text_field(f.payload.as_slice(), "signature") {
        Ok(Some(text)) => decode_bs58(text.as_str()),
        Ok(None) => Err(AppError::AuthError(String::from_str("Signature not provided"))),
        Err(e) => Err(e),
    }
}

/// The challenge frame for a challenge.
pub fn challenge_frame(challenge: &Vec<u8>) -> (frame: Vec<u8>)
    ensures
        frame@ == challenge_frame_bytes(challenge@),
{
    let text = encode_bs58(challenge.as_slice());
    let payload = write_object_one("challenge", text.as_str());
    encode_frame(PacketType::CmdAuthChallenge, payload.as_str().as_bytes())
}

/// The final acknowledgement frame, with the models on offer and the default
/// one.
pub fn auth_ack_frame(models: &Vec<String>, default_model: &str) -> (frame: Vec<u8>)
    ensures
        frame@ == ack_frame_bytes(strings_view(models@), default_model@),
{
    let mut out: Vec<char> = Vec::new();
    push_str(&mut out, "{");
    push_str(&mut out, write_literal("default_model").as_str());
    push_str(&mut out, ":");
    push_str(&mut out, write_literal(default_model).as_str());
    push_str(&mut out, ",");
    push_str(&mut out, write_literal("models").as_str());
    push_str(&mut out, ":");
    push_str(&mut out, write_list(models).as_str());
    push_str(&mut out, "}");
    assert(out@ =~= ack_text(strings_view(models@), default_model@));
    encode_frame(PacketType::Ack, string_of(&out).as_str().as_bytes())
}

/// One step of the handshake: the next state and what the caller is to do.
///
/// A first frame that names a user asks for that user's key. A found key
/// draws a fresh 32-byte challenge and sends it. A response whose signature
/// verifies for exactly that challenge under that key opens the session.
/// Everything else rejects: the error frame is sent and the connection
/// dropped. The error is a `JsonError` for a payload that is not JSON, a
/// `Bs58Error` for a signature that is not Base58, and an `AuthError`
/// otherwise.
pub fn auth_step(state: AuthState, event: AuthEvent, models: &Vec<String>, default_model: &str) -> (r:
    (AuthState, AuthAction))
    ensures
        match (state, event) {
            (AuthState::AwaitingUsername, AuthEvent::Frame(frame)) => match username_of(frame) {
                Some(name) => {
                    &&& r.0 matches AuthState::AwaitingKey { username } && username@ == name
                    &&& r.1 matches AuthAction::LookUpKey { username } && username@ == name
                },
                None => rejected_for(r, request_flaw(frame)),
            },
            (AuthState::AwaitingKey { username }, AuthEvent::Key(Some(key))) => {
                &&& r.0 matches AuthState::AwaitingSignature {
                    username: name,
                    public_key,
                    challenge,
                } && name@ == username@ && public_key@ == key@ && challenge@.len() == 32 && (
                r.1 matches AuthAction::Send { frame } && frame@ == challenge_frame_bytes(
                    challenge@,
                ))
            },
            (
                AuthState::AwaitingSignature { username, public_key, challenge },
                AuthEvent::Frame(frame),
            ) => if signature_of(frame) matches Some(signature) && signature_valid(
                public_key@,
                challenge@,
                signature,
            ) {
                &&& r.0 matches AuthState::Authenticated { username: name } && name@ == username@
                &&& r.1 matches AuthAction::Accept { frame: ack } && ack@ == ack_frame_bytes(
                    strings_view(models@),
                    default_model@,
                )
            } else {
                rejected_for(
                    r,
                    if signature_of(frame) is Some {
                        Flaw::Denied
                    } else {
                        response_flaw(frame)
                    },
                )
            },
            _ => rejected_for(r, Flaw::Denied),
        },
{
    match (state, event) {
        (AuthState::AwaitingUsername, AuthEvent::Frame(frame)) => {
            match read_auth_request(&frame) {
                Ok(username) => {
                    let copy = String::from_str(username.as_str());
                    (AuthState::AwaitingKey { username }, AuthAction::LookUpKey { username: copy })
                },
                Err(e) => reject(e),
            }
        },
        (AuthState::AwaitingKey { username }, AuthEvent::Key(Some(public_key))) => {
            let challenge = new_challenge();
            let frame = challenge_frame(&challenge);
            (
                AuthState::AwaitingSignature { username, public_key, challenge },
                AuthAction::Send { frame },
            )
        },
        (AuthState::AwaitingKey { username }, AuthEvent::Key(None)) => reject(
            AppError::AuthError(String::from_str("User not found")),
        ),
        (AuthState::AwaitingSignature { username, public_key, challenge }, AuthEvent::Frame(frame)) => {
            let signature = match read_auth_response(&frame) {
                Ok(signature) => signature,
                Err(e) => {
                    return reject(e);
                },
            };
            match verify_signature(public_key.as_str(), challenge.as_slice(), signature.as_slice()) {
                Ok(()) => (
                    AuthState::Authenticated { username },
                    AuthAction::Accept { frame: auth_ack_frame(models, default_model) },
                ),
                Err(e) => reject(e),
            }
        },
        _ => reject(AppError::AuthError(String::from_str("Unexpected handshake event"))),
    }
}

/// Whether a step rejected: the state is `Rejected` and the action sends the
/// error frame of the error it names.
pub open spec fn rejected(r: (AuthState, AuthAction)) -> bool {
    &&& r.0 is Rejected
    &&& r.1 matches AuthAction::Reject { frame, error } && frame@ == error_frame_bytes(error)
}

/// Whether a step rejected for the given flaw.
pub open spec fn rejected_for(r: (AuthState, AuthAction), flaw: Flaw) -> bool {
    &&& rejected(r)
    &&& r.1 matches AuthAction::Reject { error, .. } && flaw.told_by(error)
}

fn reject(error: AppError) -> (r: (AuthState, AuthAction))
    ensures
        rejected(r),
        r.1 matches AuthAction::Reject { error: e, .. } && e == error,
{
    let frame = error_frame(&error);
    (AuthState::Rejected, AuthAction::Reject { frame, error })
}

/// A command of an authenticated client.
pub enum Command {
    /// Store the transcript and queue it for the provider.
    Exec { log: ChatLog, content: String },
    /// List all tasks.
    List,
    /// Send the transcript stored under this name.
    Get { name: String },
    /// Delete the task and its transcript.
    Delete { uuid: Uuid, name: String },
    /// Overwrite the transcript stored under this name.
    Update { name: String, content: String },
    /// A frame that is no command. It is answered with an error frame.
    Unsupported { packet_type: PacketType },
}

/// What a frame asks for, where `now` stands in for the times that a
/// submitted transcript does not give.
pub enum CommandView {
    Exec { log: crate::types::ChatLogView, content: Seq<char> },
    List,
    Get { name: Seq<char> },
    Delete { uuid: Uuid, name: Seq<char> },
    Update { name: Seq<char>, content: Seq<char> },
    Unsupported { packet_type: PacketType },
}

impl View for Command {
    type V = CommandView;

    open spec fn view(&self) -> CommandView {
        match *self {
            Command::Exec { log, content } => CommandView::Exec { log: log@, content: content@ },
            Command::List => CommandView::List,
            Command::Get { name } => CommandView::Get { name: name@ },
            Command::Delete { uuid, name } => CommandView::Delete { uuid, name: name@ },
            Command::Update { name, content } => CommandView::Update {
                name: name@,
                content: content@,
            },
            Command::Unsupported { packet_type } => CommandView::Unsupported { packet_type },
        }
    }
}

/// The command that a frame stands for, or `None` where its payload is
/// refused.
///
/// `CmdExec` carries a transcript in UTF-8. `CmdGet` and `CmdDelete` carry a
/// name, read leniently; for `CmdDelete` it must be an identifier.
/// `CmdUpdate` carries a JSON object with the strings `uuid` and `content`.
/// The legacy `CmdResend` is not served: sending the transcript again with
/// `CmdExec` does what it did.
pub open spec fn command_of(packet_type: PacketType, payload: Seq<u8>, now: Timestamp) -> Option<
    CommandView,
> {
    match packet_type {
        PacketType::CmdExec => if valid_utf8(payload) {
            match parse_spec(decode_utf8(payload), now) {
                Some(log) => Some(CommandView::Exec { log, content: decode_utf8(payload) }),
                None => None,
            }
        } else {
            None
        },
        PacketType::CmdList => Some(CommandView::List),
        PacketType::CmdGet => Some(CommandView::Get { name: utf8_lossy(payload) }),
        PacketType::CmdDelete => match uuid_parsed(utf8_lossy(payload)) {
            Some(value) => Some(
                CommandView::Delete { uuid: Uuid { value }, name: utf8_lossy(payload) },
            ),
            None => None,
        },
        PacketType::CmdUpdate => match (
            json_text_field(payload, "uuid"@),
            json_text_field(payload, "content"@),
        ) {
            (Some(Some(name)), Some(Some(content))) => Some(CommandView::Update { name, content }),
            _ => None,
        },
        _ => Some(CommandView::Unsupported { packet_type }),
    }
}

/// Why a frame is refused as a command.
pub enum Refusal {
    /// The transcript is not UTF-8.
    NotUtf8,
    /// The update payload is not JSON.
    NotJson,
    /// The transcript is refused, the name is no identifier, or the update
    /// lacks a field.
    Malformed,
}

impl Refusal {
    /// Whether an error is of the category that stands for this refusal.
    pub open spec fn told_by(self, e: AppError) -> bool {
        match self {
            Refusal::NotUtf8 => e is Utf8Error,
            Refusal::NotJson => e is JsonError,
            Refusal::Malformed => e is ParseError,
        }
    }
}

/// Why a frame that stands for no command is refused.
pub open spec fn refusal_of(packet_type: PacketType, payload: Seq<u8>) -> Refusal {
    match packet_type {
        PacketType::CmdExec => if valid_utf8(payload) {
            Refusal::Malformed
        } else {
            Refusal::NotUtf8
        },
        PacketType::CmdUpdate => match json_text_field(payload, "uuid"@) {
            None => Refusal::NotJson,
            Some(None) => Refusal::Malformed,
            Some(Some(_)) => if json_text_field(payload, "content"@) is None {
                Refusal::NotJson
            } else {
                Refusal::Malformed
            },
        },
        _ => Refusal::Malformed,
    }
}

/// Decodes the command of a frame. A transcript that is not UTF-8 is a
/// `Utf8Error`, an update payload that is not JSON a `JsonError`; a refused
/// transcript, a name that is no identifier and an update without `uuid` or
/// `content` are `ParseError`s.
pub fn decode_command(frame: &Frame, now: Timestamp) -> (r: Result<Command, AppError>)
    ensures
        match r {
            Ok(command) => command_of(frame.packet_type, frame.payload@, now) == Some(command@),
            Err(e) => command_of(frame.packet_type, frame.payload@, now) is None && refusal_of(
                frame.packet_type,
                frame.payload@,
            ).told_by(e),
        },
{
    let payload = frame.payload.as_slice();
    match frame.packet_type {
        PacketType::CmdExec => {
            let content = match read_utf8(payload) {
                Ok(content) => content,
                Err(e) => {
                    return Err(e);
                },
            };
            match parse_chat_text(content.as_str(), now) {
                Ok(log) => Ok(Command::Exec { log, content }),
                Err(e) => Err(e),
            }
        },
        PacketType::CmdList => Ok(Command::List),
        PacketType::CmdGet => Ok(Command::Get { name: read_utf8_lossy(payload) }),
        PacketType::CmdDelete => {
            let name = read_utf8_lossy(payload);
            match Uuid::parse_str(name.as_str()) {
                Some(uuid) => Ok(Command::Delete { uuid, name }),
                None => Err(AppError::ParseError(String::from_str("Invalid UUID"))),
            }
        },
        PacketType::CmdUpdate => {
            let name = match read_text_field(payload, "uuid") {
                Ok(Some(name)) => name,
                Ok(None) => {
                    return Err(
                        AppError::ParseError(String::from_str("Missing UUID in update payload")),
                    );
                },
                Err(e) => {
                    return Err(e);
                },
            };
            match read_text_field(payload, "content") {
                Ok(Some(content)) => Ok(Command::Update { name, content }),
                Ok(None) => Err(
                    AppError::ParseError(String::from_str("Missing content in update payload")),
                ),
                Err(e) => Err(e),
            }
        },
        other => Ok(Command::Unsupported { packet_type: other }),
    }
}

/// What to do to the task store for a submitted transcript.
#[derive(PartialEq, Eq, Structural, Debug, Clone, Copy)]
pub enum StoreAction {
    /// The identifier is new: insert a pending row.
    Insert,
    /// The identifier is known: set the row back to pending and clear its
    /// error.
    Requeue,
}

/// A submitted transcript whose identifier is known updates its row; it is
/// never a duplicate.
pub fn exec_store_action(known: bool) -> (action: StoreAction)
    ensures
        action == if known {
            StoreAction::Requeue
        } else {
            StoreAction::Insert
        },
{
    if known {
        StoreAction::Requeue
    } else {
        StoreAction::Insert
    }
}

/// The name of the file that holds a transcript.
pub fn transcript_file_name(name: &str) -> (file: String)
    ensures
        file@ == name@ + ".txt"@,
{
    String::from_str(name).concat(".txt")
}

/// What a served command has to tell the client.
pub enum Reply {
    /// The transcript was stored and queued under this identifier.
    Queued { uuid: Uuid },
    /// Done.
    Done,
    /// The task list, as JSON.
    List { json: Vec<u8> },
    /// A transcript.
    ChatLog { content: Vec<u8> },
    /// The frame was no command.
    Unsupported { packet_type: PacketType },
}

/// The frame of a reply.
pub open spec fn reply_bytes(reply: Reply) -> Seq<u8> {
    match reply {
        Reply::Queued { uuid } => frame_bytes(PacketType::Ack, encode_utf8(uuid.text())),
        Reply::Done => frame_bytes(PacketType::Ack, Seq::empty()),
        Reply::List { json } => frame_bytes(PacketType::ResponseList, json@),
        Reply::ChatLog { content } => frame_bytes(PacketType::ResponseChatLog, content@),
        Reply::Unsupported { packet_type } => frame_bytes(
            PacketType::Error,
            encode_utf8("Unsupported command: "@ + packet_type.name()),
        ),
    }
}

/// The frame to send after a command was served, or failed. A failure is
/// told to the client in an `Error` frame; either way the connection stays
/// open for the next command.
pub fn reply_frame(outcome: &Result<Reply, AppError>) -> (frame: Vec<u8>)
    ensures
        frame@ == match *outcome {
            Ok(reply) => reply_bytes(reply),
            Err(e) => error_frame_bytes(e),
        },
{
    match outcome {
        Ok(Reply::Queued { uuid }) => encode_frame(
            PacketType::Ack,
            uuid.to_text().as_str().as_bytes(),
        ),
        Ok(Reply::Done) => {
            let empty: Vec<u8> = Vec::new();
            assert(empty@ =~= Seq::<u8>::empty());
            encode_frame(PacketType::Ack, empty.as_slice())
        },
        Ok(Reply::List { json }) => encode_frame(PacketType::ResponseList, json.as_slice()),
        Ok(Reply::ChatLog { content }) => encode_frame(
            PacketType::ResponseChatLog,
            content.as_slice(),
        ),
        Ok(Reply::Unsupported { packet_type }) => {
            let text = String::from_str("Unsupported command: ").concat(packet_type.as_str());
            encode_frame(PacketType::Error, text.as_str().as_bytes())
        },
        Err(e) => error_frame(e),
    }
}

/// What the command loop does after a read.
pub enum LoopStep {
    /// The client closed the stream between frames: end the loop in peace.
    Close,
    /// The stream broke: end the loop with this error.
    Abort { error: AppError },
    /// Serve this command, send the reply, read on.
    Serve { command: Command },
    /// The frame was refused: send this error frame, read on.
    Refuse { frame: Vec<u8>, error: AppError },
}

/// Decides what the command loop does after a read. Only the end of the
/// stream and a broken stream end the loop; a frame that is refused costs the
/// client an error frame and nothing more.
pub fn after_read(read: Result<Option<Frame>, AppError>, now: Timestamp) -> (step: LoopStep)
    ensures
        match read {
            Ok(None) => step is Close,
            Err(e) => step matches LoopStep::Abort { error } && error == e,
            Ok(Some(frame)) => match command_of(frame.packet_type, frame.payload@, now) {
                Some(command) => step matches LoopStep::Serve { command: c } && c@ == command,
                None => step matches LoopStep::Refuse { frame: bytes, error } && bytes@
                    == error_frame_bytes(error) && refusal_of(
                    frame.packet_type,
                    frame.payload@,
                ).told_by(error),
            },
        },
{
    match read {
        Ok(None) => LoopStep::Close,
        Err(error) => LoopStep::Abort { error },
        Ok(Some(frame)) => match decode_command(&frame, now) {
            Ok(command) => LoopStep::Serve { command },
            Err(error) => {
                let frame = error_frame(&error);
                LoopStep::Refuse { frame, error }
            },
        },
    }
}

} // verus!
