//! The client side of a connection: the frames it sends, what it makes of
//! the frames it gets back, and its part in the handshake.

use crate::crypto::base58_decoded;
use crate::crypto::base58_text;
use crate::crypto::decode_bs58;
use crate::crypto::decoded_private_key;
use crate::crypto::ed25519_signature;
use crate::crypto::encode_bs58;
use crate::crypto::KeyPair;
use crate::error::AppError;
use crate::frame::encode_frame;
use crate::frame::frame_bytes;
use crate::frame::Frame;
use crate::ids::uuid_parsed;
use crate::ids::Uuid;
use crate::json::json_list_field;
use crate::json::json_text_field;
use crate::json::object_one;
use crate::json::object_two;
use crate::json::read_list_field;
use crate::json::read_text_field;
use crate::json::read_utf8;
use crate::json::read_utf8_lossy;
use crate::json::strings_view;
use crate::json::write_object_one;
use crate::json::write_object_two;
use crate::text::chars_of;
use crate::text::lines_of;
use crate::text::split_lines;
use crate::text::string_of;
use crate::text::trim;
use crate::text::trimmed;
use crate::types::PacketType;
use vstd::prelude::*;
use vstd::string::StringExecFns;
use vstd::utf8::decode_utf8;
use vstd::utf8::encode_utf8;
use vstd::utf8::valid_utf8;

verus! {

/// What the client asks of the server.
pub enum Request {
    /// Store this transcript and run it.
    Exec { content: String },
    /// List the tasks.
    List,
    /// Send the transcript of this session.
    Get { uuid: Uuid },
    /// Delete this session.
    Delete { uuid: Uuid },
    /// Overwrite the transcript of this session.
    Update { uuid: Uuid, content: String },
}

/// The frame of a request.
pub open spec fn request_bytes(request: Request) -> Seq<u8> {
    match request {
        Request::Exec { content } => frame_bytes(PacketType::CmdExec, encode_utf8(content@)),
        Request::List => frame_bytes(PacketType::CmdList, Seq::empty()),
        Request::Get { uuid } => frame_bytes(PacketType::CmdGet, encode_utf8(uuid.text())),
        Request::Delete { uuid } => frame_bytes(PacketType::CmdDelete, encode_utf8(uuid.text())),
        Request::Update { uuid, content } => frame_bytes(
            PacketType::CmdUpdate,
            encode_utf8(object_two("content"@, content@, "uuid"@, uuid.text())),
        ),
    }
}

/// The kind of frame that answers a request when all went well.
pub open spec fn expected_reply(request: Request) -> PacketType {
    match request {
        Request::Exec { .. } => PacketType::Ack,
        Request::List => PacketType::ResponseList,
        Request::Get { .. } => PacketType::ResponseChatLog,
        Request::Delete { .. } => PacketType::Ack,
        Request::Update { .. } => PacketType::Ack,
    }
}

/// The frame of a request, and the kind of frame that is to answer it.
pub fn request_frame(request: &Request) -> (r: (Vec<u8>, PacketType))
    ensures
        r.0@ == request_bytes(*request),
        r.1 == expected_reply(*request),
{
    match request {
        Request::Exec { content } => (
            encode_frame(PacketType::CmdExec, content.as_str().as_bytes()),
            PacketType::Ack,
        ),
        Request::List => {
            let empty: Vec<u8> = Vec::new();
            assert(empty@ =~= Seq::<u8>::empty());
            (encode_frame(PacketType::CmdList, empty.as_slice()), PacketType::ResponseList)
        },
        Request::Get { uuid } => (
            encode_frame(PacketType::CmdGet, uuid.to_text().as_str().as_bytes()),
            PacketType::ResponseChatLog,
        ),
        Request::Delete { uuid } => (
            encode_frame(PacketType::CmdDelete, uuid.to_text().as_str().as_bytes()),
            PacketType::Ack,
        ),
        Request::Update { uuid, content } => {
            let payload = write_object_two(
                "content",
                content.as_str(),
                "uuid",
                uuid.to_text().as_str(),
            );
            (encode_frame(PacketType::CmdUpdate, payload.as_str().as_bytes()), PacketType::Ack)
        },
    }
}

/// The payload of the frame that answers a request, where it is of the kind
/// expected. A frame of another kind, an `Error` frame among them, and the
/// end of the stream are `NetworkError`s.
pub fn expect_reply(frame: Option<Frame>, expected: PacketType) -> (r: Result<Vec<u8>, AppError>)
    ensures
        match frame {
            Some(f) => if f.packet_type == expected {
                r matches Ok(payload) && payload@ == f.payload@
            } else {
                r matches Err(e) && e is NetworkError
            },
            None => r matches Err(e) && e is NetworkError,
        },
{
    match frame {
        Some(f) => {
            if f.packet_type == expected {
                Ok(f.payload)
            } else if f.packet_type == PacketType::Error {
                let text = read_utf8_lossy(f.payload.as_slice());
                Err(AppError::NetworkError(String::from_str("Server error: ").concat(text.as_str())))
            } else {
                Err(
                    AppError::NetworkError(
                        String::from_str("Unexpected response type. Expected ").concat(
                            expected.as_str(),
                        ).concat(", got ").concat(f.packet_type.as_str()),
                    ),
                )
            }
        },
        None => Err(AppError::NetworkError(String::from_str("Server disconnected unexpectedly"))),
    }
}

/// The identifier that the server acknowledged a submitted transcript
/// under; a `ParseError` where the payload is not the text of one.
pub fn read_queued_uuid(payload: &[u8]) -> (r: Result<Uuid, AppError>)
    ensures
        match r {
            Ok(uuid) => valid_utf8(payload@) && uuid_parsed(decode_utf8(payload@)) == Some(
                uuid.value,
            ),
            Err(e) => e is ParseError && (!valid_utf8(payload@) || uuid_parsed(
                decode_utf8(payload@),
            ) is None),
        },
{
    let text = match read_utf8(payload) {
        Ok(text) => text,
        Err(_) => {
            return Err(AppError::ParseError(String::from_str("Server sent invalid UUID")));
        },
    };
    match Uuid::parse_str(text.as_str()) {
        Some(uuid) => Ok(uuid),
        None => Err(AppError::ParseError(String::from_str("Failed to parse UUID from server"))),
    }
}

/// The transcript that the server sent; a `ParseError` where it is not
/// UTF-8.
pub fn read_transcript(payload: &[u8]) -> (r: Result<String, AppError>)
    ensures
        match r {
            Ok(text) => valid_utf8(payload@) && text@ == decode_utf8(payload@),
            Err(e) => e is ParseError && !valid_utf8(payload@),
        },
{
    match read_utf8(payload) {
        Ok(text) => Ok(text),
        Err(_) => Err(AppError::ParseError(String::from_str("Server sent invalid UTF-8"))),
    }
}

/// The key text of a key file: its first line, trimmed.
pub open spec fn key_line(content: Seq<char>) -> Seq<char> {
    trim(lines_of(content)[0])
}

/// Reads the private key out of the content of a key file: the first line,
/// trimmed, must be a private key text. An empty first line, a bad
/// checksum, a wrong version byte and a wrong length are `AuthError`s.
pub fn load_private_key(content: &str) -> (r: Result<KeyPair, AppError>)
    ensures
        match r {
            Ok(pair) => key_line(content@).len() > 0 && decoded_private_key(key_line(content@))
                == Some(pair.signing_key@),
            Err(e) => e is AuthError && (key_line(content@).len() == 0 || decoded_private_key(
                key_line(content@),
            ) is None),
        },
{
    let lines = split_lines(&chars_of(content));
    proof {
        crate::text::lemma_lines_of_shape(content@);
    }
    let line = trimmed(&lines[0]);
    if line.len() == 0 {
        return Err(
            AppError::AuthError(String::from_str("Private key file is empty or contains no key.")),
        );
    }
    KeyPair::from_private_bs58(string_of(&line).as_str())
}

/// The frame that opens the handshake: the user's name under `username`.
pub fn auth_request_frame(username: &str) -> (frame: Vec<u8>)
    ensures
        frame@ == frame_bytes(
            PacketType::CmdAuthRequest,
            encode_utf8(object_one("username"@, username@)),
        ),
{
    let payload = write_object_one("username", username);
    encode_frame(PacketType::CmdAuthRequest, payload.as_str().as_bytes())
}

/// The challenge that a frame carries, if it is a challenge frame: a
/// `CmdAuthChallenge` frame whose JSON payload has a Base58 string under
/// `challenge`.
pub open spec fn challenge_of(frame: Option<Frame>) -> Option<Seq<u8>> {
    match frame {
        Some(f) => if f.packet_type == PacketType::CmdAuthChallenge {
            match json_text_field(f.payload@, "challenge"@) {
                Some(Some(text)) => base58_decoded(text),
                _ => None,
            }
        } else {
            None
        },
        None => None,
    }
}

/// The frame that answers a challenge: the signature of the challenge bytes
/// in Base58 under `signature`.
pub open spec fn response_frame_bytes(secret: Seq<u8>, challenge: Seq<u8>) -> Seq<u8> {
    frame_bytes(
        PacketType::CmdAuthResponse,
        encode_utf8(object_one("signature"@, base58_text(ed25519_signature(secret, challenge)))),
    )
}

/// Answers the server's challenge by signing its raw bytes. The end of the
/// stream and a frame of another kind are `AuthError`s, a payload that is
/// not JSON a `JsonError`, a payload without a challenge a `ParseError`, a
/// challenge that is not Base58 a `Bs58Error`.
pub fn answer_challenge(frame: &Option<Frame>, key: &KeyPair) -> (r: Result<Vec<u8>, AppError>)
    ensures
        match r {
            Ok(bytes) => challenge_of(*frame) matches Some(challenge) && bytes@
                == response_frame_bytes(key.signing_key@, challenge),
            Err(e) => challenge_of(*frame) is None && match *frame {
                Some(f) => if f.packet_type == PacketType::CmdAuthChallenge {
                    match json_text_field(f.payload@, "challenge"@) {
                        None => e is JsonError,
                        Some(None) => e is ParseError,
                        Some(Some(_)) => e is Bs58Error,
                    }
                } else {
                    e is AuthError
                },
                None => e is AuthError,
            },
        },
{
    let f = match frame {
        Some(f) => f,
        None => {
            return Err(
                AppError::AuthError(String::from_str("Server disconnected before challenge")),
            );
        },
    };
    if f.packet_type != PacketType::CmdAuthChallenge {
        return Err(AppError::AuthError(String::from_str("Expected challenge from server")));
    }
    let text = match read_text_field(f.payload.as_slice(), "challenge") {
        Ok(Some(text)) => text,
        Ok(None) => {
            return Err(
                AppError::ParseError(String::from_str("Challenge missing in server response")),
            );
        },
        Err(e) => {
            return Err(e);
        },
    };
    let challenge = match decode_bs58(text.as_str()) {
        Ok(challenge) => challenge,
        Err(e) => {
            return Err(e);
        },
    };
    let signature = key.sign(challenge.as_slice());
    let payload = write_object_one("signature", encode_bs58(signature.as_slice()).as_str());
    Ok(encode_frame(PacketType::CmdAuthResponse, payload.as_str().as_bytes()))
}

/// What the server offers to an authenticated client.
pub struct ServerModels {
    pub models: Vec<String>,
    pub default_model: String,
}

/// Reads the frame that ends the handshake. An `Ack` opens the session; its
/// JSON payload gives the models on offer, none where it holds no such list,
/// and the default model, empty where it holds none. A payload that is not
/// JSON is a `JsonError`; any other frame and the end of the stream are
/// `AuthError`s.
pub fn read_auth_ack(frame: &Option<Frame>) -> (r: Result<ServerModels, AppError>)
    ensures
        match *frame {
            Some(f) => if f.packet_type == PacketType::Ack {
                match (
                    json_list_field(f.payload@, "models"@),
                    json_text_field(f.payload@, "default_model"@),
                ) {
                    (Some(models), Some(default_model)) => r matches Ok(offer) && strings_view(
                        offer.models@,
                    ) == (match models {
                        Some(list) => list,
                        None => Seq::empty(),
                    }) && offer.default_model@ == (match default_model {
                        Some(text) => text,
                        None => Seq::empty(),
                    }),
                    _ => r matches Err(e) && e is JsonError,
                }
            } else {
                r matches Err(e) && e is AuthError
            },
            None => r matches Err(e) && e is AuthError,
        },
{
    let f = match frame {
        Some(f) => f,
        None => {
            return Err(AppError::AuthError(String::from_str("Server disconnected during auth")));
        },
    };
    if f.packet_type != PacketType::Ack {
        let text = read_utf8_lossy(f.payload.as_slice());
        return Err(
            AppError::AuthError(String::from_str("Server rejected auth: ").concat(text.as_str())),
        );
    }
    let models = match read_list_field(f.payload.as_slice(), "models") {
        Ok(Some(models)) => models,
        Ok(None) => {
            let none: Vec<String> = Vec::new();
            assert(strings_view(none@) =~= Seq::empty());
            none
        },
        Err(e) => {
            return Err(e);
        },
    };
    let default_model = match read_text_field(f.payload.as_slice(), "default_model") {
        Ok(Some(text)) => text,
        Ok(None) => String::new(),
        Err(e) => {
            return Err(e);
        },
    };
    Ok(ServerModels { models, default_model })
}

} // verus!
