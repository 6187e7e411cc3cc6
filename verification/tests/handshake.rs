use aicli::crypto::encode_bs58;
use aicli::crypto::KeyPair;
use aicli::error::AppError;
use aicli::frame::decode_frame;
use aicli::frame::encode_frame;
use aicli::frame::Frame;
use aicli::handler::auth_ack_frame;
use aicli::handler::auth_step;
use aicli::handler::challenge_frame;
use aicli::handler::error_frame;
use aicli::handler::read_auth_request;
use aicli::handler::read_auth_response;
use aicli::handler::AuthAction;
use aicli::handler::AuthEvent;
use aicli::handler::AuthState;
use aicli::network::answer_challenge;
use aicli::network::auth_request_frame;
use aicli::network::load_private_key;
use aicli::network::read_auth_ack;
use aicli::types::PacketType;

fn frame_of(bytes: &[u8]) -> Frame {
    decode_frame(bytes).unwrap().unwrap().0
}

fn models() -> Vec<String> {
    vec!["deepseek:chat".to_string(), "openai:gpt".to_string()]
}

fn challenge_sent(key_text: String) -> (AuthState, Vec<u8>) {
    let request = frame_of(&auth_request_frame("alice"));
    let (state, action) = auth_step(
        AuthState::AwaitingUsername,
        AuthEvent::Frame(Some(request)),
        &models(),
        "deepseek:chat",
    );
    assert!(matches!(&state, AuthState::AwaitingKey { username } if username == "alice"));
    assert!(matches!(&action, AuthAction::LookUpKey { username } if username == "alice"));
    let (state, action) =
        auth_step(state, AuthEvent::Key(Some(key_text)), &models(), "deepseek:chat");
    match action {
        AuthAction::Send { frame } => (state, frame),
        _ => panic!("expected the challenge to be sent"),
    }
}

#[test]
fn an_honest_client_is_authenticated() {
    let key = KeyPair::new();
    let (state, challenge) = challenge_sent(key.public_key_to_bs58());
    let challenge = frame_of(&challenge);
    assert_eq!(challenge.packet_type, PacketType::CmdAuthChallenge);
    let response = answer_challenge(&Some(challenge), &key).unwrap();
    let (state, action) = auth_step(
        state,
        AuthEvent::Frame(Some(frame_of(&response))),
        &models(),
        "deepseek:chat",
    );
    assert!(matches!(&state, AuthState::Authenticated { username } if username == "alice"));
    let ack = match action {
        AuthAction::Accept { frame } => frame_of(&frame),
        _ => panic!("expected the acknowledgement"),
    };
    assert_eq!(ack.packet_type, PacketType::Ack);
    assert_eq!(
        String::from_utf8(ack.payload.clone()).unwrap(),
        "{\"default_model\":\"deepseek:chat\",\"models\":[\"deepseek:chat\",\"openai:gpt\"]}"
    );
    let offer = read_auth_ack(&Some(ack)).unwrap();
    assert_eq!(offer.models, models());
    assert_eq!(offer.default_model, "deepseek:chat");
}

#[test]
fn a_client_with_another_key_is_rejected() {
    let known = KeyPair::new();
    let intruder = KeyPair::new();
    let (state, challenge) = challenge_sent(known.public_key_to_bs58());
    let response = answer_challenge(&Some(frame_of(&challenge)), &intruder).unwrap();
    let (state, action) =
        auth_step(state, AuthEvent::Frame(Some(frame_of(&response))), &models(), "m");
    assert!(matches!(state, AuthState::Rejected));
    match action {
        AuthAction::Reject { frame, error } => {
            assert!(matches!(error, AppError::AuthError(_)));
            assert_eq!(frame, error_frame(&error));
            assert_eq!(frame_of(&frame).packet_type, PacketType::Error);
        }
        _ => panic!("expected a rejection"),
    }
}

#[test]
fn a_signature_over_an_older_challenge_is_rejected() {
    let key = KeyPair::new();
    let (_, old_challenge) = challenge_sent(key.public_key_to_bs58());
    let replayed = answer_challenge(&Some(frame_of(&old_challenge)), &key).unwrap();
    let (state, _) = challenge_sent(key.public_key_to_bs58());
    let (state, action) =
        auth_step(state, AuthEvent::Frame(Some(frame_of(&replayed))), &models(), "m");
    assert!(matches!(state, AuthState::Rejected));
    assert!(matches!(action, AuthAction::Reject { error: AppError::AuthError(_), .. }));
}

#[test]
fn an_unknown_user_is_rejected() {
    let request = frame_of(&auth_request_frame("nobody"));
    let (state, _) =
        auth_step(AuthState::AwaitingUsername, AuthEvent::Frame(Some(request)), &models(), "m");
    let (state, action) = auth_step(state, AuthEvent::Key(None), &models(), "m");
    assert!(matches!(state, AuthState::Rejected));
    assert!(matches!(action, AuthAction::Reject { error: AppError::AuthError(_), .. }));
}

#[test]
fn a_handshake_that_starts_wrongly_is_rejected() {
    let cases: Vec<Option<Frame>> = vec![
        None,
        Some(frame_of(&encode_frame(PacketType::CmdExec, b"{\"username\":\"a\"}"))),
        Some(frame_of(&encode_frame(PacketType::CmdAuthRequest, b"{\"user\":\"a\"}"))),
        Some(frame_of(&encode_frame(PacketType::CmdAuthRequest, b"{\"username\":7}"))),
    ];
    for frame in cases {
        assert!(matches!(read_auth_request(&frame), Err(AppError::AuthError(_))));
        let (state, action) =
            auth_step(AuthState::AwaitingUsername, AuthEvent::Frame(frame), &models(), "m");
        assert!(matches!(state, AuthState::Rejected));
        assert!(matches!(action, AuthAction::Reject { .. }));
    }
    let not_json = Some(frame_of(&encode_frame(PacketType::CmdAuthRequest, b"username")));
    assert!(matches!(read_auth_request(&not_json), Err(AppError::JsonError(_))));
}

#[test]
fn events_out_of_turn_are_rejected() {
    let (state, action) = auth_step(
        AuthState::AwaitingUsername,
        AuthEvent::Key(Some("key".to_string())),
        &models(),
        "m",
    );
    assert!(matches!(state, AuthState::Rejected));
    assert!(matches!(action, AuthAction::Reject { error: AppError::AuthError(_), .. }));
    let (state, _) = auth_step(
        AuthState::Authenticated { username: "alice".to_string() },
        AuthEvent::Frame(None),
        &models(),
        "m",
    );
    assert!(matches!(state, AuthState::Rejected));
    let (state, _) = auth_step(AuthState::Rejected, AuthEvent::Frame(None), &models(), "m");
    assert!(matches!(state, AuthState::Rejected));
}

#[test]
fn the_response_must_carry_a_base58_signature() {
    let response = |payload: &[u8]| Some(frame_of(&encode_frame(PacketType::CmdAuthResponse, payload)));
    assert_eq!(
        read_auth_response(&response(b"{\"signature\":\"he11owor1d\"}")).unwrap(),
        vec![0x04, 0x30, 0x5e, 0x2b, 0x24, 0x73, 0xf0, 0x58]
    );
    assert!(matches!(read_auth_response(&None), Err(AppError::AuthError(_))));
    assert!(matches!(read_auth_response(&response(b"{}")), Err(AppError::AuthError(_))));
    assert!(matches!(read_auth_response(&response(b"{")), Err(AppError::JsonError(_))));
    assert!(matches!(
        read_auth_response(&response(b"{\"signature\":\"0OIl\"}")),
        Err(AppError::Bs58Error(_))
    ));
    let wrong_type = Some(frame_of(&encode_frame(PacketType::Ack, b"{\"signature\":\"2\"}")));
    assert!(matches!(read_auth_response(&wrong_type), Err(AppError::AuthError(_))));
}

#[test]
fn the_challenge_frame_carries_the_challenge_in_base58() {
    let challenge: Vec<u8> = vec![0x04, 0x30, 0x5e, 0x2b, 0x24, 0x73, 0xf0, 0x58];
    let frame = frame_of(&challenge_frame(&challenge));
    assert_eq!(frame.packet_type, PacketType::CmdAuthChallenge);
    assert_eq!(frame.payload, b"{\"challenge\":\"he11owor1d\"}");
    assert_eq!(encode_bs58(&challenge), "he11owor1d");
}

#[test]
fn the_client_refuses_what_is_no_challenge() {
    let key = KeyPair::new();
    let frame = |t: PacketType, payload: &[u8]| Some(frame_of(&encode_frame(t, payload)));
    assert!(matches!(answer_challenge(&None, &key), Err(AppError::AuthError(_))));
    assert!(matches!(
        answer_challenge(&frame(PacketType::Error, b"no such user"), &key),
        Err(AppError::AuthError(_))
    ));
    assert!(matches!(
        answer_challenge(&frame(PacketType::CmdAuthChallenge, b"{}"), &key),
        Err(AppError::ParseError(_))
    ));
    assert!(matches!(
        answer_challenge(&frame(PacketType::CmdAuthChallenge, b"oops"), &key),
        Err(AppError::JsonError(_))
    ));
    assert!(matches!(
        answer_challenge(&frame(PacketType::CmdAuthChallenge, b"{\"challenge\":\"0\"}"), &key),
        Err(AppError::Bs58Error(_))
    ));
}

#[test]
fn the_acknowledgement_may_lack_models() {
    let ack = Some(frame_of(&auth_ack_frame(&vec![], "")));
    let offer = read_auth_ack(&ack).unwrap();
    assert!(offer.models.is_empty());
    assert_eq!(offer.default_model, "");
    let bare = Some(frame_of(&encode_frame(PacketType::Ack, b"{}")));
    let offer = read_auth_ack(&bare).unwrap();
    assert!(offer.models.is_empty());
    assert_eq!(offer.default_model, "");
    let not_json = Some(frame_of(&encode_frame(PacketType::Ack, b"")));
    assert!(matches!(read_auth_ack(&not_json), Err(AppError::JsonError(_))));
    let refused = Some(frame_of(&encode_frame(PacketType::Error, b"denied")));
    assert!(matches!(read_auth_ack(&refused), Err(AppError::AuthError(_))));
    assert!(matches!(read_auth_ack(&None), Err(AppError::AuthError(_))));
}

#[test]
fn the_private_key_is_the_first_line_of_its_file() {
    let key = KeyPair::new();
    let content = format!("  {}  \nsecond line\n", key.private_key_to_bs58());
    assert_eq!(load_private_key(&content).unwrap().signing_key, key.signing_key);
    assert!(matches!(load_private_key(""), Err(AppError::AuthError(_))));
    assert!(matches!(load_private_key("   \nkey"), Err(AppError::AuthError(_))));
    assert!(matches!(
        load_private_key(&key.public_key_to_bs58()),
        Err(AppError::AuthError(_))
    ));
}

#[test]
fn the_auth_request_names_the_user() {
    let frame = frame_of(&auth_request_frame("al\"ice"));
    assert_eq!(frame.packet_type, PacketType::CmdAuthRequest);
    assert_eq!(frame.payload, b"{\"username\":\"al\\\"ice\"}");
    assert_eq!(read_auth_request(&Some(frame)).unwrap(), "al\"ice");
}
