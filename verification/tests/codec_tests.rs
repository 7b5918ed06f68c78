use catan::codec::{
    decode_request, encode_request, CleanupGame, EndGame, GameManagementRequest, RegisterNewGame,
    StartGame, RequestType,
};
use catan::errors::DecodeError;

fn register_request(name: &str, num_players: u32, turn_timeout_ms: u64) -> GameManagementRequest {
    GameManagementRequest {
        game_name: String::from(name),
        request_type: Some(
            RequestType::RegisterNewGame(RegisterNewGame { num_players, turn_timeout_ms }),
        ),
    }
}

#[test]
fn encode_register_wire_bytes() {
    let req = register_request("g1", 4, 30000);
    let bytes = encode_request(&req);
    assert_eq!(bytes, vec![10, 2, 103, 49, 18, 6, 8, 4, 16, 176, 234, 1]);
}

#[test]
fn decode_register_wire_bytes() {
    let bytes: Vec<u8> = vec![10, 2, 103, 49, 18, 6, 8, 4, 16, 176, 234, 1];
    let req = decode_request(&bytes).unwrap();
    assert_eq!(req.game_name, "g1");
    match req.request_type {
        Some(RequestType::RegisterNewGame(o)) => {
            assert_eq!(o.num_players, 4);
            assert_eq!(o.turn_timeout_ms, 30000);
        },
        _ => panic!("expected a registration command"),
    }
}

#[test]
fn round_trip_every_command() {
    let mut requests: Vec<GameManagementRequest> = Vec::new();
    requests.push(register_request("alpha", 3, 120000));
    requests.push(register_request("", 0, 0));
    requests.push(GameManagementRequest {
        game_name: String::from("beta"),
        request_type: Some(RequestType::StartGame(StartGame {})),
    });
    requests.push(GameManagementRequest {
        game_name: String::from("gamma"),
        request_type: Some(RequestType::EndGame(EndGame {})),
    });
    requests.push(GameManagementRequest {
        game_name: String::from("delta"),
        request_type: Some(RequestType::CleanupGame(CleanupGame {})),
    });
    requests.push(GameManagementRequest {
        game_name: String::from("unicode-\u{00e9}\u{6f22}"),
        request_type: Some(RequestType::StartGame(StartGame {})),
    });
    requests.push(GameManagementRequest { game_name: String::from("n"), request_type: None });
    for req in requests {
        let bytes = encode_request(&req);
        let back = decode_request(&bytes).unwrap();
        assert_eq!(back, req);
    }
}

#[test]
fn decode_empty_payload_is_default_envelope() {
    let bytes: Vec<u8> = Vec::new();
    let req = decode_request(&bytes).unwrap();
    assert_eq!(req.game_name, "");
    assert!(req.request_type.is_none());
}

#[test]
fn decode_skips_unknown_fields() {
    // field 9 (varint) and field 8 (length-delimited) are unknown and skipped
    let bytes: Vec<u8> = vec![72, 7, 66, 1, 99, 10, 1, 120, 26, 0];
    let req = decode_request(&bytes).unwrap();
    assert_eq!(req.game_name, "x");
    assert_eq!(req.request_type, Some(RequestType::StartGame(StartGame {})));
}

#[test]
fn decode_truncated_payload_fails() {
    // the name field announces two bytes but only one follows
    let bytes: Vec<u8> = vec![10, 2, 103];
    assert_eq!(decode_request(&bytes), Err(DecodeError::Truncated));
}

#[test]
fn decode_overlong_varint_fails() {
    let bytes: Vec<u8> = vec![128, 128, 128, 128, 128, 128, 128, 128, 128, 128, 1];
    assert_eq!(decode_request(&bytes), Err(DecodeError::InvalidVarint));
}

#[test]
fn decode_zero_field_number_fails() {
    let bytes: Vec<u8> = vec![0, 1];
    assert_eq!(decode_request(&bytes), Err(DecodeError::InvalidTag));
}

#[test]
fn decode_invalid_utf8_name_fails() {
    let bytes: Vec<u8> = vec![10, 1, 255];
    assert_eq!(decode_request(&bytes), Err(DecodeError::InvalidUtf8));
}

#[test]
fn later_name_field_wins() {
    let bytes: Vec<u8> = vec![10, 1, 97, 10, 1, 98];
    let req = decode_request(&bytes).unwrap();
    assert_eq!(req.game_name, "b");
}
