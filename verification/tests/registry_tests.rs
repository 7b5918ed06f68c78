use catan::codec::{
    encode_request, GameManagementRequest, RegisterNewGame, RequestType, StartGame,
};
use catan::dispatch::{
    dispatch, load_scripts, process_all, process_message, GameManagementService,
};
use catan::errors::ServerError;
use catan::ids::{game_id, UuidV1Generator};
use catan::naming::{collection_key, service_key, temporary_resource_key};
use catan::registry::{register_new_game, ALL_GAMES_SET, GAME_INITIAL_STATE_SET, GAME_NAME_INDEX_KEY};
use catan::store::Store;

fn register_payload(name: &str, num_players: u32, turn_timeout_ms: u64) -> Vec<u8> {
    encode_request(
        &GameManagementRequest {
            game_name: String::from(name),
            request_type: Some(
                RequestType::RegisterNewGame(RegisterNewGame { num_players, turn_timeout_ms }),
            ),
        },
    )
}

#[test]
fn register_writes_all_four_structures() {
    let mut store = Store::new();
    let outcome = register_new_game(
        &mut store,
        "g1",
        RegisterNewGame { num_players: 4, turn_timeout_ms: 30000 },
    );
    assert!(outcome.initializing_added);
    assert!(outcome.all_games_added);
    assert!(outcome.name_index_added);

    let id = game_id("g1").hyphenated();
    let record_key = format!("game:{}", id);
    assert_eq!(
        store.hash_field(&record_key, &String::from("id")),
        Some(&game_id("g1").as_bytes().to_vec())
    );
    assert_eq!(
        store.hash_field(&record_key, &String::from("game_name")),
        Some(&b"g1".to_vec())
    );
    assert_eq!(
        store.hash_field(&record_key, &String::from("num_players")),
        Some(&b"4".to_vec())
    );
    assert_eq!(
        store.hash_field(&record_key, &String::from("turn_timeout_ms")),
        Some(&b"30000".to_vec())
    );
    assert!(store.set_contains(&String::from(GAME_INITIAL_STATE_SET), &id));
    assert!(store.set_contains(&String::from(ALL_GAMES_SET), &id));
    assert!(store.ranked_contains(
        &String::from(GAME_NAME_INDEX_KEY),
        &format!("g1:{}", id)
    ));
}

#[test]
fn second_registration_reports_already_present() {
    let mut store = Store::new();
    let first = register_new_game(
        &mut store,
        "g1",
        RegisterNewGame { num_players: 4, turn_timeout_ms: 30000 },
    );
    assert!(first.initializing_added && first.all_games_added && first.name_index_added);
    let second = register_new_game(
        &mut store,
        "g1",
        RegisterNewGame { num_players: 4, turn_timeout_ms: 30000 },
    );
    assert!(!second.initializing_added);
    assert!(!second.all_games_added);
    assert!(!second.name_index_added);
}

#[test]
fn dispatch_without_command_is_missing_command_type() {
    let mut store = Store::new();
    let envelope = GameManagementRequest {
        game_name: String::from("g1"),
        request_type: None,
    };
    assert_eq!(dispatch(&mut store, envelope), Err(ServerError::MissingCommandType));
}

#[test]
fn dispatch_routes_every_command() {
    let mut store = Store::new();
    let register = GameManagementRequest {
        game_name: String::from("g1"),
        request_type: Some(
            RequestType::RegisterNewGame(RegisterNewGame { num_players: 2, turn_timeout_ms: 5 }),
        ),
    };
    assert_eq!(dispatch(&mut store, register), Ok(()));
    let start = GameManagementRequest {
        game_name: String::from("g1"),
        request_type: Some(RequestType::StartGame(StartGame {})),
    };
    assert_eq!(dispatch(&mut store, start), Ok(()));
    assert!(store.set_contains(
        &String::from(ALL_GAMES_SET),
        &game_id("g1").hyphenated()
    ));
}

#[test]
fn bad_message_never_stops_the_loop() {
    let mut store = Store::new();
    let mut payloads: Vec<Vec<u8>> = Vec::new();
    payloads.push(vec![10, 2, 103]);  // truncated
    payloads.push(register_payload("g1", 4, 30000));
    payloads.push(Vec::new());  // decodes, but carries no command
    let count = process_all(&mut store, &payloads);
    assert_eq!(count, 3);
    assert!(store.set_contains(
        &String::from(ALL_GAMES_SET),
        &game_id("g1").hyphenated()
    ));
}

#[test]
fn end_to_end_register_twice_changes_nothing_but_the_count() {
    let mut store = Store::new();
    let payload = register_payload("g1", 4, 30000);
    assert_eq!(process_message(&mut store, &payload), Ok(()));
    let id = game_id("g1").hyphenated();
    let record_key = format!("game:{}", id);
    assert!(store.hash_field(&record_key, &String::from("id")).is_some());
    assert!(store.set_contains(&String::from(GAME_INITIAL_STATE_SET), &id));
    assert!(store.set_contains(&String::from(ALL_GAMES_SET), &id));
    assert!(store.ranked_contains(
        &String::from(GAME_NAME_INDEX_KEY),
        &format!("g1:{}", id)
    ));

    let mut payloads: Vec<Vec<u8>> = Vec::new();
    payloads.push(payload.clone());
    payloads.push(payload.clone());
    let mut twice = Store::new();
    let count = process_all(&mut twice, &payloads);
    assert_eq!(count, 2);
    assert!(twice.set_contains(&String::from(ALL_GAMES_SET), &id));
    assert_eq!(
        twice.hash_field(&record_key, &String::from("num_players")),
        store.hash_field(&record_key, &String::from("num_players"))
    );
}

#[test]
fn load_scripts_refuses_a_non_directory() {
    let mut store = Store::new();
    let scripts = vec![(String::from("claim"), String::from("return 1"))];
    let r = load_scripts(&mut store, false, &scripts);
    assert_eq!(r, Err(ServerError::NotADirectory));
    // nothing was written: the first registration still gets handle zero
    let handle = store.register_script(String::from("return 1"));
    assert_eq!(handle, "0");
}

#[test]
fn load_scripts_maps_names_to_handles() {
    let mut store = Store::new();
    let scripts = vec![
        (String::from("claim"), String::from("return 1")),
        (String::from("release"), String::from("return 2")),
    ];
    let loaded = load_scripts(&mut store, true, &scripts).unwrap();
    assert_eq!(loaded.len(), 2);
    assert_eq!(loaded[0], (String::from("claim"), String::from("0")));
    assert_eq!(loaded[1], (String::from("release"), String::from("1")));
}

#[test]
fn service_assembles_and_serves() {
    let mut store = Store::new();
    let scripts = vec![(String::from("claim"), String::from("return 1"))];
    let generator = UuidV1Generator::new("game-management", 3, UuidV1Generator::new_context());
    let service = GameManagementService::new(&mut store, true, &scripts, generator).unwrap();
    assert_eq!(service.service_topic, "service:game-management");
    assert_eq!(GameManagementService::service_topic(), "service:game-management");
    assert_eq!(service.redis_scripts.len(), 1);
    let envelope = GameManagementRequest {
        game_name: String::from("g1"),
        request_type: None,
    };
    assert_eq!(
        service.call(&mut store, envelope),
        Err(ServerError::MissingCommandType)
    );
}

#[test]
fn resource_keys_are_prefixed() {
    assert_eq!(service_key("game-management"), "service:game-management");
    assert_eq!(temporary_resource_key("lock"), "temp:lock");
    assert_eq!(collection_key("games:all"), "collection:games:all");
}

#[test]
fn errors_describe_themselves() {
    assert_eq!(
        ServerError::MissingCommandType.describe(),
        "missing message request_type"
    );
    assert_eq!(
        ServerError::NotADirectory.describe(),
        "script folder path was not a directory"
    );
}
