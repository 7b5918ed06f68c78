use catan::ids::{game_id, generate_player_uuid, UuidV1Generator};

#[test]
fn game_id_is_deterministic() {
    let a = game_id("g1");
    let b = game_id("g1");
    assert_eq!(a, b);
    assert_eq!(a.hyphenated(), b.hyphenated());
}

#[test]
fn game_id_known_values() {
    assert_eq!(game_id("g1").hyphenated(), "176b2cc9-7ae5-5443-9d6a-0d2452f8d869");
    assert_eq!(game_id("alpha").hyphenated(), "bd9b6b02-5ab5-5b41-b7be-493f30d30290");
}

#[test]
fn distinct_names_give_distinct_ids() {
    assert_ne!(game_id("g1"), game_id("g2"));
    assert_ne!(game_id("alpha"), game_id("beta"));
    assert_ne!(game_id(""), game_id("a"));
}

#[test]
fn player_uuid_uses_its_own_namespace() {
    let p = generate_player_uuid("bob");
    let hex: String = p.iter().map(|b| format!("{:02x}", b)).collect();
    assert_eq!(hex, "e2cf475af5a05c49989d4bc526e80bec");
    assert_ne!(p, game_id("bob").as_bytes());
}

#[test]
fn trace_ids_carry_the_generator_tag() {
    let generator = UuidV1Generator::new("svc", 7, UuidV1Generator::new_context());
    let t1 = generator.next_trace_id().as_bytes();
    let t2 = generator.next_trace_id().as_bytes();
    assert_eq!(t1[10..16], t2[10..16]);
}

#[test]
fn different_names_give_different_tags() {
    let g1 = UuidV1Generator::new("game-management", 7, UuidV1Generator::new_context());
    let g2 = UuidV1Generator::new("player-management", 7, UuidV1Generator::new_context());
    let t1 = g1.next_trace_id().as_bytes();
    let t2 = g2.next_trace_id().as_bytes();
    assert_ne!(t1[10..16], t2[10..16]);
}

#[test]
fn separated_calls_give_different_trace_ids() {
    let generator = UuidV1Generator::new("svc", 7, UuidV1Generator::new_context());
    let t1 = generator.next_trace_id();
    let start = std::time::Instant::now();
    while start.elapsed() < std::time::Duration::from_millis(5) {}
    let t2 = generator.next_trace_id();
    assert_ne!(t1.as_bytes(), t2.as_bytes());
}

#[test]
fn trace_ids_are_version_one() {
    let generator = UuidV1Generator::new("svc", 7, UuidV1Generator::new_context());
    let t = generator.next_trace_id().as_bytes();
    assert_eq!(t[6] >> 4, 1);
    assert_eq!(t[8] >> 6, 2);
}
