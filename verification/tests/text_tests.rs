use catan::network::GameStatus;
use catan::text::u64_to_dec;

#[test]
fn decimal_rendering_is_exact() {
    assert_eq!(u64_to_dec(0), "0");
    assert_eq!(u64_to_dec(7), "7");
    assert_eq!(u64_to_dec(30000), "30000");
    assert_eq!(u64_to_dec(18446744073709551615), "18446744073709551615");
}

#[test]
fn game_status_variants_are_distinct() {
    assert_ne!(GameStatus::Open, GameStatus::Running);
    assert_ne!(GameStatus::Running, GameStatus::Complete);
    assert_eq!(GameStatus::Open, GameStatus::Open);
}
