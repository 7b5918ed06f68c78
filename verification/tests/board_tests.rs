use catan::board::{
    Board, BuildingTileContainer, HarborType, InternalCoord, InternalTileType, ResourceTileType,
    RollToken,
};
use catan::common::GameResource;
use catan::game::{Dice, ResourceType};

#[test]
fn coordinates_sum_to_zero_and_measure_distance() {
    let origin = InternalCoord::new(0, 0, 0);
    let near = InternalCoord::new(1, -1, 0);
    let far = InternalCoord::new(2, -1, -1);
    assert!(origin.adjacent(&near));
    assert!(!origin.adjacent(&far));
    assert!(!origin.adjacent(&origin));
}

#[test]
fn neighbors_are_adjacent() {
    let c = InternalCoord::new(1, 1, -2);
    let neighbors = c.neighbors();
    assert_eq!(neighbors.len(), 6);
    for n in &neighbors {
        assert!(c.adjacent(n));
        assert_eq!(n.x + n.y + n.z, 0);
    }
    let diagonals = c.diagonal_neighbors();
    assert_eq!(diagonals.len(), 6);
    for d in &diagonals {
        assert!(!c.adjacent(d));
    }
}

#[test]
fn roll_tokens_round_trip_their_values() {
    for v in 2..13u32 {
        assert_eq!(RollToken::new(v).value(), v);
    }
    assert!(RollToken::Six.high_prob());
    assert!(RollToken::Eight.high_prob());
    assert!(!RollToken::Two.high_prob());
    assert!(!RollToken::Seven.high_prob());
}

#[test]
fn landscapes_name_their_resources() {
    assert_eq!(ResourceTileType::Mountains.into_resource_type(), Some(ResourceType::Ore));
    assert_eq!(ResourceTileType::Hills.resource(), Some(ResourceType::Brick));
    assert_eq!(ResourceTileType::Pasture.resource(), Some(ResourceType::Wool));
    assert_eq!(ResourceTileType::Fields.resource(), Some(ResourceType::Grain));
    assert_eq!(ResourceTileType::Forest.resource(), Some(ResourceType::Lumber));
    assert_eq!(ResourceTileType::Desert.resource(), None);
    assert_eq!(HarborType::All.into_resource_type(), None);
    assert_eq!(HarborType::Ore.into_resource_type(), Some(ResourceType::Ore));
}

#[test]
fn balanced_board_lays_the_fixed_tiles() {
    let board = Board::balanced_start();
    let center = InternalCoord::new(0, 0, 0);
    let (tile, token) = board.get_location(center);
    assert_eq!(tile, InternalTileType::ResourceTile(ResourceTileType::Desert));
    assert_eq!(token, None);

    let first_ring = InternalCoord::new(2, -1, -1);
    let (tile, token) = board.get_location(first_ring);
    assert_eq!(tile, InternalTileType::ResourceTile(ResourceTileType::Mountains));
    assert_eq!(token, Some(RollToken::Twelve));

    let last = InternalCoord::new(2, -4, 2);
    let (tile, token) = board.get_location(last);
    assert_eq!(tile, InternalTileType::ResourceTile(ResourceTileType::Mountains));
    assert_eq!(token, Some(RollToken::Eight));

    // a neighbor of the center holds an inland building tile
    let corner = InternalCoord::new(1, -1, 0);
    let (tile, token) = board.get_location(corner);
    assert_eq!(
        tile,
        InternalTileType::BuildingTile(
            BuildingTileContainer { building: None, harbor_type: None }
        )
    );
    assert_eq!(token, None);

    // a coastal building position carries its harbor
    let coastal = InternalCoord::new(5, -3, -2);
    let (tile, _) = board.get_location(coastal);
    assert_eq!(
        tile,
        InternalTileType::BuildingTile(
            BuildingTileContainer { building: None, harbor_type: Some(HarborType::All) }
        )
    );
}

#[test]
fn random_board_covers_the_standard_positions() {
    let board = Board::random_start();
    let locations = catan::board::standard_tile_locations();
    let mut deserts = 0;
    for loc in &locations {
        let (tile, token) = board.get_location(*loc);
        match tile {
            InternalTileType::ResourceTile(t) => {
                if t == ResourceTileType::Desert {
                    deserts += 1;
                    assert_eq!(token, None);
                } else {
                    assert!(token.is_some());
                }
            },
            InternalTileType::BuildingTile(_) => panic!("standard position without resource"),
        }
    }
    assert_eq!(deserts, 1);
}

#[test]
fn full_collections_hold_the_shipped_counts() {
    let tiles = ResourceTileType::full_shuffled_collection();
    assert_eq!(tiles.len(), 19);
    assert_eq!(tiles.iter().filter(|t| **t == ResourceTileType::Desert).count(), 1);
    assert_eq!(tiles.iter().filter(|t| **t == ResourceTileType::Forest).count(), 4);
    let tokens = RollToken::full_shuffled_collection();
    assert_eq!(tokens.len(), 18);
    assert_eq!(tokens.iter().filter(|t| **t == RollToken::Seven).count(), 0);
    assert_eq!(tokens.iter().filter(|t| **t == RollToken::Six).count(), 2);
}

#[test]
fn dice_roll_in_range() {
    let mut dice = Dice::new();
    for _ in 0..100 {
        let r = dice.roll();
        assert!((1..=6).contains(&r));
    }
}
