use catan::game::ResourceCollection;
use catan::game::ResourceType;

#[test]
fn test_creation() {
    let resource_collection = ResourceCollection::new(3, 2, 1, 0, 4);

    assert_eq!(resource_collection.ore, 3);
    assert_eq!(resource_collection.brick, 2);
    assert_eq!(resource_collection.grain, 1);
    assert_eq!(resource_collection.wool, 0);
    assert_eq!(resource_collection.lumber, 4);
}

#[test]
fn test_satisfies() {
    let collection_a = ResourceCollection::new(3, 2, 1, 0, 4);
    let does_satisfy = ResourceCollection::new(3, 1, 0, 0, 2);
    let does_not_satisfy = ResourceCollection::new(2, 2, 2, 2, 2);

    assert!(collection_a.satisfies(&does_satisfy));
    assert!(!collection_a.satisfies(&does_not_satisfy));
}

#[test]
fn test_equality() {
    let equal_a = ResourceCollection::new(1, 2, 1, 1, 1);
    let equal_b = ResourceCollection::new(1, 2, 1, 1, 1);
    let not_equal = ResourceCollection::new(1, 1, 1, 2, 1);

    assert!(equal_a == equal_b);
    assert!(equal_a != not_equal);
    assert!(equal_b != not_equal);
}

#[test]
fn test_comparison() {
    let lower_collection = ResourceCollection::new(0, 1, 2, 3, 4);
    let middle_collection = ResourceCollection::new(1, 2, 3, 4, 5);
    let upper_collection = ResourceCollection::new(2, 3, 4, 5, 6);

    let lower_middle_collection = ResourceCollection::new(0, 1, 2, 4, 5);
    let middle_upper_collection = ResourceCollection::new(1, 2, 3, 5, 6);

    assert!(lower_collection < middle_collection);
    assert!(middle_collection < upper_collection);
    assert!(lower_collection < middle_collection);

    assert!(!(lower_collection < lower_middle_collection));
    assert!(!(lower_collection > lower_middle_collection));
    assert!(!(lower_collection == lower_middle_collection));

    assert!(!(lower_middle_collection < middle_collection));
    assert!(!(lower_middle_collection > middle_collection));
    assert!(!(lower_middle_collection == middle_collection));

    assert!(!(middle_collection < middle_upper_collection));
    assert!(!(middle_collection > middle_upper_collection));
    assert!(!(middle_collection == middle_upper_collection));

    assert!(!(middle_upper_collection < upper_collection));
    assert!(!(middle_upper_collection > upper_collection));
    assert!(!(middle_upper_collection == upper_collection));
}

#[test]
fn test_addition() {
    let collection_a = ResourceCollection::new(0, 0, 1, 1, 1);
    let collection_b = ResourceCollection::new(2, 1, 0, 1, 2);
    let result = ResourceCollection::new(2, 1, 1, 2, 3);

    assert_eq!(collection_a + collection_b, result);
}

#[test]
fn test_subtraction() {
    let collection_a = ResourceCollection::new(2, 1, 1, 2, 3);
    let collection_b = ResourceCollection::new(2, 1, 0, 1, 2);
    let result = ResourceCollection::new(0, 0, 1, 1, 1);

    assert_eq!(collection_a - collection_b, result);
}

#[test]
fn test_indexing() {
    let collection = ResourceCollection::new(2, 3, 5, 7, 9);

    assert_eq!(collection.amount(ResourceType::Ore), 2);
    assert_eq!(collection.amount(ResourceType::Brick), 3);
    assert_eq!(collection.amount(ResourceType::Grain), 5);
    assert_eq!(collection.amount(ResourceType::Wool), 7);
    assert_eq!(collection.amount(ResourceType::Lumber), 9);
}

#[test]
fn test_mutable_indexing() {
    let mut collection = ResourceCollection::new(2, 3, 5, 7, 9);

    assert_eq!(collection.amount(ResourceType::Ore), 2);
    assert_eq!(collection.amount(ResourceType::Brick), 3);
    assert_eq!(collection.amount(ResourceType::Grain), 5);
    assert_eq!(collection.amount(ResourceType::Wool), 7);
    assert_eq!(collection.amount(ResourceType::Lumber), 9);

    collection.set_amount(ResourceType::Grain, collection.amount(ResourceType::Grain) - 2);
    collection.set_amount(ResourceType::Ore, collection.amount(ResourceType::Ore) + 3);
    collection.set_amount(ResourceType::Lumber, collection.amount(ResourceType::Lumber) / 3);
    collection.set_amount(ResourceType::Wool, collection.amount(ResourceType::Wool) % 3);
    collection.set_amount(ResourceType::Brick, 0);

    assert_eq!(collection.amount(ResourceType::Ore), 5);
    assert_eq!(collection.amount(ResourceType::Brick), 0);
    assert_eq!(collection.amount(ResourceType::Grain), 3);
    assert_eq!(collection.amount(ResourceType::Wool), 1);
    assert_eq!(collection.amount(ResourceType::Lumber), 3);
}
