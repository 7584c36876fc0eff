use battleship::fleet::{fleet, ShipType, WIN_CONDITION};

#[test]
fn ship_sizes() {
    assert_eq!(ShipType::Destroyer.size(), 2);
    assert_eq!(ShipType::Submarine.size(), 3);
    assert_eq!(ShipType::Cruiser.size(), 3);
    assert_eq!(ShipType::Battleship.size(), 4);
    assert_eq!(ShipType::Carrier.size(), 5);
}

#[test]
fn fleet_is_in_catalog_order() {
    assert_eq!(
        fleet(),
        vec![
            ShipType::Carrier,
            ShipType::Battleship,
            ShipType::Cruiser,
            ShipType::Submarine,
            ShipType::Destroyer,
        ]
    );
}

#[test]
fn fleet_covers_seventeen_cells() {
    let total: usize = fleet().iter().map(|ship| ship.size()).sum();
    assert_eq!(total, 17);
    assert_eq!(total, WIN_CONDITION);
}
