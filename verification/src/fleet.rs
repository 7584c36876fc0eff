//! The fleet catalog: the kinds of ship and their lengths.

use vstd::prelude::*;

verus! {

/// Number of cells a side must lose before it is defeated: the sum of the
/// lengths of all ships of the fleet.
pub const WIN_CONDITION: usize = 17;

/// A kind of ship. Each kind has a fixed length and occurs once in the fleet.
#[derive(Copy, Clone, PartialEq, Eq, Structural, Debug)]
pub enum ShipType {
    Destroyer,
    Submarine,
    Cruiser,
    Battleship,
    Carrier,
}

impl ShipType {
    /// The number of cells that a ship of this kind covers.
    pub open spec fn spec_size(self) -> nat {
        match self {
            ShipType::Destroyer => 2,
            ShipType::Submarine => 3,
            ShipType::Cruiser => 3,
            ShipType::Battleship => 4,
            ShipType::Carrier => 5,
        }
    }

    /// The number of cells that a ship of this kind covers.
    pub fn size(&self) -> (n: usize)
        ensures
            n == self.spec_size(),
            2 <= n <= 5,
    {
        match self {
            ShipType::Destroyer => 2,
            ShipType::Submarine => 3,
            ShipType::Cruiser => 3,
            ShipType::Battleship => 4,
            ShipType::Carrier => 5,
        }
    }
}

/// The fleet in catalog order. Both sides place exactly these ships; the order
/// is the one in which the opponent places them and in which the human's
/// ships are first listed.
pub open spec fn fleet_spec() -> Seq<ShipType> {
    seq![
        ShipType::Carrier,
        ShipType::Battleship,
        ShipType::Cruiser,
        ShipType::Submarine,
        ShipType::Destroyer,
    ]
}

/// The sum of the lengths of the ships in `ships`.
pub open spec fn total_length(ships: Seq<ShipType>) -> nat
    decreases ships.len(),
{
    if ships.len() == 0 {
        0
    } else {
        total_length(ships.drop_last()) + ships.last().spec_size()
    }
}

/// The fleet in catalog order.
pub fn fleet() -> (ships: Vec<ShipType>)
    ensures
        ships@ == fleet_spec(),
{
    let mut ships: Vec<ShipType> = Vec::new();
    ships.push(ShipType::Carrier);
    ships.push(ShipType::Battleship);
    ships.push(ShipType::Cruiser);
    ships.push(ShipType::Submarine);
    ships.push(ShipType::Destroyer);
    assert(ships@ =~= fleet_spec());
    ships
}

/// Appending a ship adds its length to the total.
pub proof fn lemma_total_length_push(ships: Seq<ShipType>, ship: ShipType)
    ensures
        total_length(ships.push(ship)) == total_length(ships) + ship.spec_size(),
{
    assert(ships.push(ship).drop_last() =~= ships);
}

/// Taking one ship out of a list lowers the total by that ship's length.
pub proof fn lemma_total_length_remove(ships: Seq<ShipType>, i: int)
    requires
        0 <= i < ships.len(),
    ensures
        total_length(ships.remove(i)) + ships[i].spec_size() == total_length(ships),
    decreases ships.len(),
{
    if i == ships.len() - 1 {
        assert(ships.remove(i) =~= ships.drop_last());
    } else {
        lemma_total_length_remove(ships.drop_last(), i);
        assert(ships.remove(i).drop_last() =~= ships.drop_last().remove(i));
        assert(ships.remove(i).last() == ships.last());
    }
}

/// The ships of the fleet cover seventeen cells in all.
pub proof fn lemma_fleet_total_length()
    ensures
        total_length(fleet_spec()) == WIN_CONDITION,
{
    let empty: Seq<ShipType> = Seq::empty();
    let s1 = empty.push(ShipType::Carrier);
    let s2 = s1.push(ShipType::Battleship);
    let s3 = s2.push(ShipType::Cruiser);
    let s4 = s3.push(ShipType::Submarine);
    let s5 = s4.push(ShipType::Destroyer);
    lemma_total_length_push(empty, ShipType::Carrier);
    lemma_total_length_push(s1, ShipType::Battleship);
    lemma_total_length_push(s2, ShipType::Cruiser);
    lemma_total_length_push(s3, ShipType::Submarine);
    lemma_total_length_push(s4, ShipType::Destroyer);
    assert(s5 =~= fleet_spec());
}

} // verus!
