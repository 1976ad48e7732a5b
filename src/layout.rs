//! The fixed board: the kind and coordinates of each of the forty spaces,
//! and the name, price, base rent and group of each of the twenty-eight
//! properties. A property's handle is its rank among the property spaces,
//! in board order.

use vstd::prelude::*;
use crate::property::{ColorGroup, Property};
use crate::space::{SpaceEnum, NUM_SPACES};

verus! {

/// Number of properties on the board.
pub const NUM_PROPERTIES: usize = 28;

/// Kind and display coordinates of each space of the board.
pub open spec fn layout_space(i: int) -> (SpaceEnum, i32, i32) {
    if i == 0 {
        (SpaceEnum::Go, 522, 520)
    } else if i == 1 {
        (SpaceEnum::Prop(0), 472, 520)
    } else if i == 2 {
        (SpaceEnum::CommunityChest, 426, 520)
    } else if i == 3 {
        (SpaceEnum::Prop(1), 376, 520)
    } else if i == 4 {
        (SpaceEnum::IncomeTax, 328, 520)
    } else if i == 5 {
        (SpaceEnum::Prop(2), 280, 520)
    } else if i == 6 {
        (SpaceEnum::Prop(3), 231, 520)
    } else if i == 7 {
        (SpaceEnum::Chance, 183, 520)
    } else if i == 8 {
        (SpaceEnum::Prop(4), 134, 520)
    } else if i == 9 {
        (SpaceEnum::Prop(5), 88, 520)
    } else if i == 10 {
        (SpaceEnum::Jail, 4, 520)
    } else if i == 11 {
        (SpaceEnum::Prop(6), 4, 472)
    } else if i == 12 {
        (SpaceEnum::Prop(7), 4, 424)
    } else if i == 13 {
        (SpaceEnum::Prop(8), 4, 376)
    } else if i == 14 {
        (SpaceEnum::Prop(9), 4, 327)
    } else if i == 15 {
        (SpaceEnum::Prop(10), 4, 280)
    } else if i == 16 {
        (SpaceEnum::Prop(11), 4, 230)
    } else if i == 17 {
        (SpaceEnum::CommunityChest, 4, 182)
    } else if i == 18 {
        (SpaceEnum::Prop(12), 4, 133)
    } else if i == 19 {
        (SpaceEnum::Prop(13), 4, 85)
    } else if i == 20 {
        (SpaceEnum::FreeParking, 4, 4)
    } else if i == 21 {
        (SpaceEnum::Prop(14), 88, 4)
    } else if i == 22 {
        (SpaceEnum::Chance, 135, 4)
    } else if i == 23 {
        (SpaceEnum::Prop(15), 184, 4)
    } else if i == 24 {
        (SpaceEnum::Prop(16), 232, 4)
    } else if i == 25 {
        (SpaceEnum::Prop(17), 280, 4)
    } else if i == 26 {
        (SpaceEnum::Prop(18), 328, 4)
    } else if i == 27 {
        (SpaceEnum::Prop(19), 377, 4)
    } else if i == 28 {
        (SpaceEnum::Prop(20), 425, 4)
    } else if i == 29 {
        (SpaceEnum::Prop(21), 474, 4)
    } else if i == 30 {
        (SpaceEnum::GoToJail, 522, 4)
    } else if i == 31 {
        (SpaceEnum::Prop(22), 522, 85)
    } else if i == 32 {
        (SpaceEnum::Prop(23), 522, 133)
    } else if i == 33 {
        (SpaceEnum::CommunityChest, 522, 181)
    } else if i == 34 {
        (SpaceEnum::Prop(24), 522, 230)
    } else if i == 35 {
        (SpaceEnum::Prop(25), 522, 279)
    } else if i == 36 {
        (SpaceEnum::Chance, 522, 327)
    } else if i == 37 {
        (SpaceEnum::Prop(26), 522, 375)
    } else if i == 38 {
        (SpaceEnum::LuxuryTax, 522, 424)
    } else {
        (SpaceEnum::Prop(27), 522, 472)
    }
}

/// Name, purchase price, base rent and group of each property, by handle.
pub open spec fn layout_property(id: int) -> (Seq<char>, i32, i32, ColorGroup) {
    if id == 0 {
        ("Mediterranean Avenue"@, 60, 2, ColorGroup::DarkPurple)
    } else if id == 1 {
        ("Baltic Avenue"@, 60, 4, ColorGroup::DarkPurple)
    } else if id == 2 {
        ("Reading Railroad"@, 150, 25, ColorGroup::Railroad)
    } else if id == 3 {
        ("Oriental Avenue"@, 100, 6, ColorGroup::LightBlue)
    } else if id == 4 {
        ("Vermont Avenue"@, 100, 6, ColorGroup::LightBlue)
    } else if id == 5 {
        ("Connecticut Avenue"@, 120, 8, ColorGroup::LightBlue)
    } else if id == 6 {
        ("St. Charles Place"@, 140, 10, ColorGroup::LightPurple)
    } else if id == 7 {
        ("Electric Company"@, 150, 8, ColorGroup::Utility)
    } else if id == 8 {
        ("States Avenue"@, 140, 10, ColorGroup::LightPurple)
    } else if id == 9 {
        ("Virginia Avenue"@, 160, 12, ColorGroup::LightPurple)
    } else if id == 10 {
        ("Pennsylvania Railroad"@, 150, 25, ColorGroup::Railroad)
    } else if id == 11 {
        ("St. James Place"@, 180, 14, ColorGroup::Orange)
    } else if id == 12 {
        ("Tennessee Avenue"@, 180, 14, ColorGroup::Orange)
    } else if id == 13 {
        ("New York Avenue"@, 200, 16, ColorGroup::Orange)
    } else if id == 14 {
        ("Kentucky Avenue"@, 220, 18, ColorGroup::Red)
    } else if id == 15 {
        ("Indiana Avenue"@, 220, 18, ColorGroup::Red)
    } else if id == 16 {
        ("Illinois Avenue"@, 240, 20, ColorGroup::Red)
    } else if id == 17 {
        ("B&O Railroad"@, 150, 25, ColorGroup::Railroad)
    } else if id == 18 {
        ("Atlantic Avenue"@, 260, 22, ColorGroup::Yellow)
    } else if id == 19 {
        ("Ventnor Avenue"@, 260, 22, ColorGroup::Yellow)
    } else if id == 20 {
        ("Water Works"@, 150, 8, ColorGroup::Utility)
    } else if id == 21 {
        ("Marvin Gardens"@, 280, 22, ColorGroup::Yellow)
    } else if id == 22 {
        ("Pacific Avenue"@, 300, 26, ColorGroup::Green)
    } else if id == 23 {
        ("North Carolina Avenue"@, 300, 26, ColorGroup::Green)
    } else if id == 24 {
        ("Pennsylvania Avenue"@, 320, 28, ColorGroup::Green)
    } else if id == 25 {
        ("Short Line"@, 150, 25, ColorGroup::Railroad)
    } else if id == 26 {
        ("Park Place"@, 350, 35, ColorGroup::DarkBlue)
    } else {
        ("Boardwalk"@, 400, 50, ColorGroup::DarkBlue)
    }
}

/// Every property space of the layout names a property handle in range.
pub proof fn lemma_layout_handles(i: int)
    requires
        0 <= i < NUM_SPACES,
    ensures
        layout_space(i).0 matches SpaceEnum::Prop(id) ==> id < NUM_PROPERTIES,
{
}

/// The kind and display coordinates of space `i`.
pub fn space_at(i: usize) -> (r: (SpaceEnum, i32, i32))
    requires
        i < NUM_SPACES,
    ensures
        r == layout_space(i as int),
{
    match i {
        0 => (SpaceEnum::Go, 522, 520),
        1 => (SpaceEnum::Prop(0), 472, 520),
        2 => (SpaceEnum::CommunityChest, 426, 520),
        3 => (SpaceEnum::Prop(1), 376, 520),
        4 => (SpaceEnum::IncomeTax, 328, 520),
        5 => (SpaceEnum::Prop(2), 280, 520),
        6 => (SpaceEnum::Prop(3), 231, 520),
        7 => (SpaceEnum::Chance, 183, 520),
        8 => (SpaceEnum::Prop(4), 134, 520),
        9 => (SpaceEnum::Prop(5), 88, 520),
        10 => (SpaceEnum::Jail, 4, 520),
        11 => (SpaceEnum::Prop(6), 4, 472),
        12 => (SpaceEnum::Prop(7), 4, 424),
        13 => (SpaceEnum::Prop(8), 4, 376),
        14 => (SpaceEnum::Prop(9), 4, 327),
        15 => (SpaceEnum::Prop(10), 4, 280),
        16 => (SpaceEnum::Prop(11), 4, 230),
        17 => (SpaceEnum::CommunityChest, 4, 182),
        18 => (SpaceEnum::Prop(12), 4, 133),
        19 => (SpaceEnum::Prop(13), 4, 85),
        20 => (SpaceEnum::FreeParking, 4, 4),
        21 => (SpaceEnum::Prop(14), 88, 4),
        22 => (SpaceEnum::Chance, 135, 4),
        23 => (SpaceEnum::Prop(15), 184, 4),
        24 => (SpaceEnum::Prop(16), 232, 4),
        25 => (SpaceEnum::Prop(17), 280, 4),
        26 => (SpaceEnum::Prop(18), 328, 4),
        27 => (SpaceEnum::Prop(19), 377, 4),
        28 => (SpaceEnum::Prop(20), 425, 4),
        29 => (SpaceEnum::Prop(21), 474, 4),
        30 => (SpaceEnum::GoToJail, 522, 4),
        31 => (SpaceEnum::Prop(22), 522, 85),
        32 => (SpaceEnum::Prop(23), 522, 133),
        33 => (SpaceEnum::CommunityChest, 522, 181),
        34 => (SpaceEnum::Prop(24), 522, 230),
        35 => (SpaceEnum::Prop(25), 522, 279),
        36 => (SpaceEnum::Chance, 522, 327),
        37 => (SpaceEnum::Prop(26), 522, 375),
        38 => (SpaceEnum::LuxuryTax, 522, 424),
        _ => (SpaceEnum::Prop(27), 522, 472),
    }
}

/// The property with handle `id`, unowned and unimproved.
pub fn property_at(id: usize) -> (p: Property)
    requires
        id < NUM_PROPERTIES,
    ensures
        p.name@ == layout_property(id as int).0,
        p.purchase_price == layout_property(id as int).1,
        p.base_rent == layout_property(id as int).2,
        p.color_group == layout_property(id as int).3,
        p.owner is None,
        !p.is_mortgaged,
        p.num_houses == 0,
        p.num_hotels == 0,
{
    match id {
        0 => Property::new("Mediterranean Avenue".to_owned(), 60, 2, ColorGroup::DarkPurple),
        1 => Property::new("Baltic Avenue".to_owned(), 60, 4, ColorGroup::DarkPurple),
        2 => Property::new("Reading Railroad".to_owned(), 150, 25, ColorGroup::Railroad),
        3 => Property::new("Oriental Avenue".to_owned(), 100, 6, ColorGroup::LightBlue),
        4 => Property::new("Vermont Avenue".to_owned(), 100, 6, ColorGroup::LightBlue),
        5 => Property::new("Connecticut Avenue".to_owned(), 120, 8, ColorGroup::LightBlue),
        6 => Property::new("St. Charles Place".to_owned(), 140, 10, ColorGroup::LightPurple),
        7 => Property::new("Electric Company".to_owned(), 150, 8, ColorGroup::Utility),
        8 => Property::new("States Avenue".to_owned(), 140, 10, ColorGroup::LightPurple),
        9 => Property::new("Virginia Avenue".to_owned(), 160, 12, ColorGroup::LightPurple),
        10 => Property::new("Pennsylvania Railroad".to_owned(), 150, 25, ColorGroup::Railroad),
        11 => Property::new("St. James Place".to_owned(), 180, 14, ColorGroup::Orange),
        12 => Property::new("Tennessee Avenue".to_owned(), 180, 14, ColorGroup::Orange),
        13 => Property::new("New York Avenue".to_owned(), 200, 16, ColorGroup::Orange),
        14 => Property::new("Kentucky Avenue".to_owned(), 220, 18, ColorGroup::Red),
        15 => Property::new("Indiana Avenue".to_owned(), 220, 18, ColorGroup::Red),
        16 => Property::new("Illinois Avenue".to_owned(), 240, 20, ColorGroup::Red),
        17 => Property::new("B&O Railroad".to_owned(), 150, 25, ColorGroup::Railroad),
        18 => Property::new("Atlantic Avenue".to_owned(), 260, 22, ColorGroup::Yellow),
        19 => Property::new("Ventnor Avenue".to_owned(), 260, 22, ColorGroup::Yellow),
        20 => Property::new("Water Works".to_owned(), 150, 8, ColorGroup::Utility),
        21 => Property::new("Marvin Gardens".to_owned(), 280, 22, ColorGroup::Yellow),
        22 => Property::new("Pacific Avenue".to_owned(), 300, 26, ColorGroup::Green),
        23 => Property::new("North Carolina Avenue".to_owned(), 300, 26, ColorGroup::Green),
        24 => Property::new("Pennsylvania Avenue".to_owned(), 320, 28, ColorGroup::Green),
        25 => Property::new("Short Line".to_owned(), 150, 25, ColorGroup::Railroad),
        26 => Property::new("Park Place".to_owned(), 350, 35, ColorGroup::DarkBlue),
        _ => Property::new("Boardwalk".to_owned(), 400, 50, ColorGroup::DarkBlue),
    }
}

} // verus!
