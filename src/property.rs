//! A purchasable board position: its price, base rent, color group, owner
//! and buildings.

use vstd::prelude::*;

verus! {

/// Most houses a property can carry.
pub const MAX_NUM_HOUSES: i32 = 4;

/// Most hotels a property can carry.
pub const MAX_NUM_HOTELS: i32 = 1;

/// Price of one house.
pub const HOUSE_COST: i32 = 80;

/// Price of one hotel.
pub const HOTEL_COST: i32 = 160;

/// The group a property belongs to; owning a whole group is a monopoly.
#[derive(Debug, Clone, Copy, PartialEq, Eq, Structural)]
pub enum ColorGroup {
    DarkPurple,
    LightBlue,
    LightPurple,
    Orange,
    Red,
    Yellow,
    Green,
    DarkBlue,
    Railroad,
    Utility,
}

/// Number of properties in each group.
pub open spec fn group_size(g: ColorGroup) -> int {
    match g {
        ColorGroup::DarkPurple | ColorGroup::DarkBlue | ColorGroup::Utility => 2,
        ColorGroup::Railroad => 4,
        _ => 3,
    }
}

/// Groups on which houses and hotels can be built.
pub open spec fn is_buildable(g: ColorGroup) -> bool {
    g != ColorGroup::Railroad && g != ColorGroup::Utility
}

/// Why a property could not be bought.
#[derive(Debug, Clone, Copy, PartialEq, Eq, Structural)]
pub enum PropertyError {
    AlreadyOwned,
}

/// A property. The owner is a player's handle (its seat on the board).
#[derive(Debug)]
pub struct Property {
    pub name: String,
    pub purchase_price: i32,
    pub base_rent: i32,
    pub color_group: ColorGroup,
    pub owner: Option<usize>,
    pub is_mortgaged: bool,
    pub num_houses: i32,
    pub num_hotels: i32,
}

impl Property {
    /// An unowned, unimproved property.
    pub fn new(name: String, purchase_price: i32, base_rent: i32, color_group: ColorGroup) -> (p: Self)
        ensures
            p.name == name,
            p.purchase_price == purchase_price,
            p.base_rent == base_rent,
            p.color_group == color_group,
            p.owner is None,
            !p.is_mortgaged,
            p.num_houses == 0,
            p.num_hotels == 0,
    {
        Property {
            name,
            purchase_price,
            base_rent,
            color_group,
            owner: None,
            is_mortgaged: false,
            num_houses: 0,
            num_hotels: 0,
        }
    }

    pub fn get_num_houses(&self) -> (r: i32)
        ensures
            r == self.num_houses,
    {
        self.num_houses
    }

    pub fn get_num_hotels(&self) -> (r: i32)
        ensures
            r == self.num_hotels,
    {
        self.num_hotels
    }

    pub fn has_houses(&self) -> (r: bool)
        ensures
            r == (self.num_houses > 0),
    {
        self.num_houses > 0
    }

    pub fn has_hotel(&self) -> (r: bool)
        ensures
            r == (self.num_hotels > 0),
    {
        self.num_hotels > 0
    }

    pub fn get_name(&self) -> (r: String)
        ensures
            r == self.name,
    {
        self.name.clone()
    }

    pub fn is_mortgaged(&self) -> (r: bool)
        ensures
            r == self.is_mortgaged,
    {
        self.is_mortgaged
    }

    pub fn get_base_rent(&self) -> (r: i32)
        ensures
            r == self.base_rent,
    {
        self.base_rent
    }

    pub fn get_color_group(&self) -> (r: ColorGroup)
        ensures
            r == self.color_group,
    {
        self.color_group
    }

    /// The owner of an owned property.
    pub fn get_owner(&self) -> (r: usize)
        requires
            self.owner is Some,
        ensures
            self.owner == Some(r),
    {
        match self.owner {
            Some(o) => o,
            None => 0,
        }
    }

    pub fn get_purchase_price(&self) -> (r: i32)
        ensures
            r == self.purchase_price,
    {
        self.purchase_price
    }

    pub fn add_house(&mut self)
        requires
            old(self).num_houses < i32::MAX,
        ensures
            *final(self) == (Property { num_houses: (old(self).num_houses + 1) as i32, ..*old(self) }),
    {
        self.num_houses = self.num_houses + 1;
    }

    pub fn remove_house(&mut self)
        requires
            old(self).num_houses > i32::MIN,
        ensures
            *final(self) == (Property { num_houses: (old(self).num_houses - 1) as i32, ..*old(self) }),
    {
        self.num_houses = self.num_houses - 1;
    }

    pub fn add_hotel(&mut self)
        requires
            old(self).num_hotels < i32::MAX,
        ensures
            *final(self) == (Property { num_hotels: (old(self).num_hotels + 1) as i32, ..*old(self) }),
    {
        self.num_hotels = self.num_hotels + 1;
    }

    pub fn remove_hotel(&mut self)
        requires
            old(self).num_hotels > i32::MIN,
        ensures
            *final(self) == (Property { num_hotels: (old(self).num_hotels - 1) as i32, ..*old(self) }),
    {
        self.num_hotels = self.num_hotels - 1;
    }

    pub fn is_owned(&self) -> (r: bool)
        ensures
            r == (self.owner is Some),
    {
        self.owner.is_some()
    }

    pub fn set_owner(&mut self, owner: Option<usize>)
        ensures
            *final(self) == (Property { owner, ..*old(self) }),
    {
        self.owner = owner;
    }

    /// Records `buyer` as the owner, unless the property already has one.
    pub fn purchase(&mut self, buyer: usize) -> (r: Result<(), PropertyError>)
        ensures
            old(self).owner is Some ==> r == Err::<(), PropertyError>(PropertyError::AlreadyOwned)
                && *final(self) == *old(self),
            old(self).owner is None ==> r is Ok && *final(self) == (Property {
                owner: Some(buyer),
                ..*old(self)
            }),
    {
        if self.owner.is_some() {
            Err(PropertyError::AlreadyOwned)
        } else {
            self.owner = Some(buyer);
            Ok(())
        }
    }
}

impl PartialEq for Property {
    fn eq(&self, other: &Property) -> (r: bool) {
        self.name == other.name
    }
}

impl vstd::std_specs::cmp::PartialEqSpecImpl for Property {
    open spec fn obeys_eq_spec() -> bool {
        true
    }

    open spec fn eq_spec(&self, other: &Property) -> bool {
        self.name@ == other.name@
    }
}

} // verus!
