//! A participant: cash, position, owned properties (as handles into the
//! board's property table), jail and turn status, and the creditor it last
//! owed.

use vstd::prelude::*;
use crate::property::{ColorGroup, Property, group_size};
use crate::space::{Space, SpaceEnum};

verus! {

/// Cash each player starts with.
pub const STARTING_CASH: i32 = 1500;

/// Width of a token on screen.
pub const PLAYER_WIDTH: i32 = 10;

/// The six token colors; each player has a different one.
#[derive(Debug, Clone, Copy, PartialEq, Eq, Structural)]
pub enum TokenColor {
    Red,
    Orange,
    Yellow,
    Green,
    Blue,
    Purple,
}

/// What landing on a space asks of the game. Property variants carry the
/// property's handle, `Space` the index of a space that is not a property.
#[derive(Debug, Clone, Copy, PartialEq, Eq, Structural)]
pub enum LandAction {
    Rent(usize),
    Own(usize),
    InsFunds(usize),
    MightPurchase(usize),
    Space(usize),
}

/// A player. `space` is the index of the space it stands on; `properties`
/// and `creditor` are handles.
#[derive(Debug)]
pub struct Player {
    pub name: String,
    pub cash: i32,
    pub in_jail: bool,
    pub has_turn: bool,
    pub space: usize,
    pub properties: Vec<usize>,
    pub token_color: TokenColor,
    pub creditor: Option<usize>,
}

/// How many of the handles in `ids` name a property of group `g`.
pub open spec fn count_in_group(ids: Seq<usize>, props: Seq<Property>, g: ColorGroup) -> nat
    decreases ids.len(),
{
    if ids.len() == 0 {
        0
    } else {
        count_in_group(ids.drop_last(), props, g) + if props[ids.last() as int].color_group == g {
            1nat
        } else {
            0nat
        }
    }
}

/// Every handle in `ids` names an entry of a table of `n` properties.
pub open spec fn handles_below(ids: Seq<usize>, n: int) -> bool {
    forall|i: int| 0 <= i < ids.len() ==> (#[trigger] ids[i]) < n
}

/// The buildable groups, in the order in which monopolies are listed.
pub open spec fn buildable_groups() -> Seq<ColorGroup> {
    seq![
        ColorGroup::DarkPurple,
        ColorGroup::LightBlue,
        ColorGroup::LightPurple,
        ColorGroup::Orange,
        ColorGroup::Red,
        ColorGroup::Yellow,
        ColorGroup::Green,
        ColorGroup::DarkBlue,
    ]
}

/// The handles of a buildable group's properties, in the group's canonical
/// order.
pub open spec fn group_members(g: ColorGroup) -> Seq<usize> {
    match g {
        ColorGroup::DarkPurple => seq![0usize, 1],
        ColorGroup::LightBlue => seq![3usize, 4, 5],
        ColorGroup::LightPurple => seq![6usize, 8, 9],
        ColorGroup::Orange => seq![11usize, 12, 13],
        ColorGroup::Red => seq![14usize, 15, 16],
        ColorGroup::Yellow => seq![18usize, 19, 21],
        ColorGroup::Green => seq![24usize, 23, 22],
        ColorGroup::DarkBlue => seq![26usize, 27],
        ColorGroup::Railroad => seq![2usize, 10, 17, 25],
        ColorGroup::Utility => seq![7usize, 20],
    }
}

impl Player {
    /// Number of this player's properties in group `g`.
    pub open spec fn num_in_group(&self, props: Seq<Property>, g: ColorGroup) -> nat {
        count_in_group(self.properties@, props, g)
    }

    /// The player owns every property of group `g`.
    pub open spec fn spec_has_monopoly(&self, props: Seq<Property>, g: ColorGroup) -> bool {
        self.num_in_group(props, g) == group_size(g)
    }

    /// The members of `g` when the player has a monopoly on it, else nothing.
    pub open spec fn monopoly_part(&self, props: Seq<Property>, g: ColorGroup) -> Seq<usize> {
        if self.spec_has_monopoly(props, g) {
            group_members(g)
        } else {
            Seq::empty()
        }
    }

    /// The properties of every buildable group the player has a monopoly
    /// on, by group and then in each group's canonical order.
    pub open spec fn monopoly_list(&self, props: Seq<Property>) -> Seq<usize> {
        self.monopoly_part(props, ColorGroup::DarkPurple)
            + self.monopoly_part(props, ColorGroup::LightBlue)
            + self.monopoly_part(props, ColorGroup::LightPurple)
            + self.monopoly_part(props, ColorGroup::Orange)
            + self.monopoly_part(props, ColorGroup::Red)
            + self.monopoly_part(props, ColorGroup::Yellow)
            + self.monopoly_part(props, ColorGroup::Green)
            + self.monopoly_part(props, ColorGroup::DarkBlue)
    }

    /// What landing on `space` asks for, seen from this player.
    pub open spec fn land_outcome(&self, space: Space, props: Seq<Property>) -> LandAction {
        match space.s_type {
            SpaceEnum::Prop(id) => if props[id as int].owner is Some {
                if self.properties@.contains(id) {
                    LandAction::Own(id)
                } else {
                    LandAction::Rent(id)
                }
            } else if self.cash < props[id as int].purchase_price {
                LandAction::InsFunds(id)
            } else {
                LandAction::MightPurchase(id)
            },
            _ => LandAction::Space(space.index),
        }
    }

    /// A player with the starting cash, standing on `start_space`.
    pub fn new(name: String, start_space: usize, token_color: TokenColor) -> (p: Player)
        ensures
            p.name == name,
            p.cash == STARTING_CASH,
            !p.in_jail,
            !p.has_turn,
            p.space == start_space,
            p.properties@ == Seq::<usize>::empty(),
            p.token_color == token_color,
            p.creditor is None,
    {
        Player {
            name,
            cash: STARTING_CASH,
            in_jail: false,
            has_turn: false,
            space: start_space,
            properties: Vec::new(),
            token_color,
            creditor: None,
        }
    }

    pub fn get_token_color(&self) -> (r: TokenColor)
        ensures
            r == self.token_color,
    {
        self.token_color
    }

    pub fn set_creditor(&mut self, creditor: Option<usize>)
        ensures
            *final(self) == (Player { creditor, ..*old(self) }),
    {
        self.creditor = creditor;
    }

    pub fn get_creditor(&self) -> (r: Option<usize>)
        ensures
            r == self.creditor,
    {
        self.creditor
    }

    /// The first of this player's properties whose name is `name`.
    pub fn get_property(&self, props: &Vec<Property>, name: &String) -> (r: Option<usize>)
        requires
            handles_below(self.properties@, props.len() as int),
        ensures
            r is None <==> forall|i: int| 0 <= i < self.properties.len()
                ==> props@[#[trigger] self.properties@[i] as int].name@ != name@,
            r matches Some(id) ==> exists|i: int| 0 <= i < self.properties.len()
                && self.properties@[i] == id
                && props@[id as int].name@ == name@
                && forall|j: int| 0 <= j < i ==> props@[#[trigger] self.properties@[j] as int].name@ != name@,
    {
        let n = self.properties.len();
        let mut i: usize = 0;
        while i < n
            invariant
                n == self.properties.len(),
                i <= n,
                handles_below(self.properties@, props.len() as int),
                forall|j: int| 0 <= j < i ==> props@[#[trigger] self.properties@[j] as int].name@ != name@,
            decreases n - i,
        {
            let id = self.properties[i];
            if props[id].name == *name {
                return Some(id);
            }
            i = i + 1;
        }
        None
    }

    /// The player owns a property named `name`.
    pub fn has_property(&self, props: &Vec<Property>, name: String) -> (r: bool)
        requires
            handles_below(self.properties@, props.len() as int),
        ensures
            r == exists|i: int| 0 <= i < self.properties.len()
                && props@[#[trigger] self.properties@[i] as int].name@ == name@,
    {
        self.get_property(props, &name).is_some()
    }

    /// Number of this player's properties in group `color_group`.
    pub fn get_num_props(&self, props: &Vec<Property>, color_group: &ColorGroup) -> (r: i32)
        requires
            handles_below(self.properties@, props.len() as int),
            self.properties.len() <= i32::MAX,
        ensures
            r == self.num_in_group(props@, *color_group),
    {
        let mut cnt: i32 = 0;
        let n = self.properties.len();
        let mut i: usize = 0;
        while i < n
            invariant
                n == self.properties.len(),
                n <= i32::MAX,
                i <= n,
                handles_below(self.properties@, props.len() as int),
                cnt == count_in_group(self.properties@.take(i as int), props@, *color_group),
                cnt <= i,
            decreases n - i,
        {
            assert(self.properties@.take(i + 1).drop_last() == self.properties@.take(i as int));
            if props[self.properties[i]].color_group == *color_group {
                cnt = cnt + 1;
            }
            i = i + 1;
        }
        assert(self.properties@.take(n as int) == self.properties@);
        cnt
    }

    /// The player owns every property of `group`.
    pub fn has_monopoly(&self, props: &Vec<Property>, group: ColorGroup) -> (r: bool)
        requires
            handles_below(self.properties@, props.len() as int),
            self.properties.len() <= i32::MAX,
        ensures
            r == self.spec_has_monopoly(props@, group),
    {
        let num_in_group = self.get_num_props(props, &group);
        match group {
            ColorGroup::DarkPurple | ColorGroup::DarkBlue | ColorGroup::Utility => num_in_group == 2,
            ColorGroup::Railroad => num_in_group == 4,
            _ => num_in_group == 3,
        }
    }

    /// Same as `has_monopoly`, with the group passed by reference.
    pub fn has_monopoly_cg(&self, props: &Vec<Property>, color_group: &ColorGroup) -> (r: bool)
        requires
            handles_below(self.properties@, props.len() as int),
            self.properties.len() <= i32::MAX,
        ensures
            r == self.spec_has_monopoly(props@, *color_group),
    {
        self.has_monopoly(props, *color_group)
    }

    /// The properties of every buildable group this player has a monopoly
    /// on, by group and then in the group's canonical order.
    pub fn get_monopolies(&self, props: &Vec<Property>) -> (r: Vec<usize>)
        requires
            handles_below(self.properties@, props.len() as int),
            self.properties.len() <= i32::MAX,
        ensures
            r@ == self.monopoly_list(props@),
    {
        let mut out: Vec<usize> = Vec::new();
        if self.has_monopoly(props, ColorGroup::DarkPurple) {
            push_members(&mut out, ColorGroup::DarkPurple);
        }
        assert(out@ == self.monopoly_part(props@, ColorGroup::DarkPurple));
        if self.has_monopoly(props, ColorGroup::LightBlue) {
            push_members(&mut out, ColorGroup::LightBlue);
        }
        assert(out@ == self.monopoly_part(props@, ColorGroup::DarkPurple)
            + self.monopoly_part(props@, ColorGroup::LightBlue));
        if self.has_monopoly(props, ColorGroup::LightPurple) {
            push_members(&mut out, ColorGroup::LightPurple);
        }
        if self.has_monopoly(props, ColorGroup::Orange) {
            push_members(&mut out, ColorGroup::Orange);
        }
        if self.has_monopoly(props, ColorGroup::Red) {
            push_members(&mut out, ColorGroup::Red);
        }
        if self.has_monopoly(props, ColorGroup::Yellow) {
            push_members(&mut out, ColorGroup::Yellow);
        }
        if self.has_monopoly(props, ColorGroup::Green) {
            push_members(&mut out, ColorGroup::Green);
        }
        if self.has_monopoly(props, ColorGroup::DarkBlue) {
            push_members(&mut out, ColorGroup::DarkBlue);
        }
        out
    }

    /// Moves the player onto `space` and tells what landing there asks for.
    pub fn land(&mut self, space: &Space, props: &Vec<Property>) -> (r: LandAction)
        requires
            space.s_type matches SpaceEnum::Prop(id) ==> id < props.len(),
        ensures
            r == old(self).land_outcome(*space, props@),
            *final(self) == (Player { space: space.index, ..*old(self) }),
    {
        self.space = space.index;
        match space.s_type {
            SpaceEnum::Prop(id) => {
                if props[id].owner.is_some() {
                    if contains_handle(&self.properties, id) {
                        LandAction::Own(id)
                    } else {
                        LandAction::Rent(id)
                    }
                } else if self.cash < props[id].purchase_price {
                    LandAction::InsFunds(id)
                } else {
                    LandAction::MightPurchase(id)
                }
            },
            _ => LandAction::Space(space.index),
        }
    }

    pub fn get_properties(&self) -> (r: &Vec<usize>)
        ensures
            r@ == self.properties@,
    {
        &self.properties
    }

    /// Records `property` among the player's holdings, once.
    pub fn add_property(&mut self, property: usize)
        ensures
            old(self).properties@.contains(property) ==> *final(self) == *old(self),
            !old(self).properties@.contains(property) ==> final(self).properties@
                == old(self).properties@.push(property),
            final(self).name == old(self).name,
            final(self).cash == old(self).cash,
            final(self).in_jail == old(self).in_jail,
            final(self).has_turn == old(self).has_turn,
            final(self).space == old(self).space,
            final(self).token_color == old(self).token_color,
            final(self).creditor == old(self).creditor,
    {
        if !contains_handle(&self.properties, property) {
            self.properties.push(property);
        }
    }

    /// Pays the purchase price of `prop` and records it, under handle `id`,
    /// among the player's holdings. The caller has checked the funds.
    pub fn purchase(&mut self, id: usize, prop: &Property)
        requires
            old(self).cash - prop.purchase_price >= i32::MIN,
            old(self).cash - prop.purchase_price <= i32::MAX,
        ensures
            final(self).cash == old(self).cash - prop.purchase_price,
            old(self).properties@.contains(id) ==> final(self).properties@ == old(self).properties@,
            !old(self).properties@.contains(id) ==> final(self).properties@
                == old(self).properties@.push(id),
            final(self).name == old(self).name,
            final(self).in_jail == old(self).in_jail,
            final(self).has_turn == old(self).has_turn,
            final(self).space == old(self).space,
            final(self).token_color == old(self).token_color,
            final(self).creditor == old(self).creditor,
    {
        self.cash = self.cash - prop.purchase_price;
        self.add_property(id);
    }

    /// Adds `salary` to the player's cash.
    pub fn salary(&mut self, salary: i32)
        requires
            i32::MIN <= old(self).cash + salary <= i32::MAX,
        ensures
            *final(self) == (Player { cash: (old(self).cash + salary) as i32, ..*old(self) }),
    {
        self.cash = self.cash + salary;
    }

    /// Takes `tax` from the player's cash, past zero if need be.
    pub fn tax(&mut self, tax: i32)
        requires
            i32::MIN <= old(self).cash - tax <= i32::MAX,
        ensures
            *final(self) == (Player { cash: (old(self).cash - tax) as i32, ..*old(self) }),
    {
        self.cash = self.cash - tax;
    }

    pub fn get_space(&self) -> (r: usize)
        ensures
            r == self.space,
    {
        self.space
    }

    pub fn get_name(&self) -> (r: String)
        ensures
            r == self.name,
    {
        self.name.clone()
    }

    pub fn get_cash(&self) -> (r: i32)
        ensures
            r == self.cash,
    {
        self.cash
    }

    /// A player with no cash left is bankrupt.
    pub fn is_bankrupt(&self) -> (r: bool)
        ensures
            r == (self.cash <= 0),
    {
        self.cash <= 0
    }

    /// Puts the player in jail, standing on `space`.
    pub fn jail(&mut self, space: usize)
        ensures
            *final(self) == (Player { space, in_jail: true, ..*old(self) }),
    {
        self.space = space;
        self.in_jail = true;
    }

    pub fn unjail(&mut self)
        ensures
            *final(self) == (Player { in_jail: false, ..*old(self) }),
    {
        self.in_jail = false;
    }

    pub fn is_in_jail(&self) -> (r: bool)
        ensures
            r == self.in_jail,
    {
        self.in_jail
    }

    pub fn set_turn(&mut self, turn: bool)
        ensures
            *final(self) == (Player { has_turn: turn, ..*old(self) }),
    {
        self.has_turn = turn;
    }

    /// Collects `rent` from `other`.
    pub fn collect_rent(&mut self, other: &mut Player, rent: i32)
        requires
            i32::MIN <= old(self).cash + rent <= i32::MAX,
            i32::MIN <= old(other).cash - rent <= i32::MAX,
        ensures
            *final(self) == (Player { cash: (old(self).cash + rent) as i32, ..*old(self) }),
            *final(other) == (Player { cash: (old(other).cash - rent) as i32, ..*old(other) }),
    {
        self.cash = self.cash + rent;
        other.cash = other.cash - rent;
    }
}

impl PartialEq for Player {
    fn eq(&self, other: &Player) -> (r: bool) {
        self.name == other.name
    }
}

impl vstd::std_specs::cmp::PartialEqSpecImpl for Player {
    open spec fn obeys_eq_spec() -> bool {
        true
    }

    open spec fn eq_spec(&self, other: &Player) -> bool {
        self.name@ == other.name@
    }
}

/// `ids` holds `id`.
pub fn contains_handle(ids: &Vec<usize>, id: usize) -> (r: bool)
    ensures
        r == ids@.contains(id),
{
    let n = ids.len();
    let mut i: usize = 0;
    while i < n
        invariant
            n == ids.len(),
            i <= n,
            forall|j: int| 0 <= j < i ==> ids@[j] != id,
        decreases n - i,
    {
        if ids[i] == id {
            return true;
        }
        i = i + 1;
    }
    false
}

/// Appends the members of `g`, in canonical order, to `out`.
fn push_members(out: &mut Vec<usize>, g: ColorGroup)
    ensures
        final(out)@ == old(out)@ + group_members(g),
{
    let ghost start = out@;
    match g {
        ColorGroup::DarkPurple => {
            out.push(0);
            out.push(1);
        },
        ColorGroup::LightBlue => {
            out.push(3);
            out.push(4);
            out.push(5);
        },
        ColorGroup::LightPurple => {
            out.push(6);
            out.push(8);
            out.push(9);
        },
        ColorGroup::Orange => {
            out.push(11);
            out.push(12);
            out.push(13);
        },
        ColorGroup::Red => {
            out.push(14);
            out.push(15);
            out.push(16);
        },
        ColorGroup::Yellow => {
            out.push(18);
            out.push(19);
            out.push(21);
        },
        ColorGroup::Green => {
            out.push(24);
            out.push(23);
            out.push(22);
        },
        ColorGroup::DarkBlue => {
            out.push(26);
            out.push(27);
        },
        ColorGroup::Railroad => {
            out.push(2);
            out.push(10);
            out.push(17);
            out.push(25);
        },
        ColorGroup::Utility => {
            out.push(7);
            out.push(20);
        },
    }
    assert(out@ =~= start + group_members(g));
}

} // verus!
