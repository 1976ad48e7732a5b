//! The board: spaces, properties, players, the two card decks and whose
//! turn it is. It resolves where a move lands, computes rent, moves money
//! and property, and settles bankruptcy.

use vstd::prelude::*;
use crate::cards::{
    Chance, CommunityChest, NUM_CHANCE, NUM_COMM_CHEST, chance_deck, comm_chest_deck,
    is_chance_deck, is_comm_chest_deck, lemma_distinct_below_len,
};
use crate::dice::{MAX_SHUFFLE_KEY, get_dice_roll_12, shuffle_keys};
use crate::layout::{
    NUM_PROPERTIES, layout_property, layout_space, lemma_layout_handles, property_at, space_at,
};
use crate::player::{LandAction, Player, buildable_groups, count_in_group, group_members, handles_below};
use crate::property::{
    ColorGroup, HOTEL_COST, HOUSE_COST, MAX_NUM_HOTELS, MAX_NUM_HOUSES, Property, group_size, is_buildable,
};
use crate::space::{remove_first, 
    BDWK, BO_RR, ELEC_UTIL, GO, JAIL, NUM_SPACES, PA_RR, READING_RR, SL_RR, Space, SpaceEnum,
    WATER_UTIL,
};

verus! {

/// Most players a game can seat.
pub const MAX_NUM_PLAYERS: usize = 6;

/// Paid to a player whose move reaches or passes Go.
pub const GO_SALARY: i32 = 200;

/// Charged on the Income Tax space.
pub const INCOME_TAX_AMT: i32 = 200;

/// Charged on the Luxury Tax space.
pub const LUXURY_TAX_AMT: i32 = 75;

/// Paid by the "bank error in your favor" card.
pub const BANK_ERROR_AMT: i32 = 200;

/// Charged by the "pay school fees" card.
pub const SCHOOL_FEES_AMT: i32 = 50;

/// Largest cash magnitude a board operation accepts; far beyond what any
/// game reaches, it leaves room for a turn's payments within `i32`.
pub const BOARD_CASH_LIMIT: i32 = 2000000000;

/// Rent on a property of group `g` with base rent `base`, when its owner
/// holds `n` properties of the group (`monopoly` when that is all of them)
/// and it carries `houses` houses and `hotels` hotels.
pub open spec fn rent_formula(g: ColorGroup, base: int, n: int, monopoly: bool, houses: int, hotels: int) -> int {
    match g {
        ColorGroup::Railroad => if n <= 1 {
            base
        } else if n == 2 {
            base * 2
        } else if n == 3 {
            base * 4
        } else {
            base * 8
        },
        ColorGroup::Utility => if n <= 1 {
            base * 4
        } else {
            base * 10
        },
        _ => if !monopoly {
            base
        } else if hotels >= 1 {
            base * hotels * 40
        } else if houses >= 1 {
            base * houses * 5
        } else {
            base * 3
        },
    }
}

/// The first railroad strictly after space `i`, wrapping to the first one.
pub open spec fn spec_next_railroad(i: int) -> int {
    if i < READING_RR {
        READING_RR as int
    } else if i < PA_RR {
        PA_RR as int
    } else if i < BO_RR {
        BO_RR as int
    } else if i < SL_RR {
        SL_RR as int
    } else {
        READING_RR as int
    }
}

/// The first utility strictly after space `i`, wrapping to the first one.
pub open spec fn spec_next_utility(i: int) -> int {
    if i < ELEC_UTIL {
        ELEC_UTIL as int
    } else if i < WATER_UTIL {
        WATER_UTIL as int
    } else {
        ELEC_UTIL as int
    }
}

/// The tokens of space `i` after the token of `p` moved from space `from`
/// to space `to`.
pub open spec fn tokens_after_move(tokens: Seq<usize>, i: int, p: usize, from: int, to: int) -> Seq<usize> {
    let t = if i == from {
        remove_first(tokens, p)
    } else {
        tokens
    };
    if i == to {
        t.push(p)
    } else {
        t
    }
}

/// Largest rent the board can ask.
pub const MAX_RENT: i32 = 2000;

/// Where a Chance card sends a player standing on space `pos`.
pub open spec fn chance_target(c: Chance, pos: int) -> int {
    match c {
        Chance::AdvanceToGo => GO as int,
        Chance::AdvanceToNearestUtility => spec_next_utility(pos),
        Chance::AdvanceToNearestRailroad => spec_next_railroad(pos),
        Chance::GoBack3Spaces => (pos + NUM_SPACES - 3) % (NUM_SPACES as int),
        Chance::AdvanceToBoardwalk => BDWK as int,
    }
}

/// The move a Chance card makes from space `pos` passes or lands on Go;
/// only forward moves do.
pub open spec fn chance_passes_go(c: Chance, pos: int) -> bool {
    match c {
        Chance::GoBack3Spaces => false,
        _ => forward_passes_go(pos, chance_target(c, pos)),
    }
}

/// `deck` is a full Chance deck freshly shuffled with some draw of keys.
pub open spec fn fresh_chance_deck(deck: Seq<Chance>) -> bool {
    exists|keys: Seq<i32>|
        keys.len() == NUM_CHANCE && (forall|i: int| 0 <= i < keys.len() ==> 1 <= #[trigger] keys[i] < MAX_SHUFFLE_KEY)
            && is_chance_deck(keys, deck)
}

/// `deck` is a full Community Chest deck freshly shuffled with some draw
/// of keys.
pub open spec fn fresh_comm_chest_deck(deck: Seq<CommunityChest>) -> bool {
    exists|keys: Seq<i32>|
        keys.len() == NUM_COMM_CHEST && (forall|i: int| 0 <= i < keys.len() ==> 1 <= #[trigger] keys[i] < MAX_SHUFFLE_KEY)
            && is_comm_chest_deck(keys, deck)
}

/// Drawing `c` took the Chance deck from `before` to `after`: the front
/// card of a non-empty deck, or the front card of a fresh shuffle.
pub open spec fn chance_drawn(before: Seq<Chance>, after: Seq<Chance>, c: Chance) -> bool {
    if before.len() > 0 {
        c == before[0] && after == before.drop_first()
    } else {
        fresh_chance_deck(seq![c] + after)
    }
}

/// Drawing `c` took the Community Chest deck from `before` to `after`.
pub open spec fn comm_chest_drawn(before: Seq<CommunityChest>, after: Seq<CommunityChest>, c: CommunityChest) -> bool {
    if before.len() > 0 {
        c == before[0] && after == before.drop_first()
    } else {
        fresh_comm_chest_deck(seq![c] + after)
    }
}

/// Number of players in `ps` that are not bankrupt.
pub open spec fn count_solvent(ps: Seq<Player>) -> nat
    decreases ps.len(),
{
    if ps.len() == 0 {
        0
    } else {
        count_solvent(ps.drop_last()) + if ps.last().cash > 0 {
            1nat
        } else {
            0nat
        }
    }
}

/// Seat `start + j`, counted round the table of `n` seats.
pub open spec fn seat_after(start: int, j: int, n: int) -> int {
    if start + j < n {
        start + j
    } else {
        start + j - n
    }
}

/// How many seats after `start`, round the table of `n` seats, seat `q` is.
pub open spec fn seats_from(start: int, q: int, n: int) -> int {
    if q >= start {
        q - start
    } else {
        q + n - start
    }
}

/// What an attempt to buy or sell a building came to.
#[derive(Debug, Clone, Copy, PartialEq, Eq, Structural)]
pub enum BuildOutcome {
    BoughtHouse,
    BoughtHotel,
    FullyImproved,
    CannotAfford,
    SoldHouse,
    SoldHotel,
    NothingToSell,
}

/// Buying on `p` for a player holding `cash`: a hotel replaces four houses,
/// and a property with a hotel takes nothing more.
pub open spec fn buy_outcome(p: Property, cash: int) -> BuildOutcome {
    if p.num_hotels >= MAX_NUM_HOTELS {
        BuildOutcome::FullyImproved
    } else if p.num_houses >= MAX_NUM_HOUSES {
        if cash < HOTEL_COST {
            BuildOutcome::CannotAfford
        } else {
            BuildOutcome::BoughtHotel
        }
    } else if cash < HOUSE_COST {
        BuildOutcome::CannotAfford
    } else {
        BuildOutcome::BoughtHouse
    }
}

/// Selling on `p`: the hotel first (four houses come back), else a house.
pub open spec fn sell_outcome(p: Property) -> BuildOutcome {
    if p.num_hotels >= 1 {
        BuildOutcome::SoldHotel
    } else if p.num_houses >= 1 {
        BuildOutcome::SoldHouse
    } else {
        BuildOutcome::NothingToSell
    }
}

/// Houses and hotels on a property after `o`.
pub open spec fn buildings_after(p: Property, o: BuildOutcome) -> (int, int) {
    match o {
        BuildOutcome::BoughtHouse => (p.num_houses + 1, p.num_hotels as int),
        BuildOutcome::BoughtHotel => (p.num_houses - 4, p.num_hotels + 1),
        BuildOutcome::SoldHouse => (p.num_houses - 1, p.num_hotels as int),
        BuildOutcome::SoldHotel => (p.num_houses + if p.num_hotels - 1 == 0 { 4int } else { 0 }, p.num_hotels - 1),
        _ => (p.num_houses as int, p.num_hotels as int),
    }
}

/// Cash a player gains by `o` (negative when it pays).
pub open spec fn cash_change(o: BuildOutcome) -> int {
    match o {
        BuildOutcome::BoughtHouse => -HOUSE_COST,
        BuildOutcome::BoughtHotel => -HOTEL_COST,
        BuildOutcome::SoldHouse => HOUSE_COST / 2,
        BuildOutcome::SoldHotel => HOTEL_COST / 2,
        _ => 0,
    }
}

/// Space `to` as a forward move from `from` reaches it passes or lands on Go.
pub open spec fn forward_passes_go(from: int, to: int) -> bool {
    to <= from
}

/// The board.
pub struct Board {
    pub spaces: Vec<Space>,
    pub players: Vec<Player>,
    pub properties: Vec<Property>,
    pub player_turn: usize,
    pub chance_cards: Vec<Chance>,
    pub comm_chest_cards: Vec<CommunityChest>,
    pub passed_go: bool,
}

impl Board {
    /// The spaces and properties are those of the fixed layout; buildings
    /// stay within their caps.
    pub open spec fn layout_ok(&self) -> bool {
        &&& self.spaces.len() == NUM_SPACES
        &&& forall|i: int| 0 <= i < NUM_SPACES ==> {
            let s = #[trigger] self.spaces@[i];
            &&& s.index == i
            &&& s.s_type == layout_space(i).0
            &&& s.x == layout_space(i).1
            &&& s.y == layout_space(i).2
        }
        &&& self.properties.len() == NUM_PROPERTIES
        &&& forall|id: int| 0 <= id < NUM_PROPERTIES ==> {
            let p = #[trigger] self.properties@[id];
            &&& p.name@ == layout_property(id).0
            &&& p.purchase_price == layout_property(id).1
            &&& p.base_rent == layout_property(id).2
            &&& p.color_group == layout_property(id).3
            &&& 0 <= p.num_houses <= 4
            &&& 0 <= p.num_hotels <= 1
            &&& (p.num_hotels == 1 ==> p.num_houses == 0)
            &&& (!is_buildable(p.color_group) ==> p.num_houses == 0 && p.num_hotels == 0)
        }
    }

    /// Every handle is in range, each player's holdings are distinct, and
    /// a property's owner holds it exactly when the property names it.
    pub open spec fn players_ok(&self) -> bool {
        &&& self.players.len() <= MAX_NUM_PLAYERS
        &&& self.player_turn < self.players.len() || (self.players.len() == 0 && self.player_turn == 0)
        &&& forall|p: int| 0 <= p < self.players.len() ==> {
            let pl = #[trigger] self.players@[p];
            &&& pl.space < NUM_SPACES
            &&& handles_below(pl.properties@, NUM_PROPERTIES as int)
            &&& pl.properties@.no_duplicates()
            &&& (pl.creditor matches Some(c) ==> c < self.players.len() && c != p)
        }
        &&& self.tokens_ok()
        &&& forall|id: int| 0 <= id < self.properties.len() ==> ((#[trigger] self.properties@[id]).owner matches Some(o)
            ==> o < self.players.len() && self.players@[o as int].properties@.contains(id as usize))
        &&& forall|p: int, k: int| 0 <= p < self.players.len() && 0 <= k < self.players@[p].properties.len()
            ==> self.properties@[#[trigger] self.players@[p].properties@[k] as int].owner == Some(p as usize)
    }

    /// The board is well formed.
    pub open spec fn wf(&self) -> bool {
        self.layout_ok() && self.players_ok()
    }

    /// The board is well formed and seats at least one player.
    pub open spec fn ready(&self) -> bool {
        self.wf() && self.players.len() >= 1
    }

    /// Every player's cash lies within `[-limit, limit]`.
    pub open spec fn cash_within(&self, limit: int) -> bool {
        forall|p: int| 0 <= p < self.players.len() ==> -limit <= #[trigger] self.players@[p].cash <= limit
    }

    /// The player whose turn it is.
    pub open spec fn current(&self) -> Player {
        self.players@[self.player_turn as int]
    }

    /// An empty board: no spaces, no players, empty decks.
    pub fn new() -> (b: Board)
        ensures
            b.spaces@ == Seq::<Space>::empty(),
            b.players@ == Seq::<Player>::empty(),
            b.properties@ == Seq::<Property>::empty(),
            b.player_turn == 0,
            b.chance_cards@ == Seq::<Chance>::empty(),
            b.comm_chest_cards@ == Seq::<CommunityChest>::empty(),
            !b.passed_go,
    {
        Board {
            spaces: Vec::new(),
            players: Vec::new(),
            properties: Vec::new(),
            player_turn: 0,
            chance_cards: Vec::new(),
            comm_chest_cards: Vec::new(),
            passed_go: false,
        }
    }

    /// The spaces of `post` are those of `self` with the token of `p` moved
    /// from space `from` to space `to`.
    pub open spec fn tokens_moved(&self, post: Board, p: usize, from: int, to: int) -> bool {
        &&& post.spaces.len() == self.spaces.len()
        &&& forall|i: int| 0 <= i < self.spaces.len() ==> {
            let a = #[trigger] self.spaces@[i];
            let b = post.spaces@[i];
            &&& b.players@ == tokens_after_move(a.players@, i, p, from, to)
            &&& b.s_type == a.s_type
            &&& b.x == a.x
            &&& b.y == a.y
            &&& b.index == a.index
        }
    }

    /// Rent owed on property `id` to its owner.
    pub open spec fn spec_rent(&self, id: int) -> int {
        let p = self.properties@[id];
        let owner = self.players@[p.owner->0 as int];
        rent_formula(
            p.color_group,
            p.base_rent as int,
            owner.num_in_group(self.properties@, p.color_group) as int,
            owner.spec_has_monopoly(self.properties@, p.color_group),
            p.num_houses as int,
            p.num_hotels as int,
        )
    }

    /// `post` is `self` after the current player moved to space `dest`,
    /// collected the Go salary if `passed_go` was set, and looked at what
    /// the space asks for (`r`). The decks are not described.
    pub open spec fn advanced_to(&self, post: Board, dest: int, r: LandAction) -> bool {
        let t = self.player_turn;
        let pl = self.current();
        let moved = Player {
            space: dest as usize,
            cash: (pl.cash + if self.passed_go { GO_SALARY as int } else { 0 }) as i32,
            ..pl
        };
        &&& self.tokens_moved(post, t, pl.space as int, dest)
        &&& post.players@ == self.players@.update(t as int, moved)
        &&& post.properties == self.properties
        &&& post.player_turn == t
        &&& !post.passed_go
        &&& r == moved.land_outcome(self.spaces@[dest], self.properties@)
    }

    /// `post` is `self` after the current player was sent to jail.
    pub open spec fn jailed(&self, post: Board) -> bool {
        let t = self.player_turn;
        let pl = self.current();
        &&& self.tokens_moved(post, t, pl.space as int, JAIL as int)
        &&& post.players@ == self.players@.update(t as int, Player { space: JAIL, in_jail: true, ..pl })
        &&& post.properties == self.properties
        &&& post.player_turn == t
        &&& post.passed_go == self.passed_go
    }

    /// `post` is `self` with `amount` added to the current player's cash; the
/// properties are not described.
    pub open spec fn paid(&self, post: Board, amount: int) -> bool {
        let t = self.player_turn;
        &&& post.players@ == self.players@.update(t as int, Player { cash: (self.current().cash + amount) as i32, ..self.current() })
        &&& post.spaces == self.spaces
        &&& post.player_turn == t
    }

    /// Every token on the board is the handle of a seated player.
    pub open spec fn tokens_ok(&self) -> bool {
        forall|i: int, k: int| 0 <= i < self.spaces.len() && 0 <= k < self.spaces@[i].players.len()
            ==> #[trigger] self.spaces@[i].players@[k] < self.players.len()
    }

    /// Every player's cash lies within `[-limit, limit]`.
    pub fn cash_within_limit(&self, limit: i32) -> (r: bool)
        requires
            limit >= 0,
        ensures
            r == self.cash_within(limit as int),
    {
        let n = self.players.len();
        let mut i: usize = 0;
        while i < n
            invariant
                n == self.players.len(),
                i <= n,
                limit >= 0,
                forall|p: int| 0 <= p < i ==> -limit <= #[trigger] self.players@[p].cash <= limit,
            decreases n - i,
        {
            let c = self.players[i].cash;
            if c < -limit || c > limit {
                return false;
            }
            i = i + 1;
        }
        true
    }

    /// The player whose turn it is, by handle.
    pub fn get_current_player(&self) -> (r: &Player)
        requires
            self.player_turn < self.players.len(),
        ensures
            *r == self.current(),
    {
        &self.players[self.player_turn]
    }

    /// The space at `index`, taken modulo the board size.
    pub fn get_space(&self, index: usize) -> (r: &Space)
        requires
            self.spaces.len() == NUM_SPACES,
        ensures
            *r == self.spaces@[index as int % NUM_SPACES as int],
    {
        &self.spaces[index % NUM_SPACES]
    }

    /// `index` taken modulo the number of spaces.
    pub fn clip_player_index(&self, index: usize) -> (r: usize)
        requires
            self.spaces.len() > 0,
        ensures
            r == index as int % self.spaces.len() as int,
    {
        index % self.spaces.len()
    }

    /// The space the current player stands on.
    pub fn get_player_index(&self) -> (r: usize)
        requires
            self.player_turn < self.players.len(),
        ensures
            r == self.current().space,
    {
        self.players[self.player_turn].space
    }

    /// Rent owed to the owner of `property` at this moment.
    pub fn get_rent(&self, property: usize) -> (r: i32)
        requires
            self.wf(),
            property < NUM_PROPERTIES,
            self.properties@[property as int].owner is Some,
        ensures
            r == self.spec_rent(property as int),
            0 <= r <= MAX_RENT,
    {
        let prop = &self.properties[property];
        let color_group = prop.color_group;
        let base_rent = prop.base_rent;
        let owner_id = prop.get_owner();
        let owner = &self.players[owner_id];
        proof {
            lemma_holdings_len(owner.properties@);
            assert(0 <= base_rent <= 50);
        }
        let num_props = owner.get_num_props(&self.properties, &color_group);
        let has_monopoly = owner.has_monopoly(&self.properties, color_group);
        let num_houses = prop.num_houses;
        let num_hotels = prop.num_hotels;
        match color_group {
            ColorGroup::Railroad => {
                if num_props <= 1 {
                    base_rent
                } else if num_props == 2 {
                    base_rent * 2
                } else if num_props == 3 {
                    base_rent * 4
                } else {
                    base_rent * 8
                }
            },
            ColorGroup::Utility => {
                if num_props <= 1 {
                    base_rent * 4
                } else {
                    base_rent * 10
                }
            },
            _ => {
                if !has_monopoly {
                    base_rent
                } else if num_hotels >= 1 {
                    proof {
                        assert(base_rent * num_hotels <= 50) by (nonlinear_arith)
                            requires
                                0 <= base_rent <= 50,
                                num_hotels == 1,
                        ;
                    }
                    base_rent * num_hotels * 40
                } else if num_houses >= 1 {
                    proof {
                        assert(base_rent * num_houses <= 200) by (nonlinear_arith)
                            requires
                                0 <= base_rent <= 50,
                                1 <= num_houses <= 4,
                        ;
                    }
                    base_rent * num_houses * 5
                } else {
                    base_rent * 3
                }
            },
        }
    }

    /// The first utility after the current player's space.
    pub fn get_nearest_utility(&self) -> (r: usize)
        requires
            self.player_turn < self.players.len(),
        ensures
            r == spec_next_utility(self.current().space as int),
    {
        next_utility(self.get_player_index())
    }

    /// The first railroad after the current player's space.
    pub fn get_nearest_railroad(&self) -> (r: usize)
        requires
            self.player_turn < self.players.len(),
        ensures
            r == spec_next_railroad(self.current().space as int),
    {
        next_railroad(self.get_player_index())
    }

    /// Moves the token of player `p` from space `from` to space `to`.
    fn move_token(&mut self, p: usize, from: usize, to: usize)
        requires
            from < old(self).spaces.len(),
            to < old(self).spaces.len(),
        ensures
            old(self).tokens_moved(*final(self), p, from as int, to as int),
            final(self).players == old(self).players,
            final(self).properties == old(self).properties,
            final(self).player_turn == old(self).player_turn,
            final(self).chance_cards == old(self).chance_cards,
            final(self).comm_chest_cards == old(self).comm_chest_cards,
            final(self).passed_go == old(self).passed_go,
    {
        self.spaces[from].remove_player(p);
        self.spaces[to].add_player(p);
    }

    /// Pays the current player the Go salary and clears the flag.
    pub fn handle_pass_go(&mut self)
        requires
            old(self).player_turn < old(self).players.len(),
            old(self).current().cash + GO_SALARY <= i32::MAX,
        ensures
            old(self).paid(*final(self), GO_SALARY as int),
            final(self).properties == old(self).properties,
            !final(self).passed_go,
            final(self).chance_cards == old(self).chance_cards,
            final(self).comm_chest_cards == old(self).comm_chest_cards,
    {
        let t = self.player_turn;
        self.players[t].salary(GO_SALARY);
        self.passed_go = false;
        assert(self.players@ =~= old(self).players@.update(
            t as int,
            Player { cash: (old(self).current().cash + GO_SALARY) as i32, ..old(self).current() },
        ));
    }

    /// Moves the current player to space `new_space`, pays the Go salary if
    /// the move passed Go, and tells what the space asks for.
    pub fn advance_to(&mut self, new_space: usize) -> (r: LandAction)
        requires
            old(self).ready(),
            old(self).cash_within(BOARD_CASH_LIMIT as int),
            new_space < NUM_SPACES,
        ensures
            old(self).advanced_to(*final(self), new_space as int, r),
            final(self).chance_cards == old(self).chance_cards,
            final(self).comm_chest_cards == old(self).comm_chest_cards,
            final(self).ready(),
    {
        let t = self.player_turn;
        let old_space = self.players[t].space;
        let ghost moved = Player {
            space: new_space,
            cash: (old(self).current().cash + if old(self).passed_go { GO_SALARY as int } else { 0 }) as i32,
            ..old(self).current()
        };
        self.move_token(t, old_space, new_space);
        if self.passed_go {
            self.handle_pass_go();
        }
        proof {
            assert(old(self).spaces@[new_space as int].index == new_space);
            assert(self.spaces@[new_space as int] == old(self).spaces@[new_space as int] ||
                self.spaces@[new_space as int].s_type == old(self).spaces@[new_space as int].s_type);
            lemma_layout_handles(new_space as int);
        }
        let ghost mid = self.players@;
        let r = self.players[t].land(&self.spaces[new_space], &self.properties);
        proof {
            assert(self.players@ =~= mid.update(t as int, Player { space: new_space, ..mid[t as int] }));
            assert(self.players@ =~= old(self).players@.update(t as int, moved));
            lemma_tokens_moved_ok(*old(self), *self, t, old_space as int, new_space as int);
            lemma_wf_frame(*old(self), *self);
        }
        r
    }

    /// `post` is `self` after the Chance card `c` took effect, with `r`
    /// what the space it sent the player to asks for.
    pub open spec fn chance_applied(&self, post: Board, c: Chance, r: LandAction) -> bool {
        let pos = self.current().space as int;
        (Board { passed_go: chance_passes_go(c, pos), ..*self }).advanced_to(post, chance_target(c, pos), r)
    }

    /// `post` is `self` after the Community Chest card `c` took effect.
    pub open spec fn comm_chest_applied(&self, post: Board, c: CommunityChest) -> bool {
        match c {
            CommunityChest::AdvanceToGo => exists|r: LandAction|
                (Board { passed_go: true, ..*self }).advanced_to(post, GO as int, r),
            CommunityChest::BankErrorInYourFavor => self.paid(post, BANK_ERROR_AMT as int)
                && post.properties == self.properties && post.passed_go == self.passed_go,
            CommunityChest::GoToJail => self.jailed(post),
            CommunityChest::PaySchoolFees => self.paid(post, -SCHOOL_FEES_AMT)
                && post.properties == self.properties && post.passed_go == self.passed_go,
        }
    }

    /// `post` is `self` after the current player rolled `roll`, moved that
    /// many spaces forward and looked at what the space asks for (`r`).
    pub open spec fn rolled(&self, post: Board, roll: int, r: LandAction) -> bool {
        let raw = self.current().space + roll;
        (Board { passed_go: raw >= NUM_SPACES, ..*self }).advanced_to(post, raw % (NUM_SPACES as int), r)
    }

    /// Adds `dice_roll` to the current player's position. Sets the Go flag
    /// when the raw target is past the last space, and returns the target
    /// taken modulo the board size.
    pub fn get_next_space(&mut self, dice_roll: usize) -> (r: usize)
        requires
            old(self).ready(),
            dice_roll <= 12,
        ensures
            r == (old(self).current().space + dice_roll) % (NUM_SPACES as int),
            final(self).passed_go == (old(self).passed_go || old(self).current().space + dice_roll >= NUM_SPACES),
            *final(self) == (Board { passed_go: final(self).passed_go, ..*old(self) }),
    {
        let old_player_index = self.get_player_index();
        let new_raw_index = old_player_index + dice_roll;
        if new_raw_index >= self.spaces.len() {
            self.passed_go = true;
        }
        self.clip_player_index(new_raw_index)
    }

    /// Moves the current player `roll` spaces forward and tells what the
    /// space reached asks for. A move that reaches or passes Go pays the Go
    /// salary once.
    pub fn land_after_roll(&mut self, roll: usize) -> (r: LandAction)
        requires
            old(self).ready(),
            old(self).cash_within(BOARD_CASH_LIMIT as int),
            !old(self).passed_go,
            roll <= 12,
        ensures
            old(self).rolled(*final(self), roll as int, r),
            final(self).players@[old(self).player_turn as int].cash == old(self).current().cash
                + if old(self).current().space + roll >= NUM_SPACES { GO_SALARY as int } else { 0 },
            final(self).chance_cards == old(self).chance_cards,
            final(self).comm_chest_cards == old(self).comm_chest_cards,
            final(self).ready(),
    {
        let space = self.get_next_space(roll);
        self.advance_to(space)
    }

    /// Rolls two dice and moves the current player by their sum.
    pub fn roll_and_land(&mut self) -> (r: LandAction)
        requires
            old(self).ready(),
            old(self).cash_within(BOARD_CASH_LIMIT as int),
            !old(self).passed_go,
        ensures
            exists|roll: int| 2 <= roll <= 12 && old(self).rolled(*final(self), roll, r),
            final(self).chance_cards == old(self).chance_cards,
            final(self).comm_chest_cards == old(self).comm_chest_cards,
            final(self).ready(),
    {
        let roll = get_dice_roll_12();
        self.land_after_roll(roll as usize)
    }

    /// Moves the current player forward to space `dest`, paying the Go
    /// salary when the move wraps past the last space or ends on Go.
    pub fn advance_forward_to(&mut self, dest: usize) -> (r: LandAction)
        requires
            old(self).ready(),
            old(self).cash_within(BOARD_CASH_LIMIT as int),
            dest < NUM_SPACES,
        ensures
            (Board { passed_go: forward_passes_go(old(self).current().space as int, dest as int), ..*old(self) })
                .advanced_to(*final(self), dest as int, r),
            final(self).chance_cards == old(self).chance_cards,
            final(self).comm_chest_cards == old(self).comm_chest_cards,
            final(self).ready(),
    {
        let pos = self.get_player_index();
        self.passed_go = dest <= pos;
        self.advance_to(dest)
    }

    /// Sends the current player straight to jail: no Go salary.
    pub fn on_land_go_to_jail(&mut self)
        requires
            old(self).ready(),
        ensures
            old(self).jailed(*final(self)),
            final(self).chance_cards == old(self).chance_cards,
            final(self).comm_chest_cards == old(self).comm_chest_cards,
            final(self).ready(),
    {
        let t = self.player_turn;
        let from = self.players[t].space;
        self.move_token(t, from, JAIL);
        let ghost mid = self.players@;
        self.players[t].jail(JAIL);
        proof {
            assert(self.players@ =~= old(self).players@.update(t as int, Player { space: JAIL, in_jail: true, ..old(self).current() }));
            lemma_tokens_moved_ok(*old(self), *self, t, from as int, JAIL as int);
            lemma_wf_frame(*old(self), *self);
        }
    }

    /// Charges the current player `tax`.
    pub fn on_land_income_tax(&mut self, tax: i32)
        requires
            old(self).ready(),
            i32::MIN <= old(self).current().cash - tax <= i32::MAX,
        ensures
            old(self).paid(*final(self), -tax),
            final(self).properties == old(self).properties,
            final(self).passed_go == old(self).passed_go,
            final(self).chance_cards == old(self).chance_cards,
            final(self).comm_chest_cards == old(self).comm_chest_cards,
            final(self).ready(),
    {
        self.charge_current(tax);
    }

    /// Charges the current player `tax`.
    pub fn on_land_luxury_tax(&mut self, tax: i32)
        requires
            old(self).ready(),
            i32::MIN <= old(self).current().cash - tax <= i32::MAX,
        ensures
            old(self).paid(*final(self), -tax),
            final(self).properties == old(self).properties,
            final(self).passed_go == old(self).passed_go,
            final(self).chance_cards == old(self).chance_cards,
            final(self).comm_chest_cards == old(self).comm_chest_cards,
            final(self).ready(),
    {
        self.charge_current(tax);
    }

    /// Takes `amount` from the current player's cash.
    fn charge_current(&mut self, amount: i32)
        requires
            old(self).ready(),
            i32::MIN <= old(self).current().cash - amount <= i32::MAX,
        ensures
            old(self).paid(*final(self), -amount),
            final(self).properties == old(self).properties,
            final(self).passed_go == old(self).passed_go,
            final(self).chance_cards == old(self).chance_cards,
            final(self).comm_chest_cards == old(self).comm_chest_cards,
            final(self).ready(),
    {
        let t = self.player_turn;
        self.players[t].tax(amount);
        proof {
            assert(self.players@ =~= old(self).players@.update(
                t as int,
                Player { cash: (old(self).current().cash - amount) as i32, ..old(self).current() },
            ));
            lemma_wf_frame(*old(self), *self);
        }
    }

    /// Adds `amount` to the current player's cash.
    fn pay_current(&mut self, amount: i32)
        requires
            old(self).ready(),
            i32::MIN <= old(self).current().cash + amount <= i32::MAX,
        ensures
            old(self).paid(*final(self), amount as int),
            final(self).properties == old(self).properties,
            final(self).passed_go == old(self).passed_go,
            final(self).chance_cards == old(self).chance_cards,
            final(self).comm_chest_cards == old(self).comm_chest_cards,
            final(self).ready(),
    {
        let t = self.player_turn;
        self.players[t].salary(amount);
        proof {
            assert(self.players@ =~= old(self).players@.update(
                t as int,
                Player { cash: (old(self).current().cash + amount) as i32, ..old(self).current() },
            ));
            lemma_wf_frame(*old(self), *self);
        }
    }

    /// Replaces the Chance deck with the full set in a random order.
    pub fn shuffle_chance(&mut self)
        ensures
            fresh_chance_deck(final(self).chance_cards@),
            final(self).chance_cards.len() >= 1,
            final(self).chance_cards@.no_duplicates(),
            *final(self) == (Board { chance_cards: final(self).chance_cards, ..*old(self) }),
    {
        let keys = shuffle_keys(NUM_CHANCE);
        self.chance_cards = chance_deck(&keys);
    }

    /// Replaces the Community Chest deck with the full set in a random
    /// order.
    pub fn shuffle_comm_chest(&mut self)
        ensures
            fresh_comm_chest_deck(final(self).comm_chest_cards@),
            final(self).comm_chest_cards.len() >= 1,
            final(self).comm_chest_cards@.no_duplicates(),
            *final(self) == (Board { comm_chest_cards: final(self).comm_chest_cards, ..*old(self) }),
    {
        let keys = shuffle_keys(NUM_COMM_CHEST);
        self.comm_chest_cards = comm_chest_deck(&keys);
    }

    /// Takes the front Chance card, shuffling a fresh deck first when the
    /// deck is empty.
    pub fn draw_chance(&mut self) -> (c: Chance)
        ensures
            chance_drawn(old(self).chance_cards@, final(self).chance_cards@, c),
            *final(self) == (Board { chance_cards: final(self).chance_cards, ..*old(self) }),
    {
        if self.chance_cards.len() == 0 {
            self.shuffle_chance();
        }
        let ghost deck = self.chance_cards@;
        let c = self.chance_cards.remove(0);
        proof {
            assert(deck == seq![c] + self.chance_cards@);
        }
        c
    }

    /// Takes the front Community Chest card, shuffling a fresh deck first
    /// when the deck is empty.
    pub fn draw_comm_chest(&mut self) -> (c: CommunityChest)
        ensures
            comm_chest_drawn(old(self).comm_chest_cards@, final(self).comm_chest_cards@, c),
            *final(self) == (Board { comm_chest_cards: final(self).comm_chest_cards, ..*old(self) }),
    {
        if self.comm_chest_cards.len() == 0 {
            self.shuffle_comm_chest();
        }
        let ghost deck = self.comm_chest_cards@;
        let c = self.comm_chest_cards.remove(0);
        proof {
            assert(deck == seq![c] + self.comm_chest_cards@);
        }
        c
    }

    /// Carries out the Chance card `card` for the current player.
    pub fn apply_chance(&mut self, card: Chance) -> (r: LandAction)
        requires
            old(self).ready(),
            old(self).cash_within(BOARD_CASH_LIMIT as int),
            !old(self).passed_go,
        ensures
            old(self).chance_applied(*final(self), card, r),
            final(self).chance_cards == old(self).chance_cards,
            final(self).comm_chest_cards == old(self).comm_chest_cards,
            final(self).ready(),
    {
        match card {
            Chance::AdvanceToGo => self.advance_forward_to(GO),
            Chance::AdvanceToNearestUtility => {
                let space = self.get_nearest_utility();
                self.advance_forward_to(space)
            },
            Chance::AdvanceToNearestRailroad => {
                let space = self.get_nearest_railroad();
                self.advance_forward_to(space)
            },
            Chance::GoBack3Spaces => {
                let current_index = self.get_player_index();
                let new_index = (current_index + NUM_SPACES - 3) % NUM_SPACES;
                self.advance_to(new_index)
            },
            Chance::AdvanceToBoardwalk => self.advance_forward_to(BDWK),
        }
    }

    /// Draws a Chance card and carries it out.
    pub fn on_land_chance(&mut self) -> (r: LandAction)
        requires
            old(self).ready(),
            old(self).cash_within(BOARD_CASH_LIMIT as int),
            !old(self).passed_go,
        ensures
            exists|c: Chance|
                chance_drawn(old(self).chance_cards@, final(self).chance_cards@, c)
                    && old(self).chance_applied(*final(self), c, r),
            final(self).comm_chest_cards == old(self).comm_chest_cards,
            final(self).ready(),
    {
        let card = self.draw_chance();
        let ghost mid = *self;
        let r = self.apply_chance(card);
        proof {
            assert(mid.players == old(self).players);
            assert(mid.current() == old(self).current());
            assert((Board { passed_go: chance_passes_go(card, mid.current().space as int), ..mid }).advanced_to(*self, chance_target(card, mid.current().space as int), r));
            assert(old(self).chance_applied(*self, card, r));
        }
        r
    }

    /// Carries out the Community Chest card `card` for the current player.
    pub fn apply_comm_chest(&mut self, card: CommunityChest)
        requires
            old(self).ready(),
            old(self).cash_within(BOARD_CASH_LIMIT as int),
            !old(self).passed_go,
        ensures
            old(self).comm_chest_applied(*final(self), card),
            final(self).chance_cards == old(self).chance_cards,
            final(self).comm_chest_cards == old(self).comm_chest_cards,
            final(self).ready(),
    {
        match card {
            CommunityChest::AdvanceToGo => {
                let r = self.advance_forward_to(GO);
            },
            CommunityChest::BankErrorInYourFavor => {
                self.pay_current(BANK_ERROR_AMT);
            },
            CommunityChest::GoToJail => {
                self.on_land_go_to_jail();
            },
            CommunityChest::PaySchoolFees => {
                self.charge_current(SCHOOL_FEES_AMT);
            },
        }
    }

    /// Draws a Community Chest card and carries it out.
    pub fn on_land_comm_chest(&mut self)
        requires
            old(self).ready(),
            old(self).cash_within(BOARD_CASH_LIMIT as int),
            !old(self).passed_go,
        ensures
            exists|c: CommunityChest|
                comm_chest_drawn(old(self).comm_chest_cards@, final(self).comm_chest_cards@, c)
                    && old(self).comm_chest_applied(*final(self), c),
            final(self).chance_cards == old(self).chance_cards,
            final(self).ready(),
    {
        let card = self.draw_comm_chest();
        let ghost mid = *self;
        self.apply_comm_chest(card);
        proof {
            assert(mid.players == old(self).players);
            assert(mid.comm_chest_applied(*self, card));
            if card == CommunityChest::AdvanceToGo {
                let r = choose|r: LandAction| (Board { passed_go: true, ..mid }).advanced_to(*self, GO as int, r);
                assert((Board { passed_go: true, ..*old(self) }).advanced_to(*self, GO as int, r));
            }
            assert(old(self).comm_chest_applied(*self, card));
        }
    }

    /// The current player buys property `prop` at its purchase price.
    pub fn on_purchase(&mut self, prop: usize)
        requires
            old(self).ready(),
            old(self).cash_within(BOARD_CASH_LIMIT as int),
            prop < NUM_PROPERTIES,
            old(self).properties@[prop as int].owner is None,
        ensures
            final(self).players@ == old(self).players@.update(old(self).player_turn as int, final(self).current()),
            final(self).current().cash == old(self).current().cash - old(self).properties@[prop as int].purchase_price,
            final(self).current().properties@ == old(self).current().properties@.push(prop),
            final(self).current() == (Player {
                cash: final(self).current().cash,
                properties: final(self).current().properties,
                ..old(self).current()
            }),
            final(self).properties@ == old(self).properties@.update(
                prop as int,
                Property { owner: Some(old(self).player_turn), ..old(self).properties@[prop as int] },
            ),
            final(self).spaces == old(self).spaces,
            final(self).player_turn == old(self).player_turn,
            final(self).chance_cards == old(self).chance_cards,
            final(self).comm_chest_cards == old(self).comm_chest_cards,
            final(self).passed_go == old(self).passed_go,
            final(self).ready(),
    {
        let t = self.player_turn;
        proof {
            assert(0 <= old(self).properties@[prop as int].purchase_price <= 400);
            assert(!old(self).current().properties@.contains(prop)) by {
                if old(self).current().properties@.contains(prop) {
                    let k = choose|k: int| 0 <= k < old(self).current().properties.len()
                        && old(self).current().properties@[k] == prop;
                    assert(old(self).properties@[old(self).players@[t as int].properties@[k] as int].owner == Some(t));
                }
            }
        }
        self.players[t].purchase(prop, &self.properties[prop]);
        self.properties[prop].set_owner(Some(t));
        proof {
            let pre = *old(self);
            assert(self.players@ =~= pre.players@.update(t as int, self.current()));
            assert(self.properties@ =~= pre.properties@.update(prop as int, Property { owner: Some(t), ..pre.properties@[prop as int] }));
            self.lemma_purchase_wf(pre, t, prop);
        }
    }

    /// Transferring an unowned property to the current player keeps the
    /// board well formed.
    proof fn lemma_purchase_wf(self, pre: Board, t: usize, prop: usize)
        requires
            pre.ready(),
            t == pre.player_turn,
            prop < NUM_PROPERTIES,
            pre.properties@[prop as int].owner is None,
            !pre.current().properties@.contains(prop),
            self.spaces == pre.spaces,
            self.player_turn == t,
            self.players@ == pre.players@.update(t as int, self.current()),
            self.current().properties@ == pre.current().properties@.push(prop),
            self.current().space == pre.current().space,
            self.current().creditor == pre.current().creditor,
            self.properties@ == pre.properties@.update(prop as int, Property { owner: Some(t), ..pre.properties@[prop as int] }),
        ensures
            self.ready(),
    {
        assert forall|i: int| 0 <= i < NUM_SPACES implies {
            let s = #[trigger] self.spaces@[i];
            &&& s.index == i
            &&& s.s_type == layout_space(i).0
            &&& s.x == layout_space(i).1
            &&& s.y == layout_space(i).2
        } by {
            assert(pre.spaces@[i].index == i);
        }
        assert forall|id: int| 0 <= id < NUM_PROPERTIES implies {
            let p = #[trigger] self.properties@[id];
            &&& p.name@ == layout_property(id).0
            &&& p.purchase_price == layout_property(id).1
            &&& p.base_rent == layout_property(id).2
            &&& p.color_group == layout_property(id).3
            &&& 0 <= p.num_houses <= 4
            &&& 0 <= p.num_hotels <= 1
            &&& (p.num_hotels == 1 ==> p.num_houses == 0)
            &&& (!is_buildable(p.color_group) ==> p.num_houses == 0 && p.num_hotels == 0)
        } by {
            assert(pre.properties@[id].base_rent == layout_property(id).2);
        }
        assert forall|p: int| 0 <= p < self.players.len() implies {
            let pl = #[trigger] self.players@[p];
            &&& pl.space < NUM_SPACES
            &&& handles_below(pl.properties@, NUM_PROPERTIES as int)
            &&& pl.properties@.no_duplicates()
            &&& (pl.creditor matches Some(c) ==> c < self.players.len() && c != p)
        } by {
            let a = pre.players@[p];
            if p == t {
                assert forall|x: int, y: int| 0 <= x < y < self.players@[p].properties.len()
                    implies self.players@[p].properties@[x] != self.players@[p].properties@[y] by {
                    if y == a.properties.len() {
                        assert(a.properties@[x] != prop);
                    }
                }
            }
        }
        assert(self.tokens_ok()) by {
            assert forall|i: int, k: int| 0 <= i < self.spaces.len() && 0 <= k < self.spaces@[i].players.len()
                implies #[trigger] self.spaces@[i].players@[k] < self.players.len() by {
                assert(pre.spaces@[i].players@[k] < pre.players.len());
            }
        }
        assert forall|id: int| 0 <= id < self.properties.len() implies ((#[trigger] self.properties@[id]).owner matches Some(o)
            ==> o < self.players.len() && self.players@[o as int].properties@.contains(id as usize)) by {
            if id == prop {
                assert(self.current().properties@[pre.current().properties.len() as int] == prop);
            } else if let Some(o) = self.properties@[id].owner {
                assert(pre.properties@[id].owner == Some(o));
                assert(pre.players@[o as int].properties@.contains(id as usize));
                if o == t {
                    let k = choose|k: int| 0 <= k < pre.current().properties.len() && pre.current().properties@[k] == id as usize;
                    assert(self.current().properties@[k] == id as usize);
                }
            }
        }
        assert forall|p: int, k: int| 0 <= p < self.players.len() && 0 <= k < self.players@[p].properties.len()
            implies self.properties@[#[trigger] self.players@[p].properties@[k] as int].owner == Some(p as usize) by {
            if p == t && k == pre.current().properties.len() {
            } else {
                let id = pre.players@[p].properties@[k];
                assert(self.players@[p].properties@[k] == id);
                assert(pre.properties@[id as int].owner == Some(p as usize));
            }
        }
    }

    /// The current player pays the rent on `prop` to its owner `owner`, who
    /// becomes the player's creditor.
    pub fn on_rent_collected(&mut self, owner: usize, prop: usize)
        requires
            old(self).ready(),
            old(self).cash_within(BOARD_CASH_LIMIT as int),
            prop < NUM_PROPERTIES,
            old(self).properties@[prop as int].owner == Some(owner),
            owner != old(self).player_turn,
        ensures
            old(self).rent_paid(*final(self), owner, prop as int),
            final(self).ready(),
    {
        let debtor = self.player_turn;
        let rent = self.get_rent(prop);
        self.players[owner].salary(rent);
        self.players[debtor].tax(rent);
        self.players[debtor].set_creditor(Some(owner));
        proof {
            let pre = *old(self);
            assert(self.players@ =~= pre.players@.update(
                owner as int,
                Player { cash: (pre.players@[owner as int].cash + rent) as i32, ..pre.players@[owner as int] },
            ).update(
                debtor as int,
                Player { cash: (pre.current().cash - rent) as i32, creditor: Some(owner), ..pre.current() },
            ));
            lemma_wf_frame(pre, *self);
        }
    }

    /// `post` is `self` after the current player's properties went to
    /// player `to`, or back to the bank when `to` is `None`, leaving it
    /// nothing.
    pub open spec fn assets_transferred_to(&self, post: Board, to: Option<usize>) -> bool {
        let d = self.player_turn;
        let debtor = self.current();
        &&& post.spaces == self.spaces
        &&& post.player_turn == d
        &&& post.chance_cards == self.chance_cards
        &&& post.comm_chest_cards == self.comm_chest_cards
        &&& post.passed_go == self.passed_go
        &&& post.players.len() == self.players.len()
        &&& post.properties.len() == self.properties.len()
        &&& forall|id: int| 0 <= id < self.properties.len() ==> #[trigger] post.properties@[id]
            == if self.properties@[id].owner == Some(d) {
                Property { owner: to, ..self.properties@[id] }
            } else {
                self.properties@[id]
            }
        &&& post.players@[d as int] == Player { properties: post.players@[d as int].properties, ..debtor }
        &&& post.players@[d as int].properties@.len() == 0
        &&& forall|q: int| 0 <= q < self.players.len() && q != d && Some(q as usize) != to
            ==> #[trigger] post.players@[q] == self.players@[q]
        &&& (to matches Some(c) ==> {
            &&& post.players@[c as int] == Player { properties: post.players@[c as int].properties, ..self.players@[c as int] }
            &&& post.players@[c as int].properties@ == self.players@[c as int].properties@ + debtor.properties@
        })
    }

    /// `post` is `self` after the current player's properties went to its
    /// creditor, or back to the bank when it has none, leaving it nothing.
    pub open spec fn assets_transferred(&self, post: Board) -> bool {
        self.assets_transferred_to(post, self.current().creditor)
    }

    /// `post` is `self` after bankruptcy was settled for the current
    /// player: a bankrupt player's assets are transferred, a solvent
    /// player is left alone.
    pub open spec fn bankruptcy_settled(&self, post: Board) -> bool {
        if self.current().cash > 0 {
            post == *self
        } else {
            self.assets_transferred(post)
        }
    }

    /// Settles bankruptcy for the current player after its turn.
    pub fn handle_bankruptcy(&mut self)
        requires
            old(self).ready(),
        ensures
            old(self).bankruptcy_settled(*final(self)),
            final(self).ready(),
    {
        let d = self.player_turn;
        if self.players[d].is_bankrupt() {
            match self.players[d].get_creditor() {
                Some(creditor) => self.acquire_assets(creditor),
                None => self.return_assets(),
            }
        }
    }

    /// Hands every property of the current player to player `creditor`.
    pub fn acquire_assets(&mut self, creditor: usize)
        requires
            old(self).ready(),
            creditor < old(self).players.len(),
            creditor != old(self).player_turn,
        ensures
            old(self).assets_transferred_to(*final(self), Some(creditor)),
            final(self).ready(),
    {
        let d = self.player_turn;
        let c = creditor;
        let ghost pre = *old(self);
        let ghost dl = pre.current().properties@;
        let ghost cl = pre.players@[c as int].properties@;
        let n = self.players[d].properties.len();
        for i in 0..n
            invariant
                pre.ready(),
                d == pre.player_turn,
                c < pre.players.len(),
                c != d,
                dl == pre.current().properties@,
                cl == pre.players@[c as int].properties@,
                n == dl.len(),
                self.spaces == pre.spaces,
                self.player_turn == d,
                self.chance_cards == pre.chance_cards,
                self.comm_chest_cards == pre.comm_chest_cards,
                self.passed_go == pre.passed_go,
                self.players.len() == pre.players.len(),
                self.properties.len() == pre.properties.len(),
                forall|q: int| 0 <= q < pre.players.len() && q != c ==> #[trigger] self.players@[q] == pre.players@[q],
                self.players@[c as int] == (Player { properties: self.players@[c as int].properties, ..pre.players@[c as int] }),
                self.players@[c as int].properties@ == cl + dl.take(i as int),
                forall|id: int| 0 <= id < pre.properties.len() ==> #[trigger] self.properties@[id]
                    == if dl.take(i as int).contains(id as usize) {
                        Property { owner: Some(c), ..pre.properties@[id] }
                    } else {
                        pre.properties@[id]
                    },
        {
            let id = self.players[d].properties[i];
            proof {
                assert(self.players@[d as int] == pre.players@[d as int]);
                assert(id == dl[i as int]);
                assert(pre.properties@[id as int].owner == Some(d));
                assert(!cl.contains(id)) by {
                    if cl.contains(id) {
                        let k = choose|k: int| 0 <= k < cl.len() && cl[k] == id;
                        assert(pre.properties@[pre.players@[c as int].properties@[k] as int].owner == Some(c));
                    }
                }
                assert(!dl.take(i as int).contains(id)) by {
                    let t0 = dl.take(i as int);
                    if t0.contains(id) {
                        let k = choose|k: int| 0 <= k < t0.len() && t0[k] == id;
                        assert(dl[k] == dl[i as int]);
                    }
                }
            }
            let ghost before = self.players@;
            self.players[c].add_property(id);
            self.properties[id].set_owner(Some(c));
            proof {
                assert(dl.take(i + 1) == dl.take(i as int).push(id));
                assert(self.players@[c as int].properties@ =~= cl + dl.take(i + 1));
                assert forall|q: int| 0 <= q < pre.players.len() && q != c implies #[trigger] self.players@[q] == pre.players@[q] by {
                    assert(before[q] == pre.players@[q]);
                }
                assert forall|x: int| 0 <= x < pre.properties.len() implies #[trigger] self.properties@[x]
                    == if dl.take(i + 1).contains(x as usize) {
                        Property { owner: Some(c), ..pre.properties@[x] }
                    } else {
                        pre.properties@[x]
                    } by {
                    let t0 = dl.take(i as int);
                    let t1 = dl.take(i + 1);
                    if x != id as int {
                        if t1.contains(x as usize) {
                            let k = choose|k: int| 0 <= k < t1.len() && t1[k] == x as usize;
                            assert(k < i);
                            assert(t0[k] == x as usize);
                        } else {
                            if t0.contains(x as usize) {
                                let k = choose|k: int| 0 <= k < t0.len() && t0[k] == x as usize;
                                assert(t1[k] == x as usize);
                            }
                        }
                    } else {
                        assert(dl.take(i + 1)[i as int] == id);
                    }
                }
            }
        }
        self.players[d].properties = Vec::new();
        proof {
            assert(dl.take(n as int) == dl);
            self.lemma_settled(pre, Some(c));
        }
    }

    /// Returns every property of the current player to the bank.
    pub fn return_assets(&mut self)
        requires
            old(self).ready(),
        ensures
            old(self).assets_transferred_to(*final(self), None),
            final(self).ready(),
    {
        let d = self.player_turn;
        let ghost pre = *old(self);
        let ghost dl = pre.current().properties@;
        let n = self.players[d].properties.len();
        for i in 0..n
            invariant
                pre.ready(),
                d == pre.player_turn,
                dl == pre.current().properties@,
                n == dl.len(),
                self.spaces == pre.spaces,
                self.player_turn == d,
                self.chance_cards == pre.chance_cards,
                self.comm_chest_cards == pre.comm_chest_cards,
                self.passed_go == pre.passed_go,
                self.players == pre.players,
                self.properties.len() == pre.properties.len(),
                forall|id: int| 0 <= id < pre.properties.len() ==> #[trigger] self.properties@[id]
                    == if dl.take(i as int).contains(id as usize) {
                        Property { owner: None, ..pre.properties@[id] }
                    } else {
                        pre.properties@[id]
                    },
        {
            let id = self.players[d].properties[i];
            proof {
                assert(id == dl[i as int]);
            }
            self.properties[id].set_owner(None);
            proof {
                assert(dl.take(i + 1) == dl.take(i as int).push(id));
                assert forall|x: int| 0 <= x < pre.properties.len() implies #[trigger] self.properties@[x]
                    == if dl.take(i + 1).contains(x as usize) {
                        Property { owner: None, ..pre.properties@[x] }
                    } else {
                        pre.properties@[x]
                    } by {
                    let t0 = dl.take(i as int);
                    let t1 = dl.take(i + 1);
                    if x != id as int {
                        if t1.contains(x as usize) {
                            let k = choose|k: int| 0 <= k < t1.len() && t1[k] == x as usize;
                            assert(k < i);
                            assert(t0[k] == x as usize);
                        } else {
                            if t0.contains(x as usize) {
                                let k = choose|k: int| 0 <= k < t0.len() && t0[k] == x as usize;
                                assert(t1[k] == x as usize);
                            }
                        }
                    } else {
                        assert(dl.take(i + 1)[i as int] == id);
                    }
                }
            }
        }
        self.players[d].properties = Vec::new();
        proof {
            assert(dl.take(n as int) == dl);
            self.lemma_settled(pre, None);
        }
    }

    /// After the current player's holdings were handed to its creditor (or
    /// the bank) and cleared, the board is well formed and settled.
    proof fn lemma_settled(self, pre: Board, to: Option<usize>)
        requires
            pre.ready(),
            to matches Some(c) ==> c < pre.players.len() && c != pre.player_turn,
            self.spaces == pre.spaces,
            self.player_turn == pre.player_turn,
            self.chance_cards == pre.chance_cards,
            self.comm_chest_cards == pre.comm_chest_cards,
            self.passed_go == pre.passed_go,
            self.players.len() == pre.players.len(),
            self.properties.len() == pre.properties.len(),
            forall|q: int| 0 <= q < pre.players.len() && q != pre.player_turn && Some(q as usize) != to
                ==> #[trigger] self.players@[q] == pre.players@[q],
            self.current() == (Player { properties: self.current().properties, ..pre.current() }),
            self.current().properties@.len() == 0,
            (to matches Some(c) ==> {
                &&& self.players@[c as int] == (Player { properties: self.players@[c as int].properties, ..pre.players@[c as int] })
                &&& self.players@[c as int].properties@ == pre.players@[c as int].properties@ + pre.current().properties@
            }),
            forall|id: int| 0 <= id < pre.properties.len() ==> #[trigger] self.properties@[id]
                == (if pre.current().properties@.contains(id as usize) {
                    Property { owner: to, ..pre.properties@[id] }
                } else {
                    pre.properties@[id]
                }),
        ensures
            self.ready(),
            pre.assets_transferred_to(self, to),
    {
        let d = pre.player_turn;
        let dl = pre.current().properties@;
        let cr = to;
        assert forall|id: int| 0 <= id < pre.properties.len() implies
            (dl.contains(id as usize) <==> pre.properties@[id].owner == Some(d)) by {
            if dl.contains(id as usize) {
                let k = choose|k: int| 0 <= k < dl.len() && dl[k] == id as usize;
                assert(pre.properties@[pre.players@[d as int].properties@[k] as int].owner == Some(d));
            }
        }
        assert forall|i: int| 0 <= i < NUM_SPACES implies {
            let s = #[trigger] self.spaces@[i];
            &&& s.index == i
            &&& s.s_type == layout_space(i).0
            &&& s.x == layout_space(i).1
            &&& s.y == layout_space(i).2
        } by {
            assert(pre.spaces@[i].index == i);
        }
        assert forall|id: int| 0 <= id < NUM_PROPERTIES implies {
            let p = #[trigger] self.properties@[id];
            &&& p.name@ == layout_property(id).0
            &&& p.purchase_price == layout_property(id).1
            &&& p.base_rent == layout_property(id).2
            &&& p.color_group == layout_property(id).3
            &&& 0 <= p.num_houses <= 4
            &&& 0 <= p.num_hotels <= 1
            &&& (p.num_hotels == 1 ==> p.num_houses == 0)
            &&& (!is_buildable(p.color_group) ==> p.num_houses == 0 && p.num_hotels == 0)
        } by {
            assert(pre.properties@[id].base_rent == layout_property(id).2);
        }
        assert forall|p: int| 0 <= p < self.players.len() implies {
            let pl = #[trigger] self.players@[p];
            &&& pl.space < NUM_SPACES
            &&& handles_below(pl.properties@, NUM_PROPERTIES as int)
            &&& pl.properties@.no_duplicates()
            &&& (pl.creditor matches Some(c) ==> c < self.players.len() && c != p)
        } by {
            let a = pre.players@[p];
            if Some(p as usize) == cr && p != d {
                let cl = a.properties@;
                assert forall|x: int, y: int| 0 <= x < y < self.players@[p].properties.len()
                    implies self.players@[p].properties@[x] != self.players@[p].properties@[y] by {
                    if y >= cl.len() && x < cl.len() {
                        let id = dl[y - cl.len()];
                        assert(pre.properties@[id as int].owner == Some(d));
                        assert(pre.properties@[cl[x] as int].owner == Some(p as usize));
                    } else if x >= cl.len() {
                        assert(dl[x - cl.len()] != dl[y - cl.len()]);
                    }
                }
                assert forall|k: int| 0 <= k < self.players@[p].properties.len()
                    implies (#[trigger] self.players@[p].properties@[k]) < NUM_PROPERTIES by {
                    if k >= cl.len() {
                        assert(dl[k - cl.len()] < NUM_PROPERTIES);
                    }
                }
            }
        }
        assert(self.tokens_ok()) by {
            assert forall|i: int, k: int| 0 <= i < self.spaces.len() && 0 <= k < self.spaces@[i].players.len()
                implies #[trigger] self.spaces@[i].players@[k] < self.players.len() by {
                assert(pre.spaces@[i].players@[k] < pre.players.len());
            }
        }
        assert forall|id: int| 0 <= id < self.properties.len() implies ((#[trigger] self.properties@[id]).owner matches Some(o)
            ==> o < self.players.len() && self.players@[o as int].properties@.contains(id as usize)) by {
            if dl.contains(id as usize) {
                if let Some(c) = cr {
                    let k = choose|k: int| 0 <= k < dl.len() && dl[k] == id as usize;
                    let cl = pre.players@[c as int].properties@;
                    assert(self.players@[c as int].properties@[cl.len() + k] == id as usize);
                }
            } else if let Some(o) = self.properties@[id].owner {
                assert(pre.properties@[id].owner == Some(o));
                assert(o != d);
                assert(pre.players@[o as int].properties@.contains(id as usize));
                if Some(o) == cr {
                    let cl = pre.players@[o as int].properties@;
                    let k = choose|k: int| 0 <= k < cl.len() && cl[k] == id as usize;
                    assert(self.players@[o as int].properties@[k] == id as usize);
                }
            }
        }
        assert forall|p: int, k: int| 0 <= p < self.players.len() && 0 <= k < self.players@[p].properties.len()
            implies self.properties@[#[trigger] self.players@[p].properties@[k] as int].owner == Some(p as usize) by {
            let a = pre.players@[p].properties@;
            if Some(p as usize) == cr && p != d {
                if k >= a.len() {
                    let id = dl[k - a.len()];
                    assert(dl.contains(id));
                } else {
                    let id = a[k];
                    assert(pre.properties@[id as int].owner == Some(p as usize));
                    assert(!dl.contains(id));
                }
            } else if p != d {
                let id = a[k];
                assert(self.players@[p].properties@[k] == id);
                assert(pre.properties@[id as int].owner == Some(p as usize));
                assert(!dl.contains(id));
            }
        }
        assert forall|id: int| 0 <= id < pre.properties.len() implies #[trigger] self.properties@[id]
            == if pre.properties@[id].owner == Some(d) {
                Property { owner: cr, ..pre.properties@[id] }
            } else {
                pre.properties@[id]
            } by {
        }
    }

    /// Ends the current player's turn and passes it to the next seat.
    pub fn end_turn(&mut self)
        requires
            old(self).ready(),
        ensures
            old(self).turn_ended(*final(self)),
            final(self).ready(),
    {
        let t = self.player_turn;
        self.players[t].set_turn(false);
        self.player_turn = self.get_next_turn(t + 1);
        proof {
            lemma_wf_frame(*old(self), *self);
        }
    }

    /// `index` taken modulo the number of players.
    fn get_next_turn(&self, index: usize) -> (r: usize)
        requires
            self.players.len() > 0,
            index <= self.players.len(),
        ensures
            r == if index == self.players.len() { 0 } else { index },
    {
        if index >= self.players.len() {
            0
        } else {
            index
        }
    }

    /// `post` is `self` after the turn passed over `steps` bankrupt seats
    /// to the next solvent one, which now has the turn and no creditor.
    pub open spec fn skipped_to(&self, post: Board, steps: int) -> bool {
                let n = self.players.len() as int;
                let start = self.player_turn as int;
                &&& 0 <= steps < n
                &&& forall|j: int| 0 <= j < steps ==> (#[trigger] self.players@[seat_after(start, j, n)]).cash <= 0
                &&& self.players@[seat_after(start, steps, n)].cash > 0
                &&& post.player_turn == seat_after(start, steps, n)
                &&& post.players.len() == n
                &&& forall|q: int| 0 <= q < n ==> #[trigger] post.players@[q] == if q == post.player_turn {
                    Player { has_turn: true, creditor: None, ..self.players@[q] }
                } else if seats_from(start, q, n) < steps {
                    Player { has_turn: false, ..self.players@[q] }
                } else {
                    self.players@[q]
                }
            }

    /// Starts a turn: passes over bankrupt players to the next solvent
    /// seat, clears that player's creditor and marks its turn.
    pub fn start_turn(&mut self)
        requires
            old(self).ready(),
            count_solvent(old(self).players@) >= 1,
        ensures
            exists|steps: int| old(self).skipped_to(*final(self), steps),
            final(self).spaces == old(self).spaces,
            final(self).properties == old(self).properties,
            final(self).chance_cards == old(self).chance_cards,
            final(self).comm_chest_cards == old(self).comm_chest_cards,
            final(self).passed_go == old(self).passed_go,
            final(self).ready(),
    {
        let ghost n = self.players.len() as int;
        let ghost start = self.player_turn as int;
        let ghost w = lemma_some_solvent(self.players@);
        let ghost target = seats_from(start, w, n);
        let ghost mut steps: int = 0;
        while self.players[self.player_turn].is_bankrupt()
            invariant
                self.ready(),
                n == self.players.len(),
                0 <= start < n,
                0 <= w < n,
                old(self).players@[w].cash > 0,
                target == seats_from(start, w, n),
                0 <= steps <= target,
                self.player_turn == seat_after(start, steps, n),
                forall|j: int| 0 <= j < steps ==> (#[trigger] old(self).players@[seat_after(start, j, n)]).cash <= 0,
                forall|q: int| 0 <= q < n ==> #[trigger] self.players@[q] == if seats_from(start, q, n) < steps {
                    Player { has_turn: false, ..old(self).players@[q] }
                } else {
                    old(self).players@[q]
                },
                self.spaces == old(self).spaces,
                self.properties == old(self).properties,
                self.chance_cards == old(self).chance_cards,
                self.comm_chest_cards == old(self).comm_chest_cards,
                self.passed_go == old(self).passed_go,
            decreases target - steps,
        {
            proof {
                let t = self.player_turn as int;
                assert(seats_from(start, t, n) == steps);
                if steps == target {
                    assert(t == w);
                }
            }
            self.end_turn();
            proof {
                steps = steps + 1;
            }
        }
        let t = self.player_turn;
        proof {
            assert(seats_from(start, t as int, n) == steps);
        }
        self.players[t].set_creditor(None);
        self.players[t].set_turn(true);
        proof {
            lemma_wf_frame(*old(self), *self);
            assert(old(self).skipped_to(*self, steps));
        }
    }

    /// Number of players that are not bankrupt.
    pub fn get_num_remaining_players(&self) -> (r: i32)
        requires
            self.players.len() <= MAX_NUM_PLAYERS,
        ensures
            r == count_solvent(self.players@),
    {
        let mut cnt: i32 = 0;
        let n = self.players.len();
        for i in 0..n
            invariant
                n == self.players.len(),
                n <= MAX_NUM_PLAYERS,
                cnt == count_solvent(self.players@.take(i as int)),
                cnt <= i,
        {
            assert(self.players@.take(i + 1).drop_last() == self.players@.take(i as int));
            if !self.players[i].is_bankrupt() {
                cnt = cnt + 1;
            }
        }
        assert(self.players@.take(n as int) == self.players@);
        cnt
    }

    /// The winner, once a single solvent player is left.
    pub fn get_winner(&self) -> (r: Option<usize>)
        requires
            self.players.len() <= MAX_NUM_PLAYERS,
            count_solvent(self.players@) >= 1,
        ensures
            count_solvent(self.players@) > 1 ==> r is None,
            count_solvent(self.players@) == 1 ==> (r matches Some(w) && w < self.players.len()
                && self.players@[w as int].cash > 0),
    {
        if self.get_num_remaining_players() > 1 {
            None
        } else {
            let ghost w0 = lemma_some_solvent(self.players@);
            let n = self.players.len();
            let mut i: usize = 0;
            while i < n
                invariant
                    n == self.players.len(),
                    i <= n,
                    0 <= w0 < n,
                    self.players@[w0].cash > 0,
                    count_solvent(self.players@) <= 1,
                    forall|j: int| 0 <= j < i ==> self.players@[j].cash <= 0,
                decreases n - i,
            {
                if !self.players[i].is_bankrupt() {
                    return Some(i);
                }
                i = i + 1;
            }
            None
        }
    }

    /// Seats `player` after the others and puts its token on its space.
    pub fn add_player(&mut self, player: Player)
        requires
            old(self).wf(),
            old(self).players.len() < MAX_NUM_PLAYERS,
            player.space < NUM_SPACES,
            player.properties@.len() == 0,
            player.creditor is None,
        ensures
            final(self).players@ == old(self).players@.push(player),
            old(self).tokens_moved(*final(self), old(self).players.len(), -1, player.space as int),
            final(self).properties == old(self).properties,
            final(self).player_turn == old(self).player_turn,
            final(self).chance_cards == old(self).chance_cards,
            final(self).comm_chest_cards == old(self).comm_chest_cards,
            final(self).passed_go == old(self).passed_go,
            final(self).ready(),
    {
        let p = self.players.len();
        let s = player.space;
        self.spaces[s].add_player(p);
        self.players.push(player);
        proof {
            let pre = *old(self);
            assert forall|i: int| 0 <= i < self.spaces.len() implies {
                let a = #[trigger] pre.spaces@[i];
                let b = self.spaces@[i];
                &&& b.players@ == tokens_after_move(a.players@, i, p, -1, s as int)
                &&& b.s_type == a.s_type
                &&& b.x == a.x
                &&& b.y == a.y
                &&& b.index == a.index
            } by {
            }
            assert(self.tokens_ok()) by {
                assert forall|i: int, k: int| 0 <= i < self.spaces.len() && 0 <= k < self.spaces@[i].players.len()
                    implies #[trigger] self.spaces@[i].players@[k] < self.players.len() by {
                    if !(i == s && k == pre.spaces@[i].players.len()) {
                        assert(pre.spaces@[i].players@[k] < pre.players.len());
                    }
                }
            }
            assert forall|i: int| 0 <= i < NUM_SPACES implies {
                let sp = #[trigger] self.spaces@[i];
                &&& sp.index == i
                &&& sp.s_type == layout_space(i).0
                &&& sp.x == layout_space(i).1
                &&& sp.y == layout_space(i).2
            } by {
                assert(pre.spaces@[i].index == i);
            }
            assert forall|q: int| 0 <= q < self.players.len() implies {
                let pl = #[trigger] self.players@[q];
                &&& pl.space < NUM_SPACES
                &&& handles_below(pl.properties@, NUM_PROPERTIES as int)
                &&& pl.properties@.no_duplicates()
                &&& (pl.creditor matches Some(c) ==> c < self.players.len() && c != q)
            } by {
                if q < pre.players.len() {
                    assert(self.players@[q] == pre.players@[q]);
                }
            }
            assert forall|id: int| 0 <= id < self.properties.len() implies ((#[trigger] self.properties@[id]).owner matches Some(o)
                ==> o < self.players.len() && self.players@[o as int].properties@.contains(id as usize)) by {
                if let Some(o) = self.properties@[id].owner {
                    assert(self.players@[o as int] == pre.players@[o as int]);
                }
            }
            assert forall|q: int, k: int| 0 <= q < self.players.len() && 0 <= k < self.players@[q].properties.len()
                implies self.properties@[#[trigger] self.players@[q].properties@[k] as int].owner == Some(q as usize) by {
                assert(self.players@[q] == pre.players@[q]);
            }
        }
    }

    /// `post` is `self` after the building change `o` on property `prop`,
    /// paid for by (or refunded to) the current player.
    pub open spec fn built(&self, post: Board, prop: int, o: BuildOutcome) -> bool {
        let p = self.properties@[prop];
        let (houses, hotels) = buildings_after(p, o);
        &&& self.paid(post, cash_change(o))
        &&& post.passed_go == self.passed_go
        &&& post.chance_cards == self.chance_cards
        &&& post.comm_chest_cards == self.comm_chest_cards
        &&& post.properties@ == self.properties@.update(
            prop,
            Property { num_houses: houses as i32, num_hotels: hotels as i32, ..p },
        )
    }

    /// The current player buys a house on `prop`, or a hotel in place of
    /// four houses, if it can afford it and the property has room.
    #[verifier::rlimit(40)]
    pub fn buy_house_hotel(&mut self, prop: usize) -> (r: BuildOutcome)
        requires
            old(self).ready(),
            old(self).cash_within(BOARD_CASH_LIMIT as int),
            prop < NUM_PROPERTIES,
            is_buildable(old(self).properties@[prop as int].color_group),
        ensures
            r == buy_outcome(old(self).properties@[prop as int], old(self).current().cash as int),
            old(self).built(*final(self), prop as int, r),
            final(self).ready(),
    {
        let t = self.player_turn;
        let num_houses = self.properties[prop].get_num_houses();
        let num_hotels = self.properties[prop].get_num_hotels();
        let cash = self.players[t].get_cash();
        let ghost pre = *old(self);
        let r = if num_hotels >= MAX_NUM_HOTELS {
            BuildOutcome::FullyImproved
        } else if num_houses >= MAX_NUM_HOUSES {
            if cash < HOTEL_COST {
                BuildOutcome::CannotAfford
            } else {
                self.charge_current(HOTEL_COST);
                self.properties[prop].remove_house();
                self.properties[prop].remove_house();
                self.properties[prop].remove_house();
                self.properties[prop].remove_house();
                self.properties[prop].add_hotel();
                BuildOutcome::BoughtHotel
            }
        } else if cash < HOUSE_COST {
            BuildOutcome::CannotAfford
        } else {
            self.charge_current(HOUSE_COST);
            self.properties[prop].add_house();
            BuildOutcome::BoughtHouse
        };
        proof {
            let (houses, hotels) = buildings_after(pre.properties@[prop as int], r);
            assert(self.properties@ =~= pre.properties@.update(
                prop as int,
                Property { num_houses: houses as i32, num_hotels: hotels as i32, ..pre.properties@[prop as int] },
            ));
            if cash_change(r) == 0 {
                assert(self.players@ =~= pre.players@.update(
                    pre.player_turn as int,
                    Player { cash: (pre.current().cash + cash_change(r)) as i32, ..pre.current() },
                ));
            }
            self.lemma_built_wf(pre, prop as int, r);
        }
        r
    }

    /// The current player sells the hotel on `prop` (getting four houses
    /// back) or else one house, for half the building's cost.
    #[verifier::rlimit(40)]
    pub fn sell_house_hotel(&mut self, prop: usize) -> (r: BuildOutcome)
        requires
            old(self).ready(),
            old(self).cash_within(BOARD_CASH_LIMIT as int),
            prop < NUM_PROPERTIES,
            is_buildable(old(self).properties@[prop as int].color_group),
        ensures
            r == sell_outcome(old(self).properties@[prop as int]),
            old(self).built(*final(self), prop as int, r),
            final(self).ready(),
    {
        let num_houses = self.properties[prop].get_num_houses();
        let num_hotels = self.properties[prop].get_num_hotels();
        let ghost pre = *old(self);
        let r = if num_hotels >= 1 {
            self.pay_current(HOTEL_COST / 2);
            self.remove_hotel_on(prop);
            BuildOutcome::SoldHotel
        } else if num_houses >= 1 {
            self.pay_current(HOUSE_COST / 2);
            self.properties[prop].remove_house();
            BuildOutcome::SoldHouse
        } else {
            BuildOutcome::NothingToSell
        };
        proof {
            let (houses, hotels) = buildings_after(pre.properties@[prop as int], r);
            assert(self.properties@ =~= pre.properties@.update(
                prop as int,
                Property { num_houses: houses as i32, num_hotels: hotels as i32, ..pre.properties@[prop as int] },
            ));
            if cash_change(r) == 0 {
                assert(self.players@ =~= pre.players@.update(
                    pre.player_turn as int,
                    Player { cash: (pre.current().cash + cash_change(r)) as i32, ..pre.current() },
                ));
            }
            self.lemma_built_wf(pre, prop as int, r);
        }
        r
    }

    /// Takes the hotel off property `prop`; with no hotel left, four houses
    /// come back.
    fn remove_hotel_on(&mut self, prop: usize)
        requires
            prop < old(self).properties.len(),
            old(self).properties@[prop as int].num_hotels == 1,
            0 <= old(self).properties@[prop as int].num_houses <= 4,
        ensures
            final(self).properties@ == old(self).properties@.update(
                prop as int,
                Property {
                    num_houses: (old(self).properties@[prop as int].num_houses + 4) as i32,
                    num_hotels: 0,
                    ..old(self).properties@[prop as int]
                },
            ),
            *final(self) == (Board { properties: final(self).properties, ..*old(self) }),
    {
        self.properties[prop].remove_hotel();
        if self.properties[prop].get_num_hotels() == 0 {
            self.properties[prop].add_house();
            self.properties[prop].add_house();
            self.properties[prop].add_house();
            self.properties[prop].add_house();
        }
        assert(self.properties@ =~= old(self).properties@.update(
            prop as int,
            Property {
                num_houses: (old(self).properties@[prop as int].num_houses + 4) as i32,
                num_hotels: 0,
                ..old(self).properties@[prop as int]
            },
        ));
    }

    /// A building change within the caps keeps the board well formed.
    proof fn lemma_built_wf(self, pre: Board, prop: int, o: BuildOutcome)
        requires
            pre.ready(),
            0 <= prop < NUM_PROPERTIES,
            is_buildable(pre.properties@[prop].color_group),
            pre.built(self, prop, o),
            0 <= buildings_after(pre.properties@[prop], o).0 <= 4,
            0 <= buildings_after(pre.properties@[prop], o).1 <= 1,
            buildings_after(pre.properties@[prop], o).1 == 1 ==> buildings_after(pre.properties@[prop], o).0 == 0,
        ensures
            self.ready(),
    {
        assert forall|id: int| 0 <= id < NUM_PROPERTIES implies {
            let p = #[trigger] self.properties@[id];
            &&& p.name@ == layout_property(id).0
            &&& p.purchase_price == layout_property(id).1
            &&& p.base_rent == layout_property(id).2
            &&& p.color_group == layout_property(id).3
            &&& 0 <= p.num_houses <= 4
            &&& 0 <= p.num_hotels <= 1
            &&& (p.num_hotels == 1 ==> p.num_houses == 0)
            &&& (!is_buildable(p.color_group) ==> p.num_houses == 0 && p.num_hotels == 0)
        } by {
            assert(pre.properties@[id].base_rent == layout_property(id).2);
        }
        assert forall|i: int| 0 <= i < NUM_SPACES implies {
            let s = #[trigger] self.spaces@[i];
            &&& s.index == i
            &&& s.s_type == layout_space(i).0
            &&& s.x == layout_space(i).1
            &&& s.y == layout_space(i).2
        } by {
            assert(pre.spaces@[i].index == i);
        }
        assert forall|p: int| 0 <= p < self.players.len() implies {
            let pl = #[trigger] self.players@[p];
            &&& pl.space < NUM_SPACES
            &&& handles_below(pl.properties@, NUM_PROPERTIES as int)
            &&& pl.properties@.no_duplicates()
            &&& (pl.creditor matches Some(c) ==> c < self.players.len() && c != p)
        } by {
            assert(self.players@[p].properties == pre.players@[p].properties);
        }
        assert(self.tokens_ok()) by {
            assert forall|i: int, k: int| 0 <= i < self.spaces.len() && 0 <= k < self.spaces@[i].players.len()
                implies #[trigger] self.spaces@[i].players@[k] < self.players.len() by {
                assert(pre.spaces@[i].players@[k] < pre.players.len());
            }
        }
        assert forall|id: int| 0 <= id < self.properties.len() implies ((#[trigger] self.properties@[id]).owner matches Some(o)
            ==> o < self.players.len() && self.players@[o as int].properties@.contains(id as usize)) by {
            if let Some(o) = self.properties@[id].owner {
                assert(pre.properties@[id].owner == Some(o));
                assert(self.players@[o as int].properties == pre.players@[o as int].properties);
            }
        }
        assert forall|p: int, k: int| 0 <= p < self.players.len() && 0 <= k < self.players@[p].properties.len()
            implies self.properties@[#[trigger] self.players@[p].properties@[k] as int].owner == Some(p as usize) by {
            assert(self.players@[p].properties == pre.players@[p].properties);
            assert(pre.properties@[pre.players@[p].properties@[k] as int].owner == Some(p as usize));
        }
    }

    /// `post` is `self` after the current player paid the rent on `prop`
    /// to its owner `owner`, who became its creditor.
    pub open spec fn rent_paid(&self, post: Board, owner: usize, prop: int) -> bool {
        &&& post.players@ == self.players@.update(
            owner as int,
            Player { cash: (self.players@[owner as int].cash + self.spec_rent(prop)) as i32, ..self.players@[owner as int] },
        ).update(
            self.player_turn as int,
            Player { cash: (self.current().cash - self.spec_rent(prop)) as i32, creditor: Some(owner), ..self.current() },
        )
        &&& post.spaces == self.spaces
        &&& post.properties == self.properties
        &&& post.player_turn == self.player_turn
        &&& post.chance_cards == self.chance_cards
        &&& post.comm_chest_cards == self.comm_chest_cards
        &&& post.passed_go == self.passed_go
    }

    /// `post` is `self` after the current player's turn ended and passed
    /// to the next seat.
    pub open spec fn turn_ended(&self, post: Board) -> bool {
        &&& post.player_turn == seat_after(self.player_turn as int, 1, self.players.len() as int)
        &&& post.players@ == self.players@.update(self.player_turn as int, Player { has_turn: false, ..self.current() })
        &&& post.spaces == self.spaces
        &&& post.properties == self.properties
        &&& post.chance_cards == self.chance_cards
        &&& post.comm_chest_cards == self.comm_chest_cards
        &&& post.passed_go == self.passed_go
    }

    /// `post` is `self` after the current player left jail, having paid
    /// `fine`.
    pub open spec fn released(&self, post: Board, fine: int) -> bool {
        &&& post.players@ == self.players@.update(
            self.player_turn as int,
            Player { cash: (self.current().cash - fine) as i32, in_jail: false, ..self.current() },
        )
        &&& post.spaces == self.spaces
        &&& post.properties == self.properties
        &&& post.player_turn == self.player_turn
        &&& post.chance_cards == self.chance_cards
        &&& post.comm_chest_cards == self.comm_chest_cards
        &&& post.passed_go == self.passed_go
    }

    /// `a` is an outcome the current player's landing can produce: rent on
    /// a property someone else owns, an offer of an unowned property, or a
    /// non-property space the player stands on.
    pub open spec fn action_ok(&self, a: LandAction) -> bool {
        match a {
            LandAction::Rent(p) => p < NUM_PROPERTIES && (self.properties@[p as int].owner matches Some(o)
                && o != self.player_turn),
            LandAction::Own(p) => p < NUM_PROPERTIES,
            LandAction::InsFunds(p) => p < NUM_PROPERTIES,
            LandAction::MightPurchase(p) => p < NUM_PROPERTIES && self.properties@[p as int].owner is None,
            LandAction::Space(s) => s < NUM_SPACES && s == self.current().space
                && !(self.spaces@[s as int].s_type is Prop),
        }
    }

    /// The current player leaves jail for free.
    pub fn release_from_jail(&mut self)
        requires
            old(self).ready(),
        ensures
            old(self).released(*final(self), 0),
            final(self).ready(),
    {
        let t = self.player_turn;
        self.players[t].unjail();
        proof {
            assert(self.players@ =~= old(self).players@.update(
                t as int,
                Player { cash: (old(self).current().cash - 0) as i32, in_jail: false, ..old(self).current() },
            ));
            lemma_wf_frame(*old(self), *self);
        }
    }

    /// The current player pays `fine` and leaves jail.
    pub fn pay_jail_fine(&mut self, fine: i32)
        requires
            old(self).ready(),
            i32::MIN <= old(self).current().cash - fine <= i32::MAX,
        ensures
            old(self).released(*final(self), fine as int),
            final(self).ready(),
    {
        let t = self.player_turn;
        self.players[t].tax(fine);
        self.players[t].unjail();
        proof {
            assert(self.players@ =~= old(self).players@.update(
                t as int,
                Player { cash: (old(self).current().cash - fine) as i32, in_jail: false, ..old(self).current() },
            ));
            lemma_wf_frame(*old(self), *self);
        }
    }

    /// Lays out the forty spaces, with no tokens on them, and the
    /// twenty-eight properties, unowned and unimproved.
    pub fn reset_spaces(&mut self)
        ensures
            final(self).layout_ok(),
            forall|i: int| 0 <= i < NUM_SPACES ==> (#[trigger] final(self).spaces@[i]).players@.len() == 0,
            forall|id: int| 0 <= id < NUM_PROPERTIES ==> {
                let p = #[trigger] final(self).properties@[id];
                &&& p.owner is None
                &&& !p.is_mortgaged
                &&& p.num_houses == 0
                &&& p.num_hotels == 0
            },
            final(self).players == old(self).players,
            final(self).player_turn == old(self).player_turn,
            final(self).chance_cards == old(self).chance_cards,
            final(self).comm_chest_cards == old(self).comm_chest_cards,
            final(self).passed_go == old(self).passed_go,
    {
        let mut spaces: Vec<Space> = Vec::new();
        for i in 0..NUM_SPACES
            invariant
                spaces.len() == i,
                forall|j: int| 0 <= j < i ==> {
                    let s = #[trigger] spaces@[j];
                    &&& s.index == j
                    &&& s.s_type == layout_space(j).0
                    &&& s.x == layout_space(j).1
                    &&& s.y == layout_space(j).2
                    &&& s.players@.len() == 0
                },
        {
            let (t, x, y) = space_at(i);
            spaces.push(Space::new(t, x, y, i));
        }
        let mut properties: Vec<Property> = Vec::new();
        for id in 0..NUM_PROPERTIES
            invariant
                properties.len() == id,
                forall|j: int| 0 <= j < id ==> {
                    let p = #[trigger] properties@[j];
                    &&& p.name@ == layout_property(j).0
                    &&& p.purchase_price == layout_property(j).1
                    &&& p.base_rent == layout_property(j).2
                    &&& p.color_group == layout_property(j).3
                    &&& p.owner is None
                    &&& !p.is_mortgaged
                    &&& p.num_houses == 0
                    &&& p.num_hotels == 0
                },
        {
            properties.push(property_at(id));
        }
        self.spaces = spaces;
        self.properties = properties;
    }
}

/// The handles in `ids` that name a property of group `g`.
pub open spec fn in_group_set(ids: Seq<usize>, props: Seq<Property>, g: ColorGroup) -> Set<usize> {
    ids.to_set().filter(|id: usize| props[id as int].color_group == g)
}

/// Over distinct handles, the count of a group's properties is the size of
/// the set of them.
proof fn lemma_count_in_group_set(ids: Seq<usize>, props: Seq<Property>, g: ColorGroup)
    requires
        ids.no_duplicates(),
    ensures
        in_group_set(ids, props, g).finite(),
        count_in_group(ids, props, g) == in_group_set(ids, props, g).len(),
    decreases ids.len(),
{
    broadcast use vstd::set::group_set_axioms, vstd::seq_lib::seq_to_set_is_finite;

    if ids.len() == 0 {
        assert(ids.to_set() =~= Set::<usize>::empty());
        assert(in_group_set(ids, props, g) =~= Set::<usize>::empty());
    } else {
        let init = ids.drop_last();
        let x = ids.last();
        assert(init.no_duplicates()) by {
            assert forall|a: int, b: int| 0 <= a < init.len() && 0 <= b < init.len() && a != b implies init[a] != init[b] by {
                assert(ids[a] != ids[b]);
            }
        }
        lemma_count_in_group_set(init, props, g);
        assert(ids == init.push(x));
        init.lemma_push_to_set_commute(x);
        assert(!init.to_set().contains(x)) by {
            if init.contains(x) {
                let k = choose|k: int| 0 <= k < init.len() && init[k] == x;
                assert(ids[k] == ids[ids.len() - 1]);
            }
        }
        init.to_set().lemma_len_filter(|id: usize| props[id as int].color_group == g);
        if props[x as int].color_group == g {
            assert(in_group_set(ids, props, g) =~= in_group_set(init, props, g).insert(x));
        } else {
            assert(in_group_set(ids, props, g) =~= in_group_set(init, props, g));
        }
    }
}

/// Every property handle belongs to the member list of its group.
proof fn lemma_member_of_own_group(id: int)
    requires
        0 <= id < NUM_PROPERTIES,
    ensures
        group_members(layout_property(id).3).contains(id as usize),
{
    let m = group_members(layout_property(id).3);
    if id == 0 || id == 3 || id == 6 || id == 2 || id == 7 || id == 11 || id == 14 || id == 18 || id == 26 {
        assert(m[0] == id);
    } else if id == 1 || id == 4 || id == 8 || id == 10 || id == 20 || id == 12 || id == 15 || id == 19 || id == 23 || id == 27 {
        assert(m[1] == id);
    } else if id == 24 {
        assert(m[0] == id);
    } else if id == 22 || id == 17 {
        assert(m[2] == id);
    } else if id == 25 {
        assert(m[3] == id);
    } else {
        assert(m[2] == id);
    }
}

/// A player with a monopoly on a group holds every property of it.
pub proof fn lemma_monopoly_group_held(b: Board, p: int, g: ColorGroup)
    requires
        b.wf(),
        0 <= p < b.players.len(),
        b.players@[p].spec_has_monopoly(b.properties@, g),
    ensures
        forall|k: int| 0 <= k < group_members(g).len() ==> b.players@[p].properties@.contains(#[trigger] group_members(g)[k]),
{
    broadcast use vstd::set::group_set_axioms, vstd::seq_lib::seq_to_set_is_finite;

    let ids = b.players@[p].properties@;
    let props = b.properties@;
    let s = in_group_set(ids, props, g);
    let members = group_members(g);
    lemma_count_in_group_set(ids, props, g);
    assert(members.no_duplicates());
    members.unique_seq_to_set();
    assert forall|k: int| 0 <= k < members.len() implies ids.contains(#[trigger] members[k]) by {
        let m = members[k];
        if !ids.contains(m) {
            let rest = members.to_set().remove(m);
            assert(members.to_set().contains(m));
            assert(s.subset_of(rest)) by {
                assert forall|id: usize| s.contains(id) implies rest.contains(id) by {
                    assert(ids.contains(id));
                    let j = choose|j: int| 0 <= j < ids.len() && ids[j] == id;
                    assert(id < NUM_PROPERTIES);
                    assert(props[id as int].color_group == layout_property(id as int).3);
                    lemma_member_of_own_group(id as int);
                }
            }
            vstd::set_lib::lemma_len_subset(s, rest);
        }
    }
}

/// Every property listed as one of a player's monopoly properties is
/// held, and owned, by that player.
pub proof fn lemma_monopolies_held(b: Board, p: int)
    requires
        b.wf(),
        0 <= p < b.players.len(),
    ensures
        forall|i: int| 0 <= i < b.players@[p].monopoly_list(b.properties@).len() ==> {
            let id = #[trigger] b.players@[p].monopoly_list(b.properties@)[i];
            &&& b.players@[p].properties@.contains(id)
            &&& b.properties@[id as int].owner == Some(p as usize)
        },
{
    let pl = b.players@[p];
    let props = b.properties@;
    let ids = pl.properties@;
    let gs = buildable_groups();
    assert forall|k: int| 0 <= k < 8 implies held_by(#[trigger] pl.monopoly_part(props, gs[k]), ids) by {
        if pl.spec_has_monopoly(props, gs[k]) {
            lemma_monopoly_group_held(b, p, gs[k]);
        }
    }
    let p0 = pl.monopoly_part(props, gs[0]);
    let p1 = pl.monopoly_part(props, gs[1]);
    let p2 = pl.monopoly_part(props, gs[2]);
    let p3 = pl.monopoly_part(props, gs[3]);
    let p4 = pl.monopoly_part(props, gs[4]);
    let p5 = pl.monopoly_part(props, gs[5]);
    let p6 = pl.monopoly_part(props, gs[6]);
    let p7 = pl.monopoly_part(props, gs[7]);
    lemma_concat_held(p0, p1, ids);
    lemma_concat_held(p0 + p1, p2, ids);
    lemma_concat_held(p0 + p1 + p2, p3, ids);
    lemma_concat_held(p0 + p1 + p2 + p3, p4, ids);
    lemma_concat_held(p0 + p1 + p2 + p3 + p4, p5, ids);
    lemma_concat_held(p0 + p1 + p2 + p3 + p4 + p5, p6, ids);
    lemma_concat_held(p0 + p1 + p2 + p3 + p4 + p5 + p6, p7, ids);
    let list = pl.monopoly_list(props);
    assert forall|i: int| 0 <= i < list.len() implies {
        let id = #[trigger] list[i];
        &&& ids.contains(id)
        &&& props[id as int].owner == Some(p as usize)
    } by {
        let id = list[i];
        assert(ids.contains(id));
        let k = choose|k: int| 0 <= k < ids.len() && ids[k] == id;
        assert(b.properties@[b.players@[p].properties@[k] as int].owner == Some(p as usize));
    }
}

/// Every entry of `s` is among `ids`.
pub open spec fn held_by(s: Seq<usize>, ids: Seq<usize>) -> bool {
    forall|i: int| 0 <= i < s.len() ==> ids.contains(#[trigger] s[i])
}

/// Joining two lists held among `ids` gives one.
proof fn lemma_concat_held(a: Seq<usize>, c: Seq<usize>, ids: Seq<usize>)
    requires
        held_by(a, ids),
        held_by(c, ids),
    ensures
        held_by(a + c, ids),
{
    assert forall|i: int| 0 <= i < (a + c).len() implies ids.contains(#[trigger] (a + c)[i]) by {
        if i < a.len() {
            assert((a + c)[i] == a[i]);
        } else {
            assert((a + c)[i] == c[i - a.len()]);
        }
    }
}

/// Successive draws from a deck with enough cards take its cards from the
/// front, one each, with no shuffle in between.
pub proof fn lemma_draws_take_front(decks: Seq<Seq<Chance>>, cards: Seq<Chance>)
    requires
        decks.len() == cards.len() + 1,
        decks[0].len() >= cards.len(),
        forall|i: int| 0 <= i < cards.len() ==> chance_drawn(#[trigger] decks[i], decks[i + 1], cards[i]),
    ensures
        cards == decks[0].take(cards.len() as int),
        decks[cards.len() as int] == decks[0].skip(cards.len() as int),
    decreases cards.len(),
{
    if cards.len() > 0 {
        let n = cards.len() as int;
        lemma_draws_take_front(decks.take(n), cards.take(n - 1));
        assert(decks.take(n)[0] == decks[0]);
        assert(chance_drawn(decks[n - 1], decks[n], cards[n - 1]));
        assert(decks[n - 1] == decks[0].skip(n - 1));
        assert(cards =~= decks[0].take(n));
        assert(decks[n] =~= decks[0].skip(n));
    }
}

/// Five draws from a full Chance deck of five distinct cards empty it and
/// draw each card once; the next draw reshuffles.
pub proof fn lemma_five_draws_empty_deck(decks: Seq<Seq<Chance>>, cards: Seq<Chance>)
    requires
        decks.len() == 6,
        cards.len() == 5,
        decks[0].len() == NUM_CHANCE,
        decks[0].no_duplicates(),
        forall|i: int| 0 <= i < 5 ==> chance_drawn(#[trigger] decks[i], decks[i + 1], cards[i]),
    ensures
        decks[5].len() == 0,
        cards == decks[0],
        cards.no_duplicates(),
{
    lemma_draws_take_front(decks, cards);
    assert(decks[0].take(5) =~= decks[0]);
}

/// Railroad rent doubles with each railroad the owner holds: with `n` of
/// them, one to four, it is the base rent times two to the power `n - 1`.
pub proof fn lemma_railroad_rent(b: Board, id: int)
    requires
        b.wf(),
        0 <= id < NUM_PROPERTIES,
        b.properties@[id].owner is Some,
        b.properties@[id].color_group == ColorGroup::Railroad,
        1 <= b.players@[b.properties@[id].owner->0 as int].num_in_group(b.properties@, ColorGroup::Railroad) <= 4,
    ensures
        b.spec_rent(id) == b.properties@[id].base_rent * vstd::arithmetic::power::pow(
            2,
            (b.players@[b.properties@[id].owner->0 as int].num_in_group(b.properties@, ColorGroup::Railroad) - 1) as nat,
        ),
{
    reveal_with_fuel(vstd::arithmetic::power::pow, 4);
}

/// Utility rent is four times the base rent when the owner holds one
/// utility and ten times when it holds both; no other multiple occurs.
pub proof fn lemma_utility_rent(b: Board, id: int)
    requires
        b.wf(),
        0 <= id < NUM_PROPERTIES,
        b.properties@[id].owner is Some,
        b.properties@[id].color_group == ColorGroup::Utility,
    ensures
        ({
            let n = b.players@[b.properties@[id].owner->0 as int].num_in_group(b.properties@, ColorGroup::Utility);
            &&& n == 1 ==> b.spec_rent(id) == b.properties@[id].base_rent * 4
            &&& n == 2 ==> b.spec_rent(id) == b.properties@[id].base_rent * 10
        }),
        b.spec_rent(id) == b.properties@[id].base_rent * 4 || b.spec_rent(id) == b.properties@[id].base_rent * 10,
{
}

/// On a monopolized buildable property without buildings the rent is three
/// times the base rent.
pub proof fn lemma_unimproved_monopoly_rent(b: Board, id: int)
    requires
        b.wf(),
        0 <= id < NUM_PROPERTIES,
        b.properties@[id].owner is Some,
        is_buildable(b.properties@[id].color_group),
        b.players@[b.properties@[id].owner->0 as int].spec_has_monopoly(b.properties@, b.properties@[id].color_group),
        b.properties@[id].num_houses == 0,
        b.properties@[id].num_hotels == 0,
    ensures
        b.spec_rent(id) == b.properties@[id].base_rent * 3,
{
}

/// Once bankruptcy is settled for a bankrupt player with a creditor, every
/// property the player owned belongs to the creditor and the player owns
/// nothing.
pub proof fn lemma_bankruptcy_transfers_to_creditor(pre: Board, post: Board)
    requires
        pre.ready(),
        pre.current().cash <= 0,
        pre.current().creditor is Some,
        pre.bankruptcy_settled(post),
    ensures
        forall|id: int| 0 <= id < NUM_PROPERTIES && pre.properties@[id].owner == Some(pre.player_turn)
            ==> (#[trigger] post.properties@[id]).owner == pre.current().creditor,
        forall|id: int| 0 <= id < NUM_PROPERTIES ==> (#[trigger] post.properties@[id]).owner != Some(pre.player_turn),
        post.players@[pre.player_turn as int].properties@.len() == 0,
{
    assert forall|id: int| 0 <= id < NUM_PROPERTIES implies (#[trigger] post.properties@[id]).owner != Some(pre.player_turn) by {
        if pre.properties@[id].owner != Some(pre.player_turn) {
            assert(post.properties@[id] == pre.properties@[id]);
        }
    }
}

/// What a landing reports is an outcome the landed-on board can produce;
/// a non-property space is the one reached.
pub proof fn lemma_landed_action_ok(pre: Board, post: Board, dest: int, r: LandAction)
    requires
        pre.ready(),
        0 <= dest < NUM_SPACES,
        pre.advanced_to(post, dest, r),
        post.ready(),
    ensures
        post.action_ok(r),
        r matches LandAction::Space(s) ==> s == dest,
{
    let t = pre.player_turn;
    lemma_layout_handles(dest);
    assert(pre.spaces@[dest].s_type == layout_space(dest).0);
    assert(post.current().properties == pre.current().properties);
    if let LandAction::Rent(p) = r {
        if let Some(o) = pre.properties@[p as int].owner {
            if o == t {
                assert(pre.players@[o as int].properties@.contains(p));
            }
        }
    }
    if let LandAction::Space(s) = r {
        assert(post.spaces@[dest].s_type == pre.spaces@[dest].s_type);
    }
}

/// A move changes the mover's cash by at most the Go salary.
pub proof fn lemma_advanced_cash(pre: Board, post: Board, dest: int, r: LandAction, limit: int)
    requires
        pre.player_turn < pre.players.len(),
        pre.advanced_to(post, dest, r),
        pre.cash_within(limit),
    ensures
        post.cash_within(limit + GO_SALARY),
{
    assert forall|p: int| 0 <= p < post.players.len() implies -(limit + GO_SALARY) <= #[trigger] post.players@[p].cash <= limit + GO_SALARY by {
        assert(-limit <= pre.players@[p].cash <= limit);
    }
}

/// No Chance card sends a player standing on a Chance space to a Chance
/// space.
pub proof fn lemma_chance_target_not_chance(pos: int, c: Chance)
    requires
        0 <= pos < NUM_SPACES,
        layout_space(pos).0 == SpaceEnum::Chance,
    ensures
        0 <= chance_target(c, pos) < NUM_SPACES,
        layout_space(chance_target(c, pos)).0 != SpaceEnum::Chance,
{
    assert(pos == 7 || pos == 22 || pos == 36);
}

/// The first railroad strictly after space `index`, wrapping to the first.
pub fn next_railroad(index: usize) -> (r: usize)
    ensures
        r == spec_next_railroad(index as int),
{
    if index < READING_RR {
        READING_RR
    } else if index < PA_RR {
        PA_RR
    } else if index < BO_RR {
        BO_RR
    } else if index < SL_RR {
        SL_RR
    } else {
        READING_RR
    }
}

/// The first utility strictly after space `index`, wrapping to the first.
pub fn next_utility(index: usize) -> (r: usize)
    ensures
        r == spec_next_utility(index as int),
{
    if index < ELEC_UTIL {
        ELEC_UTIL
    } else if index < WATER_UTIL {
        WATER_UTIL
    } else {
        ELEC_UTIL
    }
}

/// Every element of `remove_first(s, p)` is an element of `s`.
proof fn lemma_remove_first_subset(s: Seq<usize>, p: usize)
    ensures
        forall|x: usize| remove_first(s, p).contains(x) ==> s.contains(x),
    decreases s.len(),
{
    if s.len() > 0 && s[0] != p {
        let r = remove_first(s.drop_first(), p);
        lemma_remove_first_subset(s.drop_first(), p);
        assert(remove_first(s, p) == seq![s[0]] + r);
        assert forall|x: usize| remove_first(s, p).contains(x) implies s.contains(x) by {
            let k = choose|k: int| 0 <= k < remove_first(s, p).len() && remove_first(s, p)[k] == x;
            if k == 0 {
                assert(s[0] == x);
            } else {
                assert(r[k - 1] == x);
                assert(r.contains(x));
                assert(s.drop_first().contains(x));
                let j = choose|j: int| 0 <= j < s.drop_first().len() && s.drop_first()[j] == x;
                assert(s[j + 1] == x);
            }
        }
    } else if s.len() > 0 {
        assert(remove_first(s, p) == s.drop_first());
        assert forall|x: usize| remove_first(s, p).contains(x) implies s.contains(x) by {
            let k = choose|k: int| 0 <= k < remove_first(s, p).len() && remove_first(s, p)[k] == x;
            assert(s[k + 1] == x);
        }
    }
}

/// Moving the token of a seated player keeps every token a seated player.
proof fn lemma_tokens_moved_ok(pre: Board, post: Board, p: usize, from: int, to: int)
    requires
        pre.tokens_ok(),
        pre.tokens_moved(post, p, from, to),
        p < pre.players.len(),
        post.players.len() == pre.players.len(),
    ensures
        post.tokens_ok(),
{
    assert forall|i: int, k: int| 0 <= i < post.spaces.len() && 0 <= k < post.spaces@[i].players.len()
        implies #[trigger] post.spaces@[i].players@[k] < post.players.len() by {
        let a = pre.spaces@[i].players@;
        let x = post.spaces@[i].players@[k];
        let t = if i == from { remove_first(a, p) } else { a };
        lemma_remove_first_subset(a, p);
        if i == to && k == t.len() {
        } else {
            assert(t[k] == x);
            assert(t.contains(x));
            assert(a.contains(x));
            let j = choose|j: int| 0 <= j < a.len() && a[j] == x;
            assert(pre.spaces@[i].players@[j] < pre.players.len());
        }
    }
}

/// A board that differs from a well-formed one only in token lists that
/// stay valid and in the players' positions, cash, jail and turn flags is
/// well formed.
proof fn lemma_wf_frame(pre: Board, post: Board)
    requires
        pre.wf(),
        post.tokens_ok(),
        post.spaces.len() == pre.spaces.len(),
        forall|i: int| 0 <= i < pre.spaces.len() ==> {
            let a = #[trigger] pre.spaces@[i];
            let b = post.spaces@[i];
            &&& b.s_type == a.s_type
            &&& b.x == a.x
            &&& b.y == a.y
            &&& b.index == a.index
        },
        post.properties == pre.properties,
        post.players.len() == pre.players.len(),
        post.player_turn < post.players.len() || (post.players.len() == 0 && post.player_turn == 0),
        forall|p: int| 0 <= p < pre.players.len() ==> {
            let a = #[trigger] pre.players@[p];
            let b = post.players@[p];
            &&& b.properties == a.properties
            &&& (b.creditor matches Some(c) ==> c < pre.players.len() && c != p)
            &&& b.space < NUM_SPACES
        },
    ensures
        post.wf(),
{
    assert forall|i: int| 0 <= i < NUM_SPACES implies {
        let s = #[trigger] post.spaces@[i];
        &&& s.index == i
        &&& s.s_type == layout_space(i).0
        &&& s.x == layout_space(i).1
        &&& s.y == layout_space(i).2
    } by {
        assert(pre.spaces@[i].index == i);
    }
    assert forall|p: int| 0 <= p < post.players.len() implies {
        let pl = #[trigger] post.players@[p];
        &&& pl.space < NUM_SPACES
        &&& handles_below(pl.properties@, NUM_PROPERTIES as int)
        &&& pl.properties@.no_duplicates()
        &&& (pl.creditor matches Some(c) ==> c < post.players.len() && c != p)
    } by {
        assert(pre.players@[p].properties == post.players@[p].properties);
    }
    assert forall|id: int| 0 <= id < post.properties.len() implies ((#[trigger] post.properties@[id]).owner matches Some(o)
        ==> o < post.players.len() && post.players@[o as int].properties@.contains(id as usize)) by {
        if let Some(o) = post.properties@[id].owner {
            assert(pre.properties@[id].owner == Some(o));
            assert(pre.players@[o as int].properties == post.players@[o as int].properties);
        }
    }
    assert forall|p: int, k: int| 0 <= p < post.players.len() && 0 <= k < post.players@[p].properties.len()
        implies post.properties@[#[trigger] post.players@[p].properties@[k] as int].owner == Some(p as usize) by {
        assert(pre.players@[p].properties == post.players@[p].properties);
        assert(pre.properties@[pre.players@[p].properties@[k] as int].owner == Some(p as usize));
    }
}

/// Some player in `ps` is solvent when the count of solvent ones is
/// positive; returns one.
proof fn lemma_some_solvent(ps: Seq<Player>) -> (w: int)
    requires
        count_solvent(ps) >= 1,
    ensures
        0 <= w < ps.len(),
        ps[w].cash > 0,
    decreases ps.len(),
{
    if ps.last().cash > 0 {
        ps.len() - 1
    } else {
        let w = lemma_some_solvent(ps.drop_last());
        w
    }
}

/// Distinct handles below the number of properties are at most that many.
pub(crate) proof fn lemma_holdings_len(s: Seq<usize>)
    requires
        s.no_duplicates(),
        handles_below(s, NUM_PROPERTIES as int),
    ensures
        s.len() <= NUM_PROPERTIES,
{
    assert forall|a: int| 0 <= a < s.len() implies (#[trigger] s[a]) < NUM_PROPERTIES by {
    }
    lemma_distinct_below_len(s, NUM_PROPERTIES as nat);
}

} // verus!
