//! Board positions. A space has a fixed index and kind, display
//! coordinates, and the tokens (player handles) currently on it.

use vstd::prelude::*;

verus! {

/// Number of spaces on the board.
pub const NUM_SPACES: usize = 40;

pub const GO: usize = 0;
pub const MED_AVE: usize = 1;
pub const COMM_CHEST_BOT: usize = 2;
pub const BALT_AVE: usize = 3;
pub const INCOME_TAX: usize = 4;
pub const READING_RR: usize = 5;
pub const ORIENT_AVE: usize = 6;
pub const CHANCE_BOT: usize = 7;
pub const VERM_AVE: usize = 8;
pub const CONN_AVE: usize = 9;
pub const JAIL: usize = 10;
pub const ST_CHAR_PL: usize = 11;
pub const ELEC_UTIL: usize = 12;
pub const STATES_AVE: usize = 13;
pub const VA_AVE: usize = 14;
pub const PA_RR: usize = 15;
pub const ST_JAMES_PL: usize = 16;
pub const COMM_CHEST_LEFT: usize = 17;
pub const TN_AVE: usize = 18;
pub const NY_AVE: usize = 19;
pub const FREE_PARKING: usize = 20;
pub const KY_AVE: usize = 21;
pub const CHANCE_TOP: usize = 22;
pub const IN_AVE: usize = 23;
pub const IL_AVE: usize = 24;
pub const BO_RR: usize = 25;
pub const ATL_AVE: usize = 26;
pub const VENTNOR_AVE: usize = 27;
pub const WATER_UTIL: usize = 28;
pub const MAR_GARD: usize = 29;
pub const GO_TO_JAIL: usize = 30;
pub const PAC_AVE: usize = 31;
pub const NC_AVE: usize = 32;
pub const COMM_CHEST_RIGHT: usize = 33;
pub const PA_AVE: usize = 34;
pub const SL_RR: usize = 35;
pub const CHANCE_RIGHT: usize = 36;
pub const PARK_PL: usize = 37;
pub const LUXURY_TAX: usize = 38;
pub const BDWK: usize = 39;

/// What a space is. A property space holds the handle of its property.
#[derive(Debug, Clone, Copy, PartialEq, Eq, Structural)]
pub enum SpaceEnum {
    Prop(usize),
    Go,
    Chance,
    CommunityChest,
    Jail,
    FreeParking,
    GoToJail,
    IncomeTax,
    LuxuryTax,
}

/// A space on the board.
#[derive(Debug)]
pub struct Space {
    pub s_type: SpaceEnum,
    pub x: i32,
    pub y: i32,
    pub index: usize,
    pub players: Vec<usize>,
}

/// `s` without its first occurrence of `p` (unchanged if `p` is absent).
pub open spec fn remove_first(s: Seq<usize>, p: usize) -> Seq<usize>
    decreases s.len(),
{
    if s.len() == 0 {
        s
    } else if s[0] == p {
        s.drop_first()
    } else {
        seq![s[0]] + remove_first(s.drop_first(), p)
    }
}

/// Removing the first occurrence, found at `k`, is removing index `k`; with
/// no occurrence nothing is removed.
proof fn lemma_remove_first(s: Seq<usize>, p: usize, k: int)
    requires
        0 <= k <= s.len(),
        forall|j: int| 0 <= j < k ==> s[j] != p,
        k < s.len() ==> s[k] == p,
    ensures
        k < s.len() ==> remove_first(s, p) == s.remove(k),
        k == s.len() ==> remove_first(s, p) == s,
    decreases s.len(),
{
    if s.len() > 0 && k > 0 {
        lemma_remove_first(s.drop_first(), p, k - 1);
        if k < s.len() {
            assert(seq![s[0]] + s.drop_first().remove(k - 1) == s.remove(k));
        } else {
            assert(seq![s[0]] + s.drop_first() == s);
        }
    }
}

impl Space {
    /// A space with no tokens on it.
    pub fn new(prop: SpaceEnum, x: i32, y: i32, index: usize) -> (s: Space)
        ensures
            s.s_type == prop,
            s.x == x,
            s.y == y,
            s.index == index,
            s.players@ == Seq::<usize>::empty(),
    {
        Space { s_type: prop, x, y, index, players: Vec::new() }
    }

    /// Puts the token of `player` on this space, after the others.
    pub fn add_player(&mut self, player: usize)
        ensures
            final(self).players@ == old(self).players@.push(player),
            final(self).s_type == old(self).s_type,
            final(self).x == old(self).x,
            final(self).y == old(self).y,
            final(self).index == old(self).index,
    {
        self.players.push(player);
    }

    /// Takes the first token of `other` off this space, if there is one.
    pub fn remove_player(&mut self, other: usize)
        ensures
            final(self).players@ == remove_first(old(self).players@, other),
            final(self).s_type == old(self).s_type,
            final(self).x == old(self).x,
            final(self).y == old(self).y,
            final(self).index == old(self).index,
    {
        let n = self.players.len();
        let mut i: usize = 0;
        while i < n && self.players[i] != other
            invariant
                n == self.players.len(),
                i <= n,
                forall|j: int| 0 <= j < i ==> self.players@[j] != other,
            decreases n - i,
        {
            i = i + 1;
        }
        proof {
            lemma_remove_first(self.players@, other, i as int);
        }
        if i < n {
            self.players.remove(i);
        }
    }

    pub fn get_index(&self) -> (r: usize)
        ensures
            r == self.index,
    {
        self.index
    }

    pub fn get_type(&self) -> (r: &SpaceEnum)
        ensures
            *r == self.s_type,
    {
        &self.s_type
    }

    pub fn get_x(&self) -> (r: i32)
        ensures
            r == self.x,
    {
        self.x
    }

    pub fn get_y(&self) -> (r: i32)
        ensures
            r == self.y,
    {
        self.y
    }
}

} // verus!
