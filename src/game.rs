//! The turn state machine. A game owns the board and moves one player's
//! turn from prompt to resolution to the next seat, driven by key presses
//! and by periodic updates that the surrounding program delivers.

use vstd::prelude::*;
use crate::board::{
    BOARD_CASH_LIMIT, Board, INCOME_TAX_AMT, LUXURY_TAX_AMT, buy_outcome, chance_drawn, comm_chest_drawn,
    count_solvent, lemma_advanced_cash, lemma_chance_target_not_chance, lemma_holdings_len,
    lemma_landed_action_ok, sell_outcome,
};
use crate::cards::Chance;
use crate::dice::get_dice_roll_6;
use crate::layout::{layout_property, layout_space};
use crate::player::{LandAction, buildable_groups, group_members};
use crate::property::is_buildable;
use crate::space::{NUM_SPACES, SpaceEnum};
use crate::cards::{is_key_order, key_order, lemma_distinct_below_len, lemma_key_order_facts};
use crate::layout::NUM_PROPERTIES;
use crate::player::{Player, TokenColor};
use crate::space::GO;

verus! {

/// Fine that frees a player from jail.
pub const JAIL_FINE: i32 = 50;

/// Largest cash magnitude at which a game step is taken; far beyond what
/// any game reaches.
pub const GAME_CASH_LIMIT: i32 = 1000000000;

/// ASCII code of the digit zero.
pub const DIGIT_ZERO: u8 = 48;

/// The stages of a player's turn.
#[derive(Debug, Clone, Copy, PartialEq, Eq, Structural)]
pub enum TurnState {
    StartTurn,
    WaitingForCommand,
    StartWaitingForCommand,
    InJail,
    ExecutingCommand,
    AfterCommand,
    ConfirmQuit,
    ConfirmPurchase(usize),
    ConfirmPlayAgain,
    ConfirmBuySellHouseHotel,
    EnterPropIndex,
    ValidatePropIndex,
    BuyHouseHotel,
    SellHouseHotel,
}

/// A player's choice of action during its turn.
#[derive(Debug, Clone, Copy, PartialEq, Eq, Structural)]
pub enum TurnCommand {
    Roll,
    Quit,
    Assets,
    PayJailFine,
    UseJailCard,
    HouseHotel,
    Trade,
}

/// Whether the game is being set up, running or over.
#[derive(Debug, Clone, Copy, PartialEq, Eq, Structural)]
pub enum GameState {
    GameGUISetup,
    GameStateSetup,
    GameRun,
    GameOver,
}

/// The keys the game reacts to; `Digit` carries a value below ten.
#[derive(Debug, Clone, Copy, PartialEq, Eq, Structural)]
pub enum Key {
    R,
    C,
    Q,
    B,
    S,
    Y,
    N,
    A,
    P,
    H,
    Digit(u8),
    Return,
    Other,
}

/// What the surrounding program is asked to do after an input.
#[derive(Debug, Clone, Copy, PartialEq, Eq, Structural)]
pub enum GameAction {
    Continue,
    Exit,
}

/// The whole game state.
pub struct Game {
    pub board: Board,
    pub game_state: GameState,
    pub turn_state: TurnState,
    pub turn_command: Option<TurnCommand>,
    pub key_queue: Vec<u8>,
}

/// `post` is `pre` after the effect of standing on non-property,
/// non-Chance space `s`.
pub open spec fn plain_space_resolved(pre: Board, post: Board, s: int) -> bool {
    match pre.spaces@[s].s_type {
        SpaceEnum::GoToJail => pre.jailed(post) && post.chance_cards == pre.chance_cards
            && post.comm_chest_cards == pre.comm_chest_cards,
        SpaceEnum::IncomeTax => pre.paid(post, -INCOME_TAX_AMT) && post.properties == pre.properties
            && post.passed_go == pre.passed_go && post.chance_cards == pre.chance_cards
            && post.comm_chest_cards == pre.comm_chest_cards,
        SpaceEnum::LuxuryTax => pre.paid(post, -LUXURY_TAX_AMT) && post.properties == pre.properties
            && post.passed_go == pre.passed_go && post.chance_cards == pre.chance_cards
            && post.comm_chest_cards == pre.comm_chest_cards,
        SpaceEnum::CommunityChest => exists|c: crate::cards::CommunityChest|
            comm_chest_drawn(pre.comm_chest_cards@, post.comm_chest_cards@, c) && pre.comm_chest_applied(post, c)
                && post.chance_cards == pre.chance_cards,
        _ => post == pre,
    }
}

/// `post` is `pre` after landing outcome `a` was dealt with, without a
/// card draw; `ts` is the turn state it leads to.
pub open spec fn plain_land_resolved(pre: Board, post: Board, a: LandAction, ts: TurnState) -> bool {
    match a {
        LandAction::Rent(p) => pre.rent_paid(post, pre.properties@[p as int].owner->0, p as int)
            && ts == TurnState::AfterCommand,
        LandAction::MightPurchase(p) => post == pre && ts == TurnState::ConfirmPurchase(p),
        LandAction::Space(s) => plain_space_resolved(pre, post, s as int) && ts == TurnState::AfterCommand,
        _ => post == pre && ts == TurnState::AfterCommand,
    }
}

/// `post` is `pre` after landing outcome `a` was dealt with; `ts` is the
/// turn state it leads to. On a Chance space a card is drawn and carried
/// out, and the outcome of the move it makes is dealt with in turn.
pub open spec fn land_resolved(pre: Board, post: Board, a: LandAction, ts: TurnState) -> bool {
    if a matches LandAction::Space(s) && pre.spaces@[s as int].s_type == SpaceEnum::Chance {
        exists|c: Chance, r: LandAction, mid: Board|
            chance_drawn(pre.chance_cards@, mid.chance_cards@, c) && pre.chance_applied(mid, c, r)
                && mid.comm_chest_cards == pre.comm_chest_cards && plain_land_resolved(mid, post, r, ts)
    } else {
        plain_land_resolved(pre, post, a, ts)
    }
}

/// Every entry of `s` is a property of a buildable group.
pub open spec fn all_buildable(s: Seq<usize>) -> bool {
    forall|i: int| 0 <= i < s.len() ==> (#[trigger] s[i]) < NUM_PROPERTIES && is_buildable(layout_property(s[i] as int).3)
}

/// Key `key` means something in game state `gs` and turn state `ts`;
/// any other key press leaves the game as it is.
pub open spec fn key_applies(key: Key, gs: GameState, ts: TurnState) -> bool {
    match key {
        Key::R => ts == TurnState::WaitingForCommand || ts == TurnState::InJail,
        Key::C | Key::P => ts == TurnState::InJail,
        Key::Q | Key::A | Key::H => ts == TurnState::WaitingForCommand,
        Key::B | Key::S => ts == TurnState::ConfirmBuySellHouseHotel,
        Key::Y | Key::N => gs == GameState::GameOver || (gs == GameState::GameRun && (ts
            == TurnState::ConfirmQuit || ts is ConfirmPurchase)),
        Key::Digit(_) | Key::Return => ts == TurnState::EnterPropIndex,
        Key::Other => true,
    }
}

/// Every byte of `s` is an ASCII decimal digit.
pub open spec fn all_digits(s: Seq<u8>) -> bool {
    forall|i: int| 0 <= i < s.len() ==> DIGIT_ZERO <= #[trigger] s[i] < DIGIT_ZERO + 10
}

/// The number the ASCII digits `s` spell, most significant first.
pub open spec fn digits_value(s: Seq<u8>) -> int
    decreases s.len(),
{
    if s.len() == 0 {
        0
    } else {
        digits_value(s.drop_last()) * 10 + (s.last() - DIGIT_ZERO)
    }
}

/// What `parse_index` gives for `s`: nothing for no digits or a number too
/// large for `usize`.
pub open spec fn spec_parse_index(s: Seq<u8>) -> Option<usize> {
    if s.len() == 0 || digits_value(s) > usize::MAX {
        None
    } else {
        Some(digits_value(s) as usize)
    }
}

/// A longer run of digits spells a number at least as large.
proof fn lemma_digits_monotone(s: Seq<u8>, i: int)
    requires
        all_digits(s),
        0 <= i <= s.len(),
    ensures
        digits_value(s.take(i)) <= digits_value(s),
        0 <= digits_value(s.take(i)),
    decreases s.len() - i,
{
    if i < s.len() {
        lemma_digits_monotone(s, i + 1);
        assert(s.take(i + 1).drop_last() == s.take(i));
        assert(DIGIT_ZERO <= s[i] < DIGIT_ZERO + 10);
    } else {
        assert(s.take(i) == s);
        lemma_digits_nonneg(s);
    }
}

/// Digits spell a number that is not negative.
proof fn lemma_digits_nonneg(s: Seq<u8>)
    requires
        all_digits(s),
    ensures
        0 <= digits_value(s),
    decreases s.len(),
{
    if s.len() > 0 {
        assert(all_digits(s.drop_last())) by {
            assert forall|i: int| 0 <= i < s.drop_last().len() implies DIGIT_ZERO <= #[trigger] s.drop_last()[i] < DIGIT_ZERO + 10 by {
                assert(s.drop_last()[i] == s[i]);
            }
        }
        lemma_digits_nonneg(s.drop_last());
        assert(DIGIT_ZERO <= s[s.len() - 1]);
    }
}

/// Reads the typed property index from its ASCII digits.
pub fn parse_index(digits: &Vec<u8>) -> (r: Option<usize>)
    requires
        all_digits(digits@),
    ensures
        r == spec_parse_index(digits@),
{
    let n = digits.len();
    if n == 0 {
        return None;
    }
    let mut value: usize = 0;
    let mut i: usize = 0;
    while i < n
        invariant
            n == digits.len(),
            i <= n,
            all_digits(digits@),
            value == digits_value(digits@.take(i as int)),
        decreases n - i,
    {
        proof {
            assert(digits@.take(i + 1).drop_last() == digits@.take(i as int));
            assert(DIGIT_ZERO <= digits@[i as int] < DIGIT_ZERO + 10);
        }
        let d = (digits[i] - DIGIT_ZERO) as usize;
        let next = value.checked_mul(10);
        match next {
            None => {
                proof {
                    lemma_digits_monotone(digits@, i + 1);
                }
                return None;
            },
            Some(m) => match m.checked_add(d) {
                None => {
                    proof {
                        lemma_digits_monotone(digits@, i + 1);
                    }
                    return None;
                },
                Some(v) => {
                    value = v;
                },
            },
        }
        i = i + 1;
    }
    proof {
        assert(digits@.take(n as int) == digits@);
    }
    Some(value)
}

impl Game {
    /// The game is consistent: in play the board is ready and no Go flag is
    /// left set; a pending purchase names an unowned property; a pending
    /// building choice names one of the current player's monopoly
    /// properties; the typed index holds digits only.
    pub open spec fn wf(&self) -> bool {
        &&& all_digits(self.key_queue@)
        &&& (self.game_state != GameState::GameRun && self.game_state != GameState::GameOver
            ==> self.turn_state == TurnState::StartTurn)
        &&& (self.game_state == GameState::GameRun || self.game_state == GameState::GameOver) ==> {
            &&& self.board.ready()
            &&& !self.board.passed_go
            &&& (self.game_state == GameState::GameRun && self.turn_state == TurnState::StartTurn
                ==> count_solvent(self.board.players@) >= 1)
            &&& (self.turn_state matches TurnState::ConfirmPurchase(p) ==> p < NUM_PROPERTIES
                && self.board.properties@[p as int].owner is None)
            &&& ((self.turn_state == TurnState::ConfirmBuySellHouseHotel || self.turn_state == TurnState::BuyHouseHotel
                || self.turn_state == TurnState::SellHouseHotel) ==> (spec_parse_index(self.key_queue@) matches Some(i)
                && i < self.board.current().monopoly_list(self.board.properties@).len()))
        }
    }

    /// A game waiting for its window: empty board, first turn to come.
    pub fn new() -> (g: Game)
        ensures
            g.board.spaces.len() == 0,
            g.board.players.len() == 0,
            g.board.properties.len() == 0,
            g.board.chance_cards.len() == 0,
            g.board.comm_chest_cards.len() == 0,
            g.board.player_turn == 0,
            !g.board.passed_go,
            g.game_state == GameState::GameGUISetup,
            g.turn_state == TurnState::StartTurn,
            g.turn_command is None,
            g.key_queue@.len() == 0,
            g.wf(),
    {
        Game {
            board: Board::new(),
            game_state: GameState::GameGUISetup,
            turn_state: TurnState::StartTurn,
            turn_command: None,
            key_queue: Vec::new(),
        }
    }

    /// Back to a fresh, empty game waiting for its window.
    pub fn reset_state(&mut self)
        ensures
            final(self).board.spaces.len() == 0,
            final(self).board.players.len() == 0,
            final(self).board.properties.len() == 0,
            final(self).board.chance_cards.len() == 0,
            final(self).board.comm_chest_cards.len() == 0,
            final(self).board.player_turn == 0,
            !final(self).board.passed_go,
            final(self).game_state == GameState::GameGUISetup,
            final(self).turn_state == TurnState::StartTurn,
            final(self).turn_command is None,
            final(self).key_queue@.len() == 0,
            final(self).wf(),
    {
        self.board = Board::new();
        self.game_state = GameState::GameGUISetup;
        self.turn_state = TurnState::StartTurn;
        self.turn_command = None;
        self.key_queue = Vec::new();
    }

    /// Sets up a new game: lays out the board and seats the players by
    /// their opening rolls, lowest first, each with the starting cash on
    /// Go. The rolls are distinct; `names[i]` and `colors[i]` belong to the
    /// player who rolled `rolls[i]`.
    pub fn setup_game(&mut self, names: Vec<String>, colors: Vec<TokenColor>, rolls: Vec<i32>)
        requires
            names.len() == rolls.len(),
            colors.len() == rolls.len(),
            1 <= rolls.len() <= crate::board::MAX_NUM_PLAYERS,
            forall|i: int, j: int| 0 <= i < j < rolls.len() ==> rolls@[i] != rolls@[j],
            forall|i: int, j: int| 0 <= i < j < names.len() ==> names@[i]@ != names@[j]@,
            forall|i: int, j: int| 0 <= i < j < colors.len() ==> colors@[i] != colors@[j],
        ensures
            exists|order: Seq<usize>| {
                &&& is_key_order(rolls@, order)
                &&& final(self).board.players.len() == order.len()
                &&& forall|j: int| 0 <= j < order.len() ==> {
                    let pl = #[trigger] final(self).board.players@[j];
                    &&& pl.name == names@[order[j] as int]
                    &&& pl.token_color == colors@[order[j] as int]
                    &&& pl.cash == crate::player::STARTING_CASH
                    &&& pl.space == GO
                    &&& pl.properties@.len() == 0
                    &&& !pl.in_jail
                    &&& !pl.has_turn
                    &&& pl.creditor is None
                }
            },
            forall|a: int, b: int| 0 <= a < b < final(self).board.players.len() ==>
                final(self).board.players@[a].name@ != final(self).board.players@[b].name@
                && final(self).board.players@[a].token_color != final(self).board.players@[b].token_color,
            final(self).board.spaces@[GO as int].players@ == Seq::new(
                final(self).board.players.len() as nat,
                |k: int| k as usize,
            ),
            forall|j: int| 0 <= j < final(self).board.players.len()
                ==> final(self).board.spaces@[GO as int].players@.contains(#[trigger] (j as usize)),
            forall|i: int| 0 <= i < NUM_SPACES && i != GO ==> (#[trigger] final(self).board.spaces@[i]).players@.len() == 0,
            final(self).board.player_turn == 0,
            final(self).board.chance_cards.len() == 0,
            final(self).board.comm_chest_cards.len() == 0,
            final(self).game_state == GameState::GameRun,
            final(self).turn_state == TurnState::StartTurn,
            final(self).turn_command is None,
            final(self).key_queue@.len() == 0,
            final(self).wf(),
    {
        self.reset_state();
        self.board.reset_spaces();
        let order = key_order(&rolls);
        proof {
            lemma_key_order_facts(rolls@, order@);
            lemma_distinct_below_len(order@, rolls.len() as nat);
        }
        for j in 0..order.len()
            invariant
                is_key_order(rolls@, order@),
                order.len() <= rolls.len(),
                names.len() == rolls.len(),
                colors.len() == rolls.len(),
                rolls.len() <= crate::board::MAX_NUM_PLAYERS,
                forall|a: int| 0 <= a < order.len() ==> (#[trigger] order@[a]) < rolls.len(),
                self.board.wf(),
                self.board.players.len() == j,
                self.board.spaces@[GO as int].players@ == Seq::new(j as nat, |k: int| k as usize),
                forall|i: int| 0 <= i < NUM_SPACES && i != GO ==> (#[trigger] self.board.spaces@[i]).players@.len() == 0,
                self.board.player_turn == 0,
                self.board.chance_cards.len() == 0,
                self.board.comm_chest_cards.len() == 0,
                !self.board.passed_go,
                forall|k: int| 0 <= k < j ==> {
                    let pl = #[trigger] self.board.players@[k];
                    &&& pl.name == names@[order@[k] as int]
                    &&& pl.token_color == colors@[order@[k] as int]
                    &&& pl.cash == crate::player::STARTING_CASH
                    &&& pl.space == GO
                    &&& pl.properties@.len() == 0
                    &&& !pl.in_jail
                    &&& !pl.has_turn
                    &&& pl.creditor is None
                },
                self.game_state == GameState::GameGUISetup,
                self.turn_state == TurnState::StartTurn,
                self.turn_command is None,
                self.key_queue@.len() == 0,
        {
            let i = order[j];
            let player = Player::new(names[i].clone(), GO, colors[i]);
            let ghost before = self.board;
            self.board.add_player(player);
            proof {
                assert(before.spaces@[GO as int].players@.push(j) =~= Seq::new((j + 1) as nat, |k: int| k as usize));
                assert forall|x: int| 0 <= x < NUM_SPACES && x != GO implies (#[trigger] self.board.spaces@[x]).players@.len() == 0 by {
                    assert(before.spaces@[x].players@.len() == 0);
                }
            }
        }
        self.game_state = GameState::GameRun;
        proof {
            let ps = self.board.players@;
            assert(ps.last().cash > 0);
            let n = ps.len();
            assert forall|j: int| 0 <= j < n implies self.board.spaces@[GO as int].players@.contains(#[trigger] (j as usize)) by {
                assert(self.board.spaces@[GO as int].players@[j] == j as usize);
            }
            assert forall|a: int, b: int| 0 <= a < b < n implies
                ps[a].name@ != ps[b].name@ && ps[a].token_color != ps[b].token_color by {
                assert(order@[a] != order@[b]);
                if order@[a] < order@[b] {
                    assert(names@[order@[a] as int]@ != names@[order@[b] as int]@);
                } else {
                    assert(names@[order@[b] as int]@ != names@[order@[a] as int]@);
                }
            }
            assert(all_digits(self.key_queue@));
        }
    }

    /// `post` is `self` after one update with dice `first` and `second`.
    pub open spec fn stepped(&self, post: Game, first: int, second: int) -> bool {
        let b = self.board;
        let cmd = self.turn_command;
        if self.game_state == GameState::GameOver {
            post == (Game { turn_state: TurnState::ConfirmPlayAgain, ..*self })
        } else if self.game_state != GameState::GameRun {
            post == *self
        } else {
            match self.turn_state {
                TurnState::StartTurn => {
                    &&& exists|steps: int| b.skipped_to(post.board, steps)
                    &&& post.board.spaces == b.spaces
                    &&& post.board.properties == b.properties
                    &&& post.board.chance_cards == b.chance_cards
                    &&& post.board.comm_chest_cards == b.comm_chest_cards
                    &&& post.board.passed_go == b.passed_go
                    &&& post.turn_state == if post.board.current().in_jail {
                        TurnState::InJail
                    } else {
                        TurnState::StartWaitingForCommand
                    }
                    &&& post == (Game { board: post.board, turn_state: post.turn_state, ..*self })
                },
                TurnState::StartWaitingForCommand => post == (Game {
                    turn_state: TurnState::WaitingForCommand,
                    ..*self
                }),
                TurnState::ExecutingCommand => match cmd {
                    Some(TurnCommand::Roll) => {
                        &&& exists|mid: Board, r: LandAction|
                            b.rolled(mid, first + second, r) && mid.chance_cards == b.chance_cards
                                && mid.comm_chest_cards == b.comm_chest_cards
                                && land_resolved(mid, post.board, r, post.turn_state)
                        &&& post == (Game { board: post.board, turn_state: post.turn_state, turn_command: None, ..*self })
                    },
                    Some(TurnCommand::Quit) => post == (Game {
                        turn_state: TurnState::ConfirmQuit,
                        turn_command: None,
                        ..*self
                    }),
                    Some(TurnCommand::HouseHotel) => if b.current().monopoly_list(b.properties@).len() == 0 {
                        post == (Game { turn_state: TurnState::StartWaitingForCommand, turn_command: None, ..*self })
                    } else {
                        post == (Game { turn_state: TurnState::EnterPropIndex, turn_command: None, key_queue: post.key_queue, ..*self })
                            && post.key_queue@.len() == 0
                    },
                    Some(TurnCommand::Assets) => post == (Game {
                        turn_state: TurnState::StartWaitingForCommand,
                        turn_command: None,
                        ..*self
                    }),
                    Some(_) => post == (Game { turn_command: None, ..*self }),
                    None => post == *self,
                },
                TurnState::InJail => match cmd {
                    Some(TurnCommand::PayJailFine) => b.released(post.board, JAIL_FINE as int) && post == (Game {
                        board: post.board,
                        turn_state: TurnState::StartWaitingForCommand,
                        turn_command: None,
                        ..*self
                    }),
                    Some(TurnCommand::UseJailCard) => b.released(post.board, 0) && post == (Game {
                        board: post.board,
                        turn_state: TurnState::StartWaitingForCommand,
                        turn_command: None,
                        ..*self
                    }),
                    Some(TurnCommand::Roll) => if first == second {
                        b.released(post.board, 0) && post == (Game {
                            board: post.board,
                            turn_state: TurnState::StartWaitingForCommand,
                            turn_command: None,
                            ..*self
                        })
                    } else {
                        post == (Game { turn_state: TurnState::AfterCommand, turn_command: None, ..*self })
                    },
                    Some(_) => post == (Game { turn_command: None, ..*self }),
                    None => post == *self,
                },
                TurnState::AfterCommand => {
                    &&& exists|mid: Board| b.bankruptcy_settled(mid) && mid.turn_ended(post.board)
                        && post.game_state == if count_solvent(mid.players@) <= 1 {
                            GameState::GameOver
                        } else {
                            GameState::GameRun
                        }
                    &&& post == (Game {
                        board: post.board,
                        game_state: post.game_state,
                        turn_state: TurnState::StartTurn,
                        turn_command: None,
                        ..*self
                    })
                },
                TurnState::ValidatePropIndex => if spec_parse_index(self.key_queue@) matches Some(i)
                    && i < b.current().monopoly_list(b.properties@).len() {
                    post == (Game { turn_state: TurnState::ConfirmBuySellHouseHotel, ..*self })
                } else {
                    post == (Game { turn_state: TurnState::StartWaitingForCommand, turn_command: None, ..*self })
                },
                TurnState::BuyHouseHotel => {
                    let prop = b.current().monopoly_list(b.properties@)[spec_parse_index(self.key_queue@)->0 as int];
                    &&& b.built(post.board, prop as int, buy_outcome(b.properties@[prop as int], b.current().cash as int))
                    &&& post == (Game {
                        board: post.board,
                        turn_state: TurnState::StartWaitingForCommand,
                        turn_command: None,
                        ..*self
                    })
                },
                TurnState::SellHouseHotel => {
                    let prop = b.current().monopoly_list(b.properties@)[spec_parse_index(self.key_queue@)->0 as int];
                    &&& b.built(post.board, prop as int, sell_outcome(b.properties@[prop as int]))
                    &&& post == (Game {
                        board: post.board,
                        turn_state: TurnState::StartWaitingForCommand,
                        turn_command: None,
                        ..*self
                    })
                },
                _ => post == *self,
            }
        }
    }

    /// Deals with the effect of standing on non-property, non-Chance space
    /// `space`.
    fn handle_plain_space(&mut self, space: usize)
        requires
            old(self).board.ready(),
            !old(self).board.passed_go,
            old(self).board.cash_within(BOARD_CASH_LIMIT - 10000),
            space < NUM_SPACES,
            !(old(self).board.spaces@[space as int].s_type is Prop),
            old(self).board.spaces@[space as int].s_type != SpaceEnum::Chance,
        ensures
            plain_space_resolved(old(self).board, final(self).board, space as int),
            final(self).board.ready(),
            !final(self).board.passed_go,
            *final(self) == (Game { board: final(self).board, ..*old(self) }),
    {
        match self.board.spaces[space].s_type {
            SpaceEnum::GoToJail => self.board.on_land_go_to_jail(),
            SpaceEnum::IncomeTax => self.board.on_land_income_tax(INCOME_TAX_AMT),
            SpaceEnum::LuxuryTax => self.board.on_land_luxury_tax(LUXURY_TAX_AMT),
            SpaceEnum::CommunityChest => {
                proof {
                    lemma_cash_within_widen(self.board, BOARD_CASH_LIMIT - 10000, BOARD_CASH_LIMIT as int);
                }
                self.board.on_land_comm_chest();
            },
            _ => {},
        }
    }

    /// Deals with a landing outcome that needs no card draw.
    fn handle_plain_land(&mut self, action: LandAction)
        requires
            old(self).board.ready(),
            !old(self).board.passed_go,
            old(self).board.cash_within(BOARD_CASH_LIMIT - 10000),
            old(self).board.action_ok(action),
            action matches LandAction::Space(s) ==> old(self).board.spaces@[s as int].s_type != SpaceEnum::Chance,
        ensures
            plain_land_resolved(old(self).board, final(self).board, action, final(self).turn_state),
            final(self).board.ready(),
            final(self).turn_state == TurnState::AfterCommand || (final(self).turn_state matches TurnState::ConfirmPurchase(p)
                && p < NUM_PROPERTIES && final(self).board.properties@[p as int].owner is None),
            !final(self).board.passed_go,
            *final(self) == (Game { board: final(self).board, turn_state: final(self).turn_state, turn_command: None, ..*old(self) }),
    {
        match action {
            LandAction::Rent(prop) => {
                let owner = self.board.properties[prop].get_owner();
                proof {
                    lemma_cash_within_widen(self.board, BOARD_CASH_LIMIT - 10000, BOARD_CASH_LIMIT as int);
                }
                self.board.on_rent_collected(owner, prop);
                self.turn_state = TurnState::AfterCommand;
                self.turn_command = None;
            },
            LandAction::MightPurchase(prop) => {
                self.turn_state = TurnState::ConfirmPurchase(prop);
                self.turn_command = None;
            },
            LandAction::Space(space) => {
                self.turn_state = TurnState::AfterCommand;
                self.turn_command = None;
                self.handle_plain_space(space);
            },
            _ => {
                self.turn_state = TurnState::AfterCommand;
                self.turn_command = None;
            },
        }
    }

    /// Deals with standing on non-property space `space`; on a Chance space
    /// a card is drawn and the outcome of its move is dealt with.
    pub fn handle_land_space(&mut self, space: usize)
        requires
            old(self).board.ready(),
            !old(self).board.passed_go,
            old(self).board.cash_within(BOARD_CASH_LIMIT - 20000),
            old(self).board.action_ok(LandAction::Space(space)),
        ensures
            land_resolved(old(self).board, final(self).board, LandAction::Space(space), final(self).turn_state),
            final(self).board.ready(),
            final(self).turn_state == TurnState::AfterCommand || (final(self).turn_state matches TurnState::ConfirmPurchase(p)
                && p < NUM_PROPERTIES && final(self).board.properties@[p as int].owner is None),
            !final(self).board.passed_go,
            *final(self) == (Game { board: final(self).board, turn_state: final(self).turn_state, turn_command: None, ..*old(self) }),
    {
        if self.board.spaces[space].s_type == SpaceEnum::Chance {
            let ghost pre = self.board;
            proof {
                lemma_cash_within_widen(self.board, BOARD_CASH_LIMIT - 20000, BOARD_CASH_LIMIT as int);
            }
            let action = self.board.on_land_chance();
            let ghost mid = self.board;
            proof {
                let c = choose|c: Chance| chance_drawn(pre.chance_cards@, mid.chance_cards@, c)
                    && pre.chance_applied(mid, c, action);
                let pos = pre.current().space as int;
                let pg = Board { passed_go: crate::board::chance_passes_go(c, pos), ..pre };
                assert(pre.spaces@[space as int].s_type == layout_space(space as int).0);
                lemma_chance_target_not_chance(pos, c);
                lemma_landed_action_ok(pg, mid, crate::board::chance_target(c, pos), action);
                lemma_advanced_cash(pg, mid, crate::board::chance_target(c, pos), action, BOARD_CASH_LIMIT - 20000);
                if let LandAction::Space(s) = action {
                    assert(mid.spaces@[s as int].s_type == layout_space(s as int).0);
                }
            }
            self.turn_state = TurnState::AfterCommand;
            self.turn_command = None;
            self.handle_plain_land(action);
            proof {
                let c = choose|c: Chance| chance_drawn(pre.chance_cards@, mid.chance_cards@, c)
                    && pre.chance_applied(mid, c, action);
                assert(chance_drawn(pre.chance_cards@, mid.chance_cards@, c) && pre.chance_applied(mid, c, action)
                    && mid.comm_chest_cards == pre.comm_chest_cards
                    && plain_land_resolved(mid, self.board, action, self.turn_state));
            }
        } else {
            self.turn_state = TurnState::AfterCommand;
            self.turn_command = None;
            self.handle_plain_space(space);
        }
    }

    /// Deals with what landing asked for: rent is paid, an unowned property
    /// is offered, a space takes effect; the turn moves on accordingly.
    pub fn handle_land(&mut self, action: LandAction)
        requires
            old(self).board.ready(),
            !old(self).board.passed_go,
            old(self).board.cash_within(BOARD_CASH_LIMIT - 20000),
            old(self).board.action_ok(action),
        ensures
            land_resolved(old(self).board, final(self).board, action, final(self).turn_state),
            final(self).board.ready(),
            final(self).turn_state == TurnState::AfterCommand || (final(self).turn_state matches TurnState::ConfirmPurchase(p)
                && p < NUM_PROPERTIES && final(self).board.properties@[p as int].owner is None),
            !final(self).board.passed_go,
            *final(self) == (Game { board: final(self).board, turn_state: final(self).turn_state, turn_command: None, ..*old(self) }),
    {
        match action {
            LandAction::Space(space) => self.handle_land_space(space),
            _ => self.handle_plain_land(action),
        }
    }

    /// One update of a running or finished game, with the dice `first` and
    /// `second` for a roll the current state may call for.
    pub fn step(&mut self, first: i32, second: i32)
        requires
            old(self).wf(),
            old(self).board.cash_within(GAME_CASH_LIMIT as int),
            1 <= first <= 6,
            1 <= second <= 6,
        ensures
            old(self).stepped(*final(self), first as int, second as int),
            final(self).wf(),
    {
        if self.game_state == GameState::GameOver {
            self.turn_state = TurnState::ConfirmPlayAgain;
            return;
        }
        if self.game_state != GameState::GameRun {
            return;
        }
        match self.turn_state {
            TurnState::StartTurn => {
                self.board.start_turn();
                if self.board.get_current_player().is_in_jail() {
                    self.turn_state = TurnState::InJail;
                } else {
                    self.turn_state = TurnState::StartWaitingForCommand;
                }
            },
            TurnState::StartWaitingForCommand => {
                self.turn_state = TurnState::WaitingForCommand;
            },
            TurnState::ExecutingCommand => self.execute_command(first, second),
            TurnState::InJail => self.jail_turn(first, second),
            TurnState::AfterCommand => self.after_command(),
            TurnState::ValidatePropIndex => self.validate_prop_index(),
            TurnState::BuyHouseHotel => self.change_buildings(true),
            TurnState::SellHouseHotel => self.change_buildings(false),
            _ => {},
        }
    }

    /// One update with freshly rolled dice.
    pub fn update(&mut self)
        requires
            old(self).wf(),
            old(self).board.cash_within(GAME_CASH_LIMIT as int),
        ensures
            exists|first: int, second: int| 1 <= first <= 6 && 1 <= second <= 6
                && old(self).stepped(*final(self), first, second),
            final(self).wf(),
    {
        let first = get_dice_roll_6();
        let second = get_dice_roll_6();
        self.step(first, second);
    }

    /// The current player's monopoly properties, in their listing order.
    pub fn current_monopolies(&self) -> (r: Vec<usize>)
        requires
            self.board.ready(),
        ensures
            r@ == self.board.current().monopoly_list(self.board.properties@),
            all_buildable(r@),
    {
        let pl = self.board.get_current_player();
        proof {
            lemma_holdings_len(pl.properties@);
            lemma_monopoly_list_buildable(*pl, self.board.properties@);
        }
        pl.get_monopolies(&self.board.properties)
    }

    /// Carries out the pending command.
    fn execute_command(&mut self, first: i32, second: i32)
        requires
            old(self).wf(),
            old(self).board.cash_within(GAME_CASH_LIMIT as int),
            old(self).game_state == GameState::GameRun,
            old(self).turn_state == TurnState::ExecutingCommand,
            1 <= first <= 6,
            1 <= second <= 6,
        ensures
            old(self).stepped(*final(self), first as int, second as int),
            final(self).wf(),
    {
        match self.turn_command {
            Some(TurnCommand::Roll) => {
                let roll = (first + second) as usize;
                proof {
                    lemma_cash_within_widen(self.board, GAME_CASH_LIMIT as int, BOARD_CASH_LIMIT as int);
                }
                let ghost pre = self.board;
                let action = self.board.land_after_roll(roll);
                proof {
                    let raw = pre.current().space + roll;
                    let pg = Board { passed_go: raw >= NUM_SPACES, ..pre };
                    lemma_landed_action_ok(pg, self.board, raw % (NUM_SPACES as int), action);
                    lemma_advanced_cash(pg, self.board, raw % (NUM_SPACES as int), action, GAME_CASH_LIMIT as int);
                    lemma_cash_within_widen(self.board, GAME_CASH_LIMIT + 200, BOARD_CASH_LIMIT - 20000);
                }
                let ghost mid = self.board;
                self.handle_land(action);
                proof {
                    assert(pre.rolled(mid, first + second, action) && mid.chance_cards == pre.chance_cards
                        && mid.comm_chest_cards == pre.comm_chest_cards
                        && land_resolved(mid, self.board, action, self.turn_state));
                }
            },
            Some(TurnCommand::Quit) => {
                self.turn_state = TurnState::ConfirmQuit;
                self.turn_command = None;
            },
            Some(TurnCommand::Assets) => {
                self.turn_state = TurnState::StartWaitingForCommand;
                self.turn_command = None;
            },
            Some(TurnCommand::HouseHotel) => {
                let monopolies = self.current_monopolies();
                if monopolies.len() == 0 {
                    self.turn_state = TurnState::StartWaitingForCommand;
                } else {
                    self.key_queue = Vec::new();
                    self.turn_state = TurnState::EnterPropIndex;
                }
                self.turn_command = None;
            },
            Some(_) => {
                self.turn_command = None;
            },
            None => {},
        }
    }

    /// A jailed player's turn: pay the fine, roll for doubles or use a
    /// card.
    fn jail_turn(&mut self, first: i32, second: i32)
        requires
            old(self).wf(),
            old(self).board.cash_within(GAME_CASH_LIMIT as int),
            old(self).game_state == GameState::GameRun,
            old(self).turn_state == TurnState::InJail,
        ensures
            old(self).stepped(*final(self), first as int, second as int),
            final(self).wf(),
    {
        match self.turn_command {
            Some(TurnCommand::PayJailFine) => {
                self.board.pay_jail_fine(JAIL_FINE);
                self.turn_state = TurnState::StartWaitingForCommand;
                self.turn_command = None;
            },
            Some(TurnCommand::Roll) => {
                if first == second {
                    self.board.release_from_jail();
                    self.turn_state = TurnState::StartWaitingForCommand;
                } else {
                    self.turn_state = TurnState::AfterCommand;
                }
                self.turn_command = None;
            },
            Some(TurnCommand::UseJailCard) => {
                self.board.release_from_jail();
                self.turn_state = TurnState::StartWaitingForCommand;
                self.turn_command = None;
            },
            Some(_) => {
                self.turn_command = None;
            },
            None => {},
        }
    }

    /// Ends the turn: settles bankruptcy, ends the game when one solvent
    /// player (or none) is left, and passes the turn on.
    fn after_command(&mut self)
        requires
            old(self).wf(),
            old(self).game_state == GameState::GameRun,
            old(self).turn_state == TurnState::AfterCommand,
        ensures
            old(self).stepped(*final(self), 0, 0),
            forall|a: int, b: int| old(self).stepped(*final(self), a, b),
            final(self).wf(),
    {
        self.board.handle_bankruptcy();
        let ghost mid = self.board;
        let remaining = self.board.get_num_remaining_players();
        if remaining <= 1 {
            self.game_state = GameState::GameOver;
        }
        self.board.end_turn();
        self.turn_state = TurnState::StartTurn;
        self.turn_command = None;
        proof {
            lemma_count_by_cash(mid.players@, self.board.players@);
        }
    }

    /// Checks the typed property index against the current player's
    /// monopoly properties.
    fn validate_prop_index(&mut self)
        requires
            old(self).wf(),
            old(self).game_state == GameState::GameRun,
            old(self).turn_state == TurnState::ValidatePropIndex,
        ensures
            forall|a: int, b: int| old(self).stepped(*final(self), a, b),
            final(self).wf(),
    {
        let parsed = parse_index(&self.key_queue);
        let monopolies = self.current_monopolies();
        let mut valid = false;
        if let Some(i) = parsed {
            if i < monopolies.len() {
                valid = true;
            }
        }
        if valid {
            self.turn_state = TurnState::ConfirmBuySellHouseHotel;
        } else {
            self.turn_state = TurnState::StartWaitingForCommand;
            self.turn_command = None;
        }
    }

    /// Buys (`buy`) or sells a building on the chosen monopoly property.
    fn change_buildings(&mut self, buy: bool)
        requires
            old(self).wf(),
            old(self).board.cash_within(GAME_CASH_LIMIT as int),
            old(self).game_state == GameState::GameRun,
            old(self).turn_state == if buy { TurnState::BuyHouseHotel } else { TurnState::SellHouseHotel },
        ensures
            forall|a: int, b: int| old(self).stepped(*final(self), a, b),
            final(self).wf(),
    {
        let index = match parse_index(&self.key_queue) {
            Some(i) => i,
            None => 0,
        };
        let monopolies = self.current_monopolies();
        let prop = monopolies[index];
        proof {
            assert(self.board.properties@[prop as int].color_group == layout_property(prop as int).3);
            lemma_cash_within_widen(self.board, GAME_CASH_LIMIT as int, BOARD_CASH_LIMIT as int);
        }
        if buy {
            let r = self.board.buy_house_hotel(prop);
        } else {
            let r = self.board.sell_house_hotel(prop);
        }
        self.turn_state = TurnState::StartWaitingForCommand;
        self.turn_command = None;
    }

    /// A "yes": leaves a lost game for a new setup, confirms quitting, or
    /// buys the property on offer.
    fn answer_yes(&mut self) -> (r: GameAction)
        requires
            old(self).wf(),
            old(self).board.cash_within(GAME_CASH_LIMIT as int),
        ensures
            final(self).wf(),
            r == GameAction::Exit <==> (old(self).game_state == GameState::GameRun
                && old(self).turn_state == TurnState::ConfirmQuit),
            r == GameAction::Exit ==> *final(self) == *old(self),
            old(self).game_state == GameState::GameOver ==> final(self).game_state == GameState::GameStateSetup
                && final(self).turn_state == TurnState::StartTurn && final(self).turn_command is None
                && final(self).board == old(self).board && final(self).key_queue == old(self).key_queue,
            old(self).game_state != GameState::GameOver ==> final(self).game_state == old(self).game_state,
            old(self).game_state == GameState::GameRun ==> (old(self).turn_state matches TurnState::ConfirmPurchase(p) ==> {
                &&& final(self).turn_state == TurnState::AfterCommand
                &&& final(self).turn_command is None
                &&& final(self).board.properties@[p as int].owner == Some(old(self).board.player_turn)
                &&& final(self).board.current().cash == old(self).board.current().cash
                    - old(self).board.properties@[p as int].purchase_price
            }),
            (old(self).game_state != GameState::GameOver && !(old(self).game_state == GameState::GameRun
                && old(self).turn_state matches TurnState::ConfirmPurchase(_))) ==> *final(self) == *old(self),
    {
        if self.game_state == GameState::GameOver {
            self.game_state = GameState::GameStateSetup;
            self.turn_state = TurnState::StartTurn;
            self.turn_command = None;
            return GameAction::Continue;
        }
        if self.game_state == GameState::GameRun {
            if self.turn_state == TurnState::ConfirmQuit {
                return GameAction::Exit;
            }
            if let TurnState::ConfirmPurchase(prop) = self.turn_state {
                proof {
                    lemma_cash_within_widen(self.board, GAME_CASH_LIMIT as int, crate::board::BOARD_CASH_LIMIT as int);
                }
                self.board.on_purchase(prop);
                self.turn_state = TurnState::AfterCommand;
                self.turn_command = None;
            }
        }
        GameAction::Continue
    }

    /// A "no": ends the program from a lost game, cancels quitting, or
    /// declines the property on offer.
    fn answer_no(&mut self) -> (r: GameAction)
        requires
            old(self).wf(),
        ensures
            final(self).wf(),
            r == GameAction::Exit <==> old(self).game_state == GameState::GameOver,
            r == GameAction::Exit ==> *final(self) == *old(self),
            final(self).game_state == old(self).game_state,
            final(self).board == old(self).board,
            final(self).key_queue == old(self).key_queue,
            (old(self).game_state == GameState::GameRun && old(self).turn_state == TurnState::ConfirmQuit)
                ==> final(self).turn_state == TurnState::StartWaitingForCommand && final(self).turn_command is None,
            (old(self).game_state == GameState::GameRun && old(self).turn_state matches TurnState::ConfirmPurchase(_))
                ==> final(self).turn_state == TurnState::AfterCommand && final(self).turn_command is None,
            !(old(self).game_state == GameState::GameRun && (old(self).turn_state == TurnState::ConfirmQuit
                || old(self).turn_state matches TurnState::ConfirmPurchase(_))) ==> *final(self) == *old(self),
    {
        if self.game_state == GameState::GameOver {
            return GameAction::Exit;
        }
        if self.game_state == GameState::GameRun {
            if self.turn_state == TurnState::ConfirmQuit {
                self.turn_state = TurnState::StartWaitingForCommand;
                self.turn_command = None;
            } else if let TurnState::ConfirmPurchase(_) = self.turn_state {
                self.turn_state = TurnState::AfterCommand;
                self.turn_command = None;
            }
        }
        GameAction::Continue
    }

    /// Reacts to a key press. Keys that mean nothing in the current state
    /// change nothing; `Exit` asks the program to end.
    pub fn handle_key_input(&mut self, key: Key) -> (r: GameAction)
        requires
            old(self).wf(),
            old(self).board.cash_within(GAME_CASH_LIMIT as int),
            key matches Key::Digit(d) ==> d < 10,
        ensures
            final(self).wf(),
            r == GameAction::Exit <==> ((key == Key::Y && old(self).game_state == GameState::GameRun
                && old(self).turn_state == TurnState::ConfirmQuit) || (key == Key::N && old(self).game_state
                == GameState::GameOver)),
            r == GameAction::Exit ==> *final(self) == *old(self),
            !key_applies(key, old(self).game_state, old(self).turn_state) ==> *final(self) == *old(self),
            !(key == Key::Y && old(self).game_state == GameState::GameRun && old(self).turn_state is ConfirmPurchase)
                ==> final(self).board == old(self).board,
            final(self).game_state == if key == Key::Y && old(self).game_state == GameState::GameOver {
                GameState::GameStateSetup
            } else {
                old(self).game_state
            },
            ({
                let ts = old(self).turn_state;
                let gs = old(self).game_state;
                &&& key == Key::R && ts == TurnState::WaitingForCommand ==> final(self).turn_state
                    == TurnState::ExecutingCommand && final(self).turn_command == Some(TurnCommand::Roll)
                &&& key == Key::R && ts == TurnState::InJail ==> final(self).turn_state == ts
                    && final(self).turn_command == Some(TurnCommand::Roll)
                &&& key == Key::C && ts == TurnState::InJail ==> final(self).turn_state == ts
                    && final(self).turn_command == Some(TurnCommand::UseJailCard)
                &&& key == Key::Q && ts == TurnState::WaitingForCommand ==> final(self).turn_state
                    == TurnState::ExecutingCommand && final(self).turn_command == Some(TurnCommand::Quit)
                &&& key == Key::A && ts == TurnState::WaitingForCommand ==> final(self).turn_state
                    == TurnState::ExecutingCommand && final(self).turn_command == Some(TurnCommand::Assets)
                &&& key == Key::H && ts == TurnState::WaitingForCommand ==> final(self).turn_state
                    == TurnState::ExecutingCommand && final(self).turn_command == Some(TurnCommand::HouseHotel)
                &&& key == Key::P && ts == TurnState::InJail ==> final(self).turn_state == ts
                    && final(self).turn_command == if old(self).board.current().cash >= JAIL_FINE {
                        Some(TurnCommand::PayJailFine)
                    } else {
                        old(self).turn_command
                    }
                &&& key == Key::B && ts == TurnState::ConfirmBuySellHouseHotel ==> final(self).turn_state
                    == TurnState::BuyHouseHotel
                &&& key == Key::S && ts == TurnState::ConfirmBuySellHouseHotel ==> final(self).turn_state
                    == TurnState::SellHouseHotel
                &&& key == Key::Y && gs == GameState::GameOver ==> final(self).turn_state == TurnState::StartTurn
                    && final(self).turn_command is None
                &&& key == Key::N && gs == GameState::GameRun && ts == TurnState::ConfirmQuit
                    ==> final(self).turn_state == TurnState::StartWaitingForCommand && final(self).turn_command is None
                &&& gs == GameState::GameRun ==> (ts matches TurnState::ConfirmPurchase(p) ==> {
                    &&& key == Key::Y ==> final(self).turn_state == TurnState::AfterCommand
                        && final(self).turn_command is None
                        && final(self).board.properties@[p as int].owner == Some(old(self).board.player_turn)
                        && final(self).board.current().cash == old(self).board.current().cash
                            - old(self).board.properties@[p as int].purchase_price
                    &&& key == Key::N ==> final(self).turn_state == TurnState::AfterCommand
                        && final(self).turn_command is None && final(self).board == old(self).board
                })
                &&& (key matches Key::Digit(d) ==> (ts == TurnState::EnterPropIndex ==> final(self).key_queue@
                    == old(self).key_queue@.push((DIGIT_ZERO + d) as u8)))
                &&& key == Key::Return && ts == TurnState::EnterPropIndex ==> final(self).turn_state
                    == TurnState::ValidatePropIndex
                &&& key == Key::Other ==> final(self).turn_state == ts && final(self).turn_command is None
                    && final(self).board == old(self).board
            }),
    {
        let ghost pre = *old(self);
        match key {
            Key::R => {
                if self.turn_state == TurnState::WaitingForCommand {
                    self.turn_state = TurnState::ExecutingCommand;
                    self.turn_command = Some(TurnCommand::Roll);
                } else if self.turn_state == TurnState::InJail {
                    self.turn_command = Some(TurnCommand::Roll);
                }
            },
            Key::C => {
                if self.turn_state == TurnState::InJail {
                    self.turn_command = Some(TurnCommand::UseJailCard);
                }
            },
            Key::Q => {
                if self.turn_state == TurnState::WaitingForCommand {
                    self.turn_state = TurnState::ExecutingCommand;
                    self.turn_command = Some(TurnCommand::Quit);
                }
            },
            Key::B => {
                if self.turn_state == TurnState::ConfirmBuySellHouseHotel {
                    self.turn_state = TurnState::BuyHouseHotel;
                }
            },
            Key::S => {
                if self.turn_state == TurnState::ConfirmBuySellHouseHotel {
                    self.turn_state = TurnState::SellHouseHotel;
                }
            },
            Key::Y => {
                return self.answer_yes();
            },
            Key::N => {
                return self.answer_no();
            },
            Key::A => {
                if self.turn_state == TurnState::WaitingForCommand {
                    self.turn_state = TurnState::ExecutingCommand;
                    self.turn_command = Some(TurnCommand::Assets);
                }
            },
            Key::P => {
                if self.turn_state == TurnState::InJail && self.board.get_current_player().get_cash() >= JAIL_FINE {
                    self.turn_command = Some(TurnCommand::PayJailFine);
                }
            },
            Key::H => {
                if self.turn_state == TurnState::WaitingForCommand {
                    self.turn_state = TurnState::ExecutingCommand;
                    self.turn_command = Some(TurnCommand::HouseHotel);
                }
            },
            Key::Digit(d) => {
                if self.turn_state == TurnState::EnterPropIndex {
                    self.key_queue.push(DIGIT_ZERO + d);
                    proof {
                        assert(forall|i: int| 0 <= i < pre.key_queue.len() ==> self.key_queue@[i] == pre.key_queue@[i]);
                    }
                }
            },
            Key::Return => {
                if self.turn_state == TurnState::EnterPropIndex {
                    self.turn_state = TurnState::ValidatePropIndex;
                }
            },
            Key::Other => {
                self.turn_command = None;
            },
        }
        GameAction::Continue
    }
}

/// Players with the same cash, seat by seat, have the same number of
/// solvent ones.
proof fn lemma_count_by_cash(a: Seq<Player>, b: Seq<Player>)
    requires
        a.len() == b.len(),
        forall|i: int| 0 <= i < a.len() ==> (#[trigger] a[i]).cash == b[i].cash,
    ensures
        count_solvent(a) == count_solvent(b),
    decreases a.len(),
{
    if a.len() > 0 {
        assert(a.drop_last().len() == b.drop_last().len());
        assert forall|i: int| 0 <= i < a.drop_last().len() implies (#[trigger] a.drop_last()[i]).cash == b.drop_last()[i].cash by {
            assert(a[i].cash == b[i].cash);
        }
        lemma_count_by_cash(a.drop_last(), b.drop_last());
        assert(a.last().cash == b.last().cash);
    }
}

/// Joining two lists of buildable properties gives one.
proof fn lemma_concat_buildable(a: Seq<usize>, b: Seq<usize>)
    requires
        all_buildable(a),
        all_buildable(b),
    ensures
        all_buildable(a + b),
{
    assert forall|i: int| 0 <= i < (a + b).len() implies (#[trigger] (a + b)[i]) < NUM_PROPERTIES
        && is_buildable(layout_property((a + b)[i] as int).3) by {
        if i < a.len() {
            assert((a + b)[i] == a[i]);
        } else {
            assert((a + b)[i] == b[i - a.len()]);
        }
    }
}

/// The monopoly list of any player holds only properties of buildable
/// groups.
proof fn lemma_monopoly_list_buildable(pl: Player, props: Seq<crate::property::Property>)
    ensures
        all_buildable(pl.monopoly_list(props)),
{
    let gs = buildable_groups();
    assert forall|k: int| 0 <= k < 8 implies all_buildable(#[trigger] pl.monopoly_part(props, gs[k])) by {
        let m = group_members(gs[k]);
        assert forall|i: int| 0 <= i < pl.monopoly_part(props, gs[k]).len() implies
            (#[trigger] pl.monopoly_part(props, gs[k])[i]) < NUM_PROPERTIES
            && is_buildable(layout_property(pl.monopoly_part(props, gs[k])[i] as int).3) by {
            assert(pl.monopoly_part(props, gs[k])[i] == m[i]);
        }
    }
    let p0 = pl.monopoly_part(props, gs[0]);
    let p1 = pl.monopoly_part(props, gs[1]);
    let p2 = pl.monopoly_part(props, gs[2]);
    let p3 = pl.monopoly_part(props, gs[3]);
    let p4 = pl.monopoly_part(props, gs[4]);
    let p5 = pl.monopoly_part(props, gs[5]);
    let p6 = pl.monopoly_part(props, gs[6]);
    let p7 = pl.monopoly_part(props, gs[7]);
    lemma_concat_buildable(p0, p1);
    lemma_concat_buildable(p0 + p1, p2);
    lemma_concat_buildable(p0 + p1 + p2, p3);
    lemma_concat_buildable(p0 + p1 + p2 + p3, p4);
    lemma_concat_buildable(p0 + p1 + p2 + p3 + p4, p5);
    lemma_concat_buildable(p0 + p1 + p2 + p3 + p4 + p5, p6);
    lemma_concat_buildable(p0 + p1 + p2 + p3 + p4 + p5 + p6, p7);
}

/// A board whose cash lies within a limit lies within any larger one.
pub proof fn lemma_cash_within_widen(b: Board, small: int, large: int)
    requires
        b.cash_within(small),
        small <= large,
    ensures
        b.cash_within(large),
{
}

} // verus!
