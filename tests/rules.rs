use monopoly::board::{Board, BuildOutcome, next_railroad, next_utility};
use monopoly::cards::{Chance, CommunityChest, chance_deck, key_order};
use monopoly::dice::{get_dice_roll_12, get_dice_roll_6, shuffle_keys};
use monopoly::game::{Game, GameAction, GameState, Key, TurnCommand, TurnState, parse_index};
use monopoly::input::{answer_from_word, color_from_word, command_from_word, is_valid_player_count};
use monopoly::player::{LandAction, Player, TokenColor};
use monopoly::property::{ColorGroup, Property, PropertyError};
use monopoly::space::Space;

fn two_player_game() -> Game {
    let mut g = Game::new();
    g.setup_game(
        vec!["Ann".to_string(), "Bob".to_string()],
        vec![TokenColor::Red, TokenColor::Blue],
        vec![3, 9],
    );
    g
}

fn give(b: &mut Board, player: usize, prop: usize) {
    let saved = b.player_turn;
    b.player_turn = player;
    b.on_purchase(prop);
    b.player_turn = saved;
}

#[test]
fn railroad_rent_doubles_with_each_railroad() {
    let mut g = two_player_game();
    let railroads = [2usize, 10, 17, 25];
    let expected = [25, 50, 100, 200];
    for k in 0..4 {
        give(&mut g.board, 1, railroads[k]);
        assert_eq!(g.board.get_rent(2), expected[k]);
    }
}

#[test]
fn utility_rent_is_four_or_ten_times_base() {
    let mut g = two_player_game();
    give(&mut g.board, 1, 7);
    assert_eq!(g.board.get_rent(7), 32);
    give(&mut g.board, 1, 20);
    assert_eq!(g.board.get_rent(7), 80);
    assert_eq!(g.board.get_rent(20), 80);
}

#[test]
fn unimproved_monopoly_triples_rent() {
    let mut g = two_player_game();
    give(&mut g.board, 1, 0);
    assert_eq!(g.board.get_rent(0), 2);
    give(&mut g.board, 1, 1);
    assert_eq!(g.board.get_rent(0), 6);
    assert_eq!(g.board.get_rent(1), 12);
}

#[test]
fn improved_monopoly_rent_counts_buildings() {
    let mut g = two_player_game();
    give(&mut g.board, 1, 26);
    give(&mut g.board, 1, 27);
    g.board.properties[27].num_houses = 3;
    assert_eq!(g.board.get_rent(27), 50 * 3 * 5);
    g.board.properties[27].num_houses = 0;
    g.board.properties[27].num_hotels = 1;
    assert_eq!(g.board.get_rent(27), 50 * 40);
}

#[test]
fn monopoly_needs_the_whole_group() {
    let mut g = two_player_game();
    give(&mut g.board, 0, 3);
    give(&mut g.board, 0, 4);
    let p = &g.board.players[0];
    assert_eq!(p.get_num_props(&g.board.properties, &ColorGroup::LightBlue), 2);
    assert!(!p.has_monopoly(&g.board.properties, ColorGroup::LightBlue));
    give(&mut g.board, 0, 5);
    let p = &g.board.players[0];
    assert!(p.has_monopoly(&g.board.properties, ColorGroup::LightBlue));
    assert!(p.has_monopoly_cg(&g.board.properties, &ColorGroup::LightBlue));
    assert!(!p.has_monopoly(&g.board.properties, ColorGroup::Railroad));
    assert_eq!(p.get_monopolies(&g.board.properties), vec![3, 4, 5]);
}

#[test]
fn monopolies_are_listed_in_canonical_order() {
    let mut g = two_player_game();
    for id in [22usize, 23, 24, 0, 1] {
        give(&mut g.board, 0, id);
    }
    let p = &g.board.players[0];
    assert_eq!(p.get_monopolies(&g.board.properties), vec![0, 1, 24, 23, 22]);
}

#[test]
fn purchase_deducts_price_and_records_owner() {
    let mut g = two_player_game();
    let t = g.board.player_turn;
    let before = g.board.players[t].get_cash();
    g.board.on_purchase(27);
    assert_eq!(g.board.players[t].get_cash(), before - 400);
    assert_eq!(g.board.properties[27].owner, Some(t));
    assert!(g.board.players[t].get_properties().contains(&27));
}

#[test]
fn player_purchase_pays_the_price() {
    let mut p = Player::new("Cy".to_string(), 0, TokenColor::Green);
    let prop = Property::new("Park Place".to_string(), 350, 35, ColorGroup::DarkBlue);
    p.purchase(26, &prop);
    assert_eq!(p.get_cash(), 1150);
    assert_eq!(p.get_properties(), &vec![26]);
    p.add_property(26);
    assert_eq!(p.get_properties(), &vec![26]);
}

#[test]
fn property_already_owned_cannot_be_bought() {
    let mut prop = Property::new("Boardwalk".to_string(), 400, 50, ColorGroup::DarkBlue);
    assert_eq!(prop.purchase(1), Ok(()));
    assert_eq!(prop.get_owner(), 1);
    assert_eq!(prop.purchase(2), Err(PropertyError::AlreadyOwned));
    assert_eq!(prop.get_owner(), 1);
}

#[test]
fn passing_go_pays_one_salary() {
    let mut g = two_player_game();
    let t = g.board.player_turn;
    g.board.players[t].space = 35;
    let a = g.board.land_after_roll(9);
    assert_eq!(g.board.players[t].get_space(), 4);
    assert_eq!(g.board.players[t].get_cash(), 1700);
    assert_eq!(a, LandAction::Space(4));
}

#[test]
fn landing_exactly_on_go_pays_one_salary() {
    let mut g = two_player_game();
    let t = g.board.player_turn;
    g.board.players[t].space = 38;
    g.turn_state = TurnState::ExecutingCommand;
    g.turn_command = Some(TurnCommand::Roll);
    g.step(1, 1);
    assert_eq!(g.board.players[t].get_space(), 0);
    assert_eq!(g.board.players[t].get_cash(), 1700);
    assert_eq!(g.turn_state, TurnState::AfterCommand);
}

#[test]
fn move_without_passing_go_pays_nothing() {
    let mut g = two_player_game();
    let t = g.board.player_turn;
    let a = g.board.land_after_roll(6);
    assert_eq!(g.board.players[t].get_space(), 6);
    assert_eq!(g.board.players[t].get_cash(), 1500);
    assert_eq!(a, LandAction::MightPurchase(3));
}

#[test]
fn bankrupt_debtor_assets_go_to_creditor() {
    let mut g = two_player_game();
    give(&mut g.board, 0, 1);
    give(&mut g.board, 0, 3);
    give(&mut g.board, 1, 5);
    g.board.player_turn = 0;
    g.board.players[0].cash = -10;
    g.board.players[0].set_creditor(Some(1));
    g.board.handle_bankruptcy();
    assert_eq!(g.board.properties[1].owner, Some(1));
    assert_eq!(g.board.properties[3].owner, Some(1));
    assert!(g.board.players[0].get_properties().is_empty());
    assert_eq!(g.board.players[1].get_properties(), &vec![5, 1, 3]);
}

#[test]
fn bankrupt_without_creditor_returns_assets_to_bank() {
    let mut g = two_player_game();
    give(&mut g.board, 0, 1);
    g.board.player_turn = 0;
    g.board.players[0].cash = 0;
    g.board.handle_bankruptcy();
    assert_eq!(g.board.properties[1].owner, None);
    assert!(g.board.players[0].get_properties().is_empty());
}

#[test]
fn solvent_player_keeps_assets() {
    let mut g = two_player_game();
    give(&mut g.board, 0, 1);
    g.board.player_turn = 0;
    g.board.players[0].set_creditor(Some(1));
    g.board.handle_bankruptcy();
    assert_eq!(g.board.properties[1].owner, Some(0));
}

#[test]
fn nearest_railroad_from_free_parking_and_luxury_tax() {
    assert_eq!(next_railroad(20), 25);
    assert_eq!(next_railroad(38), 5);
    let mut g = two_player_game();
    let t = g.board.player_turn;
    g.board.players[t].space = 20;
    assert_eq!(g.board.get_nearest_railroad(), 25);
    g.board.players[t].space = 38;
    assert_eq!(g.board.get_nearest_railroad(), 5);
}

#[test]
fn nearest_utility_wraps() {
    assert_eq!(next_utility(7), 12);
    assert_eq!(next_utility(22), 28);
    assert_eq!(next_utility(36), 12);
    assert_eq!(next_utility(12), 28);
}

#[test]
fn confirmed_purchase_of_offered_property() {
    let mut g = two_player_game();
    let t = g.board.player_turn;
    g.board.players[t].cash = 500;
    g.board.players[t].space = 29;
    let a = g.board.land_after_roll(3);
    assert_eq!(a, LandAction::MightPurchase(23));
    g.handle_land(a);
    assert_eq!(g.turn_state, TurnState::ConfirmPurchase(23));
    assert_eq!(g.handle_key_input(Key::Y), GameAction::Continue);
    assert_eq!(g.board.players[t].get_cash(), 200);
    assert_eq!(g.board.properties[23].owner, Some(t));
    assert_eq!(g.turn_state, TurnState::AfterCommand);
}

#[test]
fn declined_purchase_changes_nothing() {
    let mut g = two_player_game();
    let t = g.board.player_turn;
    let a = g.board.land_after_roll(1);
    assert_eq!(a, LandAction::MightPurchase(0));
    g.handle_land(a);
    g.handle_key_input(Key::N);
    assert_eq!(g.turn_state, TurnState::AfterCommand);
    assert_eq!(g.board.properties[0].owner, None);
    assert_eq!(g.board.players[t].get_cash(), 1500);
}

#[test]
fn poor_player_cannot_buy() {
    let mut g = two_player_game();
    let t = g.board.player_turn;
    g.board.players[t].cash = 50;
    let a = g.board.land_after_roll(1);
    assert_eq!(a, LandAction::InsFunds(0));
}

#[test]
fn chance_deck_reshuffles_after_five_draws() {
    let mut b = Board::new();
    b.chance_cards = vec![
        Chance::AdvanceToGo,
        Chance::AdvanceToNearestUtility,
        Chance::AdvanceToNearestRailroad,
        Chance::GoBack3Spaces,
        Chance::AdvanceToBoardwalk,
    ];
    assert_eq!(b.draw_chance(), Chance::AdvanceToGo);
    assert_eq!(b.draw_chance(), Chance::AdvanceToNearestUtility);
    assert_eq!(b.draw_chance(), Chance::AdvanceToNearestRailroad);
    assert_eq!(b.draw_chance(), Chance::GoBack3Spaces);
    assert_eq!(b.draw_chance(), Chance::AdvanceToBoardwalk);
    assert!(b.chance_cards.is_empty());
    let sixth = b.draw_chance();
    assert!(b.chance_cards.len() <= 4);
    assert!(!b.chance_cards.contains(&sixth));
}

#[test]
fn community_chest_deck_reshuffles_when_empty() {
    let mut b = Board::new();
    let c = b.draw_comm_chest();
    assert!(b.comm_chest_cards.len() <= 3);
    assert!(!b.comm_chest_cards.contains(&c));
}

#[test]
fn selling_houses_refunds_half_the_cost() {
    let mut g = two_player_game();
    let t = g.board.player_turn;
    for id in [3usize, 4, 5] {
        give(&mut g.board, t, id);
        g.board.properties[id].num_houses = 1;
    }
    let mut cash = g.board.players[t].get_cash();
    for id in [3usize, 4, 5] {
        assert_eq!(g.board.sell_house_hotel(id), BuildOutcome::SoldHouse);
        assert_eq!(g.board.players[t].get_cash(), cash + 40);
        assert_eq!(g.board.properties[id].num_houses, 0);
        cash += 40;
    }
    assert_eq!(g.board.sell_house_hotel(3), BuildOutcome::NothingToSell);
    assert_eq!(g.board.players[t].get_cash(), cash);
}

#[test]
fn selling_through_the_turn_menu() {
    let mut g = two_player_game();
    let t = g.board.player_turn;
    for id in [3usize, 4, 5] {
        give(&mut g.board, t, id);
        g.board.properties[id].num_houses = 1;
    }
    let cash = g.board.players[t].get_cash();
    g.turn_state = TurnState::WaitingForCommand;
    g.handle_key_input(Key::H);
    assert_eq!(g.turn_state, TurnState::ExecutingCommand);
    g.step(1, 2);
    assert_eq!(g.turn_state, TurnState::EnterPropIndex);
    g.handle_key_input(Key::Digit(1));
    g.handle_key_input(Key::Return);
    g.step(1, 2);
    assert_eq!(g.turn_state, TurnState::ConfirmBuySellHouseHotel);
    g.handle_key_input(Key::S);
    g.step(1, 2);
    assert_eq!(g.turn_state, TurnState::StartWaitingForCommand);
    assert_eq!(g.board.properties[4].num_houses, 0);
    assert_eq!(g.board.players[t].get_cash(), cash + 40);
}

#[test]
fn out_of_range_index_returns_to_menu() {
    let mut g = two_player_game();
    let t = g.board.player_turn;
    give(&mut g.board, t, 0);
    give(&mut g.board, t, 1);
    g.turn_state = TurnState::EnterPropIndex;
    g.handle_key_input(Key::Digit(7));
    g.handle_key_input(Key::Return);
    g.step(1, 2);
    assert_eq!(g.turn_state, TurnState::StartWaitingForCommand);
}

#[test]
fn buying_fifth_building_converts_to_hotel() {
    let mut g = two_player_game();
    let t = g.board.player_turn;
    give(&mut g.board, t, 26);
    give(&mut g.board, t, 27);
    let start = g.board.players[t].get_cash();
    for k in 0..4 {
        assert_eq!(g.board.buy_house_hotel(27), BuildOutcome::BoughtHouse);
        assert_eq!(g.board.properties[27].num_houses, k + 1);
    }
    assert_eq!(g.board.buy_house_hotel(27), BuildOutcome::BoughtHotel);
    assert_eq!(g.board.properties[27].num_houses, 0);
    assert_eq!(g.board.properties[27].num_hotels, 1);
    assert_eq!(g.board.players[t].get_cash(), start - 4 * 80 - 160);
    assert_eq!(g.board.buy_house_hotel(27), BuildOutcome::FullyImproved);
    assert_eq!(g.board.sell_house_hotel(27), BuildOutcome::SoldHotel);
    assert_eq!(g.board.properties[27].num_houses, 4);
    assert_eq!(g.board.properties[27].num_hotels, 0);
    assert_eq!(g.board.players[t].get_cash(), start - 4 * 80 - 160 + 80);
}

#[test]
fn building_needs_the_money() {
    let mut g = two_player_game();
    let t = g.board.player_turn;
    give(&mut g.board, t, 26);
    give(&mut g.board, t, 27);
    g.board.players[t].cash = 79;
    assert_eq!(g.board.buy_house_hotel(26), BuildOutcome::CannotAfford);
    assert_eq!(g.board.properties[26].num_houses, 0);
    g.board.properties[26].num_houses = 4;
    g.board.players[t].cash = 159;
    assert_eq!(g.board.buy_house_hotel(26), BuildOutcome::CannotAfford);
    assert_eq!(g.board.players[t].get_cash(), 159);
}

#[test]
fn rent_moves_to_owner_who_becomes_creditor() {
    let mut g = two_player_game();
    let t = g.board.player_turn;
    let other = 1 - t;
    give(&mut g.board, other, 27);
    g.board.players[t].space = 37;
    let a = g.board.land_after_roll(2);
    assert_eq!(a, LandAction::Rent(27));
    g.handle_land(a);
    assert_eq!(g.board.players[t].get_cash(), 1450);
    assert_eq!(g.board.players[other].get_cash(), 1550 - 400);
    assert_eq!(g.board.players[t].get_creditor(), Some(other));
    assert_eq!(g.turn_state, TurnState::AfterCommand);
}

#[test]
fn own_property_asks_nothing() {
    let mut g = two_player_game();
    let t = g.board.player_turn;
    give(&mut g.board, t, 0);
    let a = g.board.land_after_roll(1);
    assert_eq!(a, LandAction::Own(0));
}

#[test]
fn go_to_jail_skips_go_salary() {
    let mut g = two_player_game();
    let t = g.board.player_turn;
    g.board.players[t].space = 27;
    let a = g.board.land_after_roll(3);
    assert_eq!(a, LandAction::Space(30));
    g.handle_land(a);
    assert_eq!(g.board.players[t].get_space(), 10);
    assert!(g.board.players[t].is_in_jail());
    assert_eq!(g.board.players[t].get_cash(), 1500);
    assert!(g.board.spaces[10].players.contains(&t));
    assert!(!g.board.spaces[30].players.contains(&t));
}

#[test]
fn taxes_are_charged() {
    let mut g = two_player_game();
    let t = g.board.player_turn;
    let a = g.board.land_after_roll(4);
    g.handle_land(a);
    assert_eq!(g.board.players[t].get_cash(), 1300);
    g.board.players[t].space = 36;
    let a = g.board.land_after_roll(2);
    g.handle_land(a);
    assert_eq!(g.board.players[t].get_cash(), 1225);
}

#[test]
fn chance_cards_move_the_player() {
    let mut g = two_player_game();
    let t = g.board.player_turn;
    g.board.players[t].space = 7;
    assert_eq!(g.board.apply_chance(Chance::AdvanceToGo), LandAction::Space(0));
    assert_eq!(g.board.players[t].get_cash(), 1700);
    g.board.players[t].space = 36;
    assert_eq!(g.board.apply_chance(Chance::GoBack3Spaces), LandAction::Space(33));
    assert_eq!(g.board.players[t].get_cash(), 1700);
    g.board.players[t].space = 36;
    assert_eq!(g.board.apply_chance(Chance::AdvanceToNearestRailroad), LandAction::MightPurchase(2));
    assert_eq!(g.board.players[t].get_space(), 5);
    assert_eq!(g.board.players[t].get_cash(), 1900);
    g.board.players[t].space = 22;
    assert_eq!(g.board.apply_chance(Chance::AdvanceToBoardwalk), LandAction::MightPurchase(27));
    assert_eq!(g.board.players[t].get_cash(), 1900);
}

#[test]
fn community_chest_cards_take_effect() {
    let mut g = two_player_game();
    let t = g.board.player_turn;
    g.board.players[t].space = 2;
    g.board.apply_comm_chest(CommunityChest::BankErrorInYourFavor);
    assert_eq!(g.board.players[t].get_cash(), 1700);
    g.board.apply_comm_chest(CommunityChest::PaySchoolFees);
    assert_eq!(g.board.players[t].get_cash(), 1650);
    g.board.apply_comm_chest(CommunityChest::GoToJail);
    assert!(g.board.players[t].is_in_jail());
    assert_eq!(g.board.players[t].get_space(), 10);
    g.board.players[t].space = 33;
    g.board.apply_comm_chest(CommunityChest::AdvanceToGo);
    assert_eq!(g.board.players[t].get_space(), 0);
    assert_eq!(g.board.players[t].get_cash(), 1850);
}

#[test]
fn landing_on_chance_draws_the_front_card() {
    let mut g = two_player_game();
    let t = g.board.player_turn;
    g.board.chance_cards = vec![Chance::AdvanceToBoardwalk, Chance::AdvanceToGo];
    g.board.players[t].space = 5;
    let a = g.board.land_after_roll(2);
    assert_eq!(a, LandAction::Space(7));
    g.handle_land(a);
    assert_eq!(g.board.players[t].get_space(), 39);
    assert_eq!(g.turn_state, TurnState::ConfirmPurchase(27));
    assert_eq!(g.board.chance_cards, vec![Chance::AdvanceToGo]);
}

#[test]
fn key_order_sorts_by_key_and_drops_collisions() {
    assert_eq!(key_order(&vec![5, 3, 5, 1, 2]), vec![3, 4, 1, 2]);
    assert_eq!(key_order(&vec![40, 10, 30, 20]), vec![1, 3, 2, 0]);
    assert_eq!(key_order(&vec![]), Vec::<usize>::new());
}

#[test]
fn chance_deck_follows_keys() {
    let deck = chance_deck(&vec![50, 10, 40, 20, 30]);
    assert_eq!(
        deck,
        vec![
            Chance::AdvanceToNearestUtility,
            Chance::GoBack3Spaces,
            Chance::AdvanceToBoardwalk,
            Chance::AdvanceToNearestRailroad,
            Chance::AdvanceToGo,
        ]
    );
    let short = chance_deck(&vec![7, 7, 1, 2, 3]);
    assert_eq!(short.len(), 4);
    assert!(!short.contains(&Chance::AdvanceToGo));
}

#[test]
fn dice_stay_in_range_and_vary() {
    let mut seen6 = [false; 7];
    for _ in 0..300 {
        let d = get_dice_roll_6();
        assert!((1..=6).contains(&d));
        seen6[d as usize] = true;
        let s = get_dice_roll_12();
        assert!((2..=12).contains(&s));
    }
    assert!(seen6.iter().filter(|b| **b).count() >= 2);
    let keys = shuffle_keys(5);
    assert_eq!(keys.len(), 5);
    assert!(keys.iter().all(|k| *k >= 1 && *k < 10000000));
}

#[test]
fn parse_index_reads_digits() {
    assert_eq!(parse_index(&vec![b'1', b'2']), Some(12));
    assert_eq!(parse_index(&vec![b'0']), Some(0));
    assert_eq!(parse_index(&vec![]), None);
    assert_eq!(parse_index(&vec![b'9'; 30]), None);
}

#[test]
fn console_words() {
    assert_eq!(color_from_word(&"purple".to_string()), Some(TokenColor::Purple));
    assert_eq!(color_from_word(&"pink".to_string()), None);
    assert_eq!(answer_from_word(&"yes".to_string()), Some(true));
    assert_eq!(answer_from_word(&"no".to_string()), Some(false));
    assert_eq!(answer_from_word(&"maybe".to_string()), None);
    assert_eq!(command_from_word(&"roll".to_string()), Some(TurnCommand::Roll));
    assert_eq!(command_from_word(&"trade".to_string()), None);
    assert!(is_valid_player_count(2));
    assert!(is_valid_player_count(6));
    assert!(!is_valid_player_count(1));
    assert!(!is_valid_player_count(7));
}

#[test]
fn setup_seats_players_by_roll() {
    let mut g = Game::new();
    g.setup_game(
        vec!["Ann".to_string(), "Bob".to_string(), "Cy".to_string()],
        vec![TokenColor::Red, TokenColor::Blue, TokenColor::Green],
        vec![9, 2, 5],
    );
    let names: Vec<String> = g.board.players.iter().map(|p| p.get_name()).collect();
    assert_eq!(names, vec!["Bob".to_string(), "Cy".to_string(), "Ann".to_string()]);
    assert_eq!(g.board.players[0].get_token_color(), TokenColor::Blue);
    assert!(g.board.players.iter().all(|p| p.get_cash() == 1500 && p.get_space() == 0));
    assert_eq!(g.board.spaces[0].players, vec![0, 1, 2]);
    assert_eq!(g.board.spaces.len(), 40);
    assert_eq!(g.board.properties.len(), 28);
    assert_eq!(g.game_state, GameState::GameRun);
}

#[test]
fn start_turn_skips_bankrupt_players() {
    let mut g = Game::new();
    g.setup_game(
        vec!["A".to_string(), "B".to_string(), "C".to_string()],
        vec![TokenColor::Red, TokenColor::Blue, TokenColor::Green],
        vec![1, 2, 3],
    );
    g.board.players[1].cash = 0;
    g.board.player_turn = 1;
    g.board.players[2].set_creditor(Some(0));
    g.board.start_turn();
    assert_eq!(g.board.player_turn, 2);
    assert!(g.board.players[2].has_turn);
    assert_eq!(g.board.players[2].get_creditor(), None);
    g.board.end_turn();
    assert_eq!(g.board.player_turn, 0);
    assert!(!g.board.players[2].has_turn);
}

#[test]
fn winner_is_the_last_solvent_player() {
    let mut g = two_player_game();
    assert_eq!(g.board.get_num_remaining_players(), 2);
    assert_eq!(g.board.get_winner(), None);
    g.board.players[0].cash = -5;
    assert_eq!(g.board.get_num_remaining_players(), 1);
    assert_eq!(g.board.get_winner(), Some(1));
}

#[test]
fn game_ends_when_one_player_is_left() {
    let mut g = two_player_game();
    let t = g.board.player_turn;
    g.board.players[t].cash = -1;
    g.turn_state = TurnState::AfterCommand;
    g.step(1, 2);
    assert_eq!(g.game_state, GameState::GameOver);
    assert_eq!(g.turn_state, TurnState::StartTurn);
    g.step(1, 2);
    assert_eq!(g.turn_state, TurnState::ConfirmPlayAgain);
    assert_eq!(g.handle_key_input(Key::N), GameAction::Exit);
    assert_eq!(g.handle_key_input(Key::Y), GameAction::Continue);
    assert_eq!(g.game_state, GameState::GameStateSetup);
}

#[test]
fn turn_cycle_through_the_menu() {
    let mut g = two_player_game();
    g.step(1, 2);
    assert_eq!(g.turn_state, TurnState::StartWaitingForCommand);
    assert!(g.board.players[0].has_turn);
    g.step(1, 2);
    assert_eq!(g.turn_state, TurnState::WaitingForCommand);
    g.handle_key_input(Key::Other);
    assert_eq!(g.turn_state, TurnState::WaitingForCommand);
    g.handle_key_input(Key::Q);
    g.step(1, 2);
    assert_eq!(g.turn_state, TurnState::ConfirmQuit);
    assert_eq!(g.handle_key_input(Key::N), GameAction::Continue);
    assert_eq!(g.turn_state, TurnState::StartWaitingForCommand);
    g.step(1, 2);
    g.handle_key_input(Key::Q);
    g.step(1, 2);
    assert_eq!(g.handle_key_input(Key::Y), GameAction::Exit);
}

#[test]
fn roll_command_moves_by_dice_sum() {
    let mut g = two_player_game();
    g.step(1, 2);
    g.step(1, 2);
    g.handle_key_input(Key::R);
    assert_eq!(g.turn_command, Some(TurnCommand::Roll));
    g.step(2, 3);
    assert_eq!(g.board.players[0].get_space(), 5);
    assert_eq!(g.turn_state, TurnState::ConfirmPurchase(2));
    g.handle_key_input(Key::Y);
    g.step(1, 2);
    assert_eq!(g.turn_state, TurnState::StartTurn);
    assert_eq!(g.board.player_turn, 1);
}

#[test]
fn jail_turns() {
    let mut g = two_player_game();
    let t = g.board.player_turn;
    g.board.players[t].jail(10);
    g.step(1, 2);
    assert_eq!(g.turn_state, TurnState::InJail);
    g.handle_key_input(Key::R);
    g.step(2, 5);
    assert_eq!(g.turn_state, TurnState::AfterCommand);
    assert!(g.board.players[t].is_in_jail());
    g.turn_state = TurnState::InJail;
    g.handle_key_input(Key::R);
    g.step(4, 4);
    assert_eq!(g.turn_state, TurnState::StartWaitingForCommand);
    assert!(!g.board.players[t].is_in_jail());
    g.board.players[t].jail(10);
    g.turn_state = TurnState::InJail;
    g.handle_key_input(Key::P);
    assert_eq!(g.turn_command, Some(TurnCommand::PayJailFine));
    g.step(1, 2);
    assert_eq!(g.board.players[t].get_cash(), 1450);
    assert!(!g.board.players[t].is_in_jail());
    g.board.players[t].jail(10);
    g.turn_state = TurnState::InJail;
    g.board.players[t].cash = 49;
    g.turn_command = None;
    g.handle_key_input(Key::P);
    assert_eq!(g.turn_command, None);
}

#[test]
fn space_tokens_move_with_players() {
    let mut s = Space::new(monopoly::space::SpaceEnum::Go, 522, 520, 0);
    s.add_player(1);
    s.add_player(2);
    s.add_player(1);
    s.remove_player(1);
    assert_eq!(s.players, vec![2, 1]);
    s.remove_player(5);
    assert_eq!(s.players, vec![2, 1]);
    assert_eq!((s.get_x(), s.get_y(), s.get_index()), (522, 520, 0));
}

#[test]
fn properties_and_players_compare_by_name() {
    let a = Property::new("Boardwalk".to_string(), 400, 50, ColorGroup::DarkBlue);
    let mut b = Property::new("Boardwalk".to_string(), 1, 1, ColorGroup::Red);
    b.add_house();
    assert!(a == b);
    let p = Player::new("Ann".to_string(), 0, TokenColor::Red);
    let q = Player::new("Ann".to_string(), 5, TokenColor::Blue);
    assert!(p == q);
}

#[test]
fn assets_go_to_the_named_player_or_the_bank() {
    let mut g = Game::new();
    g.setup_game(
        vec!["A".to_string(), "B".to_string(), "C".to_string()],
        vec![TokenColor::Red, TokenColor::Blue, TokenColor::Green],
        vec![1, 2, 3],
    );
    give(&mut g.board, 0, 1);
    give(&mut g.board, 2, 5);
    g.board.player_turn = 0;
    g.board.players[0].set_creditor(Some(1));
    g.board.acquire_assets(2);
    assert_eq!(g.board.properties[1].owner, Some(2));
    assert_eq!(g.board.players[2].get_properties(), &vec![5, 1]);
    assert!(g.board.players[0].get_properties().is_empty());
    assert!(g.board.players[1].get_properties().is_empty());
    g.board.player_turn = 2;
    g.board.return_assets();
    assert_eq!(g.board.properties[1].owner, None);
    assert_eq!(g.board.properties[5].owner, None);
    assert!(g.board.players[2].get_properties().is_empty());
    assert_eq!(g.board.players[2].get_cash(), 1500 - 120);
}

#[test]
fn meaningless_keys_change_nothing() {
    let mut g = two_player_game();
    g.step(1, 2);
    g.step(1, 2);
    assert_eq!(g.turn_state, TurnState::WaitingForCommand);
    for k in [Key::B, Key::S, Key::Y, Key::N, Key::P, Key::C, Key::Digit(3), Key::Return] {
        assert_eq!(g.handle_key_input(k), GameAction::Continue);
        assert_eq!(g.turn_state, TurnState::WaitingForCommand);
        assert_eq!(g.turn_command, None);
        assert!(g.key_queue.is_empty());
    }
}

#[test]
fn setup_puts_every_token_on_go() {
    let g = two_player_game();
    assert_eq!(g.board.spaces[0].players, vec![0, 1]);
    assert!(g.board.spaces.iter().skip(1).all(|s| s.players.is_empty()));
    assert_ne!(g.board.players[0].get_name(), g.board.players[1].get_name());
    assert_ne!(g.board.players[0].get_token_color(), g.board.players[1].get_token_color());
}
