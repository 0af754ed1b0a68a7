use escrow_fight::{Address, Amount, EscrowFightContract, FightError, Soldier};

fn address(tag: u8) -> Address {
    Address::new([tag; 32])
}

fn amount(value: u64) -> Amount {
    Amount::from_bytes_be(value.to_be_bytes().to_vec())
}

fn soldier(defense: u32, attack: u32) -> Soldier {
    Soldier { defense, attack }
}

fn matched(initiator_defense: u32, competitor_defense: u32, fee: u64) -> EscrowFightContract {
    let mut engine = EscrowFightContract::init();
    let created =
        engine.create_game(address(1), soldier(initiator_defense, 5), amount(fee), &amount(fee));
    assert_eq!(created, Ok(()));
    let joined =
        engine.join_game(address(2), &address(1), soldier(competitor_defense, 9), &amount(fee));
    assert_eq!(joined, Ok(()));
    engine
}

#[test]
fn new_engine_holds_no_game() {
    let engine = EscrowFightContract::init();
    assert!(engine.game(&address(1)).is_none());
    assert!(engine.game(&address(0)).is_none());
}

#[test]
fn create_stores_an_open_game() {
    let mut engine = EscrowFightContract::init();
    assert_eq!(engine.create_game(address(1), soldier(60, 3), amount(100), &amount(100)), Ok(()));
    let game = engine.game(&address(1)).unwrap();
    assert_eq!(game.initiator(), address(1));
    assert_eq!(game.initiator_soldier(), soldier(60, 3));
    assert_eq!(game.competitor(), None);
    assert_eq!(game.competitor_soldier(), None);
    assert_eq!(*game.entrance_fee(), amount(100));
    assert!(engine.game(&address(2)).is_none());
}

#[test]
fn create_refuses_a_payment_that_is_too_small() {
    let mut engine = EscrowFightContract::init();
    let result = engine.create_game(address(1), soldier(60, 3), amount(100), &amount(99));
    assert_eq!(result, Err(FightError::PaymentMismatch));
    assert!(engine.game(&address(1)).is_none());
}

#[test]
fn create_refuses_a_payment_that_is_too_large() {
    let mut engine = EscrowFightContract::init();
    let result = engine.create_game(address(1), soldier(60, 3), amount(100), &amount(101));
    assert_eq!(result, Err(FightError::PaymentMismatch));
    assert!(engine.game(&address(1)).is_none());
}

#[test]
fn create_refuses_no_payment_for_a_fee() {
    let mut engine = EscrowFightContract::init();
    let result = engine.create_game(address(1), soldier(60, 3), amount(100), &amount(0));
    assert_eq!(result, Err(FightError::PaymentMismatch));
}

#[test]
fn create_accepts_a_fee_of_zero() {
    let mut engine = EscrowFightContract::init();
    assert_eq!(engine.create_game(address(1), soldier(1, 1), amount(0), &amount(0)), Ok(()));
    assert_eq!(engine.join_game(address(2), &address(1), soldier(1, 1), &amount(0)), Ok(()));
    let payout = engine.start_fight_with(&address(1), 10).unwrap();
    assert_eq!(payout.amount, amount(0));
}

#[test]
fn create_is_refused_while_a_game_waits_under_the_key() {
    let mut engine = EscrowFightContract::init();
    assert_eq!(engine.create_game(address(1), soldier(60, 3), amount(100), &amount(100)), Ok(()));
    let again = engine.create_game(address(1), soldier(7, 7), amount(30), &amount(30));
    assert_eq!(again, Err(FightError::GameAlreadyExists));
    let same = engine.create_game(address(1), soldier(60, 3), amount(100), &amount(100));
    assert_eq!(same, Err(FightError::GameAlreadyExists));
    let game = engine.game(&address(1)).unwrap();
    assert_eq!(game.initiator_soldier(), soldier(60, 3));
    assert_eq!(game.competitor(), None);
    assert_eq!(*game.entrance_fee(), amount(100));
}

#[test]
fn create_is_refused_while_a_matched_game_stands_under_the_key() {
    let mut engine = matched(60, 40, 100);
    let again = engine.create_game(address(1), soldier(7, 7), amount(30), &amount(30));
    assert_eq!(again, Err(FightError::GameAlreadyExists));
    let game = engine.game(&address(1)).unwrap();
    assert_eq!(game.initiator_soldier(), soldier(60, 5));
    assert_eq!(game.competitor(), Some(address(2)));
    assert_eq!(game.competitor_soldier(), Some(soldier(40, 9)));
    assert_eq!(*game.entrance_fee(), amount(100));
    let payout = engine.start_fight_with(&address(1), 0).unwrap();
    assert_eq!(payout.winner, address(1));
    assert_eq!(payout.amount, amount(200));
}

#[test]
fn create_checks_the_payment_before_the_key() {
    let mut engine = matched(60, 40, 100);
    let result = engine.create_game(address(1), soldier(7, 7), amount(30), &amount(31));
    assert_eq!(result, Err(FightError::PaymentMismatch));
    let game = engine.game(&address(1)).unwrap();
    assert_eq!(game.initiator_soldier(), soldier(60, 5));
    assert_eq!(game.competitor(), Some(address(2)));
    assert_eq!(*game.entrance_fee(), amount(100));
}

#[test]
fn competitor_may_create_an_own_game() {
    let mut engine = matched(60, 40, 100);
    assert_eq!(engine.create_game(address(2), soldier(7, 7), amount(30), &amount(30)), Ok(()));
    assert_eq!(engine.game(&address(2)).unwrap().competitor(), None);
    assert_eq!(engine.game(&address(1)).unwrap().competitor(), Some(address(2)));
}

#[test]
fn join_sets_competitor_and_soldier() {
    let engine = matched(60, 40, 100);
    let game = engine.game(&address(1)).unwrap();
    assert_eq!(game.initiator(), address(1));
    assert_eq!(game.initiator_soldier(), soldier(60, 5));
    assert_eq!(game.competitor(), Some(address(2)));
    assert_eq!(game.competitor_soldier(), Some(soldier(40, 9)));
    assert_eq!(*game.entrance_fee(), amount(100));
}

#[test]
fn join_without_a_game_is_not_found() {
    let mut engine = EscrowFightContract::init();
    let result = engine.join_game(address(2), &address(1), soldier(40, 9), &amount(100));
    assert_eq!(result, Err(FightError::GameNotFound));
    assert!(engine.game(&address(1)).is_none());
    assert!(engine.game(&address(2)).is_none());
}

#[test]
fn join_looks_under_the_initiator_not_the_caller() {
    let mut engine = EscrowFightContract::init();
    assert_eq!(engine.create_game(address(1), soldier(60, 3), amount(100), &amount(100)), Ok(()));
    let result = engine.join_game(address(1), &address(2), soldier(40, 9), &amount(100));
    assert_eq!(result, Err(FightError::GameNotFound));
}

#[test]
fn join_refuses_a_payment_that_is_too_small() {
    let mut engine = EscrowFightContract::init();
    assert_eq!(engine.create_game(address(1), soldier(60, 3), amount(100), &amount(100)), Ok(()));
    let result = engine.join_game(address(2), &address(1), soldier(40, 9), &amount(99));
    assert_eq!(result, Err(FightError::PaymentMismatch));
    assert_eq!(engine.game(&address(1)).unwrap().competitor(), None);
    assert_eq!(engine.game(&address(1)).unwrap().competitor_soldier(), None);
}

#[test]
fn join_refuses_a_payment_that_is_too_large() {
    let mut engine = EscrowFightContract::init();
    assert_eq!(engine.create_game(address(1), soldier(60, 3), amount(100), &amount(100)), Ok(()));
    let result = engine.join_game(address(2), &address(1), soldier(40, 9), &amount(200));
    assert_eq!(result, Err(FightError::PaymentMismatch));
    assert_eq!(engine.game(&address(1)).unwrap().competitor(), None);
}

#[test]
fn join_after_a_mismatch_still_succeeds() {
    let mut engine = EscrowFightContract::init();
    assert_eq!(engine.create_game(address(1), soldier(60, 3), amount(100), &amount(100)), Ok(()));
    let refused = engine.join_game(address(2), &address(1), soldier(40, 9), &amount(1));
    assert_eq!(refused, Err(FightError::PaymentMismatch));
    assert_eq!(engine.join_game(address(3), &address(1), soldier(40, 9), &amount(100)), Ok(()));
    assert_eq!(engine.game(&address(1)).unwrap().competitor(), Some(address(3)));
}

#[test]
fn second_join_is_refused_with_the_right_payment() {
    let mut engine = matched(60, 40, 100);
    let result = engine.join_game(address(3), &address(1), soldier(1, 1), &amount(100));
    assert_eq!(result, Err(FightError::GameAlreadyJoined));
    assert_eq!(engine.game(&address(1)).unwrap().competitor(), Some(address(2)));
    assert_eq!(engine.game(&address(1)).unwrap().competitor_soldier(), Some(soldier(40, 9)));
}

#[test]
fn second_join_is_refused_with_a_wrong_payment() {
    let mut engine = matched(60, 40, 100);
    let result = engine.join_game(address(3), &address(1), soldier(1, 1), &amount(5));
    assert_eq!(result, Err(FightError::GameAlreadyJoined));
    let again = engine.join_game(address(2), &address(1), soldier(40, 9), &amount(1000));
    assert_eq!(again, Err(FightError::GameAlreadyJoined));
}

#[test]
fn initiator_may_join_the_own_game() {
    let mut engine = EscrowFightContract::init();
    assert_eq!(engine.create_game(address(1), soldier(60, 3), amount(100), &amount(100)), Ok(()));
    assert_eq!(engine.join_game(address(1), &address(1), soldier(40, 9), &amount(100)), Ok(()));
    let payout = engine.start_fight_with(&address(1), 0).unwrap();
    assert_eq!(payout.winner, address(1));
    assert_eq!(payout.amount, amount(200));
}

#[test]
fn scenario_draw_just_below_the_chance_pays_the_initiator() {
    let mut engine = matched(60, 40, 100);
    let payout = engine.start_fight_with(&address(1), 69).unwrap();
    assert_eq!(payout.winner, address(1));
    assert_eq!(payout.amount, amount(200));
    assert_eq!(payout.amount.to_bytes_be(), vec![200]);
}

#[test]
fn scenario_draw_at_the_chance_pays_the_competitor() {
    let mut engine = matched(60, 40, 100);
    let payout = engine.start_fight_with(&address(1), 70).unwrap();
    assert_eq!(payout.winner, address(2));
    assert_eq!(payout.amount, amount(200));
}

#[test]
fn scenario_hopeless_initiator_loses_on_every_draw() {
    for drawn in 0..100u32 {
        let mut engine = matched(0, 100, 100);
        let payout = engine.start_fight_with(&address(1), drawn).unwrap();
        assert_eq!(payout.winner, address(2));
        assert_eq!(payout.amount, amount(200));
    }
}

#[test]
fn scenario_fight_without_a_game_is_not_found() {
    let mut engine = EscrowFightContract::init();
    assert!(matches!(engine.start_fight_with(&address(1), 5), Err(FightError::GameNotFound)));
    assert!(matches!(engine.start_fight(&address(1)), Err(FightError::GameNotFound)));
    assert!(engine.game(&address(1)).is_none());
}

#[test]
fn fight_without_a_competitor_is_refused() {
    let mut engine = EscrowFightContract::init();
    assert_eq!(engine.create_game(address(1), soldier(60, 3), amount(100), &amount(100)), Ok(()));
    assert!(matches!(engine.start_fight_with(&address(1), 5), Err(FightError::NoCompetitor)));
    assert!(matches!(engine.start_fight(&address(1)), Err(FightError::NoCompetitor)));
    let game = engine.game(&address(1)).unwrap();
    assert_eq!(game.competitor(), None);
    assert_eq!(*game.entrance_fee(), amount(100));
}

#[test]
fn winner_receives_twice_the_fee() {
    for fee in [1u64, 2, 100, 128, 255, 256, 1_000_000_000_000_000_000, u64::MAX] {
        let mut engine = matched(60, 40, fee);
        let payout = engine.start_fight_with(&address(1), 0).unwrap();
        let expected = (fee as u128) * 2;
        assert_eq!(payout.amount, Amount::from_bytes_be(expected.to_be_bytes().to_vec()));
    }
}

#[test]
fn fight_deletes_the_game() {
    let mut engine = matched(60, 40, 100);
    assert!(engine.start_fight_with(&address(1), 10).is_ok());
    assert!(engine.game(&address(1)).is_none());
    assert!(matches!(engine.start_fight_with(&address(1), 10), Err(FightError::GameNotFound)));
    let late = engine.join_game(address(3), &address(1), soldier(1, 1), &amount(100));
    assert_eq!(late, Err(FightError::GameNotFound));
}

#[test]
fn key_is_free_again_after_the_fight() {
    let mut engine = matched(60, 40, 100);
    assert!(engine.start_fight_with(&address(1), 10).is_ok());
    assert_eq!(engine.create_game(address(1), soldier(9, 9), amount(7), &amount(7)), Ok(()));
    let game = engine.game(&address(1)).unwrap();
    assert_eq!(game.initiator_soldier(), soldier(9, 9));
    assert_eq!(game.competitor(), None);
    assert_eq!(*game.entrance_fee(), amount(7));
    assert_eq!(engine.join_game(address(4), &address(1), soldier(9, 9), &amount(7)), Ok(()));
    let payout = engine.start_fight_with(&address(1), 50).unwrap();
    assert_eq!(payout.winner, address(4));
    assert_eq!(payout.amount, amount(14));
}

#[test]
fn games_under_other_keys_are_left_alone() {
    let mut engine = EscrowFightContract::init();
    for tag in 1..=5u8 {
        let fee = amount(tag as u64 * 10);
        assert_eq!(engine.create_game(address(tag), soldier(tag as u32, 0), fee.clone(), &fee), Ok(()));
    }
    assert_eq!(engine.join_game(address(9), &address(3), soldier(0, 0), &amount(30)), Ok(()));
    assert_eq!(engine.join_game(address(9), &address(5), soldier(0, 0), &amount(50)), Ok(()));
    let payout = engine.start_fight_with(&address(3), 99).unwrap();
    assert_eq!(payout.winner, address(9));
    assert_eq!(payout.amount, amount(60));
    assert!(engine.game(&address(3)).is_none());
    for tag in [1u8, 2, 4, 5] {
        let game = engine.game(&address(tag)).unwrap();
        assert_eq!(game.initiator(), address(tag));
        assert_eq!(game.initiator_soldier(), soldier(tag as u32, 0));
        assert_eq!(*game.entrance_fee(), amount(tag as u64 * 10));
    }
    assert_eq!(engine.game(&address(5)).unwrap().competitor(), Some(address(9)));
    assert_eq!(engine.game(&address(4)).unwrap().competitor(), None);
}

#[test]
fn attack_does_not_change_the_outcome() {
    for drawn in [0u32, 69, 70, 99] {
        let mut plain = matched(60, 40, 100);
        let expected = plain.start_fight_with(&address(1), drawn).unwrap().winner;
        for attack in [0u32, 1, 1000, u32::MAX] {
            let mut engine = EscrowFightContract::init();
            let fee = amount(100);
            assert_eq!(engine.create_game(address(1), soldier(60, attack), fee.clone(), &fee), Ok(()));
            assert_eq!(engine.join_game(address(2), &address(1), soldier(40, attack / 2), &fee), Ok(()));
            assert_eq!(engine.start_fight_with(&address(1), drawn).unwrap().winner, expected);
        }
    }
}

#[test]
fn drawn_fight_pays_the_certain_winner() {
    for _ in 0..200 {
        let mut sure_win = matched(1000, 0, 100);
        let payout = sure_win.start_fight(&address(1)).unwrap();
        assert_eq!(payout.winner, address(1));
        assert_eq!(payout.amount, amount(200));
        assert!(sure_win.game(&address(1)).is_none());
        let mut sure_loss = matched(0, 100, 100);
        let payout = sure_loss.start_fight(&address(1)).unwrap();
        assert_eq!(payout.winner, address(2));
        assert_eq!(payout.amount, amount(200));
    }
}

#[test]
fn drawn_fight_pays_one_of_the_two_parties() {
    let mut initiator_won = false;
    let mut competitor_won = false;
    for _ in 0..400 {
        let mut engine = matched(50, 50, 100);
        let payout = engine.start_fight(&address(1)).unwrap();
        assert!(payout.winner == address(1) || payout.winner == address(2));
        assert_eq!(payout.amount, amount(200));
        assert!(engine.game(&address(1)).is_none());
        initiator_won = initiator_won || payout.winner == address(1);
        competitor_won = competitor_won || payout.winner == address(2);
    }
    assert!(initiator_won && competitor_won);
}

#[test]
fn addresses_compare_by_their_bytes() {
    let mut bytes = [7u8; 32];
    assert_eq!(Address::new(bytes), address(7));
    assert_eq!(address(7).to_bytes(), bytes);
    bytes[31] = 8;
    assert_ne!(Address::new(bytes), address(7));
    bytes[31] = 7;
    bytes[0] = 0;
    assert_ne!(Address::new(bytes), address(7));
}
