//! What holds of the engine across its operations.

use crate::address::Address;
use crate::contract::{create_game_spec, escrowed_at, join_game_spec, slot, start_fight_spec};
use crate::game::{fight_spec, FightError, GameView, PayoutView};
use crate::soldier::{initiator_wins_spec, win_chance_spec, Soldier};
use vstd::prelude::*;

verus! {

/// Fee conservation. Whenever a game is created, joined and fought, both
/// payments were the entrance fee, the escrow under the key grows from one fee to
/// two, the winner is one of the two parties and receives exactly what was held,
/// and nothing is held under the key afterwards.
pub proof fn law_fee_conservation(
    games: Map<Address, GameView>,
    initiator: Address,
    initiator_soldier: Soldier,
    entrance_fee: nat,
    initiator_payment: nat,
    competitor: Address,
    competitor_soldier: Soldier,
    competitor_payment: nat,
    random_value: u32,
    created: Map<Address, GameView>,
    joined: Map<Address, GameView>,
    fought: Map<Address, GameView>,
    payout: PayoutView,
)
    requires
        create_game_spec(games, initiator, initiator_soldier, entrance_fee, initiator_payment)
            == Ok::<Map<Address, GameView>, FightError>(created),
        join_game_spec(created, competitor, initiator, competitor_soldier, competitor_payment)
            == Ok::<Map<Address, GameView>, FightError>(joined),
        start_fight_spec(joined, initiator, random_value) == Ok::<
            (Map<Address, GameView>, PayoutView),
            FightError,
        >((fought, payout)),
    ensures
        initiator_payment == entrance_fee,
        competitor_payment == entrance_fee,
        escrowed_at(created, initiator) == entrance_fee,
        escrowed_at(joined, initiator) == 2 * entrance_fee,
        payout.amount == 2 * entrance_fee,
        payout.amount == initiator_payment + competitor_payment,
        payout.amount == escrowed_at(joined, initiator),
        payout.winner == initiator || payout.winner == competitor,
        escrowed_at(fought, initiator) == 0,
{
}

/// No double join. Once a join has succeeded for a key, every further join on
/// that key is refused as already joined, whoever asks and whatever is paid.
pub proof fn law_no_double_join(
    games: Map<Address, GameView>,
    initiator: Address,
    competitor: Address,
    competitor_soldier: Soldier,
    payment: nat,
    joined: Map<Address, GameView>,
    late_caller: Address,
    late_soldier: Soldier,
    late_payment: nat,
)
    requires
        join_game_spec(games, competitor, initiator, competitor_soldier, payment) == Ok::<
            Map<Address, GameView>,
            FightError,
        >(joined),
    ensures
        join_game_spec(joined, late_caller, initiator, late_soldier, late_payment) == Err::<
            Map<Address, GameView>,
            FightError,
        >(FightError::GameAlreadyJoined),
{
}

/// Payment exactness on creation: any payment other than the stated fee, larger
/// or smaller, is a mismatch, whatever the engine holds; and a game is created
/// exactly when the payment is the stated fee and the caller has no game.
pub proof fn law_create_payment_exact(
    games: Map<Address, GameView>,
    caller: Address,
    initiator_soldier: Soldier,
    entrance_fee: nat,
    payment: nat,
)
    ensures
        payment != entrance_fee <==> create_game_spec(
            games,
            caller,
            initiator_soldier,
            entrance_fee,
            payment,
        ) == Err::<Map<Address, GameView>, FightError>(FightError::PaymentMismatch),
        payment == entrance_fee && !games.contains_key(caller) <==> create_game_spec(
            games,
            caller,
            initiator_soldier,
            entrance_fee,
            payment,
        ) is Ok,
{
}

/// No overwrite. While a game stands under an identity, waiting or matched, no
/// creation under that identity succeeds; with the right payment it is refused
/// as already existing.
pub proof fn law_no_overwrite(
    games: Map<Address, GameView>,
    caller: Address,
    initiator_soldier: Soldier,
    entrance_fee: nat,
    payment: nat,
)
    requires
        games.contains_key(caller),
    ensures
        create_game_spec(games, caller, initiator_soldier, entrance_fee, payment) is Err,
        payment == entrance_fee ==> create_game_spec(
            games,
            caller,
            initiator_soldier,
            entrance_fee,
            payment,
        ) == Err::<Map<Address, GameView>, FightError>(FightError::GameAlreadyExists),
{
}

/// A matched game never goes back to waiting: until it is fought, every
/// creation and every join on its key is refused.
pub proof fn law_matched_game_is_kept(
    games: Map<Address, GameView>,
    key: Address,
    caller: Address,
    soldier: Soldier,
    entrance_fee: nat,
    payment: nat,
)
    requires
        games.contains_key(key),
        games[key].competitor is Some,
    ensures
        create_game_spec(games, key, soldier, entrance_fee, payment) is Err,
        join_game_spec(games, caller, key, soldier, payment) is Err,
{
}

/// The escrow under a key follows the payments: a creation starts it at the
/// payment received, a join adds the payment received, and a fight pays out all
/// of it.
pub proof fn law_escrow_follows_payments(
    games: Map<Address, GameView>,
    key: Address,
    caller: Address,
    soldier: Soldier,
    entrance_fee: nat,
    payment: nat,
    random_value: u32,
)
    ensures
        create_game_spec(games, key, soldier, entrance_fee, payment) matches Ok(after)
            ==> escrowed_at(games, key) == 0 && escrowed_at(after, key) == payment,
        join_game_spec(games, caller, key, soldier, payment) matches Ok(after) ==> escrowed_at(
            after,
            key,
        ) == escrowed_at(games, key) + payment,
        start_fight_spec(games, key, random_value) matches Ok(after) ==> after.1.amount
            == escrowed_at(games, key) && escrowed_at(after.0, key) == 0,
{
}

/// Payment exactness on joining: on a game that waits for a competitor, a join
/// succeeds exactly when the payment is that game's fee, and any other payment,
/// larger or smaller, is a mismatch.
pub proof fn law_join_payment_exact(
    games: Map<Address, GameView>,
    caller: Address,
    initiator: Address,
    competitor_soldier: Soldier,
    payment: nat,
)
    requires
        games.contains_key(initiator),
        games[initiator].competitor is None,
    ensures
        payment == games[initiator].entrance_fee <==> join_game_spec(
            games,
            caller,
            initiator,
            competitor_soldier,
            payment,
        ) is Ok,
        payment != games[initiator].entrance_fee <==> join_game_spec(
            games,
            caller,
            initiator,
            competitor_soldier,
            payment,
        ) == Err::<Map<Address, GameView>, FightError>(FightError::PaymentMismatch),
{
}

/// The chance always lies between 0 and 100, however far the defense values are
/// apart.
pub proof fn law_win_chance_in_range(initiator_defense: u32, competitor_defense: u32)
    ensures
        0 <= win_chance_spec(initiator_defense, competitor_defense) <= 100,
{
}

/// Monotonicity: against the same competitor, more defense never lowers the
/// initiator's chance.
pub proof fn law_win_chance_monotonic(
    lower_defense: u32,
    higher_defense: u32,
    competitor_defense: u32,
)
    requires
        lower_defense <= higher_defense,
    ensures
        win_chance_spec(lower_defense, competitor_defense) <= win_chance_spec(
            higher_defense,
            competitor_defense,
        ),
{
}

/// With a chance of 0 the competitor wins whatever is drawn, and with a chance
/// of 100 the initiator wins on every draw below 100.
pub proof fn law_certain_outcomes(random_value: u32)
    ensures
        !initiator_wins_spec(0, random_value),
        random_value < 100 ==> initiator_wins_spec(100, random_value),
{
}

/// The attack values never enter a fight: two games that differ in them alone
/// end alike on every draw.
pub proof fn law_attack_is_ignored(
    game: GameView,
    initiator_attack: u32,
    competitor_attack: u32,
    random_value: u32,
)
    requires
        game.competitor_soldier is Some,
    ensures
        fight_spec(
            Some(
                GameView {
                    initiator_soldier: Soldier { attack: initiator_attack, ..game.initiator_soldier },
                    competitor_soldier: Some(
                        Soldier { attack: competitor_attack, ..game.competitor_soldier->Some_0 },
                    ),
                    ..game
                },
            ),
            random_value,
        ) == fight_spec(Some(game), random_value),
{
}

/// Terminal cleanup. After a fight the key holds no game, and a new game can be
/// created under it at once.
pub proof fn law_terminal_cleanup(
    games: Map<Address, GameView>,
    initiator: Address,
    random_value: u32,
    fought: Map<Address, GameView>,
    payout: PayoutView,
    next_soldier: Soldier,
    next_fee: nat,
)
    requires
        start_fight_spec(games, initiator, random_value) == Ok::<
            (Map<Address, GameView>, PayoutView),
            FightError,
        >((fought, payout)),
    ensures
        slot(fought, initiator) == None::<GameView>,
        start_fight_spec(fought, initiator, random_value) == Err::<
            (Map<Address, GameView>, PayoutView),
            FightError,
        >(FightError::GameNotFound),
        create_game_spec(fought, initiator, next_soldier, next_fee, next_fee) is Ok,
        slot(
            create_game_spec(fought, initiator, next_soldier, next_fee, next_fee)->Ok_0,
            initiator,
        ) == Some(
            GameView {
                initiator,
                initiator_soldier: next_soldier,
                competitor: None,
                competitor_soldier: None,
                entrance_fee: next_fee,
            },
        ),
{
}

/// The operations on one key leave the games under every other key as they were.
pub proof fn law_other_keys_untouched(
    games: Map<Address, GameView>,
    key: Address,
    other: Address,
    caller: Address,
    soldier: Soldier,
    entrance_fee: nat,
    payment: nat,
    random_value: u32,
)
    requires
        other != key,
    ensures
        create_game_spec(games, key, soldier, entrance_fee, payment) matches Ok(after) ==> slot(
            after,
            other,
        ) == slot(games, other),
        join_game_spec(games, caller, key, soldier, payment) matches Ok(after) ==> slot(
            after,
            other,
        ) == slot(games, other),
        start_fight_spec(games, key, random_value) matches Ok(after) ==> slot(after.0, other)
            == slot(games, other),
{
}

} // verus!
