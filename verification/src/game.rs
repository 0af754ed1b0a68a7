//! One game: its record, and the three steps that take it from creation to payout.

use crate::address::Address;
use crate::amount::Amount;
use crate::random::draw_below;
use crate::soldier::{initiator_wins, initiator_wins_spec, win_chance, win_chance_spec, Soldier};
use vstd::prelude::*;

verus! {

/// The draw that decides a fight is a number below this bound.
pub const DRAW_BOUND: u32 = 100;

/// Why a step was refused. A refused step changes nothing.
#[derive(Clone, Copy, Debug, PartialEq, Eq, Structural)]
pub enum FightError {
    /// The value attached to the call is not the required entrance fee.
    PaymentMismatch,
    /// There is no open game under the given identity.
    GameNotFound,
    /// The game already has its competitor.
    GameAlreadyJoined,
    /// The game has no competitor yet.
    NoCompetitor,
    /// The identity already has a game that has not been fought.
    GameAlreadyExists,
}

/// One game as the contracts see it: the record with its fee as a number.
pub struct GameView {
    pub initiator: Address,
    pub initiator_soldier: Soldier,
    pub competitor: Option<Address>,
    pub competitor_soldier: Option<Soldier>,
    pub entrance_fee: nat,
}

impl GameView {
    /// The competitor and the competitor's soldier are both there or both missing.
    pub open spec fn valid(self) -> bool {
        self.competitor is Some <==> self.competitor_soldier is Some
    }

    /// The value held for this game: one entrance fee while it waits for a
    /// competitor, two once it has one.
    pub open spec fn escrowed(self) -> nat {
        if self.competitor is Some {
            2 * self.entrance_fee
        } else {
            self.entrance_fee
        }
    }
}

/// The order to pay the pooled stake to the winner of a fight.
#[derive(Debug)]
pub struct Payout {
    pub winner: Address,
    pub amount: Amount,
}

/// A payout with its amount as a number.
pub struct PayoutView {
    pub winner: Address,
    pub amount: nat,
}

impl View for Payout {
    type V = PayoutView;

    open spec fn view(&self) -> PayoutView {
        PayoutView { winner: self.winner, amount: self.amount@ }
    }
}

/// The record of one game, kept from its creation until its fight.
#[derive(Debug)]
pub struct Game {
    initiator: Address,
    initiator_soldier: Soldier,
    competitor: Option<Address>,
    competitor_soldier: Option<Soldier>,
    entrance_fee: Amount,
}

impl View for Game {
    type V = GameView;

    closed spec fn view(&self) -> GameView {
        GameView {
            initiator: self.initiator,
            initiator_soldier: self.initiator_soldier,
            competitor: self.competitor,
            competitor_soldier: self.competitor_soldier,
            entrance_fee: self.entrance_fee@,
        }
    }
}

/// What a storage slot holds, as the contracts see it.
pub open spec fn slot_view(slot: Option<&Game>) -> Option<GameView> {
    match slot {
        Some(game) => Some(game@),
        None => None,
    }
}

/// Creation: the payment has to be the stated fee, and the slot of the caller
/// has to be free. The payment is looked at before the slot, so a wrong payment
/// is a mismatch whatever the slot holds. The new game waits for a competitor.
pub open spec fn create_spec(
    slot: Option<GameView>,
    caller: Address,
    initiator_soldier: Soldier,
    entrance_fee: nat,
    payment: nat,
) -> Result<GameView, FightError> {
    if payment != entrance_fee {
        Err(FightError::PaymentMismatch)
    } else if slot is Some {
        Err(FightError::GameAlreadyExists)
    } else {
        Ok(
            GameView {
                initiator: caller,
                initiator_soldier,
                competitor: None,
                competitor_soldier: None,
                entrance_fee,
            },
        )
    }
}

/// Joining: the slot has to hold a game without a competitor, and the payment
/// has to be that game's fee. The game is looked at before the payment. Nothing
/// is asked of the caller: the initiator may join the own game.
pub open spec fn join_spec(
    slot: Option<GameView>,
    caller: Address,
    competitor_soldier: Soldier,
    payment: nat,
) -> Result<GameView, FightError> {
    match slot {
        None => Err(FightError::GameNotFound),
        Some(game) => if game.competitor is Some {
            Err(FightError::GameAlreadyJoined)
        } else if payment != game.entrance_fee {
            Err(FightError::PaymentMismatch)
        } else {
            Ok(
                GameView {
                    competitor: Some(caller),
                    competitor_soldier: Some(competitor_soldier),
                    ..game
                },
            )
        },
    }
}

/// The fight: the slot has to hold a game with a competitor. The initiator wins
/// when the number drawn falls below the initiator's chance, and the winner is
/// paid both entrance fees.
pub open spec fn fight_spec(slot: Option<GameView>, random_value: u32) -> Result<
    PayoutView,
    FightError,
> {
    match slot {
        None => Err(FightError::GameNotFound),
        Some(game) => match (game.competitor, game.competitor_soldier) {
            (Some(competitor), Some(competitor_soldier)) => {
                let chance = win_chance_spec(
                    game.initiator_soldier.defense,
                    competitor_soldier.defense,
                );
                Ok(
                    PayoutView {
                        winner: if initiator_wins_spec(chance, random_value) {
                            game.initiator
                        } else {
                            competitor
                        },
                        amount: 2 * game.entrance_fee,
                    },
                )
            },
            _ => Err(FightError::NoCompetitor),
        },
    }
}

/// Whether `result` is what the fight of the game in `slot` gives when
/// `random_value` is drawn.
pub open spec fn is_fight_result(
    slot: Option<GameView>,
    random_value: u32,
    result: Result<Payout, FightError>,
) -> bool {
    match fight_spec(slot, random_value) {
        Ok(payout) => result is Ok && result->Ok_0@ == payout,
        Err(error) => result == Err::<Payout, FightError>(error),
    }
}

impl Game {
    #[verifier::type_invariant]
    spec fn paired(self) -> bool {
        self.competitor is Some <==> self.competitor_soldier is Some
    }

    /// Puts a stored record together again. There is no game whose competitor
    /// and competitor's soldier are not both present or both missing.
    pub fn from_parts(
        initiator: Address,
        initiator_soldier: Soldier,
        competitor: Option<Address>,
        competitor_soldier: Option<Soldier>,
        entrance_fee: Amount,
    ) -> (game: Option<Game>)
        ensures
            game is Some <==> (competitor is Some <==> competitor_soldier is Some),
            game matches Some(game) ==> game@ == (GameView {
                initiator,
                initiator_soldier,
                competitor,
                competitor_soldier,
                entrance_fee: entrance_fee@,
            }),
    {
        if competitor.is_some() != competitor_soldier.is_some() {
            return None;
        }
        Some(Game { initiator, initiator_soldier, competitor, competitor_soldier, entrance_fee })
    }

    /// The identity of the creator, under which the game is kept.
    pub fn initiator(&self) -> (initiator: Address)
        ensures
            initiator == self@.initiator,
    {
        self.initiator
    }

    /// The soldier that the creator sent.
    pub fn initiator_soldier(&self) -> (soldier: Soldier)
        ensures
            soldier == self@.initiator_soldier,
    {
        self.initiator_soldier
    }

    /// The identity of the party that joined, if one has. It is there exactly
    /// when that party's soldier is.
    pub fn competitor(&self) -> (competitor: Option<Address>)
        ensures
            competitor == self@.competitor,
            self@.valid(),
    {
        proof {
            use_type_invariant(self);
        }
        self.competitor
    }

    /// The soldier of the party that joined, if one has. It is there exactly
    /// when that party's identity is.
    pub fn competitor_soldier(&self) -> (soldier: Option<Soldier>)
        ensures
            soldier == self@.competitor_soldier,
            self@.valid(),
    {
        proof {
            use_type_invariant(self);
        }
        self.competitor_soldier
    }

    /// The stake that each party pays.
    pub fn entrance_fee(&self) -> (fee: &Amount)
        ensures
            fee@ == self@.entrance_fee,
    {
        &self.entrance_fee
    }

    /// Opens a game for `caller`, who attached `payment` to the call and whose
    /// storage slot is `slot`. A game that stands there is never replaced: the
    /// caller has to wait until it has been fought. Returns the game as it is to
    /// be stored.
    pub fn create(
        slot: Option<&Game>,
        caller: Address,
        initiator_soldier: Soldier,
        entrance_fee: Amount,
        payment: &Amount,
    ) -> (result: Result<Game, FightError>)
        ensures
            match create_spec(
                slot_view(slot),
                caller,
                initiator_soldier,
                entrance_fee@,
                payment@,
            ) {
                Ok(game) => result is Ok && result->Ok_0@ == game,
                Err(error) => result == Err::<Game, FightError>(error),
            },
    {
        if *payment != entrance_fee {
            return Err(FightError::PaymentMismatch);
        }
        if slot.is_some() {
            return Err(FightError::GameAlreadyExists);
        }
        Ok(
            Game {
                initiator: caller,
                initiator_soldier,
                competitor: None,
                competitor_soldier: None,
                entrance_fee,
            },
        )
    }

    /// Lets `caller`, who attached `payment` to the call, join the game in `slot`.
    /// Any caller may join, the initiator of the game included. Returns the game
    /// as it is to be stored.
    pub fn join(
        slot: Option<&Game>,
        caller: Address,
        competitor_soldier: Soldier,
        payment: &Amount,
    ) -> (result: Result<Game, FightError>)
        ensures
            match join_spec(slot_view(slot), caller, competitor_soldier, payment@) {
                Ok(game) => result is Ok && result->Ok_0@ == game,
                Err(error) => result == Err::<Game, FightError>(error),
            },
    {
        let game = match slot {
            Some(game) => game,
            None => {
                return Err(FightError::GameNotFound);
            },
        };
        if game.competitor.is_some() {
            return Err(FightError::GameAlreadyJoined);
        }
        if *payment != game.entrance_fee {
            return Err(FightError::PaymentMismatch);
        }
        Ok(
            Game {
                initiator: game.initiator,
                initiator_soldier: game.initiator_soldier,
                competitor: Some(caller),
                competitor_soldier: Some(competitor_soldier),
                entrance_fee: game.entrance_fee.clone(),
            },
        )
    }

    /// Decides the fight of the game in `slot` with `random_value` as the number
    /// drawn, and returns what is owed to the winner. The game's record is then to
    /// be deleted.
    pub fn fight(slot: Option<&Game>, random_value: u32) -> (result: Result<Payout, FightError>)
        ensures
            is_fight_result(slot_view(slot), random_value, result),
    {
        let game = match slot {
            Some(game) => game,
            None => {
                return Err(FightError::GameNotFound);
            },
        };
        proof {
            use_type_invariant(game);
        }
        let (competitor, competitor_soldier) = match (game.competitor, game.competitor_soldier) {
            (Some(competitor), Some(competitor_soldier)) => (competitor, competitor_soldier),
            _ => {
                return Err(FightError::NoCompetitor);
            },
        };
        let chance = win_chance(&game.initiator_soldier, &competitor_soldier);
        let winner = if initiator_wins(chance, random_value) {
            game.initiator
        } else {
            competitor
        };
        Ok(Payout { winner, amount: game.entrance_fee.doubled() })
    }

    /// Draws a number below [`DRAW_BOUND`] and decides the fight of the game in
    /// `slot` with it: see [`Game::fight`]. Whatever is drawn, the fight is refused
    /// exactly when `slot` holds no game or one without a competitor.
    pub fn start_fight(slot: Option<&Game>) -> (result: Result<Payout, FightError>)
        ensures
            exists|random_value: u32|
                random_value < DRAW_BOUND && #[trigger] is_fight_result(
                    slot_view(slot),
                    random_value,
                    result,
                ),
    {
        let random_value = draw_below(DRAW_BOUND);
        Game::fight(slot, random_value)
    }
}

} // verus!
