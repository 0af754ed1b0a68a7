//! The engine: one game per initiating identity, and the three operations on it.

use crate::address::Address;
use crate::amount::Amount;
use crate::game::{create_spec, fight_spec, join_spec, slot_view};
use crate::game::{FightError, Game, GameView, Payout, PayoutView, DRAW_BOUND};
use crate::random::draw_below;
use crate::soldier::Soldier;
use vstd::prelude::*;

verus! {

/// What the engine keeps under `key`.
pub open spec fn slot(games: Map<Address, GameView>, key: Address) -> Option<GameView> {
    if games.contains_key(key) {
        Some(games[key])
    } else {
        None
    }
}

/// The value held in escrow for the game under `key`: nothing where there is no
/// game.
pub open spec fn escrowed_at(games: Map<Address, GameView>, key: Address) -> nat {
    match slot(games, key) {
        Some(game) => game.escrowed(),
        None => 0,
    }
}

/// Every game is kept under its initiator, and has its competitor together with
/// the competitor's soldier or neither.
pub open spec fn valid_games(games: Map<Address, GameView>) -> bool {
    forall|key: Address| #[trigger]
        games.contains_key(key) ==> games[key].initiator == key && games[key].valid()
}

/// The engine after `caller` asked for a new game: refused unless the payment is
/// the stated fee and no game stands under `caller`, else the new game stands
/// there.
pub open spec fn create_game_spec(
    games: Map<Address, GameView>,
    caller: Address,
    initiator_soldier: Soldier,
    entrance_fee: nat,
    payment: nat,
) -> Result<Map<Address, GameView>, FightError> {
    match create_spec(slot(games, caller), caller, initiator_soldier, entrance_fee, payment) {
        Ok(game) => Ok(games.insert(caller, game)),
        Err(error) => Err(error),
    }
}

/// The engine after `caller` asked to join the game of `initiator`.
pub open spec fn join_game_spec(
    games: Map<Address, GameView>,
    caller: Address,
    initiator: Address,
    competitor_soldier: Soldier,
    payment: nat,
) -> Result<Map<Address, GameView>, FightError> {
    match join_spec(slot(games, initiator), caller, competitor_soldier, payment) {
        Ok(game) => Ok(games.insert(initiator, game)),
        Err(error) => Err(error),
    }
}

/// The engine and the payout after the fight of the game of `initiator`, decided
/// by `random_value`.
pub open spec fn start_fight_spec(
    games: Map<Address, GameView>,
    initiator: Address,
    random_value: u32,
) -> Result<(Map<Address, GameView>, PayoutView), FightError> {
    match fight_spec(slot(games, initiator), random_value) {
        Ok(payout) => Ok((games.remove(initiator), payout)),
        Err(error) => Err(error),
    }
}

/// Whether a fight decided by `random_value` takes the engine from `before` to
/// `after` with `result`.
pub open spec fn fight_decided_by(
    before: Map<Address, GameView>,
    initiator: Address,
    random_value: u32,
    after: Map<Address, GameView>,
    result: Result<Payout, FightError>,
) -> bool {
    match start_fight_spec(before, initiator, random_value) {
        Ok((games, payout)) => result is Ok && result->Ok_0@ == payout && after == games,
        Err(error) => result == Err::<Payout, FightError>(error) && after == before,
    }
}

/// Whether the game at position `i` is the one of `key`.
spec fn held_at(games: Seq<Game>, key: Address, i: int) -> bool {
    0 <= i < games.len() && games[i]@.initiator == key
}

/// No two games have the same initiator.
spec fn distinct_keys(games: Seq<Game>) -> bool {
    forall|i: int, j: int| 0 <= i < j < games.len() ==> games[i]@.initiator != games[j]@.initiator
}

/// Every game has its competitor together with the competitor's soldier or
/// neither.
spec fn all_valid(games: Seq<Game>) -> bool {
    forall|i: int| 0 <= i < games.len() ==> (#[trigger] games[i]@).valid()
}

/// The games as a map from each initiator to that initiator's game.
spec fn games_view(games: Seq<Game>) -> Map<Address, GameView> {
    Map::new(
        |key: Address| exists|i: int| held_at(games, key, i),
        |key: Address| games[choose|i: int| held_at(games, key, i)]@,
    )
}

/// The game found at a position is what the map holds under its key.
proof fn lemma_held(games: Seq<Game>, key: Address, i: int)
    requires
        distinct_keys(games),
        held_at(games, key, i),
    ensures
        slot(games_view(games), key) == Some(games[i]@),
{
    let chosen = choose|j: int| held_at(games, key, j);
    assert(chosen == i);
}

/// A key found at no position is not in the map.
proof fn lemma_not_held(games: Seq<Game>, key: Address)
    requires
        forall|i: int| !held_at(games, key, i),
    ensures
        slot(games_view(games), key) == None::<GameView>,
{
}

/// The map of valid games with distinct keys is valid.
proof fn lemma_valid(games: Seq<Game>)
    requires
        distinct_keys(games),
        all_valid(games),
    ensures
        valid_games(games_view(games)),
{
    assert forall|key: Address| #[trigger] games_view(games).contains_key(key) implies games_view(
        games,
    )[key].initiator == key && games_view(games)[key].valid() by {
        let i = choose|i: int| held_at(games, key, i);
        lemma_held(games, key, i);
    }
}

/// Where `after` holds `game` at position `at` and is `games` at every other
/// position, its map is the map of `games` with `game` inserted.
proof fn lemma_put(games: Seq<Game>, after: Seq<Game>, at: int, game: Game)
    requires
        distinct_keys(games),
        distinct_keys(after),
        0 <= at < after.len(),
        after[at] == game,
        at < games.len() ==> games[at]@.initiator == game@.initiator,
        forall|j: int|
            0 <= j && j != at ==> (j < after.len() <==> j < games.len()) && (j < games.len()
                ==> after[j] == games[j]),
    ensures
        games_view(after) == games_view(games).insert(game@.initiator, game@),
{
    assert forall|key: Address| slot(games_view(after), key) == slot(
        games_view(games).insert(game@.initiator, game@),
        key,
    ) by {
        if key == game@.initiator {
            assert(held_at(after, key, at));
            lemma_held(after, key, at);
        } else if exists|j: int| held_at(games, key, j) {
            let j = choose|j: int| held_at(games, key, j);
            assert(held_at(after, key, j));
            lemma_held(games, key, j);
            lemma_held(after, key, j);
        } else {
            assert forall|j: int| !held_at(after, key, j) by {
                if held_at(after, key, j) {
                    assert(held_at(games, key, j));
                }
            }
        }
    }
    lemma_same_slots(games_view(after), games_view(games).insert(game@.initiator, game@));
}

/// Overwriting the game of a key in place is an insertion into the map.
proof fn lemma_replaced(games: Seq<Game>, i: int, game: Game)
    requires
        distinct_keys(games),
        held_at(games, game@.initiator, i),
    ensures
        distinct_keys(games.update(i, game)),
        games_view(games.update(i, game)) == games_view(games).insert(game@.initiator, game@),
{
    lemma_put(games, games.update(i, game), i, game);
}

/// Appending the game of a new key is an insertion into the map.
proof fn lemma_added(games: Seq<Game>, game: Game)
    requires
        distinct_keys(games),
        forall|i: int| !held_at(games, game@.initiator, i),
    ensures
        distinct_keys(games.push(game)),
        games_view(games.push(game)) == games_view(games).insert(game@.initiator, game@),
{
    let after = games.push(game);
    assert(distinct_keys(after)) by {
        assert forall|i: int, j: int| 0 <= i < j < after.len() implies after[i]@.initiator
            != after[j]@.initiator by {
            if j == games.len() {
                assert(!held_at(games, game@.initiator, i));
            }
        }
    }
    lemma_put(games, after, games.len() as int, game);
}

/// Taking out the game at a position removes its key from the map.
proof fn lemma_removed(games: Seq<Game>, i: int)
    requires
        distinct_keys(games),
        0 <= i < games.len(),
    ensures
        distinct_keys(games.remove(i)),
        games_view(games.remove(i)) == games_view(games).remove(games[i]@.initiator),
{
    let after = games.remove(i);
    let gone = games[i]@.initiator;
    assert forall|j: int| 0 <= j < after.len() implies after[j] == games[if j < i {
        j
    } else {
        j + 1
    }] by {}
    assert(distinct_keys(after));
    assert forall|key: Address| slot(games_view(after), key) == slot(
        games_view(games).remove(gone),
        key,
    ) by {
        if key != gone && exists|j: int| held_at(games, key, j) {
            let j = choose|j: int| held_at(games, key, j);
            let moved = if j < i {
                j
            } else {
                j - 1
            };
            assert(held_at(after, key, moved));
            lemma_held(games, key, j);
            lemma_held(after, key, moved);
        } else {
            assert forall|j: int| !held_at(after, key, j) by {
                if held_at(after, key, j) {
                    let origin = if j < i {
                        j
                    } else {
                        j + 1
                    };
                    assert(held_at(games, key, origin));
                }
            }
        }
    }
    lemma_same_slots(games_view(after), games_view(games).remove(gone));
}

/// Maps that hold the same under every key are equal.
proof fn lemma_same_slots(left: Map<Address, GameView>, right: Map<Address, GameView>)
    requires
        forall|key: Address| slot(left, key) == slot(right, key),
    ensures
        left == right,
{
    assert forall|key: Address| left.contains_key(key) == right.contains_key(key) by {
        assert(slot(left, key) == slot(right, key));
    }
    assert forall|key: Address| left.contains_key(key) implies left[key] == right[key] by {
        assert(slot(left, key) == slot(right, key));
    }
    assert(left =~= right);
}

/// The escrow engine: the open games, one per initiating identity.
#[derive(Debug)]
pub struct EscrowFightContract {
    games: Vec<Game>,
}

impl View for EscrowFightContract {
    type V = Map<Address, GameView>;

    closed spec fn view(&self) -> Map<Address, GameView> {
        games_view(self.games@)
    }
}

impl EscrowFightContract {
    /// What every engine satisfies: no two games stand under one identity, and each
    /// game has its competitor together with the competitor's soldier or neither.
    pub closed spec fn wf(&self) -> bool {
        distinct_keys(self.games@) && all_valid(self.games@)
    }

    /// In a well-formed engine every game is kept under its initiator and is valid.
    pub proof fn lemma_valid_games(&self)
        requires
            self.wf(),
        ensures
            valid_games(self@),
    {
        lemma_valid(self.games@);
    }

    /// An engine that holds no game.
    pub fn init() -> (engine: EscrowFightContract)
        ensures
            engine.wf(),
            engine@ == Map::<Address, GameView>::empty(),
    {
        let engine = EscrowFightContract { games: Vec::new() };
        proof {
            assert(engine@ =~= Map::<Address, GameView>::empty());
        }
        engine
    }

    fn find(&self, key: &Address) -> (found: Option<usize>)
        ensures
            match found {
                Some(i) => held_at(self.games@, *key, i as int),
                None => forall|i: int| !held_at(self.games@, *key, i),
            },
    {
        let mut i: usize = 0;
        while i < self.games.len()
            invariant
                forall|j: int| 0 <= j < i ==> !held_at(self.games@, *key, j),
            decreases self.games.len() - i,
        {
            if self.games[i].initiator() == *key {
                return Some(i);
            }
            i += 1;
        }
        None
    }

    /// The game kept under `key`, if there is one.
    pub fn game(&self, key: &Address) -> (found: Option<&Game>)
        requires
            self.wf(),
        ensures
            slot_view(found) == slot(self@, *key),
    {
        match self.find(key) {
            Some(i) => {
                proof {
                    lemma_held(self.games@, *key, i as int);
                }
                Some(&self.games[i])
            },
            None => {
                proof {
                    lemma_not_held(self.games@, *key);
                }
                None
            },
        }
    }

    fn put(&mut self, game: Game)
        requires
            old(self).wf(),
            game@.valid(),
        ensures
            final(self).wf(),
            final(self)@ == old(self)@.insert(game@.initiator, game@),
    {
        let key = game.initiator();
        match self.find(&key) {
            Some(i) => {
                proof {
                    lemma_replaced(self.games@, i as int, game);
                }
                self.games[i] = game;
            },
            None => {
                proof {
                    lemma_added(self.games@, game);
                }
                self.games.push(game);
            },
        }
    }

    /// Opens a game for `caller`, who attached `payment` to the call and names
    /// `entrance_fee` as the stake. A game that stands under `caller` is never
    /// replaced: while it has not been fought, a further creation is refused with
    /// [`FightError::GameAlreadyExists`], so that no stake in escrow is lost. A
    /// wrong payment is refused first, whatever stands under `caller`.
    pub fn create_game(
        &mut self,
        caller: Address,
        initiator_soldier: Soldier,
        entrance_fee: Amount,
        payment: &Amount,
    ) -> (result: Result<(), FightError>)
        requires
            old(self).wf(),
        ensures
            final(self).wf(),
            match create_game_spec(
                old(self)@,
                caller,
                initiator_soldier,
                entrance_fee@,
                payment@,
            ) {
                Ok(games) => result is Ok && final(self)@ == games,
                Err(error) => result == Err::<(), FightError>(error) && final(self)@ == old(self)@,
            },
    {
        match Game::create(self.game(&caller), caller, initiator_soldier, entrance_fee, payment) {
            Ok(game) => {
                self.put(game);
                Ok(())
            },
            Err(error) => Err(error),
        }
    }

    /// Lets `caller`, who attached `payment` to the call, join the game of
    /// `initiator`. Any caller may join, `initiator` included: a party that joins
    /// its own game stakes twice and is paid both stakes back.
    pub fn join_game(
        &mut self,
        caller: Address,
        initiator: &Address,
        competitor_soldier: Soldier,
        payment: &Amount,
    ) -> (result: Result<(), FightError>)
        requires
            old(self).wf(),
        ensures
            final(self).wf(),
            match join_game_spec(old(self)@, caller, *initiator, competitor_soldier, payment@) {
                Ok(games) => result is Ok && final(self)@ == games,
                Err(error) => result == Err::<(), FightError>(error) && final(self)@ == old(self)@,
            },
    {
        match Game::join(self.game(initiator), caller, competitor_soldier, payment) {
            Ok(game) => {
                self.put(game);
                Ok(())
            },
            Err(error) => Err(error),
        }
    }

    /// Decides the fight of the game of `initiator` with `random_value` as the
    /// number drawn, deletes the game and returns what is owed to the winner.
    pub fn start_fight_with(&mut self, initiator: &Address, random_value: u32) -> (result: Result<
        Payout,
        FightError,
    >)
        requires
            old(self).wf(),
        ensures
            final(self).wf(),
            fight_decided_by(old(self)@, *initiator, random_value, final(self)@, result),
    {
        let found = self.find(initiator);
        proof {
            match found {
                Some(i) => lemma_held(self.games@, *initiator, i as int),
                None => lemma_not_held(self.games@, *initiator),
            }
        }
        let i = match found {
            Some(i) => i,
            None => {
                return Err(FightError::GameNotFound);
            },
        };
        match Game::fight(Some(&self.games[i]), random_value) {
            Ok(payout) => {
                proof {
                    lemma_removed(self.games@, i as int);
                }
                self.games.remove(i);
                Ok(payout)
            },
            Err(error) => Err(error),
        }
    }

    /// Draws a number below [`DRAW_BOUND`] and decides the fight of the game of
    /// `initiator` with it: see [`EscrowFightContract::start_fight_with`].
    pub fn start_fight(&mut self, initiator: &Address) -> (result: Result<Payout, FightError>)
        requires
            old(self).wf(),
        ensures
            final(self).wf(),
            exists|random_value: u32|
                random_value < DRAW_BOUND && #[trigger] fight_decided_by(
                    old(self)@,
                    *initiator,
                    random_value,
                    final(self)@,
                    result,
                ),
    {
        let random_value = draw_below(DRAW_BOUND);
        self.start_fight_with(initiator, random_value)
    }
}

} // verus!
