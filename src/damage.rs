use vstd::prelude::*;

verus! {

/// The sum of a sequence of damage amounts.
pub open spec fn total_damage(s: Seq<i32>) -> int
    decreases s.len(),
{
    if s.len() == 0 {
        0
    } else {
        total_damage(s.drop_last()) + s.last()
    }
}

/// Every running total of `s`, taken from the front, fits in 32 bits.
pub open spec fn running_totals_fit(s: Seq<i32>) -> bool {
    forall|k: int| 0 <= k <= s.len() ==> i32::MIN <= #[trigger] total_damage(s.take(k)) <= i32::MAX
}

/// Hit points left after taking every amount of `amounts`.
pub fn apply_damage(hp: i32, amounts: &Vec<i32>) -> (r: i32)
    requires
        running_totals_fit(amounts@),
        i32::MIN <= hp - total_damage(amounts@) <= i32::MAX,
    ensures
        r == hp - total_damage(amounts@),
{
    let mut sum: i32 = 0;
    let mut i: usize = 0;
    while i < amounts.len()
        invariant
            i <= amounts@.len(),
            running_totals_fit(amounts@),
            sum == total_damage(amounts@.take(i as int)),
        decreases amounts@.len() - i,
    {
        proof {
            assert(amounts@.take(i + 1).drop_last() =~= amounts@.take(i as int));
            assert(i32::MIN <= total_damage(amounts@.take(i + 1)) <= i32::MAX);
        }
        sum = sum + amounts[i];
        i = i + 1;
    }
    proof {
        assert(amounts@.take(amounts@.len() as int) =~= amounts@);
    }
    hp - sum
}

/// What becomes of a combatant at the end of a turn.
#[derive(Clone, Copy, Debug, PartialEq, Eq, Structural)]
pub enum Fate {
    /// It has hit points left.
    Survives,
    /// It is removed from the world.
    Removed,
    /// It is the player, and the game is over.
    GameOver,
}

/// The fate of a combatant with `hp` hit points: at zero or below it dies, and the
/// player's death ends the game.
pub fn fate_of(hp: i32, is_player: bool) -> (r: Fate)
    ensures
        r == if hp >= 1 {
            Fate::Survives
        } else if is_player {
            Fate::GameOver
        } else {
            Fate::Removed
        },
{
    if hp >= 1 {
        Fate::Survives
    } else if is_player {
        Fate::GameOver
    } else {
        Fate::Removed
    }
}

} // verus!
