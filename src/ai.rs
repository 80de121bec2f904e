//! Monster behaviour states and how they advance from turn to turn.

use vstd::prelude::*;

verus! {

/// A monster's behaviour state.
#[derive(Debug)]
pub enum Ai {
    /// Approach the player when seen, attack when adjacent.
    Basic,
    /// Stumble around at random; `previous_ai` comes back once `num_turns` runs out.
    Confused { previous_ai: Box<Ai>, num_turns: i32 },
}

/// The state that follows `ai` after one turn of the monster.
pub open spec fn next_ai(ai: Ai) -> Ai {
    match ai {
        Ai::Basic => Ai::Basic,
        Ai::Confused { previous_ai, num_turns } => if num_turns >= 0 {
            Ai::Confused { previous_ai, num_turns: (num_turns - 1) as i32 }
        } else {
            *previous_ai
        },
    }
}

/// The state after `n` turns, starting from `ai`.
pub open spec fn ai_after(ai: Ai, n: nat) -> Ai
    decreases n,
{
    if n == 0 {
        ai
    } else {
        ai_after(next_ai(ai), (n - 1) as nat)
    }
}

/// The confused state that wraps `previous` with `turns` turns left.
pub open spec fn confused(previous: Ai, turns: int) -> Ai {
    Ai::Confused { previous_ai: Box::new(previous), num_turns: turns as i32 }
}

/// A confused state keeps its wrapped state through every turn and restores it
/// exactly: from a confusion of `n >= 0` turns wrapping `a`, the monster stays
/// confused for `n + 1` turns, counting down to `-1`, and the turn after that
/// hands back `a` itself.
pub proof fn confusion_restores_previous(a: Ai, n: i32)
    requires
        n >= 0,
    ensures
        forall|k: nat| k <= n + 1 ==> #[trigger] ai_after(confused(a, n as int), k) == confused(a, n - k),
        ai_after(confused(a, n as int), (n + 2) as nat) == a,
{
    assert forall|k: nat| k <= n + 1 implies #[trigger] ai_after(confused(a, n as int), k)
        == confused(a, n - k) by {
        lemma_countdown(a, n, k);
    }
    lemma_countdown(a, n, (n + 1) as nat);
    lemma_after_split(confused(a, n as int), (n + 1) as nat, 1);
    let last = confused(a, -1);
    assert(ai_after(next_ai(last), 0) == next_ai(last));
    assert(next_ai(last) == a);
}

proof fn lemma_countdown(a: Ai, n: i32, k: nat)
    requires
        n >= 0,
        k <= n + 1,
    ensures
        ai_after(confused(a, n as int), k) == confused(a, n - k),
    decreases k,
{
    if k > 0 {
        lemma_countdown(a, n, (k - 1) as nat);
        lemma_after_split(confused(a, n as int), (k - 1) as nat, 1);
        let prev = confused(a, n - (k - 1));
        assert(ai_after(next_ai(prev), 0) == next_ai(prev));
        assert(next_ai(prev) == confused(a, n - k));
    }
}

proof fn lemma_after_split(ai: Ai, m: nat, n: nat)
    ensures
        ai_after(ai, m + n) == ai_after(ai_after(ai, m), n),
    decreases m,
{
    if m > 0 {
        lemma_after_split(next_ai(ai), (m - 1) as nat, n);
    }
}

} // verus!
