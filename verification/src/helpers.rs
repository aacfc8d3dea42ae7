use vstd::prelude::*;

use crate::state::Lottery;

verus! {

/// The draw's snapshot of the Player Ledger: every participant with their
/// ticket count, in the store's deterministic (descending-key) order.
pub fn get_player_ranges(lottery: &Lottery) -> (r: Vec<(String, u64)>)
    ensures
        r@.len() == lottery@.players.len(),
        forall|i: int|
            0 <= i < r@.len() ==> (#[trigger] r@[i]).0@ == lottery@.players[i].addr && r@[i].1
                == lottery@.players[i].tickets,
{
    let mut r: Vec<(String, u64)> = Vec::new();
    let mut i: usize = 0;
    while i < lottery.players.entries.len()
        invariant
            i <= lottery@.players.len(),
            lottery@.players.len() == lottery.players.entries@.len(),
            r@.len() == i,
            forall|j: int|
                0 <= j < i ==> (#[trigger] r@[j]).0@ == lottery@.players[j].addr && r@[j].1
                    == lottery@.players[j].tickets,
        decreases lottery.players.entries@.len() - i,
    {
        let entry = &lottery.players.entries[i];
        r.push((entry.addr.clone(), entry.info.tickets));
        i = i + 1;
    }
    r
}

} // verus!
