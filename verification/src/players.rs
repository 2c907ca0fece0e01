use vstd::prelude::*;

verus! {

/// The entity of the first player (in the given order) that belongs to this
/// user, if any: spawning a player for a user first removes that one.
pub fn find_player_entity(players: &Vec<(u64, u128)>, user_id: u128) -> (found: Option<u64>)
    ensures
        match found {
            Some(e) => exists|i: int|
                0 <= i < players.len() && #[trigger] players@[i] == (e, user_id) && forall|j: int|
                    0 <= j < i ==> players@[j].1 != user_id,
            None => forall|j: int| 0 <= j < players.len() ==> #[trigger] players@[j].1 != user_id,
        },
{
    let mut i: usize = 0;
    while i < players.len()
        invariant
            i <= players.len(),
            forall|j: int| 0 <= j < i ==> #[trigger] players@[j].1 != user_id,
        decreases players.len() - i,
    {
        let (ent, user) = players[i];
        if user == user_id {
            assert(players@[i as int] == (ent, user_id));
            return Some(ent);
        }
        i = i + 1;
    }
    None
}

} // verus!
