//! The start menu's boxes showing who has joined.

use vstd::prelude::*;
use crate::player::Player;

verus! {

/// A menu box standing for the player with `player_id`.
#[derive(Clone, Copy, Debug, PartialEq, Eq, Structural)]
pub struct PlayerBox {
    pub player_id: usize,
}

pub open spec fn has_player_id(players: Seq<Player>, id: usize) -> bool {
    exists|j: int| 0 <= j < players.len() && #[trigger] players[j].player_id == id
}

/// One box for each player, in the players' order.
pub fn add_player_boxes(players: &Vec<Player>) -> (r: Vec<PlayerBox>)
    ensures
        r@ == players@.map_values(|p: Player| PlayerBox { player_id: p.player_id }),
{
    let mut r: Vec<PlayerBox> = Vec::new();
    let mut i: usize = 0;
    while i < players.len()
        invariant
            i <= players@.len(),
            r@ == players@.subrange(0, i as int).map_values(|p: Player| PlayerBox { player_id: p.player_id }),
        decreases players@.len() - i,
    {
        r.push(PlayerBox { player_id: players[i].player_id });
        i = i + 1;
        assert(players@.subrange(0, i as int).drop_last() =~= players@.subrange(0, i - 1));
        assert(r@ =~= players@.subrange(0, i as int).map_values(|p: Player| PlayerBox { player_id: p.player_id }));
    }
    assert(players@.subrange(0, i as int) =~= players@);
    r
}

/// Which boxes to remove: those whose player is no longer there.
pub fn despawn_player_boxes(boxes: &Vec<PlayerBox>, players: &Vec<Player>) -> (stale: Vec<bool>)
    ensures
        stale@.len() == boxes@.len(),
        forall|i: int| 0 <= i < boxes@.len() ==> stale@[i] == !has_player_id(players@, #[trigger] boxes@[i].player_id),
{
    let mut stale: Vec<bool> = Vec::new();
    let mut i: usize = 0;
    while i < boxes.len()
        invariant
            i <= boxes@.len(),
            stale@.len() == i,
            forall|k: int| 0 <= k < i ==> stale@[k] == !has_player_id(players@, #[trigger] boxes@[k].player_id),
        decreases boxes@.len() - i,
    {
        let id = boxes[i].player_id;
        let mut found = false;
        let mut j: usize = 0;
        while j < players.len()
            invariant
                j <= players@.len(),
                found <==> exists|k: int| 0 <= k < j && #[trigger] players@[k].player_id == id,
            decreases players@.len() - j,
        {
            if players[j].player_id == id {
                found = true;
            }
            j = j + 1;
        }
        stale.push(!found);
        i = i + 1;
    }
    stale
}

} // verus!
