use crate::world::generation::random::Seed;
use crate::world::world_coordinate::WorldCoordinate;
use vstd::prelude::*;

verus! {

/// What the server tells its clients.
#[derive(Debug)]
pub enum ServerEvent {
    PlayerConnected { id: u128 },
    PlayerDisconnected { id: u128 },
    PlayerMoved { id: u128, position: WorldCoordinate },
    ServerInfo { seed: Seed, player_ids: Vec<u128> },
}

} // verus!
