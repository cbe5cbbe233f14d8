use crate::world::world_coordinate::WorldCoordinate;
use vstd::prelude::*;

verus! {

/// What a client tells the server.
#[derive(Debug)]
pub enum ClientEvent {
    PlayerConnect,
    PlayerDisconnect,
    PlayerMove { position: WorldCoordinate },
}

} // verus!
