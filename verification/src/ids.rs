use vstd::prelude::*;

verus! {

/// Identifier of a player character.
#[derive(Clone, Copy, Debug, PartialEq, Eq, Structural, Hash)]
pub struct CharacterId(pub u64);

/// Identifier of a solar system.
#[derive(Clone, Copy, Debug, PartialEq, Eq, Structural, Hash)]
pub struct SolarSystemId(pub i32);

/// Identifier of a station.
#[derive(Clone, Copy, Debug, PartialEq, Eq, Structural, Hash)]
pub struct StationId(pub i32);

/// Identifier of a player-built structure.
#[derive(Clone, Copy, Debug, PartialEq, Eq, Structural, Hash)]
pub struct StructureId(pub i64);

} // verus!
