use vstd::prelude::*;

use crate::ids::{CharacterId, SolarSystemId};
use crate::projection::{spec_character_at, AppProjection, CharacterLocationView};

verus! {

/// How a caller names the system a snapshot belongs to.
#[derive(Clone, Copy, Debug, PartialEq, Eq, Structural)]
pub enum SignatureSnapshotRecordContext {
    /// Record at the focused system, unless the attributed character is
    /// projected elsewhere.
    Auto { focused_system_id: SolarSystemId, attribution_character_id: Option<CharacterId> },
    /// Record at exactly this system.
    Explicit { system_id: SolarSystemId, attribution_character_id: Option<CharacterId> },
}

/// What recording a snapshot came to.
#[derive(Clone, Copy, Debug, PartialEq, Eq, Structural)]
pub enum SignatureSnapshotRecordOutcome {
    Recorded { system_id: SolarSystemId },
    NeedsConfirmation {
        focused_system_id: SolarSystemId,
        character_system_id: SolarSystemId,
        character_id: CharacterId,
    },
}

/// Where a snapshot should be written, or why it needs confirmation first.
#[derive(Clone, Copy, Debug, PartialEq, Eq, Structural)]
pub enum SignatureTargetSystemResolution {
    Record { system_id: SolarSystemId, attribution_character_id: Option<CharacterId> },
    NeedsConfirmation {
        focused_system_id: SolarSystemId,
        character_system_id: SolarSystemId,
        character_id: CharacterId,
    },
}

/// The resolution rule: an explicit context always records there; an auto
/// context records at the focused system, unless the attributed character
/// is projected in a different system, which demands confirmation.
pub open spec fn spec_resolve_signature_target(
    characters: Seq<CharacterLocationView>,
    context: SignatureSnapshotRecordContext,
) -> SignatureTargetSystemResolution {
    match context {
        SignatureSnapshotRecordContext::Explicit { system_id, attribution_character_id } =>
            SignatureTargetSystemResolution::Record { system_id, attribution_character_id },
        SignatureSnapshotRecordContext::Auto { focused_system_id, attribution_character_id } => {
            match attribution_character_id {
                Some(character_id) => match spec_character_at(characters, character_id) {
                    Some(entry) => if entry.current_system_id != focused_system_id {
                        SignatureTargetSystemResolution::NeedsConfirmation {
                            focused_system_id,
                            character_system_id: entry.current_system_id,
                            character_id,
                        }
                    } else {
                        SignatureTargetSystemResolution::Record {
                            system_id: focused_system_id,
                            attribution_character_id,
                        }
                    },
                    None => SignatureTargetSystemResolution::Record {
                        system_id: focused_system_id,
                        attribution_character_id,
                    },
                },
                None => SignatureTargetSystemResolution::Record {
                    system_id: focused_system_id,
                    attribution_character_id,
                },
            }
        },
    }
}

/// Resolves the system a snapshot is written to, from the context and the
/// current projection.
pub fn resolve_signature_target_system(
    projection: &AppProjection,
    context: SignatureSnapshotRecordContext,
) -> (r: SignatureTargetSystemResolution)
    ensures
        r == spec_resolve_signature_target(projection@.characters, context),
{
    match context {
        SignatureSnapshotRecordContext::Explicit { system_id, attribution_character_id } =>
            SignatureTargetSystemResolution::Record { system_id, attribution_character_id },
        SignatureSnapshotRecordContext::Auto { focused_system_id, attribution_character_id } => {
            match attribution_character_id {
                Some(character_id) => {
                    match crate::projection::character_entry(
                        &projection.characters,
                        character_id,
                    ) {
                        Some(entry) => {
                            if entry.current_system_id.0 != focused_system_id.0 {
                                SignatureTargetSystemResolution::NeedsConfirmation {
                                    focused_system_id,
                                    character_system_id: entry.current_system_id,
                                    character_id,
                                }
                            } else {
                                proof {
                                    assert(entry.current_system_id == focused_system_id);
                                }
                                SignatureTargetSystemResolution::Record {
                                    system_id: focused_system_id,
                                    attribution_character_id,
                                }
                            }
                        },
                        None => SignatureTargetSystemResolution::Record {
                            system_id: focused_system_id,
                            attribution_character_id,
                        },
                    }
                },
                None => SignatureTargetSystemResolution::Record {
                    system_id: focused_system_id,
                    attribution_character_id,
                },
            }
        },
    }
}

} // verus!
