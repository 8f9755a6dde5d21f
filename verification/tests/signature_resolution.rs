use jaytripper::ids::{CharacterId, SolarSystemId};
use jaytripper::projection::{AppProjection, CharacterLocationView};
use jaytripper::resolve::{
    resolve_signature_target_system, SignatureSnapshotRecordContext,
    SignatureTargetSystemResolution,
};
use jaytripper::time::Timestamp;

fn ts(epoch_secs: i64) -> Timestamp {
    Timestamp::from_epoch_secs(epoch_secs).expect("valid epoch seconds")
}

#[test]
fn explicit_context_always_records_explicit_system() {
    let projection = AppProjection::new();

    let result = resolve_signature_target_system(
        &projection,
        SignatureSnapshotRecordContext::Explicit {
            system_id: SolarSystemId(30002510),
            attribution_character_id: Some(CharacterId(42)),
        },
    );

    assert_eq!(
        result,
        SignatureTargetSystemResolution::Record {
            system_id: SolarSystemId(30002510),
            attribution_character_id: Some(CharacterId(42)),
        }
    );
}

#[test]
fn auto_context_requests_confirmation_when_character_location_mismatches_focus() {
    let mut projection = AppProjection::new();
    projection.characters.push(CharacterLocationView {
        character_id: CharacterId(42),
        current_system_id: SolarSystemId(30000142),
        last_movement_observed_at: ts(1_700_000_000),
    });

    let result = resolve_signature_target_system(
        &projection,
        SignatureSnapshotRecordContext::Auto {
            focused_system_id: SolarSystemId(30002510),
            attribution_character_id: Some(CharacterId(42)),
        },
    );

    assert_eq!(
        result,
        SignatureTargetSystemResolution::NeedsConfirmation {
            focused_system_id: SolarSystemId(30002510),
            character_system_id: SolarSystemId(30000142),
            character_id: CharacterId(42),
        }
    );
}

#[test]
fn auto_context_records_focused_system_when_character_unknown() {
    let projection = AppProjection::new();

    let result = resolve_signature_target_system(
        &projection,
        SignatureSnapshotRecordContext::Auto {
            focused_system_id: SolarSystemId(30000142),
            attribution_character_id: Some(CharacterId(9001)),
        },
    );

    assert_eq!(
        result,
        SignatureTargetSystemResolution::Record {
            system_id: SolarSystemId(30000142),
            attribution_character_id: Some(CharacterId(9001)),
        }
    );
}
