use jaytripper::events::{CharacterMovedPayload, CHARACTER_MOVED_SCHEMA_VERSION};
use jaytripper::ids::{CharacterId, SolarSystemId};
use jaytripper::projection::{
    project_records_with_monotonic_guard, ProjectionRuntimeState,
};
use jaytripper::store::{
    EventEnvelope, EventPayload, EventRecord, EventSource, GlobalSeq,
};
use jaytripper::time::Timestamp;

fn ts(epoch_secs: i64) -> Timestamp {
    Timestamp::from_epoch_secs(epoch_secs).expect("valid epoch seconds")
}

fn movement_record(
    seq: i64,
    character_id: CharacterId,
    from_system_id: Option<SolarSystemId>,
    to_system_id: SolarSystemId,
) -> EventRecord {
    EventRecord {
        global_seq: GlobalSeq(seq),
        envelope: EventEnvelope {
            event_id: format!("evt-{seq}"),
            event_type: "character_moved".to_owned(),
            schema_version: CHARACTER_MOVED_SCHEMA_VERSION,
            stream_key: format!("character:{}", character_id.0),
            occurred_at: ts(1_700_000_000 + seq),
            recorded_at: ts(1_700_000_000 + seq),
            attribution_character_id: Some(character_id),
            source: EventSource::Esi,
            payload: EventPayload::CharacterMoved(CharacterMovedPayload {
                from_system_id,
                to_system_id,
            }),
        },
    }
}

fn current_system(state: &ProjectionRuntimeState, id: CharacterId) -> Option<SolarSystemId> {
    state
        .projection
        .characters
        .iter()
        .find(|c| c.character_id == id)
        .map(|c| c.current_system_id)
}

#[test]
fn skips_stale_records_after_newer_record_applies() {
    let mut state = ProjectionRuntimeState::new();
    let newer = movement_record(
        3,
        CharacterId(77),
        Some(SolarSystemId(30002510)),
        SolarSystemId(30002645),
    );
    let stale = movement_record(
        2,
        CharacterId(77),
        Some(SolarSystemId(30000142)),
        SolarSystemId(30002510),
    );

    project_records_with_monotonic_guard(&mut state, &vec![newer]).expect("apply newer record");
    project_records_with_monotonic_guard(&mut state, &vec![stale]).expect("skip stale record");

    assert_eq!(state.last_projected_seq, Some(GlobalSeq(3)));
    assert_eq!(current_system(&state, CharacterId(77)), Some(SolarSystemId(30002645)));
}

#[test]
fn monotonically_advances_sequence_for_in_order_batch() {
    let mut state = ProjectionRuntimeState::new();
    let first = movement_record(1, CharacterId(1), None, SolarSystemId(30000142));
    let second = movement_record(
        2,
        CharacterId(1),
        Some(SolarSystemId(30000142)),
        SolarSystemId(30002510),
    );

    project_records_with_monotonic_guard(&mut state, &vec![first, second])
        .expect("apply in-order batch");

    assert_eq!(state.last_projected_seq, Some(GlobalSeq(2)));
}

#[test]
fn reapplying_a_batch_changes_nothing() {
    let mut state = ProjectionRuntimeState::new();
    let batch = vec![
        movement_record(1, CharacterId(9), None, SolarSystemId(30000142)),
        movement_record(2, CharacterId(9), Some(SolarSystemId(30000142)), SolarSystemId(30002510)),
    ];

    project_records_with_monotonic_guard(&mut state, &batch).expect("first application");
    let snapshot = state.clone();
    project_records_with_monotonic_guard(&mut state, &batch).expect("second application");

    assert_eq!(state, snapshot);
}

#[test]
fn unsupported_schema_version_fails_the_batch() {
    let mut state = ProjectionRuntimeState::new();
    let mut record = movement_record(1, CharacterId(5), None, SolarSystemId(30000142));
    record.envelope.schema_version = 2;

    let err = project_records_with_monotonic_guard(&mut state, &vec![record])
        .expect_err("schema 2 is unsupported");
    assert!(matches!(
        err,
        jaytripper::projection::AppError::UnsupportedSchemaVersion { schema_version: 2, .. }
    ));
    assert_eq!(state.last_projected_seq, None);
}

#[test]
fn movement_without_attribution_fails_the_batch() {
    let mut state = ProjectionRuntimeState::new();
    let mut record = movement_record(1, CharacterId(5), None, SolarSystemId(30000142));
    record.envelope.attribution_character_id = None;

    let err = project_records_with_monotonic_guard(&mut state, &vec![record])
        .expect_err("attribution is required");
    assert!(matches!(
        err,
        jaytripper::projection::AppError::MissingCharacterAttribution { .. }
    ));
}

#[test]
fn movement_with_opaque_payload_fails_the_batch() {
    let mut state = ProjectionRuntimeState::new();
    let mut record = movement_record(1, CharacterId(5), None, SolarSystemId(30000142));
    record.envelope.payload = EventPayload::Opaque("{}".to_owned());

    let err = project_records_with_monotonic_guard(&mut state, &vec![record])
        .expect_err("payload shape must match the type");
    assert!(matches!(err, jaytripper::projection::AppError::PayloadMismatch { .. }));
}
