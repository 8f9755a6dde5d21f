use jaytripper::events::{
    MovementEvent, MovementEventSource, ScanPercent, SignatureEntry, SignatureEventSource,
    SystemSignaturesObservedEvent,
};
use jaytripper::facade::AppRuntime;
use jaytripper::ids::{CharacterId, SolarSystemId};
use jaytripper::projection::{
    AppError, ProjectionRuntimeState, SystemSignaturesProjection,
};
use jaytripper::resolve::{SignatureSnapshotRecordContext, SignatureSnapshotRecordOutcome};
use jaytripper::signatures::{ProjectedSignature, SignatureParseError};
use jaytripper::store::{
    EventEnvelope, EventLogStore, EventPayload, EventSource, GlobalSeq,
};
use jaytripper::time::Timestamp;

fn ts_secs(value: i64) -> Timestamp {
    Timestamp::from_epoch_secs(value).expect("valid epoch seconds")
}

fn sp(hundredths: u16) -> ScanPercent {
    ScanPercent::from_hundredths(hundredths).expect("percent in range")
}

fn movement(
    character: u64,
    from: Option<i32>,
    to: i32,
    observed_at_secs: i64,
) -> MovementEvent {
    MovementEvent {
        character_id: CharacterId(character),
        from_system_id: from.map(SolarSystemId),
        to_system_id: SolarSystemId(to),
        observed_at: ts_secs(observed_at_secs),
        source: MovementEventSource::Esi,
    }
}

fn system_of<'a>(
    state: &'a ProjectionRuntimeState,
    system: i32,
) -> Option<&'a SystemSignaturesProjection> {
    state
        .projection
        .signatures_by_system
        .iter()
        .find(|s| s.system_id == SolarSystemId(system))
}

fn signature_of<'a>(
    system: &'a SystemSignaturesProjection,
    id: &str,
) -> Option<&'a ProjectedSignature> {
    system.signatures_by_id.iter().find(|s| s.signature_id == id)
}

#[test]
fn replay_restores_character_position() {
    let mut store = EventLogStore::new();
    store
        .append_movement_event(&movement(42, None, 30000142, 1_700_000_000))
        .expect("append first move");
    store
        .append_movement_event(&movement(42, Some(30000142), 30002510, 1_700_000_120))
        .expect("append second move");

    let app = AppRuntime::from_store(store).expect("build app from store");
    assert_eq!(app.last_projected_seq(), Some(GlobalSeq(2)));
    assert_eq!(
        app.character_current_system(CharacterId(42)),
        Some(SolarSystemId(30002510))
    );
}

#[test]
fn sink_append_updates_projection_and_store() {
    let mut app = AppRuntime::new();

    app.emit_movement(&movement(1337, None, 30002053, 1_700_000_777))
        .expect("emit movement");

    assert_eq!(app.last_projected_seq(), Some(GlobalSeq(1)));
    assert_eq!(
        app.character_current_system(CharacterId(1337)),
        Some(SolarSystemId(30002053))
    );
    assert_eq!(app.store().read_ordered_events().len(), 1);
}

#[test]
fn replay_restores_signatures_and_characters_from_mixed_stream() {
    let mut store = EventLogStore::new();

    store
        .append_movement_event(&movement(42, None, 30000142, 1_700_000_000))
        .expect("append move 1");
    store
        .append_system_signatures_observed_event(&SystemSignaturesObservedEvent {
            system_id: SolarSystemId(30000142),
            snapshot_id: "snapshot-01".to_owned(),
            entries: vec![SignatureEntry {
                signature_id: "ABC-123".to_owned(),
                group: "Cosmic Signature".to_owned(),
                site_type: None,
                name: None,
                scan_percent: Some(sp(7000)),
            }],
            observed_at: ts_secs(1_700_000_060),
            attribution_character_id: Some(CharacterId(42)),
            source: SignatureEventSource::Manual,
        })
        .expect("append sigs 1");
    store
        .append_movement_event(&movement(42, Some(30000142), 30002510, 1_700_000_120))
        .expect("append move 2");
    store
        .append_system_signatures_observed_event(&SystemSignaturesObservedEvent {
            system_id: SolarSystemId(30000142),
            snapshot_id: "snapshot-02".to_owned(),
            entries: vec![SignatureEntry {
                signature_id: "ABC-123".to_owned(),
                group: "Cosmic Signature".to_owned(),
                site_type: None,
                name: None,
                scan_percent: Some(sp(0)),
            }],
            observed_at: ts_secs(1_700_000_180),
            attribution_character_id: Some(CharacterId(42)),
            source: SignatureEventSource::Manual,
        })
        .expect("append sigs 2");

    let app = AppRuntime::from_store(store).expect("build app from store");
    assert_eq!(app.last_projected_seq(), Some(GlobalSeq(4)));
    assert_eq!(
        app.character_current_system(CharacterId(42)),
        Some(SolarSystemId(30002510))
    );

    let state = app.state();
    let system = system_of(state, 30000142).expect("system signatures");
    let signature = signature_of(system, "ABC-123").expect("signature projection");
    assert_eq!(signature.latest_scan_percent, Some(sp(0)));
    assert_eq!(signature.highest_scan_percent_seen, Some(sp(7000)));
}

#[test]
fn record_signature_snapshot_auto_uses_focused_without_character_location() {
    let mut app = AppRuntime::new();

    let outcome = app
        .record_signature_snapshot(
            SignatureSnapshotRecordContext::Auto {
                focused_system_id: SolarSystemId(30000142),
                attribution_character_id: Some(CharacterId(9001)),
            },
            "ABC-123\tCosmic Signature\tGas Site\t\t10.0%\n",
        )
        .expect("record signatures");

    assert_eq!(
        outcome,
        SignatureSnapshotRecordOutcome::Recorded { system_id: SolarSystemId(30000142) }
    );

    let state = app.state();
    let system = system_of(state, 30000142).expect("system signatures");
    assert!(signature_of(system, "ABC-123").is_some());
}

#[test]
fn record_signature_snapshot_auto_requests_confirmation_when_mismatch() {
    let mut app = AppRuntime::new();

    app.emit_movement(&movement(42, None, 30000142, 1_700_000_000))
        .expect("emit movement");

    let outcome = app
        .record_signature_snapshot(
            SignatureSnapshotRecordContext::Auto {
                focused_system_id: SolarSystemId(30002510),
                attribution_character_id: Some(CharacterId(42)),
            },
            "ABC-123\tCosmic Signature\tGas Site\t\t10.0%\n",
        )
        .expect("record call should not fail");

    assert_eq!(
        outcome,
        SignatureSnapshotRecordOutcome::NeedsConfirmation {
            focused_system_id: SolarSystemId(30002510),
            character_system_id: SolarSystemId(30000142),
            character_id: CharacterId(42),
        }
    );
    assert_eq!(app.store().read_ordered_events().len(), 1);
}

#[test]
fn record_signature_snapshot_auto_uses_focused_when_character_matches() {
    let mut app = AppRuntime::new();

    app.emit_movement(&movement(42, None, 30000142, 1_700_000_000))
        .expect("emit movement");

    let outcome = app
        .record_signature_snapshot(
            SignatureSnapshotRecordContext::Auto {
                focused_system_id: SolarSystemId(30000142),
                attribution_character_id: Some(CharacterId(42)),
            },
            "ABC-123\tCosmic Signature\tGas Site\t\t10.0%\n",
        )
        .expect("record signatures");

    assert_eq!(
        outcome,
        SignatureSnapshotRecordOutcome::Recorded { system_id: SolarSystemId(30000142) }
    );
}

#[test]
fn record_signature_snapshot_explicit_applies_even_when_character_mismatch() {
    let mut app = AppRuntime::new();

    app.emit_movement(&movement(42, None, 30000142, 1_700_000_000))
        .expect("emit movement");

    let outcome = app
        .record_signature_snapshot(
            SignatureSnapshotRecordContext::Explicit {
                system_id: SolarSystemId(30002510),
                attribution_character_id: Some(CharacterId(42)),
            },
            "ABC-123\tCosmic Signature\tGas Site\t\t10.0%\n",
        )
        .expect("record signatures");

    assert_eq!(
        outcome,
        SignatureSnapshotRecordOutcome::Recorded { system_id: SolarSystemId(30002510) }
    );
    let state = app.state();
    let system = system_of(state, 30002510).expect("system signatures");
    assert!(signature_of(system, "ABC-123").is_some());
}

#[test]
fn record_signature_snapshot_returns_parse_error() {
    let mut app = AppRuntime::new();

    let err = app
        .record_signature_snapshot(
            SignatureSnapshotRecordContext::Auto {
                focused_system_id: SolarSystemId(30000142),
                attribution_character_id: None,
            },
            "BAD\tCosmic Signature\tGas Site\t\t10.0%\n",
        )
        .expect_err("expected parse error");

    assert!(matches!(
        err,
        AppError::SignatureParse(SignatureParseError::InvalidSignatureId { .. })
    ));
    assert_eq!(app.store().read_ordered_events().len(), 0);
}

#[test]
fn catch_up_projection_from_store_skips_already_applied_records() {
    let mut app = AppRuntime::new();

    app.emit_movement(&movement(1, None, 30000142, 1_700_000_000))
        .expect("emit movement");

    let seq_before = app.last_projected_seq();
    app.catch_up_projection_from_store()
        .expect("catch up should be idempotent");
    assert_eq!(app.last_projected_seq(), seq_before);
}

#[test]
fn monotonic_guard_rejects_late_older_overlap_batch() {
    let mut app = AppRuntime::new();

    app.emit_movement(&movement(77, None, 30000142, 1_700_000_000))
        .expect("append movement 1");
    app.emit_movement(&movement(77, Some(30000142), 30002510, 1_700_000_100))
        .expect("append movement 2");
    app.emit_movement(&movement(77, Some(30002510), 30002645, 1_700_000_200))
        .expect("append movement 3");

    let records = app.store().read_ordered_events();
    let event_2 = records
        .iter()
        .find(|record| record.global_seq == GlobalSeq(2))
        .expect("event 2 exists")
        .duplicate();
    let event_3 = records
        .iter()
        .find(|record| record.global_seq == GlobalSeq(3))
        .expect("event 3 exists")
        .duplicate();

    let mut state = app.state().clone();
    jaytripper::projection::project_records_with_monotonic_guard(&mut state, &vec![event_3])
        .expect("apply newer overlap batch");
    jaytripper::projection::project_records_with_monotonic_guard(&mut state, &vec![event_2])
        .expect("apply stale overlap batch");

    assert_eq!(state.last_projected_seq, Some(GlobalSeq(3)));
    assert_eq!(
        state
            .projection
            .characters
            .iter()
            .find(|c| c.character_id == CharacterId(77))
            .expect("character projection")
            .current_system_id,
        SolarSystemId(30002645)
    );
}

#[test]
fn unknown_event_type_is_skipped_and_sequence_advances() {
    let mut store = EventLogStore::new();
    store
        .append_movement_event(&movement(9001, None, 30000142, 1_700_000_000))
        .expect("append movement");
    store
        .append_event(&EventEnvelope {
            event_id: "evt-future".to_owned(),
            event_type: "some_future_event".to_owned(),
            schema_version: 1,
            stream_key: "future:stream".to_owned(),
            occurred_at: ts_secs(1_700_000_010),
            recorded_at: ts_secs(1_700_000_010),
            attribution_character_id: None,
            source: EventSource::Import,
            payload: EventPayload::Opaque("{\"hello\":\"world\"}".to_owned()),
        })
        .expect("append unknown event");

    let app = AppRuntime::from_store(store).expect("build app from store");

    assert_eq!(
        app.character_current_system(CharacterId(9001)),
        Some(SolarSystemId(30000142))
    );
    assert_eq!(app.last_projected_seq(), Some(GlobalSeq(2)));
}

#[test]
fn restart_preserves_mixed_projection_with_overwrites() {
    let mut app = AppRuntime::new();

    app.emit_movement(&movement(42, None, 30000142, 1_700_000_000))
        .expect("append move 1");
    app.emit_movement(&movement(42, Some(30000142), 30002510, 1_700_000_060))
        .expect("append move 2 overwrite");
    app.emit_movement(&movement(100, None, 30005196, 1_700_000_090))
        .expect("append move second character");

    app.record_signature_snapshot(
        SignatureSnapshotRecordContext::Explicit {
            system_id: SolarSystemId(30000142),
            attribution_character_id: Some(CharacterId(42)),
        },
        "ABC-123\tCosmic Signature\tGas Site\t\t70.0%\nDEF-999\tCosmic Signature\tRelic Site\t\t35.0%\n",
    )
    .expect("record snapshot a1");
    app.record_signature_snapshot(
        SignatureSnapshotRecordContext::Explicit {
            system_id: SolarSystemId(30000142),
            attribution_character_id: Some(CharacterId(42)),
        },
        "ABC-123\tCosmic Signature\tGas Site\tCloud Ring\t10.0%\n",
    )
    .expect("record snapshot a2 overwrite");
    app.record_signature_snapshot(
        SignatureSnapshotRecordContext::Explicit {
            system_id: SolarSystemId(30002510),
            attribution_character_id: Some(CharacterId(42)),
        },
        "QWE-777\tCosmic Anomaly\tOre Site\t\t100.0%\n",
    )
    .expect("record snapshot b1");

    let before_state = app.state().clone();

    assert_eq!(
        app.character_current_system(CharacterId(42)),
        Some(SolarSystemId(30002510))
    );
    assert_eq!(
        app.character_current_system(CharacterId(100)),
        Some(SolarSystemId(30005196))
    );

    let system_a = system_of(&before_state, 30000142).expect("system A signatures");
    let abc = signature_of(system_a, "ABC-123").expect("ABC present");
    assert_eq!(abc.latest_scan_percent, Some(sp(1000)));
    assert_eq!(abc.highest_scan_percent_seen, Some(sp(7000)));
    assert_eq!(abc.name.as_deref(), Some("Cloud Ring"));
    let def = signature_of(system_a, "DEF-999").expect("DEF present");
    assert!(def.missing_from_latest_snapshot);

    let records = app.store().read_ordered_events();
    let rebuilt = EventLogStore::from_records(records).expect("records form a valid log");
    let app_after_restart = AppRuntime::from_store(rebuilt).expect("connect app after restart");
    let after_state = app_after_restart.state().clone();

    assert_eq!(before_state, after_state);
}
