use jaytripper::events::{
    character_stream_key, system_stream_key, MovementEvent, MovementEventSource, ScanPercent,
    SignatureEntry, SignatureEventSource, SystemSignaturesObservedEvent,
    CHARACTER_MOVED_SCHEMA_VERSION, SYSTEM_SIGNATURES_OBSERVED_SCHEMA_VERSION,
};
use jaytripper::ids::{CharacterId, SolarSystemId};
use jaytripper::store::{
    character_id_from_storage, character_id_to_storage, event_source_from_str, EventEnvelope,
    EventLogStore, EventPayload, EventRecord, EventSource, GlobalSeq, StoreError,
};
use jaytripper::time::Timestamp;

fn ts_secs(value: i64) -> Timestamp {
    Timestamp::from_epoch_secs(value).expect("valid epoch seconds")
}

fn ts_millis(value: i64) -> Timestamp {
    Timestamp::from_epoch_millis(value).expect("valid epoch milliseconds")
}

fn raw_event(event_id: &str, occurred: i64, recorded: i64, source: EventSource, payload: &str)
    -> EventEnvelope {
    EventEnvelope {
        event_id: event_id.to_owned(),
        event_type: "character_moved".to_owned(),
        schema_version: 1,
        stream_key: "character:42".to_owned(),
        occurred_at: ts_millis(occurred),
        recorded_at: ts_millis(recorded),
        attribution_character_id: Some(CharacterId(42)),
        source,
        payload: EventPayload::Opaque(payload.to_owned()),
    }
}

#[test]
fn append_and_read_events_round_trip() {
    let mut store = EventLogStore::new();

    let first_seq = store
        .append_event(&raw_event(
            "evt-1",
            1_700_000_000_123,
            1_700_000_005_123,
            EventSource::Esi,
            "{\"to_system_id\":30000142}",
        ))
        .expect("append first event");

    let second_seq = store
        .append_event(&raw_event(
            "evt-2",
            1_700_000_100_456,
            1_700_000_101_456,
            EventSource::Manual,
            "{\"from_system_id\":30000142,\"to_system_id\":30002510}",
        ))
        .expect("append second event");

    assert!(second_seq > first_seq);

    let ordered = store.read_ordered_events();
    assert_eq!(ordered.len(), 2);
    assert_eq!(ordered[0].envelope.event_id, "evt-1");
    assert_eq!(ordered[1].envelope.event_id, "evt-2");

    let since = store.read_events_since(first_seq);
    assert_eq!(since.len(), 1);
    assert_eq!(since[0].envelope.event_id, "evt-2");

    let stream = store.read_events_by_stream("character:42");
    assert_eq!(stream.len(), 2);
}

#[test]
fn append_movement_event_uses_expected_envelope_shape() {
    let mut store = EventLogStore::new();

    store
        .append_movement_event_at(
            &MovementEvent {
                character_id: CharacterId(42),
                from_system_id: Some(SolarSystemId(30000142)),
                to_system_id: SolarSystemId(30002510),
                observed_at: ts_secs(1_700_000_000),
                source: MovementEventSource::Esi,
            },
            ts_millis(1_700_000_000_999),
        )
        .expect("append movement event");

    let events = store.read_ordered_events();
    assert_eq!(events.len(), 1);
    assert_eq!(events[0].envelope.event_type, "character_moved");
    assert_eq!(events[0].envelope.schema_version, CHARACTER_MOVED_SCHEMA_VERSION);
    assert_eq!(events[0].envelope.stream_key, "character:42");
    assert_eq!(events[0].envelope.source, EventSource::Esi);
    assert_eq!(events[0].envelope.recorded_at.as_epoch_millis(), 1_700_000_000_999);
    assert_eq!(events[0].envelope.event_id.len(), 36);
}

#[test]
fn append_signature_event_uses_expected_envelope_shape() {
    let mut store = EventLogStore::new();

    let entries = vec![SignatureEntry {
        signature_id: "CWT-368".to_owned(),
        group: "Cosmic Signature".to_owned(),
        site_type: Some("Gas Site".to_owned()),
        name: None,
        scan_percent: Some(ScanPercent::from_hundredths(2860).expect("in range")),
    }];

    store
        .append_system_signatures_observed_event_at(
            &SystemSignaturesObservedEvent {
                system_id: SolarSystemId(31000001),
                snapshot_id: "snapshot-01".to_owned(),
                entries: entries.clone(),
                observed_at: ts_secs(1_700_000_300),
                attribution_character_id: Some(CharacterId(42)),
                source: SignatureEventSource::Manual,
            },
            ts_millis(1_700_000_300_999),
        )
        .expect("append signature event");

    let events = store.read_ordered_events();
    assert_eq!(events.len(), 1);
    assert_eq!(events[0].envelope.event_type, "system_signatures_observed");
    assert_eq!(
        events[0].envelope.schema_version,
        SYSTEM_SIGNATURES_OBSERVED_SCHEMA_VERSION
    );
    assert_eq!(events[0].envelope.stream_key, "system:31000001");
    assert_eq!(events[0].envelope.source, EventSource::Manual);

    match &events[0].envelope.payload {
        EventPayload::SystemSignaturesObserved(payload) => {
            assert_eq!(payload.system_id, SolarSystemId(31000001));
            assert_eq!(payload.snapshot_id, "snapshot-01");
            assert_eq!(payload.entries, entries);
        },
        other => panic!("expected a signature payload, got {other:?}"),
    }
}

#[test]
fn movement_and_signature_events_coexist_in_ordered_stream() {
    let mut store = EventLogStore::new();

    store
        .append_movement_event_at(
            &MovementEvent {
                character_id: CharacterId(42),
                from_system_id: None,
                to_system_id: SolarSystemId(30000142),
                observed_at: ts_secs(1_700_000_000),
                source: MovementEventSource::Esi,
            },
            ts_millis(1_700_000_000_500),
        )
        .expect("append movement event");

    store
        .append_system_signatures_observed_event_at(
            &SystemSignaturesObservedEvent {
                system_id: SolarSystemId(30000142),
                snapshot_id: "snapshot-02".to_owned(),
                entries: vec![SignatureEntry {
                    signature_id: "GJP-344".to_owned(),
                    group: "Cosmic Signature".to_owned(),
                    site_type: None,
                    name: None,
                    scan_percent: Some(ScanPercent::from_hundredths(90).expect("in range")),
                }],
                observed_at: ts_secs(1_700_000_120),
                attribution_character_id: Some(CharacterId(42)),
                source: SignatureEventSource::Manual,
            },
            ts_millis(1_700_000_120_500),
        )
        .expect("append signature event");

    let events = store.read_ordered_events();
    assert_eq!(events.len(), 2);
    assert_eq!(events[0].envelope.event_type, "character_moved");
    assert_eq!(events[1].envelope.event_type, "system_signatures_observed");
}

#[test]
fn duplicate_event_ids_are_refused() {
    let mut store = EventLogStore::new();
    store
        .append_event(&raw_event("evt-1", 1_000, 1_000, EventSource::Esi, "{}"))
        .expect("first append");
    let err = store
        .append_event(&raw_event("evt-1", 2_000, 2_000, EventSource::Esi, "{}"))
        .expect_err("second append with the same id must fail");
    assert!(matches!(err, StoreError::DuplicateEventId(id) if id == "evt-1"));
    assert_eq!(store.read_ordered_events().len(), 1);
}

#[test]
fn from_records_validates_ordering() {
    let mut store = EventLogStore::new();
    store
        .append_event(&raw_event("evt-1", 1_000, 1_000, EventSource::Esi, "{}"))
        .expect("append");
    let records = store.read_ordered_events();
    let shuffled: Vec<EventRecord> = vec![
        EventRecord { global_seq: GlobalSeq(2), envelope: records[0].envelope.duplicate() },
        records[0].duplicate(),
    ];
    let err = match EventLogStore::from_records(shuffled) {
        Ok(_) => panic!("out-of-order records must be refused"),
        Err(e) => e,
    };
    assert!(matches!(err, StoreError::InvalidEventLog));

    let ok = EventLogStore::from_records(records).expect("ordered records load");
    assert_eq!(ok.read_ordered_events().len(), 1);
}

#[test]
fn character_id_storage_conversions_guard_their_ranges() {
    assert_eq!(character_id_to_storage(CharacterId(42)).expect("fits"), 42);
    assert!(matches!(
        character_id_to_storage(CharacterId(u64::MAX)),
        Err(StoreError::CharacterIdOverflow(v)) if v == u64::MAX
    ));
    assert_eq!(character_id_from_storage(42).expect("non-negative"), CharacterId(42));
    assert!(matches!(
        character_id_from_storage(-1),
        Err(StoreError::NegativeCharacterId(-1))
    ));
}

#[test]
fn event_sources_round_trip_through_their_tags() {
    for source in [EventSource::Esi, EventSource::Manual, EventSource::Import, EventSource::Sync]
    {
        assert_eq!(event_source_from_str(source.as_str()).expect("known tag"), source);
    }
    assert!(matches!(
        event_source_from_str("bogus"),
        Err(StoreError::InvalidEventSource(s)) if s == "bogus"
    ));
}

#[test]
fn stream_keys_name_character_and_system() {
    assert_eq!(character_stream_key(CharacterId(42)), "character:42");
    assert_eq!(system_stream_key(SolarSystemId(31000001)), "system:31000001");
    assert_eq!(system_stream_key(SolarSystemId(-7)), "system:-7");
}

#[test]
fn timestamps_convert_between_seconds_and_milliseconds() {
    let t = ts_millis(1_700_000_000_123);
    assert_eq!(t.as_epoch_millis(), 1_700_000_000_123);
    assert_eq!(t.as_epoch_secs(), 1_700_000_000);

    let before_epoch = ts_millis(-1_500);
    assert_eq!(before_epoch.as_epoch_secs(), -2);

    assert_eq!(ts_secs(1_700_000_000).as_epoch_millis(), 1_700_000_000_000);
    assert!(Timestamp::from_epoch_millis(i64::MAX).is_none());

    let now = Timestamp::now().expect("clock after the epoch");
    assert!(now.as_epoch_millis() > 0);
}

#[test]
fn append_rejects_oversized_attribution_ids() {
    let mut store = EventLogStore::new();
    let mut event = raw_event("evt-big", 1_000, 1_000, EventSource::Esi, "{}");
    event.attribution_character_id = Some(CharacterId(u64::MAX));

    let err = store
        .append_event(&event)
        .expect_err("an id beyond the signed 64-bit column must be refused");
    assert!(matches!(err, StoreError::CharacterIdOverflow(v) if v == u64::MAX));
    assert!(store.read_ordered_events().is_empty());

    let err = store
        .append_movement_event(&MovementEvent {
            character_id: CharacterId(u64::MAX),
            from_system_id: None,
            to_system_id: SolarSystemId(30000142),
            observed_at: ts_secs(1_700_000_000),
            source: MovementEventSource::Esi,
        })
        .expect_err("movement events carry the character as attribution");
    assert!(matches!(err, StoreError::CharacterIdOverflow(v) if v == u64::MAX));
    assert!(store.read_ordered_events().is_empty());
}
