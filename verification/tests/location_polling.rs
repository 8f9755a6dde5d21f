use jaytripper::auth::EsiError;
use jaytripper::events::MovementEventSource;
use jaytripper::ids::{CharacterId, SolarSystemId, StationId};
use jaytripper::ingestor::{
    exponential_backoff_millis, CharacterLocation, LocationIngestor, LocationPollConfig,
    PollOutcome,
};
use jaytripper::time::Timestamp;

fn ts(epoch_secs: i64) -> Timestamp {
    Timestamp::from_epoch_secs(epoch_secs).expect("valid epoch seconds")
}

fn location(system: i32, station: Option<i32>) -> CharacterLocation {
    CharacterLocation {
        solar_system_id: SolarSystemId(system),
        station_id: station.map(StationId),
        structure_id: None,
    }
}

fn config_for_tests() -> LocationPollConfig {
    LocationPollConfig {
        base_interval_millis: 5_000,
        jitter_permille: 0,
        api_failure_backoff_initial_millis: 1_000,
        api_failure_backoff_max_millis: 30_000,
    }
}

#[test]
fn emits_event_on_first_poll_and_transition_only() {
    let mut ingestor = LocationIngestor::new(CharacterId(42), config_for_tests());
    let now = ts(1_700_000_000);

    let first = ingestor
        .movement_for_observation(location(30000142, Some(1)), now)
        .expect("first poll emits");
    assert_eq!(first.character_id, CharacterId(42));
    assert_eq!(first.from_system_id, None);
    assert_eq!(first.to_system_id, SolarSystemId(30000142));
    assert_eq!(first.observed_at, now);
    assert_eq!(first.source, MovementEventSource::Esi);
    ingestor.commit_location(location(30000142, Some(1)));

    // a station change alone does not emit
    assert!(ingestor
        .movement_for_observation(location(30000142, Some(2)), now)
        .is_none());
    ingestor.commit_location(location(30000142, Some(2)));

    let second = ingestor
        .movement_for_observation(location(30002510, None), now)
        .expect("system change emits");
    assert_eq!(second.from_system_id, Some(SolarSystemId(30000142)));
    assert_eq!(second.to_system_id, SolarSystemId(30002510));
}

#[test]
fn api_failures_backoff() {
    let mut ingestor = LocationIngestor::new(CharacterId(42), config_for_tests());

    let outcome = ingestor.classify_fetch_error(EsiError::message("esi unavailable"));
    assert!(matches!(outcome, PollOutcome::ApiFailure(_)));
    assert_eq!(ingestor.api_consecutive_failures(), 1);
    assert_eq!(ingestor.next_api_failure_delay(), 1_000);

    ingestor.record_api_failure();
    assert_eq!(ingestor.api_consecutive_failures(), 2);
    assert_eq!(ingestor.next_api_failure_delay(), 2_000);
}

#[test]
fn reauth_demand_is_terminal_and_does_not_count_as_failure() {
    let mut ingestor = LocationIngestor::new(CharacterId(42), config_for_tests());
    let outcome = ingestor.classify_fetch_error(EsiError::NeedsReauth {
        reason: "token revoked".to_string(),
    });
    assert!(matches!(outcome, PollOutcome::Terminal(EsiError::NeedsReauth { .. })));
    assert_eq!(ingestor.api_consecutive_failures(), 0);
}

#[test]
fn records_poll_metrics_after_success() {
    let mut ingestor = LocationIngestor::new(CharacterId(42), config_for_tests());
    ingestor.record_api_failure();
    ingestor.record_success(12, ts(1_700_000_100));
    let metrics = ingestor.metrics();
    assert_eq!(metrics.last_success_at, Some(ts(1_700_000_100)));
    assert_eq!(metrics.last_poll_latency_millis, Some(12));
    assert_eq!(ingestor.api_consecutive_failures(), 0);
}

#[test]
fn exponential_backoff_doubles_and_caps() {
    assert_eq!(exponential_backoff_millis(1, 1_000, 30_000), 1_000);
    assert_eq!(exponential_backoff_millis(2, 1_000, 30_000), 2_000);
    assert_eq!(exponential_backoff_millis(3, 1_000, 30_000), 4_000);
    assert_eq!(exponential_backoff_millis(5, 1_000, 30_000), 16_000);
    assert_eq!(exponential_backoff_millis(6, 1_000, 30_000), 30_000);
    assert_eq!(exponential_backoff_millis(32, 1_000, 30_000), 30_000);
    assert_eq!(exponential_backoff_millis(200, 1_000, 30_000), 30_000);
    // the first backoff happens after one failure
    assert_eq!(exponential_backoff_millis(0, 1_000, 30_000), 1_000);
}

#[test]
fn jittered_delay_stays_within_the_band_and_is_reproducible() {
    let config = LocationPollConfig {
        base_interval_millis: 5_000,
        jitter_permille: 200,
        api_failure_backoff_initial_millis: 1_000,
        api_failure_backoff_max_millis: 30_000,
    };
    let mut a = LocationIngestor::new(CharacterId(42), config);
    let mut b = LocationIngestor::new(CharacterId(42), config);
    for _ in 0..16 {
        let da = a.next_success_delay();
        let db = b.next_success_delay();
        assert_eq!(da, db, "the cadence is seeded from the character id");
        assert!((4_000..=6_000).contains(&da));
    }

    let mut plain = LocationIngestor::new(CharacterId(42), config_for_tests());
    assert_eq!(plain.next_success_delay(), 5_000);
}
