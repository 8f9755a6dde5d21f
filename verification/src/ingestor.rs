use vstd::prelude::*;

use crate::auth::EsiError;
use crate::events::{MovementEvent, MovementEventSource};
use crate::ids::{CharacterId, SolarSystemId, StationId, StructureId};
use crate::time::Timestamp;

verus! {

/// Where a character is right now, as the location endpoint reports it.
#[derive(Clone, Copy, Debug, PartialEq, Eq, Structural)]
pub struct CharacterLocation {
    pub solar_system_id: SolarSystemId,
    pub station_id: Option<StationId>,
    pub structure_id: Option<StructureId>,
}

/// Poll cadence configuration, in milliseconds; jitter in thousandths of
/// the base interval.
#[derive(Clone, Copy, Debug, PartialEq, Eq, Structural)]
pub struct LocationPollConfig {
    pub base_interval_millis: u64,
    pub jitter_permille: u32,
    pub api_failure_backoff_initial_millis: u64,
    pub api_failure_backoff_max_millis: u64,
}

impl Default for LocationPollConfig {
    /// Five-second polls with twenty percent jitter; failures back off
    /// from one second up to thirty.
    fn default() -> (r: LocationPollConfig)
        ensures
            r == (LocationPollConfig {
                base_interval_millis: 5000,
                jitter_permille: 200,
                api_failure_backoff_initial_millis: 1000,
                api_failure_backoff_max_millis: 30000,
            }),
    {
        LocationPollConfig {
            base_interval_millis: 5000,
            jitter_permille: 200,
            api_failure_backoff_initial_millis: 1000,
            api_failure_backoff_max_millis: 30000,
        }
    }
}

/// What the poll loop last managed to do.
#[derive(Clone, Copy, Debug, PartialEq, Eq, Structural)]
pub struct PollMetrics {
    pub last_success_at: Option<Timestamp>,
    pub last_poll_latency_millis: Option<u64>,
}

impl Default for PollMetrics {
    fn default() -> (r: PollMetrics)
        ensures
            r == (PollMetrics { last_success_at: None, last_poll_latency_millis: None }),
    {
        PollMetrics { last_success_at: None, last_poll_latency_millis: None }
    }
}

/// How one poll attempt ended: continue on the jittered cadence, back off
/// after an API failure, or stop for good.
#[derive(Debug)]
pub enum PollOutcome {
    Success,
    ApiFailure(EsiError),
    Terminal(EsiError),
}

#[verifier::external_type_specification]
#[verifier::external_body]
pub struct ExSmallRng(rand::rngs::SmallRng);

/// Relies on `rand::SeedableRng::seed_from_u64` for `SmallRng`: a
/// generator seeded deterministically from the given value.
#[verifier::external_body]
fn rng_from_seed(seed: u64) -> rand::rngs::SmallRng {
    <rand::rngs::SmallRng as rand::SeedableRng>::seed_from_u64(seed)
}

/// Relies on `rand::Rng::random_range` over an inclusive range: a value
/// between the bounds; it panics only on an empty range, which the
/// precondition rules out.
#[verifier::external_body]
fn draw_in_range(rng: &mut rand::rngs::SmallRng, lo: u32, hi: u32) -> (r: u32)
    requires
        lo <= hi,
    ensures
        lo <= r <= hi,
{
    rand::Rng::random_range(rng, lo..=hi)
}

pub open spec fn spec_pow2(n: nat) -> int
    decreases n,
{
    if n == 0 {
        1
    } else {
        2 * spec_pow2((n - 1) as nat)
    }
}

/// The exponential backoff rule: the initial delay doubled once per
/// failure beyond the first, the exponent capped at thirty-one, the whole
/// capped at the maximum.
pub open spec fn spec_backoff_millis(attempts: u32, initial_ms: u64, max_ms: u64) -> int {
    let exponent: nat = if attempts <= 1 {
        0
    } else if attempts - 1 >= 31 {
        31
    } else {
        (attempts - 1) as nat
    };
    let product = initial_ms * spec_pow2(exponent);
    if product <= max_ms {
        product
    } else {
        max_ms as int
    }
}

proof fn lemma_pow2_pos(n: nat)
    ensures
        spec_pow2(n) >= 1,
    decreases n,
{
    if n > 0 {
        lemma_pow2_pos((n - 1) as nat);
    }
}

/// The backoff delay always lies between the initial delay (or the
/// maximum, when that is smaller) and the maximum.
pub proof fn lemma_backoff_bounds(attempts: u32, initial_ms: u64, max_ms: u64)
    ensures
        spec_backoff_millis(attempts, initial_ms, max_ms) <= max_ms,
        spec_backoff_millis(attempts, initial_ms, max_ms)
            >= if initial_ms <= max_ms { initial_ms as int } else { max_ms as int },
{
    let exponent: nat = if attempts <= 1 {
        0
    } else if attempts - 1 >= 31 {
        31
    } else {
        (attempts - 1) as nat
    };
    lemma_pow2_pos(exponent);
    let p = spec_pow2(exponent);
    assert(initial_ms * p >= initial_ms * 1 == initial_ms) by (nonlinear_arith)
        requires
            p >= 1,
            initial_ms >= 0,
    ;
}

/// The exponential backoff delay in milliseconds.
pub fn exponential_backoff_millis(attempts: u32, initial_ms: u64, max_ms: u64) -> (r: u64)
    ensures
        r == spec_backoff_millis(attempts, initial_ms, max_ms),
{
    let exponent: u32 = if attempts <= 1 {
        0
    } else if attempts - 1 >= 31 {
        31
    } else {
        attempts - 1
    };
    let mut factor: u64 = 1;
    let mut e: u32 = 0;
    while e < exponent
        invariant
            0 <= e <= exponent <= 31,
            factor == spec_pow2(e as nat),
            factor <= 0x8000_0000u64,
        decreases exponent - e,
    {
        proof {
            lemma_pow2_mono(e as nat, 31nat);
            assert(spec_pow2(31nat) == 0x8000_0000) by {
                reveal_with_fuel(spec_pow2, 33);
            }
        }
        factor = factor * 2;
        e = e + 1;
        proof {
            lemma_pow2_mono(e as nat, 31nat);
            assert(spec_pow2(31nat) == 0x8000_0000) by {
                reveal_with_fuel(spec_pow2, 33);
            }
        }
    }
    proof {
        lemma_pow2_pos(exponent as nat);
    }
    // the true product caps at the maximum whenever it cannot be computed
    let limit: u64 = u64::MAX / factor;
    if initial_ms > limit {
        proof {
            lemma_div_mul_bound(initial_ms, factor);
        }
        return max_ms;
    }
    proof {
        lemma_mul_within(initial_ms, factor);
    }
    let product: u64 = initial_ms * factor;
    if product <= max_ms {
        product
    } else {
        max_ms
    }
}

proof fn lemma_pow2_mono(a: nat, b: nat)
    requires
        a <= b,
    ensures
        spec_pow2(a) <= spec_pow2(b),
    decreases b,
{
    if a < b {
        lemma_pow2_mono(a, (b - 1) as nat);
        lemma_pow2_pos((b - 1) as nat);
    }
}

/// A value above the floored quotient times the divisor exceeds the
/// dividend.
proof fn lemma_div_mul_bound(v: u64, f: u64)
    requires
        f >= 1,
        v > u64::MAX / f,
    ensures
        v * f > u64::MAX,
{
    let q = u64::MAX as int / f as int;
    assert(u64::MAX < (q + 1) * f) by (nonlinear_arith)
        requires
            f >= 1,
            q == u64::MAX as int / f as int,
    ;
    assert(v * f >= (q + 1) * f) by (nonlinear_arith)
        requires
            f >= 1,
            v >= q + 1,
    ;
}

/// A value at most the floored quotient times the divisor stays within
/// the dividend.
proof fn lemma_mul_within(v: u64, f: u64)
    requires
        f >= 1,
        v <= u64::MAX / f,
    ensures
        v * f <= u64::MAX,
{
    let q = u64::MAX as int / f as int;
    assert(q * f <= u64::MAX) by (nonlinear_arith)
        requires
            f >= 1,
            q == u64::MAX as int / f as int,
    ;
    assert(v * f <= q * f) by (nonlinear_arith)
        requires
            f >= 1,
            0 <= v <= q,
    ;
}

} // verus!

verus! {

/// Mathematical image of a [`LocationIngestor`] (the jitter generator has
/// no mathematical content).
pub struct LocationIngestorV {
    pub character_id: CharacterId,
    pub config: LocationPollConfig,
    pub last_location: Option<CharacterLocation>,
    pub api_consecutive_failures: u32,
    pub metrics: PollMetrics,
}

/// The state of the polling loop for one character: the location last
/// seen, the failure streak, and poll metrics. The loop around it fetches
/// locations and sleeps; every decision lives here.
pub struct LocationIngestor {
    character_id: CharacterId,
    config: LocationPollConfig,
    last_location: Option<CharacterLocation>,
    api_consecutive_failures: u32,
    metrics: PollMetrics,
    rng: rand::rngs::SmallRng,
}

impl View for LocationIngestor {
    type V = LocationIngestorV;

    closed spec fn view(&self) -> LocationIngestorV {
        LocationIngestorV {
            character_id: self.character_id,
            config: self.config,
            last_location: self.last_location,
            api_consecutive_failures: self.api_consecutive_failures,
            metrics: self.metrics,
        }
    }
}

impl LocationIngestor {
    /// A fresh poll state: nothing seen, no failures, the jitter generator
    /// seeded from the character id for reproducible cadences.
    pub fn new(character_id: CharacterId, config: LocationPollConfig) -> (r: LocationIngestor)
        ensures
            r@ == (LocationIngestorV {
                character_id,
                config,
                last_location: None,
                api_consecutive_failures: 0,
                metrics: PollMetrics { last_success_at: None, last_poll_latency_millis: None },
            }),
    {
        let seed: u64 = 0xD1CE_F00Du64 ^ character_id.0;
        LocationIngestor {
            character_id,
            config,
            last_location: None,
            api_consecutive_failures: 0,
            metrics: PollMetrics { last_success_at: None, last_poll_latency_millis: None },
            rng: rng_from_seed(seed),
        }
    }

    pub fn character_id(&self) -> (r: CharacterId)
        ensures
            r == self@.character_id,
    {
        self.character_id
    }

    pub fn metrics(&self) -> (r: PollMetrics)
        ensures
            r == self@.metrics,
    {
        self.metrics
    }

    pub fn api_consecutive_failures(&self) -> (r: u32)
        ensures
            r == self@.api_consecutive_failures,
    {
        self.api_consecutive_failures
    }

    /// The movement event a fresh location reading calls for: one is due
    /// exactly on the first successful poll and on every change of solar
    /// system; a change of station or structure alone emits nothing.
    pub fn movement_for_observation(
        &self,
        location: CharacterLocation,
        observed_at: Timestamp,
    ) -> (r: Option<MovementEvent>)
        ensures
            match self@.last_location {
                None => r == Some(MovementEvent {
                    character_id: self@.character_id,
                    from_system_id: None,
                    to_system_id: location.solar_system_id,
                    observed_at,
                    source: MovementEventSource::Esi,
                }),
                Some(previous) => if previous.solar_system_id != location.solar_system_id {
                    r == Some(MovementEvent {
                        character_id: self@.character_id,
                        from_system_id: Some(previous.solar_system_id),
                        to_system_id: location.solar_system_id,
                        observed_at,
                        source: MovementEventSource::Esi,
                    })
                } else {
                    r is None
                },
            },
    {
        match self.last_location {
            None => Some(MovementEvent {
                character_id: self.character_id,
                from_system_id: None,
                to_system_id: location.solar_system_id,
                observed_at,
                source: MovementEventSource::Esi,
            }),
            Some(previous) => {
                if previous.solar_system_id.0 != location.solar_system_id.0 {
                    Some(MovementEvent {
                        character_id: self.character_id,
                        from_system_id: Some(previous.solar_system_id),
                        to_system_id: location.solar_system_id,
                        observed_at,
                        source: MovementEventSource::Esi,
                    })
                } else {
                    proof {
                        assert(previous.solar_system_id == location.solar_system_id);
                    }
                    None
                }
            },
        }
    }

    /// Remembers the location after its movement event (if any) has been
    /// accepted by the sink.
    pub fn commit_location(&mut self, location: CharacterLocation)
        ensures
            final(self)@ == (LocationIngestorV { last_location: Some(location), ..old(self)@ }),
    {
        self.last_location = Some(location);
    }

    /// Resets the failure streak and records the successful poll.
    pub fn record_success(&mut self, latency_millis: u64, observed_at: Timestamp)
        ensures
            final(self)@ == (LocationIngestorV {
                api_consecutive_failures: 0,
                metrics: PollMetrics {
                    last_success_at: Some(observed_at),
                    last_poll_latency_millis: Some(latency_millis),
                },
                ..old(self)@
            }),
    {
        self.api_consecutive_failures = 0;
        self.metrics = PollMetrics {
            last_success_at: Some(observed_at),
            last_poll_latency_millis: Some(latency_millis),
        };
    }

    /// Lengthens the failure streak, saturating at the type's maximum.
    pub fn record_api_failure(&mut self)
        ensures
            final(self)@ == (LocationIngestorV {
                api_consecutive_failures: if old(self)@.api_consecutive_failures == u32::MAX {
                    u32::MAX
                } else {
                    (old(self)@.api_consecutive_failures + 1) as u32
                },
                ..old(self)@
            }),
    {
        if self.api_consecutive_failures < u32::MAX {
            self.api_consecutive_failures = self.api_consecutive_failures + 1;
        }
    }

    /// Sorts a failed location fetch: a reauthentication demand stops the
    /// loop for good; anything else lengthens the failure streak and backs
    /// off.
    pub fn classify_fetch_error(&mut self, error: EsiError) -> (r: PollOutcome)
        ensures
            match error@ {
                crate::auth::EsiErrorV::NeedsReauth { .. } => match r {
                    PollOutcome::Terminal(e) => e@ == error@ && final(self)@ == old(self)@,
                    _ => false,
                },
                _ => match r {
                    PollOutcome::ApiFailure(e) => e@ == error@ && final(self)@
                        == (LocationIngestorV {
                            api_consecutive_failures: if old(
                                self,
                            )@.api_consecutive_failures == u32::MAX {
                                u32::MAX
                            } else {
                                (old(self)@.api_consecutive_failures + 1) as u32
                            },
                            ..old(self)@
                        }),
                    _ => false,
                },
            },
    {
        match &error {
            EsiError::NeedsReauth { .. } => PollOutcome::Terminal(error),
            _ => {
                self.record_api_failure();
                PollOutcome::ApiFailure(error)
            },
        }
    }

    /// The backoff to sleep after the current failure streak.
    pub fn next_api_failure_delay(&self) -> (r: u64)
        ensures
            r == spec_backoff_millis(
                self@.api_consecutive_failures,
                self@.config.api_failure_backoff_initial_millis,
                self@.config.api_failure_backoff_max_millis,
            ),
    {
        exponential_backoff_millis(
            self.api_consecutive_failures,
            self.config.api_failure_backoff_initial_millis,
            self.config.api_failure_backoff_max_millis,
        )
    }

    /// The jittered sleep before the next poll after a success: the base
    /// interval scaled by a factor drawn between one minus and one plus
    /// the jitter (clamped to at most the whole interval).
    ///
    /// See [`spec_jittered_millis`] for the scaling rule.
    pub fn next_success_delay(&mut self) -> (r: u64)
        ensures
            final(self)@ == old(self)@,
            ({
                let base = old(self)@.config.base_interval_millis;
                let j = if old(self)@.config.jitter_permille > 1000 {
                    1000int
                } else {
                    old(self)@.config.jitter_permille as int
                };
                if j == 0 {
                    r == base
                } else {
                    exists|m: int| 1000 - j <= m <= 1000 + j
                        && r == #[trigger] spec_jittered_millis(base, m)
                }
            }),
    {
        let base: u64 = self.config.base_interval_millis;
        let j: u32 = if self.config.jitter_permille > 1000 {
            1000
        } else {
            self.config.jitter_permille
        };
        if j == 0 {
            return base;
        }
        let m: u32 = draw_in_range(&mut self.rng, 1000 - j, 1000 + j);
        proof {
            assert((base as int) * (m as int) <= (u64::MAX as int) * 2000) by (nonlinear_arith)
                requires
                    0 <= base <= u64::MAX,
                    0 <= m <= 2000,
            ;
        }
        let prod: u128 = (base as u128) * (m as u128);
        let scaled: u128 = prod / 1000;
        let r: u64 = if scaled > u64::MAX as u128 {
            u64::MAX
        } else {
            scaled as u64
        };
        proof {
            assert(1000 - j <= m as int <= 1000 + j);
            assert(prod == base * m);
            assert(scaled == base * m / 1000);
            assert(r == spec_jittered_millis(base, m as int));
        }
        r
    }
}

/// The base interval scaled by a per-mille multiplier, saturating at the
/// widest representable delay.
pub open spec fn spec_jittered_millis(base: u64, m: int) -> int {
    if base * m / 1000 > u64::MAX {
        u64::MAX as int
    } else {
        base * m / 1000
    }
}

} // verus!
