use vstd::prelude::*;

use crate::events::{
    spec_character_moved_event_type, spec_character_stream_key,
    spec_system_signatures_observed_event_type, spec_system_stream_key,
    CharacterMovedPayload, MovementEvent, MovementEventSource, SignatureEventSource,
    SystemSignaturesObservedEvent, CHARACTER_MOVED_SCHEMA_VERSION,
    SYSTEM_SIGNATURES_OBSERVED_SCHEMA_VERSION,
};
use crate::ids::{CharacterId, SolarSystemId};
use crate::projection::{
    character_entry, lemma_guarded_append, lemma_guarded_one,
    project_records_with_monotonic_guard, spec_apply_movement, spec_apply_signatures,
    spec_character_at, spec_guard_step, spec_project_guarded, AppError, AppErrorV, AppProjectionV,
    CharacterLocationView, ProjectionRuntimeState, ProjectionRuntimeStateV,
    SystemSignaturesProjection,
};
use crate::resolve::{
    resolve_signature_target_system, spec_resolve_signature_target,
    SignatureSnapshotRecordContext, SignatureSnapshotRecordOutcome,
    SignatureTargetSystemResolution,
};
use crate::signatures::parse_signature_snapshot;
use crate::store::{
    records_view, spec_last_seq, spec_log_wf, spec_records_since, EventLogStore,
    EventPayloadV, EventRecordV, GlobalSeq, StoreError,
};
use crate::time::Timestamp;

verus! {

/// The state a process starts from: an empty projection, nothing applied.
pub open spec fn spec_empty_runtime_state() -> ProjectionRuntimeStateV {
    ProjectionRuntimeStateV {
        projection: AppProjectionV {
            characters: Seq::empty(),
            signatures_by_system: Seq::empty(),
        },
        last_projected_seq: None,
    }
}

pub proof fn lemma_log_wf_prefix(log: Seq<EventRecordV>, k: int)
    requires
        spec_log_wf(log),
        0 <= k <= log.len(),
    ensures
        spec_log_wf(log.subrange(0, k)),
{
    let p = log.subrange(0, k);
    assert(forall|i: int| 0 <= i < p.len() ==> p[i] == log[i]);
}

/// Replaying a well-formed log from the empty state leaves the watermark
/// at the last record's sequence (none for an empty log).
pub proof fn lemma_replay_watermark(log: Seq<EventRecordV>)
    requires
        spec_log_wf(log),
    ensures
        match spec_project_guarded(spec_empty_runtime_state(), log) {
            Ok(f) => f.last_projected_seq == if log.len() == 0 {
                None::<GlobalSeq>
            } else {
                Some(log.last().global_seq)
            },
            Err(_) => true,
        },
    decreases log.len(),
{
    if log.len() > 0 {
        let a = log.drop_last();
        assert(a =~= log.subrange(0, log.len() - 1));
        lemma_log_wf_prefix(log, log.len() - 1);
        lemma_replay_watermark(a);
        lemma_guarded_append(spec_empty_runtime_state(), a, seq![log.last()]);
        assert(a + seq![log.last()] =~= log);
        match spec_project_guarded(spec_empty_runtime_state(), a) {
            Ok(f0) => {
                lemma_guarded_one(f0, log.last());
                if a.len() > 0 {
                    assert(a.last() == log[log.len() - 2]);
                    assert(log[log.len() - 2].global_seq.0 < log.last().global_seq.0);
                }
            },
            Err(_) => {},
        }
    }
}

/// When a watermark separates a log into an at-or-below prefix and an
/// above suffix, reading since the watermark yields exactly the suffix.
pub proof fn lemma_records_since_split(log: Seq<EventRecordV>, w: int, k: int)
    requires
        0 <= k <= log.len(),
        forall|j: int| 0 <= j < k ==> (#[trigger] log[j].global_seq.0) <= w,
        forall|j: int| k <= j < log.len() ==> (#[trigger] log[j].global_seq.0) > w,
    ensures
        spec_records_since(log, w) == log.subrange(k, log.len() as int),
    decreases log.len(),
{
    if log.len() == 0 {
        assert(log.subrange(0, 0) =~= Seq::<EventRecordV>::empty());
    } else {
        let rest = log.drop_first();
        if k == 0 {
            assert(log[0].global_seq.0 > w);
            lemma_records_since_split(rest, w, 0);
            assert(rest.subrange(0, rest.len() as int) =~= rest);
            assert(seq![log[0]] + rest =~= log.subrange(0, log.len() as int));
            assert(log.subrange(0, log.len() as int) =~= log);
        } else {
            assert(log[0].global_seq.0 <= w);
            lemma_records_since_split(rest, w, k - 1);
            assert(forall|j: int| 0 <= j < rest.len() ==> rest[j] == log[j + 1]);
            assert(rest.subrange(k - 1, rest.len() as int)
                =~= log.subrange(k, log.len() as int));
            assert(Seq::<EventRecordV>::empty() + spec_records_since(rest, w)
                =~= spec_records_since(rest, w));
        }
    }
}

/// The application façade: the event log and the projection derived from
/// it, kept in step by the monotonic catch-up.
pub struct AppRuntime {
    store: EventLogStore,
    state: ProjectionRuntimeState,
}

impl AppRuntime {
    /// The records of the underlying log, in order.
    pub closed spec fn spec_log(&self) -> Seq<EventRecordV> {
        self.store@
    }

    /// The projection state.
    pub closed spec fn spec_state(&self) -> ProjectionRuntimeStateV {
        self.state@
    }

    /// The façade's invariant: the log is well formed and the in-memory
    /// state is exactly the guarded replay of the whole log. Replay
    /// equivalence follows: a fresh façade over the same log reconstructs
    /// this very state.
    pub open spec fn wf(&self) -> bool {
        &&& spec_log_wf(self.spec_log())
        &&& spec_project_guarded(spec_empty_runtime_state(), self.spec_log())
            == Ok::<ProjectionRuntimeStateV, AppErrorV>(self.spec_state())
    }

    /// Rebuilds the projection from scratch by replaying the whole log.
    pub fn initialize_from_event_log(&mut self) -> (r: Result<(), AppError>)
        requires
            spec_log_wf(old(self).spec_log()),
        ensures
            final(self).spec_log() == old(self).spec_log(),
            match r {
                Ok(_) => final(self).wf(),
                Err(e) => spec_project_guarded(
                    spec_empty_runtime_state(),
                    old(self).spec_log(),
                ) == Err::<ProjectionRuntimeStateV, AppErrorV>(e@),
            },
    {
        self.state = ProjectionRuntimeState::new();
        proof {
            assert(self.state@.projection.characters =~= spec_empty_runtime_state().projection.characters);
            assert(self.state@.projection.signatures_by_system
                =~= spec_empty_runtime_state().projection.signatures_by_system);
            assert(self.state@ == spec_empty_runtime_state());
        }
        let records = self.store.read_ordered_events();
        match project_records_with_monotonic_guard(&mut self.state, &records) {
            Ok(_) => Ok(()),
            Err(e) => Err(e),
        }
    }

    /// A façade over an existing log, with the projection replayed from it.
    pub fn from_store(store: EventLogStore) -> (r: Result<AppRuntime, AppError>)
        requires
            store.wf(),
        ensures
            match r {
                Ok(rt) => rt.wf() && rt.spec_log() == store@,
                Err(e) => spec_project_guarded(spec_empty_runtime_state(), store@)
                    == Err::<ProjectionRuntimeStateV, AppErrorV>(e@),
            },
    {
        let mut rt = AppRuntime { store, state: ProjectionRuntimeState::new() };
        match rt.initialize_from_event_log() {
            Ok(_) => Ok(rt),
            Err(e) => Err(e),
        }
    }

    /// A façade over an empty log.
    pub fn new() -> (r: AppRuntime)
        ensures
            r.wf(),
            r.spec_log() == Seq::<EventRecordV>::empty(),
    {
        let rt = AppRuntime { store: EventLogStore::new(), state: ProjectionRuntimeState::new() };
        proof {
            assert(rt.state@.projection.characters
                =~= spec_empty_runtime_state().projection.characters);
            assert(rt.state@.projection.signatures_by_system
                =~= spec_empty_runtime_state().projection.signatures_by_system);
            assert(rt.state@ == spec_empty_runtime_state());
        }
        rt
    }

    /// The underlying log, for reads.
    pub fn store(&self) -> (r: &EventLogStore)
        ensures
            r@ == self.spec_log(),
    {
        &self.store
    }

    /// The projection state, for reads.
    pub fn state(&self) -> (r: &ProjectionRuntimeState)
        ensures
            r@ == self.spec_state(),
    {
        &self.state
    }

    /// The highest global sequence applied to the projection.
    pub fn last_projected_seq(&self) -> (r: Option<GlobalSeq>)
        ensures
            r == self.spec_state().last_projected_seq,
    {
        self.state.last_projected_seq
    }

    /// The projected location of every character seen moving.
    pub fn character_locations(&self) -> (r: Vec<CharacterLocationView>)
        ensures
            r@ == self.spec_state().projection.characters,
    {
        let chars = &self.state.projection.characters;
        let n: usize = chars.len();
        let mut out: Vec<CharacterLocationView> = Vec::new();
        let mut i: usize = 0;
        while i < n
            invariant
                0 <= i <= n,
                n == chars@.len(),
                out@ =~= chars@.subrange(0, i as int),
            decreases n - i,
        {
            out.push(chars[i]);
            proof {
                assert(out@ =~= chars@.subrange(0, i + 1));
            }
            i = i + 1;
        }
        proof {
            assert(out@ =~= chars@);
        }
        out
    }

    /// The system a character is currently projected in, when known.
    pub fn character_current_system(&self, character_id: CharacterId) -> (r: Option<
        SolarSystemId,
    >)
        ensures
            r == match spec_character_at(
                self.spec_state().projection.characters,
                character_id,
            ) {
                Some(entry) => Some(entry.current_system_id),
                None => None::<SolarSystemId>,
            },
    {
        match character_entry(&self.state.projection.characters, character_id) {
            Some(entry) => Some(entry.current_system_id),
            None => None,
        }
    }

    /// Brings the projection up to date with the log; under the façade's
    /// invariant there is nothing new, so the state stays as it is.
    pub fn catch_up_projection_from_store(&mut self) -> (r: Result<(), AppError>)
        requires
            old(self).wf(),
        ensures
            r is Ok,
            final(self).wf(),
            final(self).spec_log() == old(self).spec_log(),
            final(self).spec_state() == old(self).spec_state(),
    {
        proof {
            let log = self.spec_log();
            assert(log.subrange(0, log.len() as int) =~= log);
            assert(spec_project_guarded(
                spec_empty_runtime_state(),
                log.subrange(0, log.len() as int),
            ) == Ok::<ProjectionRuntimeStateV, AppErrorV>(self.spec_state()));
        }
        match self.catch_up_locked() {
            Ok(_) => Ok(()),
            Err(e) => {
                proof {
                    assert(false);
                }
                Err(e)
            },
        }
    }

    /// Applies every record above the watermark to the projection; after
    /// it the state is the replay of the whole log.
    fn catch_up_locked(&mut self) -> (r: Result<(), AppError>)
        requires
            spec_log_wf(old(self).spec_log()),
            exists|k: int| 0 <= k <= old(self).spec_log().len()
                && spec_project_guarded(
                    spec_empty_runtime_state(),
                    old(self).spec_log().subrange(0, k),
                ) == Ok::<ProjectionRuntimeStateV, AppErrorV>(old(self).spec_state()),
        ensures
            final(self).spec_log() == old(self).spec_log(),
            match r {
                Ok(_) => final(self).wf(),
                Err(e) => spec_project_guarded(
                    spec_empty_runtime_state(),
                    old(self).spec_log(),
                ) == Err::<ProjectionRuntimeStateV, AppErrorV>(e@),
            },
    {
        let ghost log = self.spec_log();
        let ghost k = choose|k: int| 0 <= k <= log.len() && spec_project_guarded(
            spec_empty_runtime_state(),
            log.subrange(0, k),
        ) == Ok::<ProjectionRuntimeStateV, AppErrorV>(self.spec_state());
        let since: GlobalSeq = match self.state.last_projected_seq {
            Some(l) => l,
            None => GlobalSeq(0),
        };
        proof {
            let prefix = log.subrange(0, k);
            lemma_log_wf_prefix(log, k);
            lemma_replay_watermark(prefix);
            if k == 0 {
                assert(self.spec_state().last_projected_seq is None);
                assert(since.0 == 0);
            } else {
                assert(prefix.last() == log[k - 1]);
                assert(since == log[k - 1].global_seq);
            }
            assert(forall|j: int| 0 <= j < k ==> (#[trigger] log[j].global_seq.0) <= since.0)
                by {
                if k > 0 {
                    assert(forall|j: int| 0 <= j < k - 1
                        ==> (#[trigger] log[j].global_seq.0) < log[k - 1].global_seq.0);
                }
            }
            assert(forall|j: int| k <= j < log.len()
                ==> (#[trigger] log[j].global_seq.0) > since.0) by {
                if k > 0 {
                    assert(forall|j: int| k <= j < log.len()
                        ==> log[k - 1].global_seq.0 < (#[trigger] log[j].global_seq.0));
                } else {
                    assert(forall|j: int| 0 <= j < log.len()
                        ==> (#[trigger] log[j].global_seq.0) >= 1);
                }
            }
            lemma_records_since_split(log, since.0 as int, k);
            lemma_guarded_append(
                spec_empty_runtime_state(),
                log.subrange(0, k),
                log.subrange(k, log.len() as int),
            );
            assert(log.subrange(0, k) + log.subrange(k, log.len() as int) =~= log);
        }
        let records = self.store.read_events_since(since);
        match project_records_with_monotonic_guard(&mut self.state, &records) {
            Ok(_) => Ok(()),
            Err(e) => Err(e),
        }
    }
}

} // verus!

verus! {

impl AppRuntime {
    /// The movement sink: persists the observation, then catches the
    /// projection up, so the character's projected location reflects it.
    pub fn emit_movement(&mut self, event: &MovementEvent) -> (r: Result<(), AppError>)
        requires
            old(self).wf(),
        ensures
            final(self).wf(),
            match r {
                Ok(_) => ({
                    let rec = final(self).spec_log().last();
                    let payload = CharacterMovedPayload {
                        from_system_id: event.from_system_id,
                        to_system_id: event.to_system_id,
                    };
                    &&& final(self).spec_log() == old(self).spec_log().push(rec)
                    &&& rec.global_seq.0 == spec_last_seq(old(self).spec_log()) + 1
                    &&& rec.envelope.event_type == spec_character_moved_event_type()
                    &&& rec.envelope.schema_version == CHARACTER_MOVED_SCHEMA_VERSION
                    &&& rec.envelope.stream_key == spec_character_stream_key(event.character_id)
                    &&& rec.envelope.occurred_at == event.observed_at
                    &&& rec.envelope.attribution_character_id == Some(event.character_id)
                    &&& rec.envelope.payload == EventPayloadV::CharacterMoved(payload)
                    &&& final(self).spec_state().projection == spec_apply_movement(
                        old(self).spec_state().projection,
                        event.character_id,
                        payload,
                        event.observed_at,
                    )
                    &&& final(self).spec_state().last_projected_seq == Some(rec.global_seq)
                }),
                Err(e) => final(self).spec_log() == old(self).spec_log()
                    && final(self).spec_state() == old(self).spec_state()
                    && e@ is Store,
            },
    {
        let since: GlobalSeq = match self.state.last_projected_seq {
            Some(l) => l,
            None => GlobalSeq(0),
        };
        let ghost old_log = self.spec_log();
        let ghost old_state = self.spec_state();
        proof {
            lemma_replay_watermark(old_log);
            assert(since.0 == spec_last_seq(old_log));
        }
        match self.store.append_movement_event(event) {
            Err(e) => {
                return Err(AppError::Store(e));
            },
            Ok(_seq) => {},
        }
        let ghost log2 = self.spec_log();
        let ghost rec = log2.last();
        proof {
            assert(log2 == old_log.push(rec));
            assert(forall|j: int| 0 <= j < old_log.len() ==> log2[j] == old_log[j]);
            assert(forall|j: int| 0 <= j < log2.len() - 1
                ==> (#[trigger] log2[j].global_seq.0) <= since.0) by {
                if old_log.len() > 0 {
                    assert(forall|j: int| 0 <= j < old_log.len() - 1
                        ==> (#[trigger] old_log[j].global_seq.0)
                            < old_log[old_log.len() - 1].global_seq.0);
                    assert(old_log[old_log.len() - 1].global_seq.0 == since.0);
                }
            }
            assert(rec.global_seq.0 > since.0);
            lemma_records_since_split(log2, since.0 as int, old_log.len() as int);
            assert(log2.subrange(old_log.len() as int, log2.len() as int) =~= seq![rec]);
            lemma_guarded_append(spec_empty_runtime_state(), old_log, seq![rec]);
            assert(old_log + seq![rec] =~= log2);
            lemma_guarded_one(old_state, rec);
            // the appended record always reduces: it is a schema-1 movement
            // event with attribution
            assert(spec_guard_step(old_state, rec) == Ok::<
                ProjectionRuntimeStateV,
                AppErrorV,
            >(ProjectionRuntimeStateV {
                projection: spec_apply_movement(
                    old_state.projection,
                    event.character_id,
                    CharacterMovedPayload {
                        from_system_id: event.from_system_id,
                        to_system_id: event.to_system_id,
                    },
                    event.observed_at,
                ),
                last_projected_seq: Some(rec.global_seq),
            }));
        }
        let records = self.store.read_events_since(since);
        proof {
            assert(records_view(records@) == seq![rec]);
        }
        match project_records_with_monotonic_guard(&mut self.state, &records) {
            Ok(_) => Ok(()),
            Err(e) => {
                proof {
                    assert(false);
                }
                Err(e)
            },
        }
    }

    /// Records a user-supplied signature snapshot: parses it, resolves the
    /// target system (an auto context is gated by the attributed
    /// character's projected location), writes one observation event, and
    /// catches the projection up. A confirmation gate leaves the log
    /// untouched.
    pub fn record_signature_snapshot(
        &mut self,
        context: SignatureSnapshotRecordContext,
        snapshot_text: &str,
    ) -> (r: Result<SignatureSnapshotRecordOutcome, AppError>)
        requires
            old(self).wf(),
        ensures
            final(self).wf(),
            match r {
                Ok(SignatureSnapshotRecordOutcome::NeedsConfirmation {
                    focused_system_id,
                    character_system_id,
                    character_id,
                }) => final(self).spec_log() == old(self).spec_log()
                    && final(self).spec_state() == old(self).spec_state()
                    && crate::signatures::spec_parse_snapshot(snapshot_text@) is Ok
                    && spec_resolve_signature_target(
                        old(self).spec_state().projection.characters,
                        context,
                    ) == SignatureTargetSystemResolution::NeedsConfirmation {
                        focused_system_id,
                        character_system_id,
                        character_id,
                    },
                Ok(SignatureSnapshotRecordOutcome::Recorded { system_id }) => ({
                    let rec = final(self).spec_log().last();
                    let entries = crate::signatures::spec_parse_snapshot(snapshot_text@);
                    &&& entries is Ok
                    &&& (match spec_resolve_signature_target(
                        old(self).spec_state().projection.characters,
                        context,
                    ) {
                        SignatureTargetSystemResolution::Record {
                            system_id: s,
                            attribution_character_id: a,
                        } => s == system_id
                            && rec.envelope.attribution_character_id == a,
                        _ => false,
                    })
                    &&& final(self).spec_log() == old(self).spec_log().push(rec)
                    &&& rec.global_seq.0 == spec_last_seq(old(self).spec_log()) + 1
                    &&& rec.envelope.event_type
                        == spec_system_signatures_observed_event_type()
                    &&& rec.envelope.schema_version
                        == SYSTEM_SIGNATURES_OBSERVED_SCHEMA_VERSION
                    &&& rec.envelope.stream_key == spec_system_stream_key(system_id)
                    &&& rec.envelope.source == crate::store::EventSource::Manual
                    &&& (match rec.envelope.payload {
                        EventPayloadV::SystemSignaturesObserved(p) => p.system_id == system_id
                            && p.snapshot_id.len() == 36
                            && p.entries == entries->Ok_0,
                        _ => false,
                    })
                    &&& (match rec.envelope.payload {
                        EventPayloadV::SystemSignaturesObserved(p) =>
                            final(self).spec_state().projection == spec_apply_signatures(
                                old(self).spec_state().projection,
                                p,
                                rec.envelope.occurred_at,
                            ),
                        _ => false,
                    })
                    &&& final(self).spec_state().last_projected_seq == Some(rec.global_seq)
                }),
                Err(e) => final(self).spec_log() == old(self).spec_log()
                    && final(self).spec_state() == old(self).spec_state()
                    && match e@ {
                        AppErrorV::SignatureParse(pe) =>
                            crate::signatures::spec_parse_snapshot(snapshot_text@)
                                == Err::<
                                    Seq<crate::events::SignatureEntryV>,
                                    crate::signatures::SignatureParseErrorV,
                                >(pe),
                        // the clock and the store are touched only once the
                        // text has parsed and the context resolved to a write
                        AppErrorV::Store(_) =>
                            crate::signatures::spec_parse_snapshot(snapshot_text@) is Ok
                            && spec_resolve_signature_target(
                                old(self).spec_state().projection.characters,
                                context,
                            ) is Record,
                        _ => false,
                    },
            },
    {
        let entries = match parse_signature_snapshot(snapshot_text) {
            Ok(entries) => entries,
            Err(e) => {
                return Err(AppError::SignatureParse(e));
            },
        };
        let resolution = resolve_signature_target_system(&self.state.projection, context);
        let (system_id, attribution_character_id) = match resolution {
            SignatureTargetSystemResolution::Record { system_id, attribution_character_id } =>
                (system_id, attribution_character_id),
            SignatureTargetSystemResolution::NeedsConfirmation {
                focused_system_id,
                character_system_id,
                character_id,
            } => {
                return Ok(SignatureSnapshotRecordOutcome::NeedsConfirmation {
                    focused_system_id,
                    character_system_id,
                    character_id,
                });
            },
        };
        let observed_at = match Timestamp::now() {
            Some(t) => t,
            None => {
                return Err(AppError::Store(StoreError::Clock));
            },
        };
        let snapshot_id = match crate::store::fresh_time_ordered_id() {
            Some(id) => id,
            None => {
                return Err(AppError::Store(StoreError::Clock));
            },
        };
        let event = SystemSignaturesObservedEvent {
            system_id,
            snapshot_id,
            entries,
            observed_at,
            attribution_character_id,
            source: SignatureEventSource::Manual,
        };
        let since: GlobalSeq = match self.state.last_projected_seq {
            Some(l) => l,
            None => GlobalSeq(0),
        };
        let ghost old_log = self.spec_log();
        let ghost old_state = self.spec_state();
        proof {
            lemma_replay_watermark(old_log);
            assert(since.0 == spec_last_seq(old_log));
        }
        match self.store.append_system_signatures_observed_event(&event) {
            Err(e) => {
                return Err(AppError::Store(e));
            },
            Ok(_seq) => {},
        }
        let ghost log2 = self.spec_log();
        let ghost rec = log2.last();
        proof {
            assert(log2 == old_log.push(rec));
            assert(forall|j: int| 0 <= j < old_log.len() ==> log2[j] == old_log[j]);
            assert(forall|j: int| 0 <= j < log2.len() - 1
                ==> (#[trigger] log2[j].global_seq.0) <= since.0) by {
                if old_log.len() > 0 {
                    assert(forall|j: int| 0 <= j < old_log.len() - 1
                        ==> (#[trigger] old_log[j].global_seq.0)
                            < old_log[old_log.len() - 1].global_seq.0);
                    assert(old_log[old_log.len() - 1].global_seq.0 == since.0);
                }
            }
            assert(rec.global_seq.0 > since.0);
            lemma_records_since_split(log2, since.0 as int, old_log.len() as int);
            assert(log2.subrange(old_log.len() as int, log2.len() as int) =~= seq![rec]);
            lemma_guarded_append(spec_empty_runtime_state(), old_log, seq![rec]);
            assert(old_log + seq![rec] =~= log2);
            lemma_guarded_one(old_state, rec);
            // a signature tag never equals the movement tag
            assert(spec_system_signatures_observed_event_type()
                != spec_character_moved_event_type()) by {
                reveal_strlit("system_signatures_observed");
                reveal_strlit("character_moved");
                assert("system_signatures_observed"@.len() == 26);
                assert("character_moved"@.len() == 15);
            }
        }
        let records = self.store.read_events_since(since);
        proof {
            assert(records_view(records@) == seq![rec]);
        }
        match project_records_with_monotonic_guard(&mut self.state, &records) {
            Ok(_) => Ok(SignatureSnapshotRecordOutcome::Recorded { system_id }),
            Err(e) => {
                proof {
                    assert(false);
                }
                Err(e)
            },
        }
    }
}

/// Two façades over equal logs project equal states: replaying is a
/// function of the log alone.
pub proof fn lemma_replay_equivalence(
    log: Seq<EventRecordV>,
    s1: ProjectionRuntimeStateV,
    s2: ProjectionRuntimeStateV,
)
    requires
        spec_project_guarded(spec_empty_runtime_state(), log)
            == Ok::<ProjectionRuntimeStateV, AppErrorV>(s1),
        spec_project_guarded(spec_empty_runtime_state(), log)
            == Ok::<ProjectionRuntimeStateV, AppErrorV>(s2),
    ensures
        s1 == s2,
{
}

} // verus!

verus! {

/// The movement transition rule at the façade: under the invariant, a
/// character's projected location is exactly its highest-sequence movement
/// event in the log — its target system and observation time — and absent
/// when the log holds none.
pub proof fn lemma_facade_movement_rule(rt: AppRuntime, c: CharacterId)
    requires
        rt.wf(),
    ensures
        spec_character_at(rt.spec_state().projection.characters, c)
            == match crate::projection::spec_last_movement(rt.spec_log(), c) {
            Some(m) => Some(CharacterLocationView {
                character_id: c,
                current_system_id: m.0,
                last_movement_observed_at: m.1,
            }),
            None => None::<CharacterLocationView>,
        },
{
    crate::projection::lemma_movement_transition(
        spec_empty_runtime_state(),
        rt.spec_log(),
        c,
    );
}

/// The signature tracking rule at the façade: under the invariant, the
/// record a system holds for a signature exists exactly when some snapshot
/// named it; its latest scan percent is the one of the most recent
/// snapshot that carried one, its highest the greatest any snapshot ever
/// carried, and it is missing exactly when the most recent snapshot for
/// the system skipped it.
pub proof fn lemma_facade_signature_rule(
    rt: AppRuntime,
    system: SolarSystemId,
    id: Seq<char>,
)
    requires
        rt.wf(),
    ensures
        ({
            let fin = crate::projection::spec_state_sig_record(rt.spec_state(), system, id);
            &&& (fin is Some <==> crate::projection::spec_log_sig_present(
                rt.spec_log(),
                system,
                id,
            ))
            &&& match fin {
                Some(p) => {
                    &&& p.signature_id == id
                    &&& p.latest_scan_percent == crate::projection::spec_log_latest_percent(
                        rt.spec_log(),
                        system,
                        id,
                    )
                    &&& p.highest_scan_percent_seen
                        == crate::projection::spec_log_highest_percent(
                        rt.spec_log(),
                        system,
                        id,
                    )
                    &&& p.missing_from_latest_snapshot
                        == match crate::projection::spec_log_last_contains(
                        rt.spec_log(),
                        system,
                        id,
                    ) {
                        Some(b) => !b,
                        None => false,
                    }
                },
                None => true,
            }
        }),
{
    crate::projection::lemma_signature_tracking(
        spec_empty_runtime_state(),
        rt.spec_log(),
        system,
        id,
    );
}

} // verus!
