use vstd::prelude::*;

use crate::auth::EsiError;
use crate::events::{
    spec_character_moved_event_type, spec_system_signatures_observed_event_type,
    character_moved_event_type, system_signatures_observed_event_type,
    CharacterMovedPayload, SystemSignaturesObservedPayloadV,
    CHARACTER_MOVED_SCHEMA_VERSION, SYSTEM_SIGNATURES_OBSERVED_SCHEMA_VERSION,
};
use crate::ids::{CharacterId, SolarSystemId};
use crate::signatures::{
    merge_signature_snapshot, sigs_view, spec_merge_snapshot, spec_unique_sig_ids,
    ProjectedSignature, ProjectedSignatureV, SignatureParseError, SignatureParseErrorV,
};
use crate::store::{
    EventPayload, EventPayloadV, EventRecord, EventRecordV, GlobalSeq, StoreError, StoreErrorV,
};
use crate::strutil::str_eq;
use crate::time::Timestamp;

verus! {

/// Why projecting or recording failed.
#[derive(Clone, Debug, PartialEq, Eq)]
pub enum AppError {
    /// The event store failed.
    Store(StoreError),
    /// The API layer failed.
    Esi(EsiError),
    /// A signature snapshot text was rejected.
    SignatureParse(SignatureParseError),
    /// A known event type carries a schema this process does not support.
    UnsupportedSchemaVersion { event_type: String, schema_version: i64 },
    /// A movement event names no character.
    MissingCharacterAttribution { event_type: String, global_seq: GlobalSeq },
    /// A known event type carries a payload of the wrong shape, the typed
    /// counterpart of a payload that does not deserialize.
    PayloadMismatch { event_type: String },
}

/// Mathematical image of an [`AppError`].
pub enum AppErrorV {
    Store(StoreErrorV),
    Esi(crate::auth::EsiErrorV),
    SignatureParse(SignatureParseErrorV),
    UnsupportedSchemaVersion { event_type: Seq<char>, schema_version: i64 },
    MissingCharacterAttribution { event_type: Seq<char>, global_seq: GlobalSeq },
    PayloadMismatch { event_type: Seq<char> },
}

impl View for AppError {
    type V = AppErrorV;

    open spec fn view(&self) -> AppErrorV {
        match self {
            AppError::Store(e) => AppErrorV::Store(e@),
            AppError::Esi(e) => AppErrorV::Esi(e@),
            AppError::SignatureParse(e) => AppErrorV::SignatureParse(e@),
            AppError::UnsupportedSchemaVersion { event_type, schema_version } =>
                AppErrorV::UnsupportedSchemaVersion {
                    event_type: event_type@,
                    schema_version: *schema_version,
                },
            AppError::MissingCharacterAttribution { event_type, global_seq } =>
                AppErrorV::MissingCharacterAttribution {
                    event_type: event_type@,
                    global_seq: *global_seq,
                },
            AppError::PayloadMismatch { event_type } => AppErrorV::PayloadMismatch {
                event_type: event_type@,
            },
        }
    }
}

/// One character's projected location.
#[derive(Clone, Copy, Debug, PartialEq, Eq, Structural)]
pub struct CharacterLocationView {
    pub character_id: CharacterId,
    pub current_system_id: SolarSystemId,
    pub last_movement_observed_at: Timestamp,
}

/// Mathematical image of a [`SnapshotMetadata`].
pub struct SnapshotMetadataV {
    pub snapshot_id: Seq<char>,
    pub observed_at: Timestamp,
}

/// Which snapshot last touched a system, and when it was observed.
#[derive(Clone, Debug, PartialEq, Eq)]
pub struct SnapshotMetadata {
    pub snapshot_id: String,
    pub observed_at: Timestamp,
}

impl View for SnapshotMetadata {
    type V = SnapshotMetadataV;

    open spec fn view(&self) -> SnapshotMetadataV {
        SnapshotMetadataV { snapshot_id: self.snapshot_id@, observed_at: self.observed_at }
    }
}

/// Mathematical image of a [`SystemSignaturesProjection`].
pub struct SystemSignaturesProjectionV {
    pub system_id: SolarSystemId,
    pub last_snapshot: Option<SnapshotMetadataV>,
    pub signatures: Seq<ProjectedSignatureV>,
}

/// What is known about one system's signatures.
#[derive(Clone, Debug, PartialEq, Eq)]
pub struct SystemSignaturesProjection {
    pub system_id: SolarSystemId,
    pub last_snapshot: Option<SnapshotMetadata>,
    pub signatures_by_id: Vec<ProjectedSignature>,
}

pub open spec fn view_opt_snapshot(s: Option<SnapshotMetadata>) -> Option<SnapshotMetadataV> {
    match s {
        Some(m) => Some(m@),
        None => None,
    }
}

impl View for SystemSignaturesProjection {
    type V = SystemSignaturesProjectionV;

    open spec fn view(&self) -> SystemSignaturesProjectionV {
        SystemSignaturesProjectionV {
            system_id: self.system_id,
            last_snapshot: view_opt_snapshot(self.last_snapshot),
            signatures: sigs_view(self.signatures_by_id@),
        }
    }
}

/// Mathematical image of an [`AppProjection`].
pub struct AppProjectionV {
    pub characters: Seq<CharacterLocationView>,
    pub signatures_by_system: Seq<SystemSignaturesProjectionV>,
}

/// The in-memory view derived from the event log: the current system of
/// every character seen moving, and the signature knowledge per system.
#[derive(Clone, Debug, PartialEq, Eq)]
pub struct AppProjection {
    pub characters: Vec<CharacterLocationView>,
    pub signatures_by_system: Vec<SystemSignaturesProjection>,
}

impl View for AppProjection {
    type V = AppProjectionV;

    open spec fn view(&self) -> AppProjectionV {
        AppProjectionV {
            characters: self.characters@,
            signatures_by_system: self.signatures_by_system@.map_values(
                |s: SystemSignaturesProjection| s@,
            ),
        }
    }
}

/// No two entries track the same character.
pub open spec fn spec_unique_characters(chars: Seq<CharacterLocationView>) -> bool {
    forall|i: int, j: int| 0 <= i < j < chars.len()
        ==> (#[trigger] chars[i].character_id) != (#[trigger] chars[j].character_id)
}

/// No two entries track the same system, and each system's signature ids
/// are unique.
pub open spec fn spec_unique_systems(systems: Seq<SystemSignaturesProjectionV>) -> bool {
    &&& forall|i: int, j: int| 0 <= i < j < systems.len()
        ==> (#[trigger] systems[i].system_id) != (#[trigger] systems[j].system_id)
    &&& forall|i: int| 0 <= i < systems.len()
        ==> spec_unique_sig_ids(#[trigger] systems[i].signatures)
}

pub open spec fn spec_projection_wf(proj: AppProjectionV) -> bool {
    spec_unique_characters(proj.characters) && spec_unique_systems(proj.signatures_by_system)
}

impl AppProjection {
    pub open spec fn wf(&self) -> bool {
        spec_projection_wf(self@)
    }

    /// An empty projection, as a process starts with.
    pub fn new() -> (r: AppProjection)
        ensures
            r.wf(),
            r@.characters == Seq::<CharacterLocationView>::empty(),
            r@.signatures_by_system == Seq::<SystemSignaturesProjectionV>::empty(),
    {
        let r = AppProjection { characters: Vec::new(), signatures_by_system: Vec::new() };
        proof {
            assert(r@.signatures_by_system =~= Seq::<SystemSignaturesProjectionV>::empty());
        }
        r
    }
}

/// The first index tracking the given character, or the length.
pub open spec fn spec_find_character(
    chars: Seq<CharacterLocationView>,
    id: CharacterId,
    from: int,
) -> int
    decreases chars.len() - from when 0 <= from <= chars.len()
{
    if from >= chars.len() {
        chars.len() as int
    } else if chars[from].character_id == id {
        from
    } else {
        spec_find_character(chars, id, from + 1)
    }
}

pub proof fn lemma_find_character_unique(
    chars: Seq<CharacterLocationView>,
    id: CharacterId,
    from: int,
    k: int,
)
    requires
        0 <= from <= k <= chars.len(),
        k < chars.len() ==> chars[k].character_id == id,
        forall|j: int| from <= j < k ==> (#[trigger] chars[j].character_id) != id,
    ensures
        spec_find_character(chars, id, from) == k,
    decreases k - from,
{
    if from < k {
        lemma_find_character_unique(chars, id, from + 1, k);
    }
}

pub proof fn lemma_find_character_bounds(
    chars: Seq<CharacterLocationView>,
    id: CharacterId,
    from: int,
)
    requires
        0 <= from <= chars.len(),
    ensures
        from <= spec_find_character(chars, id, from) <= chars.len(),
        spec_find_character(chars, id, from) < chars.len()
            ==> chars[spec_find_character(chars, id, from)].character_id == id,
        forall|j: int| from <= j < spec_find_character(chars, id, from)
            ==> (#[trigger] chars[j].character_id) != id,
    decreases chars.len() - from,
{
    if from < chars.len() && chars[from].character_id != id {
        lemma_find_character_bounds(chars, id, from + 1);
    }
}

/// The location record tracked for a character, when one exists.
pub open spec fn spec_character_at(
    chars: Seq<CharacterLocationView>,
    id: CharacterId,
) -> Option<CharacterLocationView> {
    let i = spec_find_character(chars, id, 0);
    if i < chars.len() {
        Some(chars[i])
    } else {
        None
    }
}

/// A movement event folded into the characters: last write wins per
/// character, keyed by the attribution character.
pub open spec fn spec_apply_movement(
    proj: AppProjectionV,
    character_id: CharacterId,
    payload: CharacterMovedPayload,
    occurred_at: Timestamp,
) -> AppProjectionV {
    let entry = CharacterLocationView {
        character_id,
        current_system_id: payload.to_system_id,
        last_movement_observed_at: occurred_at,
    };
    let i = spec_find_character(proj.characters, character_id, 0);
    AppProjectionV {
        characters: if i < proj.characters.len() {
            proj.characters.update(i, entry)
        } else {
            proj.characters.push(entry)
        },
        ..proj
    }
}

/// The first index tracking the given system, or the length.
pub open spec fn spec_find_system(
    systems: Seq<SystemSignaturesProjectionV>,
    id: SolarSystemId,
    from: int,
) -> int
    decreases systems.len() - from when 0 <= from <= systems.len()
{
    if from >= systems.len() {
        systems.len() as int
    } else if systems[from].system_id == id {
        from
    } else {
        spec_find_system(systems, id, from + 1)
    }
}

pub proof fn lemma_find_system_unique(
    systems: Seq<SystemSignaturesProjectionV>,
    id: SolarSystemId,
    from: int,
    k: int,
)
    requires
        0 <= from <= k <= systems.len(),
        k < systems.len() ==> systems[k].system_id == id,
        forall|j: int| from <= j < k ==> (#[trigger] systems[j].system_id) != id,
    ensures
        spec_find_system(systems, id, from) == k,
    decreases k - from,
{
    if from < k {
        lemma_find_system_unique(systems, id, from + 1, k);
    }
}

/// The signature knowledge tracked for a system, when any exists.
pub open spec fn spec_system_at(
    systems: Seq<SystemSignaturesProjectionV>,
    id: SolarSystemId,
) -> Option<SystemSignaturesProjectionV> {
    let i = spec_find_system(systems, id, 0);
    if i < systems.len() {
        Some(systems[i])
    } else {
        None
    }
}

/// A signature observation folded into the systems: the snapshot becomes
/// the system's latest, and its entries merge into the signature list.
pub open spec fn spec_apply_signatures(
    proj: AppProjectionV,
    payload: SystemSignaturesObservedPayloadV,
    occurred_at: Timestamp,
) -> AppProjectionV {
    let meta = SnapshotMetadataV { snapshot_id: payload.snapshot_id, observed_at: occurred_at };
    let i = spec_find_system(proj.signatures_by_system, payload.system_id, 0);
    let prior: Seq<ProjectedSignatureV> = if i < proj.signatures_by_system.len() {
        proj.signatures_by_system[i].signatures
    } else {
        Seq::empty()
    };
    let updated = SystemSignaturesProjectionV {
        system_id: payload.system_id,
        last_snapshot: Some(meta),
        signatures: spec_merge_snapshot(prior, payload.entries),
    };
    AppProjectionV {
        signatures_by_system: if i < proj.signatures_by_system.len() {
            proj.signatures_by_system.update(i, updated)
        } else {
            proj.signatures_by_system.push(updated)
        },
        ..proj
    }
}

/// How one record changes the projection: movement and signature events
/// reduce by their type after a schema gate, any other type changes
/// nothing; a wrong schema, a payload of the wrong shape, or a movement
/// without attribution fail the batch.
pub open spec fn spec_project_record(
    proj: AppProjectionV,
    rec: EventRecordV,
) -> Result<AppProjectionV, AppErrorV> {
    if rec.envelope.event_type == spec_character_moved_event_type() {
        if rec.envelope.schema_version != CHARACTER_MOVED_SCHEMA_VERSION {
            Err(AppErrorV::UnsupportedSchemaVersion {
                event_type: rec.envelope.event_type,
                schema_version: rec.envelope.schema_version,
            })
        } else {
            match rec.envelope.payload {
                EventPayloadV::CharacterMoved(p) => match rec.envelope.attribution_character_id {
                    Some(c) => Ok(spec_apply_movement(proj, c, p, rec.envelope.occurred_at)),
                    None => Err(AppErrorV::MissingCharacterAttribution {
                        event_type: rec.envelope.event_type,
                        global_seq: rec.global_seq,
                    }),
                },
                _ => Err(AppErrorV::PayloadMismatch { event_type: rec.envelope.event_type }),
            }
        }
    } else if rec.envelope.event_type == spec_system_signatures_observed_event_type() {
        if rec.envelope.schema_version != SYSTEM_SIGNATURES_OBSERVED_SCHEMA_VERSION {
            Err(AppErrorV::UnsupportedSchemaVersion {
                event_type: rec.envelope.event_type,
                schema_version: rec.envelope.schema_version,
            })
        } else {
            match rec.envelope.payload {
                EventPayloadV::SystemSignaturesObserved(p) => Ok(
                    spec_apply_signatures(proj, p, rec.envelope.occurred_at),
                ),
                _ => Err(AppErrorV::PayloadMismatch { event_type: rec.envelope.event_type }),
            }
        }
    } else {
        Ok(proj)
    }
}

} // verus!

verus! {

/// A copy of a signature list with the same mathematical image.
fn duplicate_signatures(sigs: &Vec<ProjectedSignature>) -> (r: Vec<ProjectedSignature>)
    ensures
        sigs_view(r@) == sigs_view(sigs@),
{
    let n: usize = sigs.len();
    let mut out: Vec<ProjectedSignature> = Vec::new();
    let mut i: usize = 0;
    while i < n
        invariant
            0 <= i <= n,
            n == sigs@.len(),
            out@.len() == i,
            forall|j: int| 0 <= j < i ==> #[trigger] out@[j]@ == sigs@[j]@,
        decreases n - i,
    {
        out.push(sigs[i].duplicate());
        i = i + 1;
    }
    proof {
        assert(sigs_view(out@) =~= sigs_view(sigs@));
    }
    out
}

fn find_character(chars: &Vec<CharacterLocationView>, id: CharacterId) -> (r: usize)
    ensures
        r == spec_find_character(chars@, id, 0),
        r <= chars@.len(),
        r < chars@.len() ==> chars@[r as int].character_id == id,
{
    let n: usize = chars.len();
    let mut i: usize = 0;
    while i < n
        invariant
            0 <= i <= n,
            n == chars@.len(),
            forall|j: int| 0 <= j < i ==> (#[trigger] chars@[j].character_id) != id,
        decreases n - i,
    {
        if chars[i].character_id.0 == id.0 {
            proof {
                lemma_find_character_unique(chars@, id, 0, i as int);
            }
            return i;
        }
        i = i + 1;
    }
    proof {
        lemma_find_character_unique(chars@, id, 0, n as int);
    }
    n
}

fn find_system(systems: &Vec<SystemSignaturesProjection>, id: SolarSystemId) -> (r: usize)
    ensures
        ({
            let sv = systems@.map_values(|s: SystemSignaturesProjection| s@);
            &&& r == spec_find_system(sv, id, 0)
            &&& r <= sv.len()
            &&& r < sv.len() ==> sv[r as int].system_id == id
        }),
{
    let ghost sv = systems@.map_values(|s: SystemSignaturesProjection| s@);
    let n: usize = systems.len();
    let mut i: usize = 0;
    while i < n
        invariant
            0 <= i <= n,
            n == systems@.len(),
            sv == systems@.map_values(|s: SystemSignaturesProjection| s@),
            forall|j: int| 0 <= j < i ==> (#[trigger] sv[j].system_id) != id,
        decreases n - i,
    {
        proof {
            assert(sv[i as int] == systems@[i as int]@);
        }
        if systems[i].system_id.0 == id.0 {
            proof {
                lemma_find_system_unique(sv, id, 0, i as int);
            }
            return i;
        }
        i = i + 1;
    }
    proof {
        lemma_find_system_unique(sv, id, 0, n as int);
    }
    n
}

/// Applies one record's reducer to the projection; on any failure the
/// projection is left as it was.
pub fn project_event_record(projection: &mut AppProjection, record: &EventRecord) -> (r: Result<
    (),
    AppError,
>)
    ensures
        match r {
            Ok(_) => spec_project_record(old(projection)@, record@)
                == Ok::<AppProjectionV, AppErrorV>(final(projection)@),
            Err(e) => final(projection)@ == old(projection)@
                && spec_project_record(old(projection)@, record@)
                    == Err::<AppProjectionV, AppErrorV>(e@),
        },
{
    if str_eq(record.envelope.event_type.as_str(), character_moved_event_type()) {
        if record.envelope.schema_version != CHARACTER_MOVED_SCHEMA_VERSION {
            return Err(AppError::UnsupportedSchemaVersion {
                event_type: record.envelope.event_type.clone(),
                schema_version: record.envelope.schema_version,
            });
        }
        match &record.envelope.payload {
            EventPayload::CharacterMoved(p) => match record.envelope.attribution_character_id {
                Some(c) => {
                    let entry = CharacterLocationView {
                        character_id: c,
                        current_system_id: p.to_system_id,
                        last_movement_observed_at: record.envelope.occurred_at,
                    };
                    let i = find_character(&projection.characters, c);
                    if i < projection.characters.len() {
                        projection.characters.set(i, entry);
                    } else {
                        projection.characters.push(entry);
                    }
                    proof {
                        assert(final(projection)@ =~= spec_apply_movement(
                            old(projection)@,
                            c,
                            *p,
                            record.envelope.occurred_at,
                        ));
                    }
                    Ok(())
                },
                None => Err(AppError::MissingCharacterAttribution {
                    event_type: record.envelope.event_type.clone(),
                    global_seq: record.global_seq,
                }),
            },
            _ => Err(AppError::PayloadMismatch {
                event_type: record.envelope.event_type.clone(),
            }),
        }
    } else if str_eq(
        record.envelope.event_type.as_str(),
        system_signatures_observed_event_type(),
    ) {
        if record.envelope.schema_version != SYSTEM_SIGNATURES_OBSERVED_SCHEMA_VERSION {
            return Err(AppError::UnsupportedSchemaVersion {
                event_type: record.envelope.event_type.clone(),
                schema_version: record.envelope.schema_version,
            });
        }
        match &record.envelope.payload {
            EventPayload::SystemSignaturesObserved(p) => {
                let meta = SnapshotMetadata {
                    snapshot_id: p.snapshot_id.clone(),
                    observed_at: record.envelope.occurred_at,
                };
                let i = find_system(&projection.signatures_by_system, p.system_id);
                let mut signatures: Vec<ProjectedSignature> = if i
                    < projection.signatures_by_system.len() {
                    duplicate_signatures(&projection.signatures_by_system[i].signatures_by_id)
                } else {
                    Vec::new()
                };
                proof {
                    if i >= projection.signatures_by_system@.len() {
                        assert(sigs_view(signatures@) =~= Seq::<ProjectedSignatureV>::empty());
                    }
                }
                merge_signature_snapshot(&mut signatures, &p.entries);
                let updated = SystemSignaturesProjection {
                    system_id: p.system_id,
                    last_snapshot: Some(meta),
                    signatures_by_id: signatures,
                };
                if i < projection.signatures_by_system.len() {
                    projection.signatures_by_system.set(i, updated);
                } else {
                    projection.signatures_by_system.push(updated);
                }
                proof {
                    let oldv = old(projection)@;
                    let sv = oldv.signatures_by_system;
                    assert(final(projection)@.signatures_by_system =~= spec_apply_signatures(
                        oldv,
                        p@,
                        record.envelope.occurred_at,
                    ).signatures_by_system);
                    assert(final(projection)@.characters =~= spec_apply_signatures(
                        oldv,
                        p@,
                        record.envelope.occurred_at,
                    ).characters);
                }
                Ok(())
            },
            _ => Err(AppError::PayloadMismatch {
                event_type: record.envelope.event_type.clone(),
            }),
        }
    } else {
        Ok(())
    }
}

/// Mathematical image of a [`ProjectionRuntimeState`].
pub struct ProjectionRuntimeStateV {
    pub projection: AppProjectionV,
    pub last_projected_seq: Option<GlobalSeq>,
}

/// The projection together with the watermark of the highest global
/// sequence applied to it.
#[derive(Clone, Debug, PartialEq, Eq)]
pub struct ProjectionRuntimeState {
    pub projection: AppProjection,
    pub last_projected_seq: Option<GlobalSeq>,
}

impl View for ProjectionRuntimeState {
    type V = ProjectionRuntimeStateV;

    open spec fn view(&self) -> ProjectionRuntimeStateV {
        ProjectionRuntimeStateV {
            projection: self.projection@,
            last_projected_seq: self.last_projected_seq,
        }
    }
}

impl ProjectionRuntimeState {
    pub open spec fn wf(&self) -> bool {
        self.projection.wf()
    }

    /// The empty state a process starts from.
    pub fn new() -> (r: ProjectionRuntimeState)
        ensures
            r.wf(),
            r@.projection.characters == Seq::<CharacterLocationView>::empty(),
            r@.projection.signatures_by_system
                == Seq::<SystemSignaturesProjectionV>::empty(),
            r@.last_projected_seq is None,
    {
        ProjectionRuntimeState { projection: AppProjection::new(), last_projected_seq: None }
    }
}

/// How one record moves the guarded state: a record at or below the
/// watermark is skipped without any effect; otherwise its reducer runs and
/// the watermark advances to its sequence.
pub open spec fn spec_guard_step(
    state: ProjectionRuntimeStateV,
    rec: EventRecordV,
) -> Result<ProjectionRuntimeStateV, AppErrorV> {
    if match state.last_projected_seq {
        Some(l) => rec.global_seq.0 <= l.0,
        None => false,
    } {
        Ok(state)
    } else {
        match spec_project_record(state.projection, rec) {
            Ok(p) => Ok(ProjectionRuntimeStateV {
                projection: p,
                last_projected_seq: Some(rec.global_seq),
            }),
            Err(e) => Err(e),
        }
    }
}

/// The guarded state after a whole batch, or the first record's failure.
pub open spec fn spec_project_guarded(
    state: ProjectionRuntimeStateV,
    records: Seq<EventRecordV>,
) -> Result<ProjectionRuntimeStateV, AppErrorV>
    decreases records.len(),
{
    if records.len() == 0 {
        Ok(state)
    } else {
        match spec_guard_step(state, records[0]) {
            Ok(s1) => spec_project_guarded(s1, records.drop_first()),
            Err(e) => Err(e),
        }
    }
}

/// Splitting a batch: guarding a concatenation is guarding the first part,
/// then the second from where it left off.
pub proof fn lemma_guarded_append(
    state: ProjectionRuntimeStateV,
    a: Seq<EventRecordV>,
    b: Seq<EventRecordV>,
)
    ensures
        spec_project_guarded(state, a + b) == match spec_project_guarded(state, a) {
            Ok(t) => spec_project_guarded(t, b),
            Err(e) => Err(e),
        },
    decreases a.len(),
{
    if a.len() == 0 {
        assert(a + b =~= b);
    } else {
        assert((a + b)[0] == a[0]);
        match spec_guard_step(state, a[0]) {
            Ok(s1) => {
                lemma_guarded_append(s1, a.drop_first(), b);
                assert((a + b).drop_first() =~= a.drop_first() + b);
            },
            Err(_) => {
                assert((a + b).len() > 0);
            },
        }
    }
}

/// Guarding a single record is one guard step.
pub proof fn lemma_guarded_one(state: ProjectionRuntimeStateV, x: EventRecordV)
    ensures
        spec_project_guarded(state, seq![x]) == spec_guard_step(state, x),
{
    let s = seq![x];
    assert(s[0] == x);
    assert(s.drop_first() =~= Seq::<EventRecordV>::empty());
    match spec_guard_step(state, x) {
        Ok(t) => {
            assert(spec_project_guarded(t, s.drop_first())
                == Ok::<ProjectionRuntimeStateV, AppErrorV>(t));
        },
        Err(_) => {},
    }
}

/// Applies a batch of records in order under the monotonic guard. On an
/// error the state keeps exactly what the error-free prefix applied.
pub fn project_records_with_monotonic_guard(
    state: &mut ProjectionRuntimeState,
    records: &Vec<EventRecord>,
) -> (r: Result<(), AppError>)
    ensures
        match r {
            Ok(_) => spec_project_guarded(old(state)@, crate::store::records_view(records@))
                == Ok::<ProjectionRuntimeStateV, AppErrorV>(final(state)@),
            Err(e) => spec_project_guarded(old(state)@, crate::store::records_view(records@))
                == Err::<ProjectionRuntimeStateV, AppErrorV>(e@)
                && exists|k: int| 0 <= k <= records@.len() && spec_project_guarded(
                    old(state)@,
                    crate::store::records_view(records@).subrange(0, k),
                ) == Ok::<ProjectionRuntimeStateV, AppErrorV>(final(state)@),
        },
{
    let ghost rv = crate::store::records_view(records@);
    let n: usize = records.len();
    let mut i: usize = 0;
    proof {
        assert(rv.subrange(0, n as int) =~= rv);
        assert(rv.subrange(0, 0) =~= Seq::<EventRecordV>::empty());
    }
    while i < n
        invariant
            0 <= i <= n,
            n == records@.len(),
            rv == crate::store::records_view(records@),
            spec_project_guarded(old(state)@, rv) == spec_project_guarded(
                state@,
                rv.subrange(i as int, n as int),
            ),
            spec_project_guarded(old(state)@, rv.subrange(0, i as int))
                == Ok::<ProjectionRuntimeStateV, AppErrorV>(state@),
        decreases n - i,
    {
        let ghost suffix = rv.subrange(i as int, n as int);
        let ghost state_before = state@;
        proof {
            assert(suffix[0] == rv[i as int]);
            assert(rv[i as int] == records@[i as int]@);
            assert(suffix.drop_first() =~= rv.subrange(i + 1, n as int));
        }
        let record = &records[i];
        let skip: bool = match state.last_projected_seq {
            Some(l) => record.global_seq.0 <= l.0,
            None => false,
        };
        if !skip {
            match project_event_record(&mut state.projection, record) {
                Ok(_) => {
                    state.last_projected_seq = Some(record.global_seq);
                },
                Err(e) => {
                    proof {
                        assert(spec_guard_step(state_before, rv[i as int])
                            == Err::<ProjectionRuntimeStateV, AppErrorV>(e@));
                        assert(state@ == state_before);
                    }
                    return Err(e);
                },
            }
        }
        proof {
            assert(spec_guard_step(state_before, rv[i as int])
                == Ok::<ProjectionRuntimeStateV, AppErrorV>(state@));
            lemma_guarded_append(old(state)@, rv.subrange(0, i as int), seq![rv[i as int]]);
            assert(rv.subrange(0, i as int) + seq![rv[i as int]] =~= rv.subrange(0, i + 1));
            lemma_guarded_one(state_before, rv[i as int]);
        }
        i = i + 1;
    }
    proof {
        assert(rv.subrange(n as int, n as int) =~= Seq::<EventRecordV>::empty());
    }
    Ok(())
}

/// The watermark never goes backward: across any batch the last projected
/// sequence only grows, and a record at or below it never changes the
/// state at all.
pub proof fn lemma_monotonic_application(
    state: ProjectionRuntimeStateV,
    records: Seq<EventRecordV>,
)
    ensures
        match spec_project_guarded(state, records) {
            Ok(f) => match state.last_projected_seq {
                Some(l) => f.last_projected_seq is Some
                    && f.last_projected_seq.unwrap().0 >= l.0,
                None => true,
            },
            Err(_) => true,
        },
        forall|rec: EventRecordV| #![trigger spec_guard_step(state, rec)]
            (match state.last_projected_seq {
                Some(l) => rec.global_seq.0 <= l.0,
                None => false,
            }) ==> spec_guard_step(state, rec)
                == Ok::<ProjectionRuntimeStateV, AppErrorV>(state),
    decreases records.len(),
{
    if records.len() > 0 {
        match spec_guard_step(state, records[0]) {
            Ok(s1) => {
                lemma_monotonic_application(s1, records.drop_first());
            },
            Err(_) => {},
        }
    }
}

/// Every record a successful batch saw lies at or below the final
/// watermark.
proof fn lemma_guarded_records_below_watermark(
    state: ProjectionRuntimeStateV,
    records: Seq<EventRecordV>,
    f: ProjectionRuntimeStateV,
)
    requires
        spec_project_guarded(state, records) == Ok::<ProjectionRuntimeStateV, AppErrorV>(f),
    ensures
        forall|j: int| 0 <= j < records.len()
            ==> f.last_projected_seq is Some
                && (#[trigger] records[j].global_seq.0) <= f.last_projected_seq.unwrap().0,
    decreases records.len(),
{
    if records.len() > 0 {
        match spec_guard_step(state, records[0]) {
            Ok(s1) => {
                lemma_guarded_records_below_watermark(s1, records.drop_first(), f);
                lemma_monotonic_application(s1, records.drop_first());
                assert(records.drop_first().len() == records.len() - 1);
                assert(forall|j: int| 1 <= j < records.len()
                    ==> records[j] == records.drop_first()[j - 1]);
                // the first record's sequence is the new watermark or below it
                match state.last_projected_seq {
                    Some(l) => {
                        if records[0].global_seq.0 <= l.0 {
                            assert(s1 == state);
                            assert(s1.last_projected_seq == Some(l));
                        } else {
                            assert(s1.last_projected_seq == Some(records[0].global_seq));
                        }
                    },
                    None => {
                        assert(s1.last_projected_seq == Some(records[0].global_seq));
                    },
                }
                if records.drop_first().len() == 0 {
                    assert(f == s1);
                }
            },
            Err(_) => {},
        }
    }
}

/// Projection is idempotent: after a batch has been applied, re-applying
/// any prefix of it leaves the state exactly as it was.
pub proof fn lemma_projection_idempotent(
    state: ProjectionRuntimeStateV,
    records: Seq<EventRecordV>,
    f: ProjectionRuntimeStateV,
    k: int,
)
    requires
        spec_project_guarded(state, records) == Ok::<ProjectionRuntimeStateV, AppErrorV>(f),
        0 <= k <= records.len(),
    ensures
        spec_project_guarded(f, records.subrange(0, k))
            == Ok::<ProjectionRuntimeStateV, AppErrorV>(f),
    decreases k,
{
    lemma_guarded_records_below_watermark(state, records, f);
    if k > 0 {
        lemma_projection_idempotent(state, records, f, k - 1);
        lemma_guarded_append(f, records.subrange(0, k - 1), seq![records[k - 1]]);
        assert(records.subrange(0, k - 1) + seq![records[k - 1]]
            =~= records.subrange(0, k));
        assert(spec_guard_step(f, records[k - 1])
            == Ok::<ProjectionRuntimeStateV, AppErrorV>(f));
        lemma_guarded_one(f, records[k - 1]);
    } else {
        assert(records.subrange(0, 0) =~= Seq::<EventRecordV>::empty());
    }
}

} // verus!

verus! {

/// The location entry tracked for a character, when one exists.
pub fn character_entry(
    chars: &Vec<CharacterLocationView>,
    id: CharacterId,
) -> (r: Option<CharacterLocationView>)
    ensures
        r == spec_character_at(chars@, id),
{
    let i = find_character(chars, id);
    if i < chars.len() {
        Some(chars[i])
    } else {
        None
    }
}

} // verus!

verus! {

/// Whether a record is a well-formed movement event attributed to the
/// character.
pub open spec fn spec_is_movement_for(rec: EventRecordV, c: CharacterId) -> bool {
    &&& rec.envelope.event_type == spec_character_moved_event_type()
    &&& rec.envelope.schema_version == CHARACTER_MOVED_SCHEMA_VERSION
    &&& rec.envelope.payload is CharacterMoved
    &&& rec.envelope.attribution_character_id == Some(c)
}

pub open spec fn spec_movement_target(rec: EventRecordV) -> SolarSystemId {
    match rec.envelope.payload {
        EventPayloadV::CharacterMoved(p) => p.to_system_id,
        _ => SolarSystemId(0),
    }
}

/// The target system and observation time of the character's last
/// movement event in the sequence, when it has one. In a well-formed log
/// the last such record is the one with the highest global sequence.
pub open spec fn spec_last_movement(
    records: Seq<EventRecordV>,
    c: CharacterId,
) -> Option<(SolarSystemId, Timestamp)>
    decreases records.len(),
{
    if records.len() == 0 {
        None
    } else {
        match spec_last_movement(records.drop_first(), c) {
            Some(x) => Some(x),
            None => if spec_is_movement_for(records[0], c) {
                Some((spec_movement_target(records[0]), records[0].envelope.occurred_at))
            } else {
                None
            },
        }
    }
}

/// What one reduced record does to the location tracked for a character:
/// a movement event attributed to it rewrites the entry, anything else
/// leaves it alone.
proof fn lemma_project_record_characters(proj: AppProjectionV, rec: EventRecordV, c: CharacterId)
    ensures
        match spec_project_record(proj, rec) {
            Ok(p2) => spec_character_at(p2.characters, c) == if spec_is_movement_for(rec, c) {
                Some(CharacterLocationView {
                    character_id: c,
                    current_system_id: spec_movement_target(rec),
                    last_movement_observed_at: rec.envelope.occurred_at,
                })
            } else {
                spec_character_at(proj.characters, c)
            },
            Err(_) => true,
        },
{
    match spec_project_record(proj, rec) {
        Ok(p2) => {
            if rec.envelope.event_type == spec_character_moved_event_type() {
                match rec.envelope.payload {
                    EventPayloadV::CharacterMoved(p) => {
                        let ce = rec.envelope.attribution_character_id;
                        match ce {
                            Some(cm) => {
                                let chars = proj.characters;
                                let entry = CharacterLocationView {
                                    character_id: cm,
                                    current_system_id: p.to_system_id,
                                    last_movement_observed_at: rec.envelope.occurred_at,
                                };
                                lemma_find_character_bounds(chars, cm, 0);
                                let i = spec_find_character(chars, cm, 0);
                                let newchars = p2.characters;
                                if i < chars.len() {
                                    assert(newchars == chars.update(i, entry));
                                    lemma_find_character_unique(newchars, cm, 0, i);
                                    if c != cm {
                                        lemma_find_character_bounds(chars, c, 0);
                                        let f = spec_find_character(chars, c, 0);
                                        if f < chars.len() {
                                            assert(newchars[f].character_id == c);
                                            lemma_find_character_unique(newchars, c, 0, f);
                                        } else {
                                            lemma_find_character_unique(
                                                newchars,
                                                c,
                                                0,
                                                newchars.len() as int,
                                            );
                                        }
                                    }
                                } else {
                                    assert(newchars == chars.push(entry));
                                    lemma_find_character_unique(
                                        newchars,
                                        cm,
                                        0,
                                        chars.len() as int,
                                    );
                                    if c != cm {
                                        lemma_find_character_bounds(chars, c, 0);
                                        let f = spec_find_character(chars, c, 0);
                                        if f < chars.len() {
                                            assert(newchars[f].character_id == c);
                                            lemma_find_character_unique(newchars, c, 0, f);
                                        } else {
                                            lemma_find_character_unique(
                                                newchars,
                                                c,
                                                0,
                                                newchars.len() as int,
                                            );
                                        }
                                    }
                                }
                            },
                            None => {},
                        }
                    },
                    _ => {},
                }
            }
        },
        Err(_) => {},
    }
}

/// The movement transition rule: after replaying records in order (each
/// above the running watermark), a character's projected system and
/// observation time are those of its last movement event, or whatever the
/// starting state tracked when the batch holds none.
pub proof fn lemma_movement_transition(
    state: ProjectionRuntimeStateV,
    records: Seq<EventRecordV>,
    c: CharacterId,
)
    requires
        forall|i: int, j: int| 0 <= i < j < records.len()
            ==> (#[trigger] records[i].global_seq.0) < (#[trigger] records[j].global_seq.0),
        match state.last_projected_seq {
            Some(l) => records.len() > 0 ==> records[0].global_seq.0 > l.0,
            None => true,
        },
    ensures
        match spec_project_guarded(state, records) {
            Ok(f) => spec_character_at(f.projection.characters, c) == match spec_last_movement(
                records,
                c,
            ) {
                Some(m) => Some(CharacterLocationView {
                    character_id: c,
                    current_system_id: m.0,
                    last_movement_observed_at: m.1,
                }),
                None => spec_character_at(state.projection.characters, c),
            },
            Err(_) => true,
        },
    decreases records.len(),
{
    if records.len() > 0 {
        let r0 = records[0];
        let rest = records.drop_first();
        assert(forall|i: int| 0 <= i < rest.len() ==> rest[i] == records[i + 1]);
        // the first record is above the watermark, so it is not skipped
        match spec_guard_step(state, r0) {
            Ok(s1) => {
                assert(s1.last_projected_seq == Some(r0.global_seq));
                lemma_project_record_characters(state.projection, r0, c);
                lemma_movement_transition(s1, rest, c);
            },
            Err(_) => {},
        }
    }
}

} // verus!

verus! {

pub proof fn lemma_find_system_bounds(
    systems: Seq<SystemSignaturesProjectionV>,
    id: SolarSystemId,
    from: int,
)
    requires
        0 <= from <= systems.len(),
    ensures
        from <= spec_find_system(systems, id, from) <= systems.len(),
        spec_find_system(systems, id, from) < systems.len()
            ==> systems[spec_find_system(systems, id, from)].system_id == id,
        forall|j: int| from <= j < spec_find_system(systems, id, from)
            ==> (#[trigger] systems[j].system_id) != id,
    decreases systems.len() - from,
{
    if from < systems.len() && systems[from].system_id != id {
        lemma_find_system_bounds(systems, id, from + 1);
    }
}

/// The entry list a record contributes to a system: present exactly when
/// the record is a well-formed signature observation for that system.
pub open spec fn spec_sig_event_for(
    rec: EventRecordV,
    system: SolarSystemId,
) -> Option<Seq<crate::events::SignatureEntryV>> {
    if rec.envelope.event_type == spec_system_signatures_observed_event_type()
        && rec.envelope.schema_version == SYSTEM_SIGNATURES_OBSERVED_SCHEMA_VERSION {
        match rec.envelope.payload {
            EventPayloadV::SystemSignaturesObserved(p) => if p.system_id == system {
                Some(p.entries)
            } else {
                None
            },
            _ => None,
        }
    } else {
        None
    }
}

/// The scan percent the most recent snapshot for the system carries for a
/// signature, looking back through the records.
pub open spec fn spec_log_latest_percent(
    records: Seq<EventRecordV>,
    system: SolarSystemId,
    id: Seq<char>,
) -> Option<int>
    decreases records.len(),
{
    if records.len() == 0 {
        None
    } else {
        match spec_log_latest_percent(records.drop_first(), system, id) {
            Some(x) => Some(x),
            None => match spec_sig_event_for(records[0], system) {
                Some(entries) => crate::signatures::spec_last_percent(entries, id),
                None => None,
            },
        }
    }
}

/// The greatest scan percent any snapshot for the system ever carried for
/// a signature.
pub open spec fn spec_log_highest_percent(
    records: Seq<EventRecordV>,
    system: SolarSystemId,
    id: Seq<char>,
) -> Option<int>
    decreases records.len(),
{
    if records.len() == 0 {
        None
    } else {
        let rest = spec_log_highest_percent(records.drop_first(), system, id);
        let head: Option<int> = match spec_sig_event_for(records[0], system) {
            Some(entries) => crate::signatures::spec_max_percent(entries, id),
            None => None,
        };
        match head {
            Some(h) => Some(
                match rest {
                    Some(r) => crate::signatures::spec_max_with(Some(h), r),
                    None => h,
                },
            ),
            None => rest,
        }
    }
}

/// Whether the most recent snapshot for the system names the signature;
/// nothing when no snapshot for the system exists at all.
pub open spec fn spec_log_last_contains(
    records: Seq<EventRecordV>,
    system: SolarSystemId,
    id: Seq<char>,
) -> Option<bool>
    decreases records.len(),
{
    if records.len() == 0 {
        None
    } else {
        match spec_log_last_contains(records.drop_first(), system, id) {
            Some(b) => Some(b),
            None => match spec_sig_event_for(records[0], system) {
                Some(entries) => Some(crate::signatures::spec_entries_contain(entries, id)),
                None => None,
            },
        }
    }
}

/// What one reduced record does to the signature knowledge of a system: a
/// snapshot for it merges in, anything else leaves it alone.
proof fn lemma_project_record_systems(
    proj: AppProjectionV,
    rec: EventRecordV,
    system: SolarSystemId,
)
    ensures
        match spec_project_record(proj, rec) {
            Ok(p2) => match spec_sig_event_for(rec, system) {
                Some(entries) => spec_system_at(p2.signatures_by_system, system) == Some(
                    SystemSignaturesProjectionV {
                        system_id: system,
                        last_snapshot: match rec.envelope.payload {
                            EventPayloadV::SystemSignaturesObserved(p) => Some(
                                SnapshotMetadataV {
                                    snapshot_id: p.snapshot_id,
                                    observed_at: rec.envelope.occurred_at,
                                },
                            ),
                            _ => None,
                        },
                        signatures: spec_merge_snapshot(
                            match spec_system_at(proj.signatures_by_system, system) {
                                Some(s) => s.signatures,
                                None => Seq::empty(),
                            },
                            entries,
                        ),
                    },
                ),
                None => spec_system_at(p2.signatures_by_system, system) == spec_system_at(
                    proj.signatures_by_system,
                    system,
                ),
            },
            Err(_) => true,
        },
{
    match spec_project_record(proj, rec) {
        Ok(p2) => {
            if rec.envelope.event_type == spec_system_signatures_observed_event_type()
                && rec.envelope.schema_version == SYSTEM_SIGNATURES_OBSERVED_SCHEMA_VERSION {
                match rec.envelope.payload {
                    EventPayloadV::SystemSignaturesObserved(p) => {
                        let systems = proj.signatures_by_system;
                        lemma_find_system_bounds(systems, p.system_id, 0);
                        let i = spec_find_system(systems, p.system_id, 0);
                        let newsys = p2.signatures_by_system;
                        if i < systems.len() {
                            lemma_find_system_unique(newsys, p.system_id, 0, i);
                        } else {
                            lemma_find_system_unique(newsys, p.system_id, 0, systems.len() as int);
                        }
                        if p.system_id != system {
                            lemma_find_system_bounds(systems, system, 0);
                            let f = spec_find_system(systems, system, 0);
                            if f < systems.len() {
                                assert(newsys[f].system_id == system);
                                lemma_find_system_unique(newsys, system, 0, f);
                            } else {
                                lemma_find_system_unique(newsys, system, 0, newsys.len() as int);
                            }
                        }
                    },
                    _ => {},
                }
            } else if rec.envelope.event_type == spec_character_moved_event_type() {
                match rec.envelope.payload {
                    EventPayloadV::CharacterMoved(_) => {
                        assert(p2.signatures_by_system == proj.signatures_by_system);
                    },
                    _ => {},
                }
            }
        },
        Err(_) => {},
    }
}

} // verus!

verus! {

/// The prior scan-percent knowledge a state holds for one signature of one
/// system.
pub open spec fn spec_state_sig_record(
    state: ProjectionRuntimeStateV,
    system: SolarSystemId,
    id: Seq<char>,
) -> Option<ProjectedSignatureV> {
    match spec_system_at(state.projection.signatures_by_system, system) {
        Some(s) => crate::signatures::spec_sig_at(s.signatures, id),
        None => None,
    }
}

} // verus!

verus! {

/// Whether any snapshot for the system names the signature.
pub open spec fn spec_log_sig_present(
    records: Seq<EventRecordV>,
    system: SolarSystemId,
    id: Seq<char>,
) -> bool
    decreases records.len(),
{
    if records.len() == 0 {
        false
    } else {
        (match spec_sig_event_for(records[0], system) {
            Some(entries) => crate::signatures::spec_entries_contain(entries, id),
            None => false,
        }) || spec_log_sig_present(records.drop_first(), system, id)
    }
}

/// The signature tracking rule: after replaying records in order (each
/// above the running watermark), the record a system holds for a signature
/// carries as latest scan percent the one of the most recent snapshot that
/// gave it one (else whatever the starting state held), as highest the
/// starting highest raised by every percent any snapshot carried, and it
/// is missing exactly when the most recent snapshot for the system skipped
/// it.
pub proof fn lemma_signature_tracking(
    state: ProjectionRuntimeStateV,
    records: Seq<EventRecordV>,
    system: SolarSystemId,
    id: Seq<char>,
)
    requires
        forall|i: int, j: int| 0 <= i < j < records.len()
            ==> (#[trigger] records[i].global_seq.0) < (#[trigger] records[j].global_seq.0),
        match state.last_projected_seq {
            Some(l) => records.len() > 0 ==> records[0].global_seq.0 > l.0,
            None => true,
        },
        match spec_system_at(state.projection.signatures_by_system, system) {
            Some(s) => spec_unique_sig_ids(s.signatures),
            None => true,
        },
    ensures
        match spec_project_guarded(state, records) {
            Ok(f) => {
                let fin = spec_state_sig_record(f, system, id);
                let prior = spec_state_sig_record(state, system, id);
                let prior_latest = match prior {
                    Some(q) => q.latest_scan_percent,
                    None => None,
                };
                let prior_highest = match prior {
                    Some(q) => q.highest_scan_percent_seen,
                    None => None,
                };
                let prior_missing = match prior {
                    Some(q) => q.missing_from_latest_snapshot,
                    None => false,
                };
                &&& (match spec_system_at(f.projection.signatures_by_system, system) {
                    Some(s) => spec_unique_sig_ids(s.signatures),
                    None => true,
                })
                &&& (fin is Some <==> (prior is Some || spec_log_sig_present(
                    records,
                    system,
                    id,
                )))
                &&& (match fin {
                    Some(p) => {
                        &&& p.signature_id == id
                        &&& p.latest_scan_percent == match spec_log_latest_percent(
                            records,
                            system,
                            id,
                        ) {
                            Some(x) => Some(x),
                            None => prior_latest,
                        }
                        &&& p.highest_scan_percent_seen == match spec_log_highest_percent(
                            records,
                            system,
                            id,
                        ) {
                            Some(m) => Some(crate::signatures::spec_max_with(prior_highest, m)),
                            None => prior_highest,
                        }
                        &&& p.missing_from_latest_snapshot == match spec_log_last_contains(
                            records,
                            system,
                            id,
                        ) {
                            Some(b) => !b,
                            None => prior_missing,
                        }
                    },
                    None => true,
                })
            },
            Err(_) => true,
        },
    decreases records.len(),
{
    if records.len() > 0 {
        let r0 = records[0];
        let rest = records.drop_first();
        assert(forall|i: int| 0 <= i < rest.len() ==> rest[i] == records[i + 1]);
        match spec_guard_step(state, r0) {
            Ok(s1) => {
                assert(s1.last_projected_seq == Some(r0.global_seq));
                lemma_project_record_systems(state.projection, r0, system);
                match spec_sig_event_for(r0, system) {
                    Some(entries) => {
                        let prior_sigs = match spec_system_at(
                            state.projection.signatures_by_system,
                            system,
                        ) {
                            Some(s) => s.signatures,
                            None => Seq::<ProjectedSignatureV>::empty(),
                        };
                        assert(spec_unique_sig_ids(prior_sigs));
                        crate::signatures::lemma_merge_snapshot_tracks(prior_sigs, entries, id);
                        lemma_signature_tracking(s1, rest, system, id);
                        // fold this event's contribution into the suffix's
                        match spec_project_guarded(s1, rest) {
                            Ok(f) => {
                                let prior = spec_state_sig_record(state, system, id);
                                let mid = spec_state_sig_record(s1, system, id);
                                let fin = spec_state_sig_record(f, system, id);
                                assert(crate::signatures::spec_sig_at(prior_sigs, id) == prior);
                                assert(mid == crate::signatures::spec_sig_at(
                                    crate::signatures::spec_merge_snapshot(prior_sigs, entries),
                                    id,
                                ));
                                let head_last = crate::signatures::spec_last_percent(entries, id);
                                let head_max = crate::signatures::spec_max_percent(entries, id);
                                let head_contains = crate::signatures::spec_entries_contain(
                                    entries,
                                    id,
                                );
                                if !head_contains {
                                    lemma_entries_without_id_carry_nothing(entries, id);
                                }
                                if spec_log_sig_present(rest, system, id) {
                                    lemma_present_implies_snapshot(rest, system, id);
                                }
                                let prior_latest = match prior {
                                    Some(q) => q.latest_scan_percent,
                                    None => None,
                                };
                                let prior_highest = match prior {
                                    Some(q) => q.highest_scan_percent_seen,
                                    None => None,
                                };
                                let prior_missing = match prior {
                                    Some(q) => q.missing_from_latest_snapshot,
                                    None => false,
                                };
                                match fin {
                                    Some(p) => {
                                        // the highest-seen fold is associative
                                        let mid_highest = match mid {
                                            Some(q) => q.highest_scan_percent_seen,
                                            None => None,
                                        };
                                        match (head_max,
                                            spec_log_highest_percent(rest, system, id)) {
                                            (Some(h), Some(r)) => {
                                                assert(crate::signatures::spec_max_with(
                                                    mid_highest,
                                                    r,
                                                ) == crate::signatures::spec_max_with(
                                                    prior_highest,
                                                    crate::signatures::spec_max_with(Some(h), r),
                                                ));
                                            },
                                            _ => {},
                                        }
                                        assert(p.signature_id == id);
                                        assert(p.latest_scan_percent
                                            == match spec_log_latest_percent(records, system, id) {
                                            Some(x) => Some(x),
                                            None => prior_latest,
                                        });
                                        assert(p.highest_scan_percent_seen
                                            == match spec_log_highest_percent(
                                            records,
                                            system,
                                            id,
                                        ) {
                                            Some(m) => Some(crate::signatures::spec_max_with(
                                                prior_highest,
                                                m,
                                            )),
                                            None => prior_highest,
                                        });
                                        assert(p.missing_from_latest_snapshot
                                            == match spec_log_last_contains(records, system, id) {
                                            Some(b) => !b,
                                            None => prior_missing,
                                        });
                                    },
                                    None => {},
                                }
                                assert(fin is Some <==> (prior is Some
                                    || spec_log_sig_present(records, system, id)));
                            },
                            Err(_) => {},
                        }
                    },
                    None => {
                        lemma_signature_tracking(s1, rest, system, id);
                    },
                }
            },
            Err(_) => {},
        }
    } else {
        // with no records the state answers directly; a found record
        // carries the id it was found under
        match spec_system_at(state.projection.signatures_by_system, system) {
            Some(sv) => {
                crate::signatures::lemma_find_sig_bounds(sv.signatures, id, 0);
            },
            None => {},
        }
    }
}

/// When some snapshot names the signature, the system has seen at least
/// one snapshot, so the most recent one renders a verdict on it.
proof fn lemma_present_implies_snapshot(
    records: Seq<EventRecordV>,
    system: SolarSystemId,
    id: Seq<char>,
)
    requires
        spec_log_sig_present(records, system, id),
    ensures
        spec_log_last_contains(records, system, id) is Some,
    decreases records.len(),
{
    if records.len() > 0 {
        if spec_log_sig_present(records.drop_first(), system, id) {
            lemma_present_implies_snapshot(records.drop_first(), system, id);
        }
    }
}

/// A snapshot that does not name a signature carries neither a latest nor
/// a maximum percent for it.
proof fn lemma_entries_without_id_carry_nothing(
    entries: Seq<crate::events::SignatureEntryV>,
    id: Seq<char>,
)
    requires
        !crate::signatures::spec_entries_contain(entries, id),
    ensures
        crate::signatures::spec_last_percent(entries, id) is None,
        crate::signatures::spec_max_percent(entries, id) is None,
    decreases entries.len(),
{
    if entries.len() > 0 {
        assert(forall|i: int| 0 <= i < entries.len() - 1
            ==> entries.drop_first()[i] == entries[i + 1]);
        assert(!crate::signatures::spec_entries_contain(entries.drop_first(), id)) by {
            if crate::signatures::spec_entries_contain(entries.drop_first(), id) {
                let j = choose|j: int| 0 <= j < entries.drop_first().len()
                    && entries.drop_first()[j].signature_id == id;
                assert(entries[j + 1].signature_id == id);
            }
        }
        assert(entries[0].signature_id != id);
        lemma_entries_without_id_carry_nothing(entries.drop_first(), id);
    }
}

} // verus!
