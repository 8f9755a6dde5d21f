use vstd::prelude::*;

use crate::events::{
    character_moved_event_type, character_stream_key, duplicate_entries,
    spec_character_moved_event_type, spec_character_stream_key,
    spec_system_signatures_observed_event_type, spec_system_stream_key,
    system_signatures_observed_event_type, system_stream_key, CharacterMovedPayload,
    MovementEvent, MovementEventSource, SignatureEntry, SignatureEventSource,
    SystemSignaturesObservedEvent, SystemSignaturesObservedPayload,
    SystemSignaturesObservedPayloadV, CHARACTER_MOVED_SCHEMA_VERSION,
    SYSTEM_SIGNATURES_OBSERVED_SCHEMA_VERSION,
};
use crate::ids::CharacterId;
use crate::strutil::str_eq;
use crate::time::Timestamp;

verus! {

/// How an event entered the log.
#[derive(Clone, Copy, Debug, PartialEq, Eq, Structural)]
pub enum EventSource {
    Esi,
    Manual,
    Import,
    Sync,
}

impl EventSource {
    /// The tag the source is persisted under.
    pub open spec fn spec_str(self) -> Seq<char> {
        match self {
            EventSource::Esi => "esi"@,
            EventSource::Manual => "manual"@,
            EventSource::Import => "import"@,
            EventSource::Sync => "sync"@,
        }
    }

    pub fn as_str(self) -> (r: &'static str)
        ensures
            r@ == self.spec_str(),
    {
        match self {
            EventSource::Esi => "esi",
            EventSource::Manual => "manual",
            EventSource::Import => "import",
            EventSource::Sync => "sync",
        }
    }
}

/// The source a persisted tag denotes, or the tag itself when unknown.
pub fn event_source_from_str(value: &str) -> (r: Result<EventSource, StoreError>)
    ensures
        match r {
            Ok(s) => value@ == s.spec_str(),
            Err(e) => e@ is InvalidEventSource
                && value@ != EventSource::Esi.spec_str()
                && value@ != EventSource::Manual.spec_str()
                && value@ != EventSource::Import.spec_str()
                && value@ != EventSource::Sync.spec_str(),
        },
{
    if str_eq(value, "esi") {
        Ok(EventSource::Esi)
    } else if str_eq(value, "manual") {
        Ok(EventSource::Manual)
    } else if str_eq(value, "import") {
        Ok(EventSource::Import)
    } else if str_eq(value, "sync") {
        Ok(EventSource::Sync)
    } else {
        Err(StoreError::InvalidEventSource(String::from_str(value)))
    }
}

/// Why a store operation failed.
#[derive(Clone, Debug, PartialEq, Eq)]
pub enum StoreError {
    /// An envelope with this event id is already in the log; the engine's
    /// unique-index constraint surfaces here.
    DuplicateEventId(String),
    /// The global sequence cannot grow past the machine limit.
    SequenceExhausted,
    /// The records handed over do not form a valid log.
    InvalidEventLog,
    /// A persisted source tag is not one of the four known ones.
    InvalidEventSource(String),
    /// The character id does not fit the signed 64-bit storage column.
    CharacterIdOverflow(u64),
    /// A stored character id column is negative.
    NegativeCharacterId(i64),
    /// A stored timestamp does not fit the representable range.
    InvalidEpochMillis(i64),
    /// The system clock cannot be read as a time after the epoch.
    Clock,
}

/// Mathematical image of a [`StoreError`].
pub enum StoreErrorV {
    DuplicateEventId(Seq<char>),
    SequenceExhausted,
    InvalidEventLog,
    InvalidEventSource(Seq<char>),
    CharacterIdOverflow(u64),
    NegativeCharacterId(i64),
    InvalidEpochMillis(i64),
    Clock,
}

impl View for StoreError {
    type V = StoreErrorV;

    open spec fn view(&self) -> StoreErrorV {
        match self {
            StoreError::DuplicateEventId(id) => StoreErrorV::DuplicateEventId(id@),
            StoreError::SequenceExhausted => StoreErrorV::SequenceExhausted,
            StoreError::InvalidEventLog => StoreErrorV::InvalidEventLog,
            StoreError::InvalidEventSource(s) => StoreErrorV::InvalidEventSource(s@),
            StoreError::CharacterIdOverflow(v) => StoreErrorV::CharacterIdOverflow(*v),
            StoreError::NegativeCharacterId(v) => StoreErrorV::NegativeCharacterId(*v),
            StoreError::InvalidEpochMillis(v) => StoreErrorV::InvalidEpochMillis(*v),
            StoreError::Clock => StoreErrorV::Clock,
        }
    }
}

/// The character id as the signed 64-bit storage column holds it.
pub fn character_id_to_storage(character_id: CharacterId) -> (r: Result<i64, StoreError>)
    ensures
        match r {
            Ok(v) => character_id.0 <= i64::MAX && v == character_id.0,
            Err(e) => character_id.0 > i64::MAX && e@ == StoreErrorV::CharacterIdOverflow(
                character_id.0,
            ),
        },
{
    if character_id.0 <= 0x7fff_ffff_ffff_ffff {
        Ok(character_id.0 as i64)
    } else {
        Err(StoreError::CharacterIdOverflow(character_id.0))
    }
}

/// The character id a storage column holds, when it is not negative.
pub fn character_id_from_storage(raw: i64) -> (r: Result<CharacterId, StoreError>)
    ensures
        match r {
            Ok(c) => raw >= 0 && c.0 == raw,
            Err(e) => raw < 0 && e@ == StoreErrorV::NegativeCharacterId(raw),
        },
{
    if raw >= 0 {
        Ok(CharacterId(raw as u64))
    } else {
        Err(StoreError::NegativeCharacterId(raw))
    }
}

pub fn map_movement_source(source: MovementEventSource) -> (r: EventSource)
    ensures
        r == EventSource::Esi,
{
    match source {
        MovementEventSource::Esi => EventSource::Esi,
    }
}

pub fn map_signature_source(source: SignatureEventSource) -> (r: EventSource)
    ensures
        r == EventSource::Manual,
{
    match source {
        SignatureEventSource::Manual => EventSource::Manual,
    }
}

/// Mathematical image of an [`EventPayload`].
pub enum EventPayloadV {
    CharacterMoved(CharacterMovedPayload),
    SystemSignaturesObserved(SystemSignaturesObservedPayloadV),
    Opaque(Seq<char>),
}

/// The typed content of an envelope; events of kinds this process does not
/// know carry their serialized payload through opaquely.
#[derive(Clone, Debug, PartialEq, Eq)]
pub enum EventPayload {
    CharacterMoved(CharacterMovedPayload),
    SystemSignaturesObserved(SystemSignaturesObservedPayload),
    Opaque(String),
}

impl View for EventPayload {
    type V = EventPayloadV;

    open spec fn view(&self) -> EventPayloadV {
        match self {
            EventPayload::CharacterMoved(p) => EventPayloadV::CharacterMoved(*p),
            EventPayload::SystemSignaturesObserved(p) =>
                EventPayloadV::SystemSignaturesObserved(p@),
            EventPayload::Opaque(s) => EventPayloadV::Opaque(s@),
        }
    }
}

impl EventPayload {
    /// A copy with the same mathematical image.
    pub fn duplicate(&self) -> (r: EventPayload)
        ensures
            r@ == self@,
    {
        match self {
            EventPayload::CharacterMoved(p) => EventPayload::CharacterMoved(*p),
            EventPayload::SystemSignaturesObserved(p) => EventPayload::SystemSignaturesObserved(
                SystemSignaturesObservedPayload {
                    system_id: p.system_id,
                    snapshot_id: p.snapshot_id.clone(),
                    entries: duplicate_entries(&p.entries),
                },
            ),
            EventPayload::Opaque(s) => EventPayload::Opaque(s.clone()),
        }
    }
}

/// Mathematical image of an [`EventEnvelope`].
pub struct EventEnvelopeV {
    pub event_id: Seq<char>,
    pub event_type: Seq<char>,
    pub schema_version: i64,
    pub stream_key: Seq<char>,
    pub occurred_at: Timestamp,
    pub recorded_at: Timestamp,
    pub attribution_character_id: Option<CharacterId>,
    pub source: EventSource,
    pub payload: EventPayloadV,
}

/// One immutable event as it is appended to the log.
#[derive(Clone, Debug, PartialEq, Eq)]
pub struct EventEnvelope {
    pub event_id: String,
    pub event_type: String,
    pub schema_version: i64,
    pub stream_key: String,
    pub occurred_at: Timestamp,
    pub recorded_at: Timestamp,
    pub attribution_character_id: Option<CharacterId>,
    pub source: EventSource,
    pub payload: EventPayload,
}

/// An envelope handed to the store for appending.
pub type NewEvent = EventEnvelope;

impl View for EventEnvelope {
    type V = EventEnvelopeV;

    open spec fn view(&self) -> EventEnvelopeV {
        EventEnvelopeV {
            event_id: self.event_id@,
            event_type: self.event_type@,
            schema_version: self.schema_version,
            stream_key: self.stream_key@,
            occurred_at: self.occurred_at,
            recorded_at: self.recorded_at,
            attribution_character_id: self.attribution_character_id,
            source: self.source,
            payload: self.payload@,
        }
    }
}

impl EventEnvelope {
    /// A copy with the same mathematical image.
    pub fn duplicate(&self) -> (r: EventEnvelope)
        ensures
            r@ == self@,
    {
        EventEnvelope {
            event_id: self.event_id.clone(),
            event_type: self.event_type.clone(),
            schema_version: self.schema_version,
            stream_key: self.stream_key.clone(),
            occurred_at: self.occurred_at,
            recorded_at: self.recorded_at,
            attribution_character_id: self.attribution_character_id,
            source: self.source,
            payload: self.payload.duplicate(),
        }
    }
}

/// The position an envelope got in the log's total order.
#[derive(Clone, Copy, Debug, PartialEq, Eq, PartialOrd, Ord, Structural, Hash)]
pub struct GlobalSeq(pub i64);

/// Mathematical image of an [`EventRecord`].
pub struct EventRecordV {
    pub global_seq: GlobalSeq,
    pub envelope: EventEnvelopeV,
}

/// An envelope together with the global sequence it was appended at.
#[derive(Clone, Debug, PartialEq, Eq)]
pub struct EventRecord {
    pub global_seq: GlobalSeq,
    pub envelope: EventEnvelope,
}

impl View for EventRecord {
    type V = EventRecordV;

    open spec fn view(&self) -> EventRecordV {
        EventRecordV { global_seq: self.global_seq, envelope: self.envelope@ }
    }
}

impl EventRecord {
    /// A copy with the same mathematical image.
    pub fn duplicate(&self) -> (r: EventRecord)
        ensures
            r@ == self@,
    {
        EventRecord { global_seq: self.global_seq, envelope: self.envelope.duplicate() }
    }
}

/// The view of a whole record list.
pub open spec fn records_view(records: Seq<EventRecord>) -> Seq<EventRecordV> {
    records.map_values(|r: EventRecord| r@)
}

/// Whether an envelope's attribution does not fit the signed 64-bit
/// storage column.
pub open spec fn spec_attribution_oversized(env: EventEnvelopeV) -> bool {
    match env.attribution_character_id {
        Some(c) => c.0 > i64::MAX,
        None => false,
    }
}

} // verus!

verus! {

/// Relies on `uuid::Uuid::new_v7` over the wall clock, and its hyphenated
/// `Display` form: a fresh time-ordered identifier, 36 characters long, or
/// nothing when the clock reads before the Unix epoch.
#[verifier::external_body]
pub(crate) fn fresh_time_ordered_id() -> (r: Option<String>)
    ensures
        match r {
            Some(id) => id@.len() == 36,
            None => true,
        },
{
    std::time::SystemTime::UNIX_EPOCH.elapsed().ok().map(|elapsed| {
        uuid::Uuid::new_v7(uuid::Timestamp::from_unix(
            uuid::NoContext,
            elapsed.as_secs(),
            elapsed.subsec_nanos(),
        ))
        .to_string()
    })
}

/// The highest sequence of a log view, or zero for an empty log.
pub open spec fn spec_last_seq(log: Seq<EventRecordV>) -> int {
    if log.len() == 0 {
        0
    } else {
        log.last().global_seq.0 as int
    }
}

/// The records with a sequence above the watermark, in their log order.
pub open spec fn spec_records_since(log: Seq<EventRecordV>, seq: int) -> Seq<EventRecordV>
    decreases log.len(),
{
    if log.len() == 0 {
        Seq::empty()
    } else {
        let head: Seq<EventRecordV> = if log[0].global_seq.0 > seq {
            seq![log[0]]
        } else {
            Seq::empty()
        };
        head + spec_records_since(log.drop_first(), seq)
    }
}

/// The records whose envelope carries the given stream key, in log order.
pub open spec fn spec_records_by_stream(
    log: Seq<EventRecordV>,
    stream_key: Seq<char>,
) -> Seq<EventRecordV>
    decreases log.len(),
{
    if log.len() == 0 {
        Seq::empty()
    } else {
        let head: Seq<EventRecordV> = if log[0].envelope.stream_key == stream_key {
            seq![log[0]]
        } else {
            Seq::empty()
        };
        head + spec_records_by_stream(log.drop_first(), stream_key)
    }
}

/// Whether some record of the log carries the given event id.
pub open spec fn spec_log_contains_event_id(log: Seq<EventRecordV>, id: Seq<char>) -> bool {
    exists|k: int| 0 <= k < log.len() && log[k].envelope.event_id == id
}

/// What every log satisfies: sequences are positive and strictly
/// increasing in log order, and event ids are unique.
pub open spec fn spec_log_wf(log: Seq<EventRecordV>) -> bool {
    &&& forall|i: int, j: int| 0 <= i < j < log.len()
        ==> (#[trigger] log[i].global_seq.0) < (#[trigger] log[j].global_seq.0)
    &&& forall|i: int| 0 <= i < log.len() ==> (#[trigger] log[i].global_seq.0) >= 1
    &&& forall|i: int, j: int| 0 <= i < j < log.len()
        ==> (#[trigger] log[i].envelope.event_id) != (#[trigger] log[j].envelope.event_id)
}

/// The append-only event log: an ordered list of envelopes, each under the
/// strictly increasing global sequence it was assigned at append time.
pub struct EventLogStore {
    records: Vec<EventRecord>,
}

impl View for EventLogStore {
    type V = Seq<EventRecordV>;

    closed spec fn view(&self) -> Seq<EventRecordV> {
        records_view(self.records@)
    }
}

impl EventLogStore {
    /// Every store reachable through this interface is a well-formed log.
    pub open spec fn wf(&self) -> bool {
        spec_log_wf(self@)
    }

    /// An empty log.
    pub fn new() -> (r: EventLogStore)
        ensures
            r.wf(),
            r@ == Seq::<EventRecordV>::empty(),
    {
        let r = EventLogStore { records: Vec::new() };
        proof {
            assert(r@ =~= Seq::<EventRecordV>::empty());
        }
        r
    }

    /// A log over records read back from durable storage; refused unless
    /// they form a well-formed log in the given order.
    pub fn from_records(records: Vec<EventRecord>) -> (r: Result<EventLogStore, StoreError>)
        ensures
            match r {
                Ok(store) => store.wf() && store@ == records_view(records@),
                Err(e) => e@ == StoreErrorV::InvalidEventLog
                    && !spec_log_wf(records_view(records@)),
            },
    {
        let n: usize = records.len();
        let ghost logv = records_view(records@);
        let mut i: usize = 0;
        while i < n
            invariant
                0 <= i <= n,
                n == records@.len(),
                logv == records_view(records@),
                forall|a: int, b: int| 0 <= a < b < i
                    ==> (#[trigger] logv[a].global_seq.0) < (#[trigger] logv[b].global_seq.0),
                forall|a: int| 0 <= a < i ==> (#[trigger] logv[a].global_seq.0) >= 1,
                forall|a: int, b: int| 0 <= a < b < i
                    ==> (#[trigger] logv[a].envelope.event_id)
                        != (#[trigger] logv[b].envelope.event_id),
            decreases n - i,
        {
            proof {
                assert(logv[i as int] == records@[i as int]@);
            }
            if records[i].global_seq.0 < 1 {
                proof {
                    assert(logv[i as int].global_seq.0 < 1);
                    assert(!spec_log_wf(logv));
                }
                return Err(StoreError::InvalidEventLog);
            }
            if i > 0 && records[i - 1].global_seq.0 >= records[i].global_seq.0 {
                proof {
                    assert(logv[i - 1] == records@[i - 1]@);
                    assert(logv[i - 1].global_seq.0 >= logv[i as int].global_seq.0);
                    assert(!spec_log_wf(logv));
                }
                return Err(StoreError::InvalidEventLog);
            }
            // sequences before `i - 1` are below it already, so only the
            // neighbour needs checking; ids need a full scan
            let mut j: usize = 0;
            while j < i
                invariant
                    0 <= j <= i < n,
                    n == records@.len(),
                    logv == records_view(records@),
                    forall|a: int| 0 <= a < j
                        ==> (#[trigger] logv[a].envelope.event_id)
                            != logv[i as int].envelope.event_id,
                decreases i - j,
            {
                proof {
                    assert(logv[j as int] == records@[j as int]@);
                    assert(logv[i as int] == records@[i as int]@);
                }
                if str_eq(records[j].envelope.event_id.as_str(),
                    records[i].envelope.event_id.as_str()) {
                    proof {
                        assert(logv[j as int].envelope.event_id
                            == logv[i as int].envelope.event_id);
                        assert(!spec_log_wf(logv));
                    }
                    return Err(StoreError::InvalidEventLog);
                }
                j = j + 1;
            }
            proof {
                assert(forall|a: int, b: int| 0 <= a < b < i + 1 && b < i
                    ==> (#[trigger] logv[a].global_seq.0) < (#[trigger] logv[b].global_seq.0));
                assert(forall|a: int| 0 <= a < i
                    ==> (#[trigger] logv[a].global_seq.0) < logv[i as int].global_seq.0) by {
                    assert(i > 0 ==> logv[i - 1].global_seq.0 < logv[i as int].global_seq.0);
                }
            }
            i = i + 1;
        }
        let store = EventLogStore { records };
        proof {
            assert(store@ == logv);
        }
        Ok(store)
    }

    /// The highest assigned global sequence, or zero when the log is empty.
    pub fn last_seq(&self) -> (r: i64)
        ensures
            r == spec_last_seq(self@),
    {
        let n: usize = self.records.len();
        if n == 0 {
            0
        } else {
            proof {
                assert(self@.last() == self.records@[n - 1]@);
            }
            self.records[n - 1].global_seq.0
        }
    }

    /// Appends one envelope, assigning it the next global sequence, which
    /// is strictly above every sequence already in the log. Fails only on
    /// an attribution id that does not fit the signed 64-bit storage
    /// column, a duplicate event id, or an exhausted sequence, leaving the
    /// log unchanged.
    pub fn append_event(&mut self, event: &NewEvent) -> (r: Result<GlobalSeq, StoreError>)
        requires
            old(self).wf(),
        ensures
            final(self).wf(),
            match r {
                Ok(seq) => {
                    &&& !spec_attribution_oversized(event@)
                    &&& !spec_log_contains_event_id(old(self)@, event@.event_id)
                    &&& seq.0 == spec_last_seq(old(self)@) + 1
                    &&& final(self)@ == old(self)@.push(
                        EventRecordV { global_seq: seq, envelope: event@ },
                    )
                    &&& forall|k: int| 0 <= k < old(self)@.len()
                        ==> (#[trigger] old(self)@[k].global_seq.0) < seq.0
                },
                Err(e) => final(self)@ == old(self)@ && match e@ {
                    StoreErrorV::CharacterIdOverflow(v) => v > i64::MAX
                        && event@.attribution_character_id == Some(CharacterId(v)),
                    StoreErrorV::DuplicateEventId(id) => !spec_attribution_oversized(event@)
                        && id == event@.event_id
                        && spec_log_contains_event_id(old(self)@, event@.event_id),
                    StoreErrorV::SequenceExhausted => !spec_attribution_oversized(event@)
                        && !spec_log_contains_event_id(old(self)@, event@.event_id)
                        && spec_last_seq(old(self)@) == i64::MAX,
                    _ => false,
                },
            },
    {
        // the attribution must fit the signed 64-bit storage column
        match event.attribution_character_id {
            Some(c) => {
                match character_id_to_storage(c) {
                    Ok(_) => {},
                    Err(e) => {
                        return Err(e);
                    },
                }
            },
            None => {},
        }
        proof {
            assert(!spec_attribution_oversized(event@));
        }
        let n: usize = self.records.len();
        let mut k: usize = 0;
        while k < n
            invariant
                0 <= k <= n,
                self@ == old(self)@,
                self.wf(),
                !spec_attribution_oversized(event@),
                n == self.records@.len(),
                forall|j: int| 0 <= j < k
                    ==> (#[trigger] records_view(self.records@)[j].envelope.event_id)
                        != event@.event_id,
            decreases n - k,
        {
            proof {
                assert(records_view(self.records@)[k as int] == self.records@[k as int]@);
            }
            if str_eq(self.records[k].envelope.event_id.as_str(), event.event_id.as_str()) {
                proof {
                    assert(self@[k as int].envelope.event_id == event@.event_id);
                    assert(spec_log_contains_event_id(self@, event@.event_id));
                }
                return Err(StoreError::DuplicateEventId(event.event_id.clone()));
            }
            k = k + 1;
        }
        proof {
            assert(!spec_log_contains_event_id(self@, event@.event_id)) by {
                if spec_log_contains_event_id(self@, event@.event_id) {
                    let kk = choose|kk: int| 0 <= kk < self@.len()
                        && self@[kk].envelope.event_id == event@.event_id;
                    assert(records_view(self.records@)[kk].envelope.event_id
                        == event@.event_id);
                }
            }
        }
        let last: i64 = self.last_seq();
        if last == i64::MAX {
            return Err(StoreError::SequenceExhausted);
        }
        proof {
            // every sequence in the log is at most the last one
            assert(forall|j: int| 0 <= j < self@.len() && j < self@.len() - 1
                ==> (#[trigger] self@[j].global_seq.0) < self@[self@.len() - 1].global_seq.0);
        }
        let seq = GlobalSeq(last + 1);
        let record = EventRecord { global_seq: seq, envelope: event.duplicate() };
        let ghost prev = self@;
        self.records.push(record);
        proof {
            assert(self@ =~= prev.push(EventRecordV { global_seq: seq, envelope: event@ }));
            assert(forall|j: int| 0 <= j < prev.len()
                ==> (#[trigger] prev[j].global_seq.0) <= spec_last_seq(prev)) by {
                assert(forall|j: int| 0 <= j < prev.len() - 1
                    ==> (#[trigger] prev[j].global_seq.0) < prev[prev.len() - 1].global_seq.0);
            }
            assert(spec_log_wf(self@)) by {
                assert(forall|a: int, b: int| 0 <= a < b < self@.len() && b < prev.len()
                    ==> (#[trigger] self@[a].global_seq.0) < (#[trigger] self@[b].global_seq.0));
                assert(forall|a: int, b: int| 0 <= a < b < self@.len() && b < prev.len()
                    ==> (#[trigger] self@[a].envelope.event_id)
                        != (#[trigger] self@[b].envelope.event_id));
            }
        }
        Ok(seq)
    }

    /// Every record of the log, in ascending sequence order.
    pub fn read_ordered_events(&self) -> (r: Vec<EventRecord>)
        ensures
            records_view(r@) == self@,
    {
        let n: usize = self.records.len();
        let mut out: Vec<EventRecord> = Vec::new();
        let mut i: usize = 0;
        while i < n
            invariant
                0 <= i <= n,
                n == self.records@.len(),
                out@.len() == i,
                forall|j: int| 0 <= j < i ==> #[trigger] out@[j]@ == self@[j],
            decreases n - i,
        {
            proof {
                assert(self@[i as int] == self.records@[i as int]@);
            }
            out.push(self.records[i].duplicate());
            i = i + 1;
        }
        proof {
            assert(records_view(out@) =~= self@);
        }
        out
    }

    /// The records appended after the given sequence, in ascending order.
    pub fn read_events_since(&self, since_seq: GlobalSeq) -> (r: Vec<EventRecord>)
        ensures
            records_view(r@) == spec_records_since(self@, since_seq.0 as int),
    {
        let n: usize = self.records.len();
        let mut out: Vec<EventRecord> = Vec::new();
        let mut i: usize = 0;
        proof {
            assert(self@.subrange(0, n as int) =~= self@);
            assert(records_view(out@) + spec_records_since(self@, since_seq.0 as int)
                =~= spec_records_since(self@, since_seq.0 as int));
        }
        while i < n
            invariant
                0 <= i <= n,
                n == self.records@.len(),
                spec_records_since(self@, since_seq.0 as int) == records_view(out@)
                    + spec_records_since(
                        self@.subrange(i as int, n as int),
                        since_seq.0 as int,
                    ),
            decreases n - i,
        {
            let ghost suffix = self@.subrange(i as int, n as int);
            let ghost prev = records_view(out@);
            proof {
                assert(suffix[0] == self@[i as int]);
                assert(self@[i as int] == self.records@[i as int]@);
                assert(suffix.drop_first() =~= self@.subrange(i + 1, n as int));
            }
            if self.records[i].global_seq.0 > since_seq.0 {
                out.push(self.records[i].duplicate());
                proof {
                    assert(records_view(out@) =~= prev.push(self@[i as int]));
                    assert(prev + (seq![self@[i as int]]
                        + spec_records_since(suffix.drop_first(), since_seq.0 as int))
                        =~= records_view(out@)
                            + spec_records_since(suffix.drop_first(), since_seq.0 as int));
                }
            } else {
                proof {
                    assert(Seq::<EventRecordV>::empty()
                        + spec_records_since(suffix.drop_first(), since_seq.0 as int)
                        =~= spec_records_since(suffix.drop_first(), since_seq.0 as int));
                }
            }
            i = i + 1;
        }
        proof {
            assert(self@.subrange(n as int, n as int) =~= Seq::<EventRecordV>::empty());
            assert(records_view(out@) + Seq::<EventRecordV>::empty() =~= records_view(out@));
        }
        out
    }

    /// The records of one stream, in ascending order.
    pub fn read_events_by_stream(&self, stream_key: &str) -> (r: Vec<EventRecord>)
        ensures
            records_view(r@) == spec_records_by_stream(self@, stream_key@),
    {
        let n: usize = self.records.len();
        let mut out: Vec<EventRecord> = Vec::new();
        let mut i: usize = 0;
        proof {
            assert(self@.subrange(0, n as int) =~= self@);
            assert(records_view(out@) + spec_records_by_stream(self@, stream_key@)
                =~= spec_records_by_stream(self@, stream_key@));
        }
        while i < n
            invariant
                0 <= i <= n,
                n == self.records@.len(),
                spec_records_by_stream(self@, stream_key@) == records_view(out@)
                    + spec_records_by_stream(
                        self@.subrange(i as int, n as int),
                        stream_key@,
                    ),
            decreases n - i,
        {
            let ghost suffix = self@.subrange(i as int, n as int);
            let ghost prev = records_view(out@);
            proof {
                assert(suffix[0] == self@[i as int]);
                assert(self@[i as int] == self.records@[i as int]@);
                assert(suffix.drop_first() =~= self@.subrange(i + 1, n as int));
            }
            if str_eq(self.records[i].envelope.stream_key.as_str(), stream_key) {
                out.push(self.records[i].duplicate());
                proof {
                    assert(records_view(out@) =~= prev.push(self@[i as int]));
                    assert(prev + (seq![self@[i as int]]
                        + spec_records_by_stream(suffix.drop_first(), stream_key@))
                        =~= records_view(out@)
                            + spec_records_by_stream(suffix.drop_first(), stream_key@));
                }
            } else {
                proof {
                    assert(Seq::<EventRecordV>::empty()
                        + spec_records_by_stream(suffix.drop_first(), stream_key@)
                        =~= spec_records_by_stream(suffix.drop_first(), stream_key@));
                }
            }
            i = i + 1;
        }
        proof {
            assert(self@.subrange(n as int, n as int) =~= Seq::<EventRecordV>::empty());
            assert(records_view(out@) + Seq::<EventRecordV>::empty() =~= records_view(out@));
        }
        out
    }
}

/// Any two records of a well-formed log stand in strictly increasing
/// sequence order: of two successful appends, the later one's global
/// sequence is the greater.
pub proof fn lemma_monotonic_sequence(log: Seq<EventRecordV>, i: int, j: int)
    requires
        spec_log_wf(log),
        0 <= i < j < log.len(),
    ensures
        log[i].global_seq.0 < log[j].global_seq.0,
{
}

/// After an append returns a sequence, the ordered read holds a record
/// carrying exactly that sequence and the appended envelope.
pub proof fn lemma_append_read_visibility(
    before: Seq<EventRecordV>,
    after: Seq<EventRecordV>,
    seq: GlobalSeq,
    envelope: EventEnvelopeV,
)
    requires
        after == before.push(EventRecordV { global_seq: seq, envelope }),
    ensures
        exists|k: int| 0 <= k < after.len() && after[k].global_seq == seq
            && after[k].envelope == envelope,
{
    assert(after[after.len() - 1].global_seq == seq);
}

} // verus!

verus! {

impl EventLogStore {
    /// Appends a movement observation under a fresh event id: type tag
    /// `character_moved`, the character's stream key, the character as
    /// attribution, and the observation as typed payload.
    pub fn append_movement_event_at(
        &mut self,
        event: &MovementEvent,
        recorded_at: Timestamp,
    ) -> (r: Result<GlobalSeq, StoreError>)
        requires
            old(self).wf(),
        ensures
            final(self).wf(),
            match r {
                Ok(seq) => {
                    let rec = final(self)@.last();
                    &&& final(self)@ == old(self)@.push(rec)
                    &&& seq.0 == spec_last_seq(old(self)@) + 1
                    &&& rec.global_seq == seq
                    &&& rec.envelope.event_id.len() == 36
                    &&& forall|k: int| 0 <= k < old(self)@.len()
                        ==> (#[trigger] old(self)@[k].global_seq.0) < seq.0
                    &&& rec.envelope.event_type == spec_character_moved_event_type()
                    &&& rec.envelope.schema_version == CHARACTER_MOVED_SCHEMA_VERSION
                    &&& rec.envelope.stream_key == spec_character_stream_key(event.character_id)
                    &&& rec.envelope.occurred_at == event.observed_at
                    &&& rec.envelope.recorded_at == recorded_at
                    &&& rec.envelope.attribution_character_id == Some(event.character_id)
                    &&& rec.envelope.source == EventSource::Esi
                    &&& rec.envelope.payload == EventPayloadV::CharacterMoved(
                        CharacterMovedPayload {
                            from_system_id: event.from_system_id,
                            to_system_id: event.to_system_id,
                        },
                    )
                },
                Err(e) => final(self)@ == old(self)@ && (e@ is Clock
                    || e@ is CharacterIdOverflow || e@ is DuplicateEventId
                    || e@ is SequenceExhausted),
            },
    {
        let event_id = match fresh_time_ordered_id() {
            Some(id) => id,
            None => {
                return Err(StoreError::Clock);
            },
        };
        let envelope = EventEnvelope {
            event_id,
            event_type: String::from_str(character_moved_event_type()),
            schema_version: CHARACTER_MOVED_SCHEMA_VERSION,
            stream_key: character_stream_key(event.character_id),
            occurred_at: event.observed_at,
            recorded_at,
            attribution_character_id: Some(event.character_id),
            source: map_movement_source(event.source),
            payload: EventPayload::CharacterMoved(event.as_character_moved_payload()),
        };
        self.append_event(&envelope)
    }

    /// Appends a movement observation recorded at the wall clock now.
    pub fn append_movement_event(&mut self, event: &MovementEvent) -> (r: Result<
        GlobalSeq,
        StoreError,
    >)
        requires
            old(self).wf(),
        ensures
            final(self).wf(),
            match r {
                Ok(seq) => {
                    let rec = final(self)@.last();
                    &&& final(self)@ == old(self)@.push(rec)
                    &&& seq.0 == spec_last_seq(old(self)@) + 1
                    &&& rec.global_seq == seq
                    &&& rec.envelope.event_id.len() == 36
                    &&& forall|k: int| 0 <= k < old(self)@.len()
                        ==> (#[trigger] old(self)@[k].global_seq.0) < seq.0
                    &&& rec.envelope.event_type == spec_character_moved_event_type()
                    &&& rec.envelope.schema_version == CHARACTER_MOVED_SCHEMA_VERSION
                    &&& rec.envelope.stream_key == spec_character_stream_key(event.character_id)
                    &&& rec.envelope.occurred_at == event.observed_at
                    &&& rec.envelope.attribution_character_id == Some(event.character_id)
                    &&& rec.envelope.source == EventSource::Esi
                    &&& rec.envelope.payload == EventPayloadV::CharacterMoved(
                        CharacterMovedPayload {
                            from_system_id: event.from_system_id,
                            to_system_id: event.to_system_id,
                        },
                    )
                },
                Err(e) => final(self)@ == old(self)@ && (e@ is Clock
                    || e@ is CharacterIdOverflow || e@ is DuplicateEventId
                    || e@ is SequenceExhausted),
            },
    {
        match Timestamp::now() {
            Some(now) => self.append_movement_event_at(event, now),
            None => Err(StoreError::Clock),
        }
    }

    /// Appends a signature observation under a fresh event id: type tag
    /// `system_signatures_observed`, the system's stream key, and the
    /// snapshot as typed payload.
    pub fn append_system_signatures_observed_event_at(
        &mut self,
        event: &SystemSignaturesObservedEvent,
        recorded_at: Timestamp,
    ) -> (r: Result<GlobalSeq, StoreError>)
        requires
            old(self).wf(),
        ensures
            final(self).wf(),
            match r {
                Ok(seq) => {
                    let rec = final(self)@.last();
                    &&& final(self)@ == old(self)@.push(rec)
                    &&& seq.0 == spec_last_seq(old(self)@) + 1
                    &&& rec.global_seq == seq
                    &&& rec.envelope.event_id.len() == 36
                    &&& forall|k: int| 0 <= k < old(self)@.len()
                        ==> (#[trigger] old(self)@[k].global_seq.0) < seq.0
                    &&& rec.envelope.event_type == spec_system_signatures_observed_event_type()
                    &&& rec.envelope.schema_version == SYSTEM_SIGNATURES_OBSERVED_SCHEMA_VERSION
                    &&& rec.envelope.stream_key == spec_system_stream_key(event.system_id)
                    &&& rec.envelope.occurred_at == event.observed_at
                    &&& rec.envelope.recorded_at == recorded_at
                    &&& rec.envelope.attribution_character_id == event.attribution_character_id
                    &&& rec.envelope.source == EventSource::Manual
                    &&& rec.envelope.payload == EventPayloadV::SystemSignaturesObserved(
                        SystemSignaturesObservedPayloadV {
                            system_id: event.system_id,
                            snapshot_id: event@.snapshot_id,
                            entries: event@.entries,
                        },
                    )
                },
                Err(e) => final(self)@ == old(self)@ && (e@ is Clock
                    || e@ is CharacterIdOverflow || e@ is DuplicateEventId
                    || e@ is SequenceExhausted),
            },
    {
        let payload = event.as_payload();
        let event_id = match fresh_time_ordered_id() {
            Some(id) => id,
            None => {
                return Err(StoreError::Clock);
            },
        };
        let envelope = EventEnvelope {
            event_id,
            event_type: String::from_str(system_signatures_observed_event_type()),
            schema_version: SYSTEM_SIGNATURES_OBSERVED_SCHEMA_VERSION,
            stream_key: system_stream_key(event.system_id),
            occurred_at: event.observed_at,
            recorded_at,
            attribution_character_id: event.attribution_character_id,
            source: map_signature_source(event.source),
            payload: EventPayload::SystemSignaturesObserved(payload),
        };
        self.append_event(&envelope)
    }

    /// Appends a signature observation recorded at the wall clock now.
    pub fn append_system_signatures_observed_event(
        &mut self,
        event: &SystemSignaturesObservedEvent,
    ) -> (r: Result<GlobalSeq, StoreError>)
        requires
            old(self).wf(),
        ensures
            final(self).wf(),
            match r {
                Ok(seq) => {
                    let rec = final(self)@.last();
                    &&& final(self)@ == old(self)@.push(rec)
                    &&& seq.0 == spec_last_seq(old(self)@) + 1
                    &&& rec.global_seq == seq
                    &&& rec.envelope.event_id.len() == 36
                    &&& forall|k: int| 0 <= k < old(self)@.len()
                        ==> (#[trigger] old(self)@[k].global_seq.0) < seq.0
                    &&& rec.envelope.event_type == spec_system_signatures_observed_event_type()
                    &&& rec.envelope.schema_version == SYSTEM_SIGNATURES_OBSERVED_SCHEMA_VERSION
                    &&& rec.envelope.stream_key == spec_system_stream_key(event.system_id)
                    &&& rec.envelope.occurred_at == event.observed_at
                    &&& rec.envelope.attribution_character_id == event.attribution_character_id
                    &&& rec.envelope.source == EventSource::Manual
                    &&& rec.envelope.payload == EventPayloadV::SystemSignaturesObserved(
                        SystemSignaturesObservedPayloadV {
                            system_id: event.system_id,
                            snapshot_id: event@.snapshot_id,
                            entries: event@.entries,
                        },
                    )
                },
                Err(e) => final(self)@ == old(self)@ && (e@ is Clock
                    || e@ is CharacterIdOverflow || e@ is DuplicateEventId
                    || e@ is SequenceExhausted),
            },
    {
        match Timestamp::now() {
            Some(now) => self.append_system_signatures_observed_event_at(event, now),
            None => Err(StoreError::Clock),
        }
    }
}

} // verus!
