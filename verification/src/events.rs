use vstd::prelude::*;

use crate::ids::{CharacterId, SolarSystemId};
use crate::strutil::{append_i64_dec, append_u64_dec, spec_i64_dec, spec_u64_dec};
use crate::time::Timestamp;

verus! {

/// Schema version written with every movement event.
pub const CHARACTER_MOVED_SCHEMA_VERSION: i64 = 1;

/// Schema version written with every signature-observation event.
pub const SYSTEM_SIGNATURES_OBSERVED_SCHEMA_VERSION: i64 = 1;

/// The event-type tag of movement events.
pub fn character_moved_event_type() -> (s: &'static str)
    ensures
        s@ == spec_character_moved_event_type(),
{
    "character_moved"
}

pub open spec fn spec_character_moved_event_type() -> Seq<char> {
    "character_moved"@
}

/// The event-type tag of signature-observation events.
pub fn system_signatures_observed_event_type() -> (s: &'static str)
    ensures
        s@ == spec_system_signatures_observed_event_type(),
{
    "system_signatures_observed"
}

pub open spec fn spec_system_signatures_observed_event_type() -> Seq<char> {
    "system_signatures_observed"@
}

/// The stream key grouping one character's events: `character:{id}`.
pub open spec fn spec_character_stream_key(character_id: CharacterId) -> Seq<char> {
    "character:"@ + spec_u64_dec(character_id.0 as nat)
}

pub fn character_stream_key(character_id: CharacterId) -> (r: String)
    ensures
        r@ == spec_character_stream_key(character_id),
{
    let mut out = String::from_str("character:");
    append_u64_dec(&mut out, character_id.0);
    out
}

/// The stream key grouping one system's events: `system:{id}`.
pub open spec fn spec_system_stream_key(system_id: SolarSystemId) -> Seq<char> {
    "system:"@ + spec_i64_dec(system_id.0 as int)
}

pub fn system_stream_key(system_id: SolarSystemId) -> (r: String)
    ensures
        r@ == spec_system_stream_key(system_id),
{
    let mut out = String::from_str("system:");
    append_i64_dec(&mut out, system_id.0 as i64);
    out
}

/// A scan progress value in hundredths of a percent, held between
/// 0 and 100 percent inclusive.
#[derive(Clone, Copy, Debug, PartialEq, Eq, Structural, Hash)]
pub struct ScanPercent {
    hundredths: u16,
}

impl ScanPercent {
    pub closed spec fn spec_hundredths(self) -> int {
        self.hundredths as int
    }

    pub open spec fn wf(self) -> bool {
        0 <= self.spec_hundredths() <= 10000
    }

    /// The percentage at the given hundredths of a percent, when it does
    /// not exceed 100 percent.
    pub fn from_hundredths(hundredths: u16) -> (r: Option<ScanPercent>)
        ensures
            match r {
                Some(p) => hundredths <= 10000 && p.wf() && p.spec_hundredths() == hundredths,
                None => hundredths > 10000,
            },
    {
        if hundredths <= 10000 {
            Some(ScanPercent { hundredths })
        } else {
            None
        }
    }

    /// The value in hundredths of a percent.
    pub fn hundredths(self) -> (r: u16)
        ensures
            r == self.spec_hundredths(),
    {
        self.hundredths
    }

    /// The larger of the two percentages.
    pub fn max(self, other: ScanPercent) -> (r: ScanPercent)
        ensures
            r.spec_hundredths() == if self.spec_hundredths() >= other.spec_hundredths() {
                self.spec_hundredths()
            } else {
                other.spec_hundredths()
            },
    {
        if self.hundredths >= other.hundredths {
            self
        } else {
            other
        }
    }
}

/// How a movement observation entered the system.
#[derive(Clone, Copy, Debug, PartialEq, Eq, Structural)]
pub enum MovementEventSource {
    Esi,
}

/// How a signature observation entered the system.
#[derive(Clone, Copy, Debug, PartialEq, Eq, Structural)]
pub enum SignatureEventSource {
    Manual,
}

/// The payload of a movement event: where the character came from, if
/// known, and where it is now.
#[derive(Clone, Copy, Debug, PartialEq, Eq, Structural)]
pub struct CharacterMovedPayload {
    pub from_system_id: Option<SolarSystemId>,
    pub to_system_id: SolarSystemId,
}

/// Mathematical image of a [`SignatureEntry`]; the scan percent appears
/// as its value in hundredths of a percent.
pub struct SignatureEntryV {
    pub signature_id: Seq<char>,
    pub group: Seq<char>,
    pub site_type: Option<Seq<char>>,
    pub name: Option<Seq<char>>,
    pub scan_percent: Option<int>,
}

/// The hundredths held by an optional percentage.
pub open spec fn view_opt_percent(p: Option<ScanPercent>) -> Option<int> {
    match p {
        Some(v) => Some(v.spec_hundredths()),
        None => None,
    }
}

/// One parsed line of a signature snapshot.
#[derive(Clone, Debug, PartialEq, Eq)]
pub struct SignatureEntry {
    pub signature_id: String,
    pub group: String,
    pub site_type: Option<String>,
    pub name: Option<String>,
    pub scan_percent: Option<ScanPercent>,
}

pub open spec fn view_opt_string(s: Option<String>) -> Option<Seq<char>> {
    match s {
        Some(v) => Some(v@),
        None => None,
    }
}

impl View for SignatureEntry {
    type V = SignatureEntryV;

    open spec fn view(&self) -> SignatureEntryV {
        SignatureEntryV {
            signature_id: self.signature_id@,
            group: self.group@,
            site_type: view_opt_string(self.site_type),
            name: view_opt_string(self.name),
            scan_percent: view_opt_percent(self.scan_percent),
        }
    }
}

/// A copy of an optional string with the same characters.
pub fn clone_opt_string(s: &Option<String>) -> (r: Option<String>)
    ensures
        view_opt_string(r) == view_opt_string(*s),
{
    match s {
        Some(v) => Some(v.clone()),
        None => None,
    }
}

impl SignatureEntry {
    /// A copy with the same mathematical image.
    pub fn duplicate(&self) -> (r: SignatureEntry)
        ensures
            r@ == self@,
    {
        SignatureEntry {
            signature_id: self.signature_id.clone(),
            group: self.group.clone(),
            site_type: clone_opt_string(&self.site_type),
            name: clone_opt_string(&self.name),
            scan_percent: self.scan_percent,
        }
    }
}

/// Mathematical image of a [`SystemSignaturesObservedPayload`].
pub struct SystemSignaturesObservedPayloadV {
    pub system_id: SolarSystemId,
    pub snapshot_id: Seq<char>,
    pub entries: Seq<SignatureEntryV>,
}

/// The payload of a signature-observation event.
#[derive(Clone, Debug, PartialEq, Eq)]
pub struct SystemSignaturesObservedPayload {
    pub system_id: SolarSystemId,
    pub snapshot_id: String,
    pub entries: Vec<SignatureEntry>,
}

impl View for SystemSignaturesObservedPayload {
    type V = SystemSignaturesObservedPayloadV;

    open spec fn view(&self) -> SystemSignaturesObservedPayloadV {
        SystemSignaturesObservedPayloadV {
            system_id: self.system_id,
            snapshot_id: self.snapshot_id@,
            entries: self.entries@.map_values(|e: SignatureEntry| e@),
        }
    }
}

/// A copy of an entry list with the same mathematical image.
pub fn duplicate_entries(entries: &Vec<SignatureEntry>) -> (r: Vec<SignatureEntry>)
    ensures
        r@.map_values(|e: SignatureEntry| e@)
            == entries@.map_values(|e: SignatureEntry| e@),
        r@.len() == entries@.len(),
{
    let mut out: Vec<SignatureEntry> = Vec::new();
    let n: usize = entries.len();
    let mut i: usize = 0;
    while i < n
        invariant
            0 <= i <= n,
            n == entries@.len(),
            out@.len() == i,
            forall|j: int| 0 <= j < i ==> #[trigger] out@[j]@ == entries@[j]@,
        decreases n - i,
    {
        out.push(entries[i].duplicate());
        i = i + 1;
    }
    proof {
        assert(out@.map_values(|e: SignatureEntry| e@)
            =~= entries@.map_values(|e: SignatureEntry| e@));
    }
    out
}

/// A movement observation, ready to be persisted.
#[derive(Clone, Copy, Debug, PartialEq, Eq, Structural)]
pub struct MovementEvent {
    pub character_id: CharacterId,
    pub from_system_id: Option<SolarSystemId>,
    pub to_system_id: SolarSystemId,
    pub observed_at: Timestamp,
    pub source: MovementEventSource,
}

impl MovementEvent {
    /// The durable payload of this observation.
    pub fn as_character_moved_payload(&self) -> (r: CharacterMovedPayload)
        ensures
            r.from_system_id == self.from_system_id,
            r.to_system_id == self.to_system_id,
    {
        CharacterMovedPayload {
            from_system_id: self.from_system_id,
            to_system_id: self.to_system_id,
        }
    }
}

/// Mathematical image of a [`SystemSignaturesObservedEvent`].
pub struct SystemSignaturesObservedEventV {
    pub system_id: SolarSystemId,
    pub snapshot_id: Seq<char>,
    pub entries: Seq<SignatureEntryV>,
    pub observed_at: Timestamp,
    pub attribution_character_id: Option<CharacterId>,
    pub source: SignatureEventSource,
}

/// A full signature snapshot observation, ready to be persisted.
#[derive(Clone, Debug, PartialEq, Eq)]
pub struct SystemSignaturesObservedEvent {
    pub system_id: SolarSystemId,
    pub snapshot_id: String,
    pub entries: Vec<SignatureEntry>,
    pub observed_at: Timestamp,
    pub attribution_character_id: Option<CharacterId>,
    pub source: SignatureEventSource,
}

impl View for SystemSignaturesObservedEvent {
    type V = SystemSignaturesObservedEventV;

    open spec fn view(&self) -> SystemSignaturesObservedEventV {
        SystemSignaturesObservedEventV {
            system_id: self.system_id,
            snapshot_id: self.snapshot_id@,
            entries: self.entries@.map_values(|e: SignatureEntry| e@),
            observed_at: self.observed_at,
            attribution_character_id: self.attribution_character_id,
            source: self.source,
        }
    }
}

impl SystemSignaturesObservedEvent {
    /// The durable payload of this observation.
    pub fn as_payload(&self) -> (r: SystemSignaturesObservedPayload)
        ensures
            r@.system_id == self.system_id,
            r@.snapshot_id == self.snapshot_id@,
            r@.entries == self@.entries,
    {
        SystemSignaturesObservedPayload {
            system_id: self.system_id,
            snapshot_id: self.snapshot_id.clone(),
            entries: duplicate_entries(&self.entries),
        }
    }
}

} // verus!
