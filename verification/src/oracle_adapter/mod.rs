//! oracle-adapter: the trust boundary for external data.
//!
//! Registers publishers behind a timelock, ingests ed25519 signed weather
//! observations into a ring per region and metric, aggregates a median over
//! the valid, unchallenged, fresh observations, and enforces two fail safe
//! gates: a staleness bound and a minimum number of distinct publishers.
//!
//! The contract's storage is held here as an `OracleAdapter` value; each
//! entry point is a method that reads the ledger through an `Env` and either
//! applies its change and succeeds, or fails and leaves the storage as it
//! was (a failed contract call is rolled back). Every method's effect is
//! stated by a spec function over the storage view `OracleView`.

pub mod laws;
pub mod median;
pub mod rings;
pub mod signing;
pub mod table;

use vstd::prelude::*;

use crate::env::{Address, Env, Symbol};
use median::{contains_publisher, sort_ascending};
use rings::{Ring, RingTable, RingView};
use signing::{ed25519_verify_strict, encode_observation_payload};
use table::{KeyTable, PublisherKey};

verus! {

/// Observations retained per region and metric. The ring overwrites its
/// oldest slot once full; `median` reads at most this many observations.
pub const RING_SIZE: u32 = 16;

/// Minimum distinct publishers among the valid observations for `median`
/// to return a value. One publisher can never set the index alone.
pub const MIN_PUBLISHERS: u32 = 2;

/// Default staleness bound in hours, stored at construction. An observation
/// older than this is ignored by `median`.
pub const DEFAULT_STALENESS_HOURS: u64 = 48;

/// Registry changes (add or remove a publisher) wait behind this timelock
/// (seven days) before they can be executed.
pub const REGISTRY_TIMELOCK_SECS: u64 = 604_800;

/// Seconds per hour, for converting the staleness bound to a duration.
pub const SECONDS_PER_HOUR: u64 = 3_600;

/// Storage keys of the oracle contract.
#[derive(Debug, PartialEq, Eq)]
pub enum DataKey {
    /// Guardian multisig configuration reference.
    Admin,
    /// A registered publisher keyed by its ed25519 public key.
    Publisher(PublisherKey),
    /// A pending, timelocked registry change for a publisher key.
    PendingPublisher(PublisherKey),
    /// A single observation in the ring, keyed by region, metric, ring slot.
    Obs(Symbol, Symbol, u32),
    /// Ring cursor: next sequence and current count for a region and metric.
    ObsHead(Symbol, Symbol),
    /// A guardian challenge flag on a ring slot; the value is the reason code.
    Challenge(Symbol, Symbol, u32),
    /// Accrued fees owed to a publisher (reserved, unused).
    PublisherFee(PublisherKey),
    /// Staleness threshold in hours.
    StalenessBound,
}

/// A registered publisher. `active` is retained (never deleted) after a
/// removal so the observation history keeps a resolvable author.
#[derive(Clone, Copy, Debug, PartialEq, Eq)]
pub struct PublisherInfo {
    pub active: bool,
    pub added_at: u64,
}

/// A pending registry change awaiting its timelock. `add` distinguishes an
/// addition from a removal; `eta` is the earliest ledger time it can execute.
#[derive(Clone, Copy, Debug, PartialEq, Eq)]
pub struct PendingRegistry {
    pub add: bool,
    pub eta: u64,
}

/// A stored observation. `accepted` is always true once written; a
/// rejected submission never reaches storage.
#[derive(Clone, Copy, Debug, PartialEq, Eq)]
pub struct Observation {
    pub value: i128,
    pub timestamp: u64,
    pub publisher: PublisherKey,
    pub accepted: bool,
}

/// A ring cursor for a region and metric. `next_seq` counts every write;
/// the slot written is `next_seq % RING_SIZE`. `count` caps at `RING_SIZE`.
#[derive(Clone, Copy, Debug, PartialEq, Eq)]
pub struct Head {
    pub next_seq: u32,
    pub count: u32,
}

/// The signed payload. A publisher signs its XDR encoding; `submit`
/// rebuilds the same bytes and verifies the signature over them. Field
/// names and types are part of what is signed.
#[derive(Debug)]
pub struct ObservationPayload {
    pub region: Symbol,
    pub metric: Symbol,
    pub timestamp: u64,
    pub value: i128,
}

impl ObservationPayload {
    /// The bytes a publisher signs.
    pub fn to_xdr(&self) -> (bytes: Vec<u8>)
        ensures
            bytes@ == signing::observation_payload_xdr(
                self.region@,
                self.metric@,
                self.timestamp,
                self.value,
            ),
    {
        encode_observation_payload(
            self.region.as_bytes(),
            self.metric.as_bytes(),
            self.timestamp,
            self.value,
        )
    }
}

/// Errors for oracle-adapter. Codes 300 to 399 belong to this contract;
/// codes 900 to 999 are the shared range. A signature that does not verify
/// aborts the call instead of returning an error; `BadSignature` is kept
/// for a malformed input path.
#[derive(Clone, Copy, Debug, PartialEq, Eq, PartialOrd, Ord)]
pub enum Error {
    UnknownPublisher,
    BadSignature,
    ObservationStale,
    Challenged,
    RegistryTimelock,
    PublisherExists,
    NoPendingChange,
    PendingExists,
    InvalidObservation,
    Unauthorized,
    TimelockPending,
    NotInitialized,
    Overflow,
}

impl Error {
    /// The numeric code of each error.
    pub open spec fn spec_code(self) -> u32 {
        match self {
            Error::UnknownPublisher => 300,
            Error::BadSignature => 301,
            Error::ObservationStale => 302,
            Error::Challenged => 303,
            Error::RegistryTimelock => 304,
            Error::PublisherExists => 305,
            Error::NoPendingChange => 306,
            Error::PendingExists => 307,
            Error::InvalidObservation => 308,
            Error::Unauthorized => crate::common::error_codes::UNAUTHORIZED,
            Error::TimelockPending => crate::common::error_codes::TIMELOCK_PENDING,
            Error::NotInitialized => crate::common::error_codes::NOT_INITIALIZED,
            Error::Overflow => crate::common::error_codes::OVERFLOW,
        }
    }

    /// The numeric code of this error: its own range 300 to 399, or the
    /// shared range 900 to 999.
    pub fn code(&self) -> (c: u32)
        ensures
            c == self.spec_code(),
            (300 <= c <= 399) || (900 <= c <= 999),
    {
        match self {
            Error::UnknownPublisher => 300,
            Error::BadSignature => 301,
            Error::ObservationStale => 302,
            Error::Challenged => 303,
            Error::RegistryTimelock => 304,
            Error::PublisherExists => 305,
            Error::NoPendingChange => 306,
            Error::PendingExists => 307,
            Error::InvalidObservation => 308,
            Error::Unauthorized => crate::common::error_codes::UNAUTHORIZED,
            Error::TimelockPending => crate::common::error_codes::TIMELOCK_PENDING,
            Error::NotInitialized => crate::common::error_codes::NOT_INITIALIZED,
            Error::Overflow => crate::common::error_codes::OVERFLOW,
        }
    }
}

/// No two errors of the oracle contract share a code.
pub proof fn lemma_error_codes_distinct(a: Error, b: Error)
    requires
        a != b,
    ensures
        a.spec_code() != b.spec_code(),
{
}

/// The oracle contract's storage as a value: the admin, the staleness bound
/// in hours, the publisher registry, the pending registry changes (both by
/// public key bytes), and the ring of each region and metric (by the bytes
/// of the two symbols).
pub struct OracleView {
    pub admin: Option<Address>,
    pub staleness_hours: u64,
    pub publishers: Map<Seq<u8>, PublisherInfo>,
    pub pending: Map<Seq<u8>, PendingRegistry>,
    pub rings: Map<(Seq<u8>, Seq<u8>), RingView>,
}

/// The oracle contract's storage.
pub struct OracleAdapter {
    admin: Option<Address>,
    staleness_hours: u64,
    publishers: KeyTable<PublisherInfo>,
    pending: KeyTable<PendingRegistry>,
    rings: RingTable,
}

impl View for OracleAdapter {
    type V = OracleView;

    closed spec fn view(&self) -> OracleView {
        OracleView {
            admin: self.admin,
            staleness_hours: self.staleness_hours,
            publishers: self.publishers@,
            pending: self.pending@,
            rings: self.rings@,
        }
    }
}

/// The ring of a region and metric in a storage view; the empty ring if it
/// never received an observation.
pub open spec fn ring_of(v: OracleView, region: Seq<u8>, metric: Seq<u8>) -> RingView {
    rings::ring_in(v.rings, region, metric)
}

/// Whether `publisher` is a registered, active publisher.
pub open spec fn is_active(v: OracleView, publisher: Seq<u8>) -> bool {
    v.publishers.contains_key(publisher) && v.publishers[publisher].active
}

/// Every ring of a storage view is well formed.
pub open spec fn rings_wf(v: OracleView) -> bool {
    forall|k: (Seq<u8>, Seq<u8>)| #[trigger] v.rings.contains_key(k) ==> rings::ring_wf(v.rings[k])
}

/// `propose_publisher`: guardian only. Rejects a second proposal for the
/// same key, adding an active key, and removing a key that is not active;
/// otherwise records the change with an eta one timelock from now.
pub open spec fn propose_spec(v: OracleView, now: u64, publisher: Seq<u8>, add: bool) -> (
    OracleView,
    Result<u64, Error>,
) {
    if v.admin is None {
        (v, Err(Error::NotInitialized))
    } else if v.pending.contains_key(publisher) {
        (v, Err(Error::PendingExists))
    } else if add && is_active(v, publisher) {
        (v, Err(Error::PublisherExists))
    } else if !add && !is_active(v, publisher) {
        (v, Err(Error::UnknownPublisher))
    } else if now + REGISTRY_TIMELOCK_SECS > u64::MAX {
        (v, Err(Error::Overflow))
    } else {
        let eta = (now + REGISTRY_TIMELOCK_SECS) as u64;
        (
            OracleView {
                pending: v.pending.insert(publisher, PendingRegistry { add, eta }),
                ..v
            },
            Ok(eta),
        )
    }
}

/// `execute_publisher`: guardian only. Applies a pending change once its eta
/// is reached: an addition registers the key as active from now; a removal
/// marks the existing record inactive and keeps it. The pending record is
/// consumed.
pub open spec fn execute_spec(v: OracleView, now: u64, publisher: Seq<u8>) -> (
    OracleView,
    Result<(), Error>,
) {
    if v.admin is None {
        (v, Err(Error::NotInitialized))
    } else if !v.pending.contains_key(publisher) {
        (v, Err(Error::NoPendingChange))
    } else if now < v.pending[publisher].eta {
        (v, Err(Error::RegistryTimelock))
    } else if v.pending[publisher].add {
        (
            OracleView {
                publishers: v.publishers.insert(
                    publisher,
                    PublisherInfo { active: true, added_at: now },
                ),
                pending: v.pending.remove(publisher),
                ..v
            },
            Ok(()),
        )
    } else if !v.publishers.contains_key(publisher) {
        (v, Err(Error::UnknownPublisher))
    } else {
        (
            OracleView {
                publishers: v.publishers.insert(
                    publisher,
                    PublisherInfo { active: false, added_at: v.publishers[publisher].added_at },
                ),
                pending: v.pending.remove(publisher),
                ..v
            },
            Ok(()),
        )
    }
}

/// `cancel_publisher`: guardian only. Drops a pending change.
pub open spec fn cancel_spec(v: OracleView, publisher: Seq<u8>) -> (OracleView, Result<(), Error>) {
    if v.admin is None {
        (v, Err(Error::NotInitialized))
    } else if !v.pending.contains_key(publisher) {
        (v, Err(Error::NoPendingChange))
    } else {
        (OracleView { pending: v.pending.remove(publisher), ..v }, Ok(()))
    }
}

/// The ring after one more observation: written into slot
/// `next_seq % RING_SIZE`, any challenge on that slot cleared, the cursor
/// advanced and the count raised up to `RING_SIZE`.
pub open spec fn ring_after_write(r: RingView, obs: Observation) -> RingView {
    let slot = r.head.next_seq % RING_SIZE;
    RingView {
        head: Head {
            next_seq: (r.head.next_seq + 1) as u32,
            count: if r.head.count < RING_SIZE {
                (r.head.count + 1) as u32
            } else {
                r.head.count
            },
        },
        slots: r.slots.update(slot as int, Some(obs)),
        challenges: r.challenges.update(slot as int, None),
    }
}

/// `submit` once the signature has verified: the key must be an active
/// publisher, the value non-negative and the timestamp not in the future;
/// then the observation is written into the ring and its slot returned.
/// `Overflow` once the ring cursor has reached the largest `u32`.
pub open spec fn submit_spec(
    v: OracleView,
    now: u64,
    region: Seq<u8>,
    metric: Seq<u8>,
    timestamp: u64,
    value: i128,
    publisher: PublisherKey,
) -> (OracleView, Result<u32, Error>) {
    let r = ring_of(v, region, metric);
    if !is_active(v, publisher@) {
        (v, Err(Error::UnknownPublisher))
    } else if value < 0 || timestamp > now {
        (v, Err(Error::InvalidObservation))
    } else if r.head.next_seq == u32::MAX {
        (v, Err(Error::Overflow))
    } else {
        let obs = Observation { value, timestamp, publisher, accepted: true };
        (
            OracleView {
                rings: v.rings.insert((region, metric), ring_after_write(r, obs)),
                ..v
            },
            Ok(r.head.next_seq % RING_SIZE),
        )
    }
}

/// A submission traps in the signature check: the key is an active
/// publisher and the value and timestamp are acceptable, so the signature
/// is checked, and it does not verify. The call is then aborted and nothing
/// is stored.
pub open spec fn submit_traps(
    v: OracleView,
    now: u64,
    timestamp: u64,
    value: i128,
    publisher: PublisherKey,
    signature_valid: bool,
) -> bool {
    is_active(v, publisher@) && value >= 0 && timestamp <= now && !signature_valid
}

/// Whether `signature` is the publisher's signature over the payload.
pub open spec fn signature_verifies(
    region: Seq<u8>,
    metric: Seq<u8>,
    timestamp: u64,
    value: i128,
    publisher: PublisherKey,
    signature: Seq<u8>,
) -> bool {
    signing::ed25519_strictly_verifies(
        publisher@,
        signing::observation_payload_xdr(region, metric, timestamp, value),
        signature,
    )
}

/// The observation stored at ring slot `seq`, if any.
pub open spec fn observation_at(v: OracleView, region: Seq<u8>, metric: Seq<u8>, seq: u32) -> Option<
    Observation,
> {
    if seq < RING_SIZE {
        ring_of(v, region, metric).slots[seq as int]
    } else {
        None
    }
}

/// Whether ring slot `seq` carries a challenge flag.
pub open spec fn challenged_at(v: OracleView, region: Seq<u8>, metric: Seq<u8>, seq: u32) -> bool {
    seq < RING_SIZE && ring_of(v, region, metric).challenges[seq as int] is Some
}

/// `challenge`: guardian only. Flags a slot holding an observation that is
/// not already flagged.
pub open spec fn challenge_spec(
    v: OracleView,
    region: Seq<u8>,
    metric: Seq<u8>,
    seq: u32,
    reason: u32,
) -> (OracleView, Result<(), Error>) {
    let r = ring_of(v, region, metric);
    if v.admin is None {
        (v, Err(Error::NotInitialized))
    } else if observation_at(v, region, metric, seq) is None {
        (v, Err(Error::InvalidObservation))
    } else if challenged_at(v, region, metric, seq) {
        (v, Err(Error::Challenged))
    } else {
        (
            OracleView {
                rings: v.rings.insert(
                    (region, metric),
                    RingView { challenges: r.challenges.update(seq as int, Some(reason)), ..r },
                ),
                ..v
            },
            Ok(()),
        )
    }
}

/// `unchallenge`: guardian only. Clears a challenge flag; clearing an
/// unflagged slot changes nothing and still succeeds.
pub open spec fn unchallenge_spec(v: OracleView, region: Seq<u8>, metric: Seq<u8>, seq: u32) -> (
    OracleView,
    Result<(), Error>,
) {
    let r = ring_of(v, region, metric);
    if v.admin is None {
        (v, Err(Error::NotInitialized))
    } else if !challenged_at(v, region, metric, seq) {
        (v, Ok(()))
    } else {
        (
            OracleView {
                rings: v.rings.insert(
                    (region, metric),
                    RingView { challenges: r.challenges.update(seq as int, None), ..r },
                ),
                ..v
            },
            Ok(()),
        )
    }
}

/// The staleness bound in seconds, when it fits in a `u64`.
pub open spec fn bound_secs(v: OracleView) -> int {
    v.staleness_hours * SECONDS_PER_HOUR
}

/// The observations of a ring that count toward its median now.
pub open spec fn counted(v: OracleView, now: u64, region: Seq<u8>, metric: Seq<u8>) -> Seq<Observation> {
    let r = ring_of(v, region, metric);
    median::counted_observations(r, r.head.count as int, now, bound_secs(v))
}

/// `median`: `ObservationStale` when the ring is empty, or when no
/// observation counts, or when fewer than `MIN_PUBLISHERS` distinct
/// publishers are among those that count; `Overflow` when the staleness
/// bound in seconds leaves `u64`; otherwise the median of the values that
/// count, in ascending order.
pub open spec fn median_spec(v: OracleView, now: u64, region: Seq<u8>, metric: Seq<u8>) -> Result<
    i128,
    Error,
> {
    let r = ring_of(v, region, metric);
    let c = counted(v, now, region, metric);
    if r.head.count == 0 {
        Err(Error::ObservationStale)
    } else if bound_secs(v) > u64::MAX {
        Err(Error::Overflow)
    } else if c.len() == 0 || median::observed_publishers(c).len() < MIN_PUBLISHERS {
        Err(Error::ObservationStale)
    } else {
        median::median_of_sorted(median::observed_values(c).sort_by(median::ascending()))
    }
}

impl OracleAdapter {
    /// The publisher registry, the pending changes and the rings are each
    /// well formed.
    pub closed spec fn wf(&self) -> bool {
        &&& self.publishers.wf()
        &&& self.pending.wf()
        &&& self.rings.wf()
    }

    /// The rings of a well formed contract are well formed.
    pub proof fn lemma_wf_rings(&self)
        requires
            self.wf(),
        ensures
            rings_wf(self@),
    {
        self.rings.lemma_all_rings_wf();
    }

    /// Initialize the oracle contract with its guardian admin and the
    /// default staleness bound. Runs once at deployment.
    pub fn new(env: &Env, admin: Address) -> (c: Self)
        ensures
            c.wf(),
            c@ == (OracleView {
                admin: Some(admin),
                staleness_hours: DEFAULT_STALENESS_HOURS,
                publishers: Map::empty(),
                pending: Map::empty(),
                rings: Map::empty(),
            }),
    {
        OracleAdapter {
            admin: Some(admin),
            staleness_hours: DEFAULT_STALENESS_HOURS,
            publishers: KeyTable::new(),
            pending: KeyTable::new(),
            rings: RingTable::new(),
        }
    }

    /// The contract's storage rebuilt from its stored entries: the admin,
    /// the staleness bound, the publisher records, the pending changes and
    /// the rings, each list stored in order. `None` when a ring is not well
    /// formed, which no sequence of entry point calls can produce.
    pub fn load(
        admin: Option<Address>,
        staleness_hours: u64,
        publishers: &Vec<(PublisherKey, PublisherInfo)>,
        pending: &Vec<(PublisherKey, PendingRegistry)>,
        rings: Vec<Ring>,
    ) -> (c: Option<Self>)
        ensures
            c is Some <==> forall|i: int|
                0 <= i < rings@.len() ==> rings::ring_wf(#[trigger] rings@[i]@),
            c matches Some(c) ==> c.wf() && c@ == (OracleView {
                admin,
                staleness_hours,
                publishers: table::key_entries_map(publishers@),
                pending: table::key_entries_map(pending@),
                rings: rings::ring_entries_map(rings@),
            }),
    {
        let rings = match RingTable::from_rings(rings) {
            Some(t) => t,
            None => return None,
        };
        Some(
            OracleAdapter {
                admin,
                staleness_hours,
                publishers: KeyTable::from_entries(publishers),
                pending: KeyTable::from_entries(pending),
                rings,
            },
        )
    }

    /// The configured admin (guardian multisig) address, or
    /// `NotInitialized` if the contract was never constructed.
    pub fn admin(&self) -> (r: Result<Address, Error>)
        ensures
            r == match self@.admin {
                Some(a) => Ok::<Address, Error>(a),
                None => Err(Error::NotInitialized),
            },
    {
        match self.admin {
            Some(a) => Ok(a),
            None => Err(Error::NotInitialized),
        }
    }

    /// The guardian admin must be configured; authorizing the call as that
    /// admin is the host's part.
    fn require_admin(&self) -> (r: Result<(), Error>)
        ensures
            r == (if self@.admin is Some {
                Ok::<(), Error>(())
            } else {
                Err(Error::NotInitialized)
            }),
    {
        match self.admin {
            Some(_) => Ok(()),
            None => Err(Error::NotInitialized),
        }
    }

    /// Propose a timelocked registry change for `publisher`. `add == true`
    /// proposes registration; `add == false` proposes removal. Returns the
    /// eta; see `propose_spec`.
    pub fn propose_publisher(&mut self, env: &Env, publisher: &PublisherKey, add: bool) -> (r:
        Result<u64, Error>)
        requires
            old(self).wf(),
        ensures
            final(self).wf(),
            (final(self)@, r) == propose_spec(old(self)@, env.timestamp, publisher@, add),
    {
        self.require_admin()?;
        if self.pending.contains(publisher) {
            return Err(Error::PendingExists);
        }
        let active = match self.publishers.get(publisher) {
            Some(p) => p.active,
            None => false,
        };
        if add && active {
            return Err(Error::PublisherExists);
        }
        if !add && !active {
            return Err(Error::UnknownPublisher);
        }
        let eta = match env.timestamp().checked_add(REGISTRY_TIMELOCK_SECS) {
            Some(t) => t,
            None => return Err(Error::Overflow),
        };
        self.pending.insert(*publisher, PendingRegistry { add, eta });
        Ok(eta)
    }

    /// Execute a pending registry change once its timelock has elapsed. A
    /// removal sets `active = false` rather than deleting; see
    /// `execute_spec`.
    pub fn execute_publisher(&mut self, env: &Env, publisher: &PublisherKey) -> (r: Result<
        (),
        Error,
    >)
        requires
            old(self).wf(),
        ensures
            final(self).wf(),
            (final(self)@, r) == execute_spec(old(self)@, env.timestamp, publisher@),
    {
        self.require_admin()?;
        let pending = match self.pending.get(publisher) {
            Some(p) => p,
            None => return Err(Error::NoPendingChange),
        };
        let now = env.timestamp();
        if now < pending.eta {
            return Err(Error::RegistryTimelock);
        }
        if pending.add {
            self.publishers.insert(*publisher, PublisherInfo { active: true, added_at: now });
        } else {
            let info = match self.publishers.get(publisher) {
                Some(i) => i,
                None => return Err(Error::UnknownPublisher),
            };
            self.publishers.insert(
                *publisher,
                PublisherInfo { active: false, added_at: info.added_at },
            );
        }
        self.pending.remove(publisher);
        Ok(())
    }

    /// Cancel a pending registry change before it executes; see
    /// `cancel_spec`.
    pub fn cancel_publisher(&mut self, publisher: &PublisherKey) -> (r: Result<(), Error>)
        requires
            old(self).wf(),
        ensures
            final(self).wf(),
            (final(self)@, r) == cancel_spec(old(self)@, publisher@),
    {
        self.require_admin()?;
        if !self.pending.contains(publisher) {
            return Err(Error::NoPendingChange);
        }
        self.pending.remove(publisher);
        Ok(())
    }

    /// The cursor and arrays of a ring as stored, or those of the empty ring.
    fn ring_parts(&self, region: &Symbol, metric: &Symbol) -> (r: (
        Head,
        [Option<Observation>; 16],
        [Option<u32>; 16],
    ))
        requires
            self.wf(),
        ensures
            (RingView { head: r.0, slots: r.1@, challenges: r.2@ }) == ring_of(
                self@,
                region@,
                metric@,
            ),
            rings::ring_wf(ring_of(self@, region@, metric@)),
    {
        proof {
            self.rings.lemma_rings_wf(region@, metric@);
        }
        match self.rings.lookup(region, metric) {
            Some(ring) => (ring.head, ring.slots, ring.challenges),
            None => {
                let slots: [Option<Observation>; 16] = [None; 16];
                let challenges: [Option<u32>; 16] = [None; 16];
                assert(slots@ =~= rings::empty_ring().slots);
                assert(challenges@ =~= rings::empty_ring().challenges);
                (Head { next_seq: 0, count: 0 }, slots, challenges)
            },
        }
    }

    /// Ingest a signed observation, given whether its signature verifies.
    /// `None` when the call traps in the signature check (see
    /// `submit_traps`), leaving the storage as it was; otherwise the outcome
    /// of `submit_spec`. On success the observation is written into ring
    /// slot `next_seq % RING_SIZE`, any challenge on the reused slot is
    /// cleared, and the ring cursor advances.
    pub fn submit_verified(
        &mut self,
        env: &Env,
        region: &Symbol,
        metric: &Symbol,
        timestamp: u64,
        value: i128,
        publisher: &PublisherKey,
        signature_valid: bool,
    ) -> (r: Option<Result<u32, Error>>)
        requires
            old(self).wf(),
        ensures
            final(self).wf(),
            r is None <==> submit_traps(
                old(self)@,
                env.timestamp,
                timestamp,
                value,
                *publisher,
                signature_valid,
            ),
            r is None ==> final(self)@ == old(self)@,
            r matches Some(x) ==> (final(self)@, x) == submit_spec(
                old(self)@,
                env.timestamp,
                region@,
                metric@,
                timestamp,
                value,
                *publisher,
            ),
    {
        match self.publishers.get(publisher) {
            Some(info) => {
                if !info.active {
                    return Some(Err(Error::UnknownPublisher));
                }
            },
            None => return Some(Err(Error::UnknownPublisher)),
        }
        let now = env.timestamp();
        if value < 0 || timestamp > now {
            return Some(Err(Error::InvalidObservation));
        }
        if !signature_valid {
            return None;
        }
        let (head, mut slots, mut challenges) = self.ring_parts(region, metric);
        if head.next_seq == u32::MAX {
            return Some(Err(Error::Overflow));
        }
        let slot = head.next_seq % RING_SIZE;
        let obs = Observation { value, timestamp, publisher: *publisher, accepted: true };
        slots[slot as usize] = Some(obs);
        challenges[slot as usize] = None;
        let count = if head.count < RING_SIZE {
            head.count + 1
        } else {
            head.count
        };
        let new_head = Head { next_seq: head.next_seq + 1, count };
        let ghost before = ring_of(self@, region@, metric@);
        proof {
            let after = RingView { head: new_head, slots: slots@, challenges: challenges@ };
            assert(after == ring_after_write(before, obs));
            assert forall|i: int| 0 <= i < 16 implies (#[trigger] after.slots[i] is Some <==> i
                < after.head.count) by {
                if i != slot {
                    assert(after.slots[i] == before.slots[i]);
                }
            }
            assert forall|i: int| 0 <= i < 16 implies (#[trigger] after.slots[i] matches Some(o)
                ==> o.value >= 0 && o.accepted) by {
                if i != slot {
                    assert(after.slots[i] == before.slots[i]);
                }
            }
        }
        self.rings.update(region, metric, new_head, slots, challenges);
        Some(Ok(slot))
    }

    /// Ingest a signed observation. No caller authorization: the ed25519
    /// signature by `publisher` over the XDR of the payload `{ region,
    /// metric, timestamp, value }` authenticates the submission.
    /// `UnknownPublisher` if the key is not active; `InvalidObservation` for
    /// a negative value or a future timestamp. A signature that does not
    /// verify aborts the call, so callers must not pass one where it would
    /// be checked; `try_submit` takes any signature. Returns the written
    /// slot.
    pub fn submit(
        &mut self,
        env: &Env,
        region: &Symbol,
        metric: &Symbol,
        timestamp: u64,
        value: i128,
        publisher: &PublisherKey,
        signature: &[u8; 64],
    ) -> (r: Result<u32, Error>)
        requires
            old(self).wf(),
            !submit_traps(
                old(self)@,
                env.timestamp,
                timestamp,
                value,
                *publisher,
                signature_verifies(region@, metric@, timestamp, value, *publisher, signature@),
            ),
        ensures
            final(self).wf(),
            (final(self)@, r) == submit_spec(
                old(self)@,
                env.timestamp,
                region@,
                metric@,
                timestamp,
                value,
                *publisher,
            ),
    {
        let active = match self.publishers.get(publisher) {
            Some(info) => info.active,
            None => false,
        };
        if !active {
            return Err(Error::UnknownPublisher);
        }
        if value < 0 || timestamp > env.timestamp() {
            return Err(Error::InvalidObservation);
        }
        let payload = ObservationPayload {
            region: region.duplicate(),
            metric: metric.duplicate(),
            timestamp,
            value,
        };
        let message = payload.to_xdr();
        let verified = ed25519_verify_strict(publisher, message.as_slice(), signature);
        match self.submit_verified(env, region, metric, timestamp, value, publisher, verified) {
            Some(r) => r,
            None => {
                proof {
                    assert(false);
                }
                Err(Error::BadSignature)
            },
        }
    }

    /// Ingest a signed observation with any signature, as a caller that
    /// catches the host's trap sees it: `None` when the signature check
    /// traps (the publisher is active, the value and timestamp acceptable,
    /// and the signature does not verify), with the storage unchanged;
    /// otherwise the result of `submit`.
    pub fn try_submit(
        &mut self,
        env: &Env,
        region: &Symbol,
        metric: &Symbol,
        timestamp: u64,
        value: i128,
        publisher: &PublisherKey,
        signature: &[u8; 64],
    ) -> (r: Option<Result<u32, Error>>)
        requires
            old(self).wf(),
        ensures
            final(self).wf(),
            r is None <==> submit_traps(
                old(self)@,
                env.timestamp,
                timestamp,
                value,
                *publisher,
                signature_verifies(region@, metric@, timestamp, value, *publisher, signature@),
            ),
            r is None ==> final(self)@ == old(self)@,
            r matches Some(x) ==> (final(self)@, x) == submit_spec(
                old(self)@,
                env.timestamp,
                region@,
                metric@,
                timestamp,
                value,
                *publisher,
            ),
    {
        let active = match self.publishers.get(publisher) {
            Some(info) => info.active,
            None => false,
        };
        if active && value >= 0 && timestamp <= env.timestamp() {
            let payload = ObservationPayload {
                region: region.duplicate(),
                metric: metric.duplicate(),
                timestamp,
                value,
            };
            let message = payload.to_xdr();
            if !ed25519_verify_strict(publisher, message.as_slice(), signature) {
                return None;
            }
        }
        Some(self.submit(env, region, metric, timestamp, value, publisher, signature))
    }

    /// Flag a ring slot so `median` excludes it. Guardian only.
    /// `InvalidObservation` if the slot holds no observation; `Challenged`
    /// if it is already flagged.
    pub fn challenge(&mut self, region: &Symbol, metric: &Symbol, seq: u32, reason: u32) -> (r:
        Result<(), Error>)
        requires
            old(self).wf(),
        ensures
            final(self).wf(),
            (final(self)@, r) == challenge_spec(old(self)@, region@, metric@, seq, reason),
    {
        self.require_admin()?;
        let (head, slots, mut challenges) = self.ring_parts(region, metric);
        if seq >= RING_SIZE || slots[seq as usize].is_none() {
            return Err(Error::InvalidObservation);
        }
        if challenges[seq as usize].is_some() {
            return Err(Error::Challenged);
        }
        challenges[seq as usize] = Some(reason);
        proof {
            let before = ring_of(self@, region@, metric@);
            let after = RingView { head, slots: slots@, challenges: challenges@ };
            assert(after == (RingView { challenges: before.challenges.update(seq as int, Some(reason)), ..before }));
        }
        self.rings.update(region, metric, head, slots, challenges);
        Ok(())
    }

    /// Clear a challenge flag. Guardian only. Clearing an unflagged slot is
    /// a no-op that still succeeds, so a guardian retry is idempotent.
    pub fn unchallenge(&mut self, region: &Symbol, metric: &Symbol, seq: u32) -> (r: Result<
        (),
        Error,
    >)
        requires
            old(self).wf(),
        ensures
            final(self).wf(),
            (final(self)@, r) == unchallenge_spec(old(self)@, region@, metric@, seq),
    {
        self.require_admin()?;
        let (head, slots, mut challenges) = self.ring_parts(region, metric);
        if seq >= RING_SIZE || challenges[seq as usize].is_none() {
            return Ok(());
        }
        challenges[seq as usize] = None;
        proof {
            let before = ring_of(self@, region@, metric@);
            let after = RingView { head, slots: slots@, challenges: challenges@ };
            assert(after == (RingView { challenges: before.challenges.update(seq as int, None), ..before }));
        }
        self.rings.update(region, metric, head, slots, challenges);
        Ok(())
    }

    /// True if the key is a currently active publisher.
    pub fn is_publisher(&self, publisher: &PublisherKey) -> (r: bool)
        requires
            self.wf(),
        ensures
            r == is_active(self@, publisher@),
    {
        match self.publishers.get(publisher) {
            Some(p) => p.active,
            None => false,
        }
    }

    /// A publisher record (active or retired), or `UnknownPublisher`.
    pub fn publisher_info(&self, publisher: &PublisherKey) -> (r: Result<PublisherInfo, Error>)
        requires
            self.wf(),
        ensures
            r == (if self@.publishers.contains_key(publisher@) {
                Ok::<PublisherInfo, Error>(self@.publishers[publisher@])
            } else {
                Err(Error::UnknownPublisher)
            }),
    {
        match self.publishers.get(publisher) {
            Some(p) => Ok(p),
            None => Err(Error::UnknownPublisher),
        }
    }

    /// A pending registry change, or `NoPendingChange`.
    pub fn pending_publisher(&self, publisher: &PublisherKey) -> (r: Result<
        PendingRegistry,
        Error,
    >)
        requires
            self.wf(),
        ensures
            r == (if self@.pending.contains_key(publisher@) {
                Ok::<PendingRegistry, Error>(self@.pending[publisher@])
            } else {
                Err(Error::NoPendingChange)
            }),
    {
        match self.pending.get(publisher) {
            Some(p) => Ok(p),
            None => Err(Error::NoPendingChange),
        }
    }

    /// The observation at a ring slot, or `InvalidObservation`.
    pub fn observation(&self, region: &Symbol, metric: &Symbol, seq: u32) -> (r: Result<
        Observation,
        Error,
    >)
        requires
            self.wf(),
        ensures
            r == match observation_at(self@, region@, metric@, seq) {
                Some(o) => Ok::<Observation, Error>(o),
                None => Err(Error::InvalidObservation),
            },
    {
        let (_, slots, _) = self.ring_parts(region, metric);
        if seq >= RING_SIZE {
            return Err(Error::InvalidObservation);
        }
        match slots[seq as usize] {
            Some(o) => Ok(o),
            None => Err(Error::InvalidObservation),
        }
    }

    /// The ring cursor for a region and metric (zeroed if none yet).
    pub fn head(&self, region: &Symbol, metric: &Symbol) -> (h: Head)
        requires
            self.wf(),
        ensures
            h == ring_of(self@, region@, metric@).head,
    {
        let (head, _, _) = self.ring_parts(region, metric);
        head
    }

    /// True if the ring slot carries a challenge flag.
    pub fn is_challenged(&self, region: &Symbol, metric: &Symbol, seq: u32) -> (r: bool)
        requires
            self.wf(),
        ensures
            r == challenged_at(self@, region@, metric@, seq),
    {
        let (_, _, challenges) = self.ring_parts(region, metric);
        seq < RING_SIZE && challenges[seq as usize].is_some()
    }

    /// The configured staleness bound in hours.
    pub fn staleness_bound(&self) -> (h: u64)
        ensures
            h == self@.staleness_hours,
    {
        self.staleness_hours
    }

    /// The trusted median over the valid observations for a region and
    /// metric. An observation counts only if it is accepted, not challenged,
    /// and no older than the staleness bound; see `median_spec`. A stale or
    /// under-sourced index fails with `ObservationStale` rather than paying
    /// on thin data.
    pub fn median(&self, env: &Env, region: &Symbol, metric: &Symbol) -> (r: Result<i128, Error>)
        requires
            self.wf(),
        ensures
            r == median_spec(self@, env.timestamp, region@, metric@),
    {
        let (head, slots, challenges) = self.ring_parts(region, metric);
        if head.count == 0 {
            return Err(Error::ObservationStale);
        }
        let now = env.timestamp();
        let bound = match self.staleness_hours.checked_mul(SECONDS_PER_HOUR) {
            Some(b) => b,
            None => return Err(Error::Overflow),
        };
        let ghost ring = ring_of(self@, region@, metric@);
        let mut values: [i128; 16] = [0; 16];
        let mut len: usize = 0;
        let mut publishers: Vec<PublisherKey> = Vec::new();
        let mut slot: u32 = 0;
        proof {
            assert(values@.subrange(0, 0) =~= Seq::<i128>::empty());
            assert(median::observed_values(Seq::<Observation>::empty()) =~= Seq::<i128>::empty());
            assert(median::key_views(publishers@) =~= Seq::<Seq<u8>>::empty());
            assert(median::observed_publishers(Seq::<Observation>::empty()) =~= Set::<Seq<u8>>::empty());
            assert(median::key_views(publishers@).to_set() =~= Set::<Seq<u8>>::empty());
        }
        while slot < head.count
            invariant
                ring == (RingView { head, slots: slots@, challenges: challenges@ }),
                rings::ring_wf(ring),
                slot <= head.count <= 16,
                len <= slot,
                values@.len() == 16,
                len == median::counted_observations(ring, slot as int, now, bound as int).len(),
                values@.subrange(0, len as int) == median::observed_values(
                    median::counted_observations(ring, slot as int, now, bound as int),
                ),
                median::key_views(publishers@).no_duplicates(),
                median::key_views(publishers@).to_set() == median::observed_publishers(
                    median::counted_observations(ring, slot as int, now, bound as int),
                ),
            decreases head.count - slot,
        {
            let ghost prev = median::counted_observations(ring, slot as int, now, bound as int);
            match slots[slot as usize] {
                Some(obs) => {
                    let fresh = now.saturating_sub(obs.timestamp) <= bound;
                    if obs.accepted && fresh && challenges[slot as usize].is_none() {
                        assert(median::slot_counts(ring, slot as int, now, bound as int));
                        let ghost old_values = values@;
                        values[len] = obs.value;
                        proof {
                            median::lemma_values_push(prev, obs);
                            median::lemma_publishers_push(prev, obs);
                            assert(values@.subrange(0, len + 1) =~= old_values.subrange(
                                0,
                                len as int,
                            ).push(obs.value));
                        }
                        len = len + 1;
                        if !contains_publisher(&publishers, &obs.publisher) {
                            proof {
                                median::lemma_keys_push(publishers@, obs.publisher);
                            }
                            publishers.push(obs.publisher);
                        } else {
                            proof {
                                assert(median::key_views(publishers@).to_set().contains(
                                    obs.publisher@,
                                ));
                                assert(median::key_views(publishers@).to_set().insert(
                                    obs.publisher@,
                                ) =~= median::key_views(publishers@).to_set());
                            }
                        }
                    } else {
                        assert(!median::slot_counts(ring, slot as int, now, bound as int));
                    }
                },
                None => {
                    assert(!median::slot_counts(ring, slot as int, now, bound as int));
                },
            }
            slot = slot + 1;
        }
        let ghost c = median::counted_observations(ring, head.count as int, now, bound as int);
        proof {
            assert(c == counted(self@, now, region@, metric@));
            median::key_views(publishers@).unique_seq_to_set();
        }
        if len == 0 || publishers.len() < MIN_PUBLISHERS as usize {
            return Err(Error::ObservationStale);
        }
        let ghost unsorted = values@;
        sort_ascending(&mut values, len);
        proof {
            let t = values@.subrange(0, len as int);
            assert(median::sorted_prefix(t, t.len() as int));
            median::lemma_sorted_rearrangement(median::observed_values(c), t);
        }
        let mid = len / 2;
        if len % 2 == 1 {
            Ok(values[mid])
        } else {
            match values[mid - 1].checked_add(values[mid]) {
                Some(sum) => Ok(sum / 2),
                None => Err(Error::Overflow),
            }
        }
    }
}

} // verus!
