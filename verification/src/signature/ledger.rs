//! The signature ledger: firing windows per player and bias category,
//! cooldowns per player and signature, and which signatures each player
//! has already fired this match.

use vstd::prelude::*;

use crate::signature::dispatcher::{BiasCategory, category_index, category_lane};
use crate::signature::gate::{SignatureKind, kind_of_id, signature_kind};
use crate::signature::{DEFAULT_FIRING_DURATION_TICKS, SignatureFiring};

verus! {

/// An event for the match memory ledger.
#[derive(Debug, Clone, PartialEq, Eq)]
pub enum MemoryEvent {
    /// Signature `signature_id` fired for the first time this match for the
    /// player in `player_slot`, at `tick`.
    SignatureFirstFired { player_slot: u8, signature_id: String, tick: i64 },
}

/// How soon a signature may fire again.
#[derive(Debug, Clone, Copy, PartialEq, Eq, Structural)]
pub enum CooldownPolicy {
    /// Again after `n` ticks.
    EveryTicks(u32),
    /// At most `n` times a match; within the match, spaced like
    /// [`PER_MATCH_SPACING_TICKS`].
    PerMatchCount(u32),
}

/// Spacing between firings of a per-match-limited signature: 600 ticks.
pub const PER_MATCH_SPACING_TICKS: i64 = 600;

/// Number of signature kinds.
pub const SIGNATURE_KIND_COUNT: usize = 9;

/// Number of bias-category lanes per player.
pub const CATEGORY_COUNT: usize = 4;

/// Index of a signature kind, in declaration order.
pub open spec fn kind_index(k: SignatureKind) -> int {
    match k {
        SignatureKind::BodyShieldPressure => 0,
        SignatureKind::LongRangeStrike => 1,
        SignatureKind::FirstTimeDiagonalSwitch => 2,
        SignatureKind::CommandingClaim => 3,
        SignatureKind::OverlappingSurge => 4,
        SignatureKind::ScreeningInterception => 5,
        SignatureKind::TouchlineBeat => 6,
        SignatureKind::PoachersDart => 7,
        SignatureKind::NoOpStub => 8,
    }
}

pub(crate) fn kind_slot(k: SignatureKind) -> (i: usize)
    ensures
        i == kind_index(k),
        i < 9,
{
    match k {
        SignatureKind::BodyShieldPressure => 0,
        SignatureKind::LongRangeStrike => 1,
        SignatureKind::FirstTimeDiagonalSwitch => 2,
        SignatureKind::CommandingClaim => 3,
        SignatureKind::OverlappingSurge => 4,
        SignatureKind::ScreeningInterception => 5,
        SignatureKind::TouchlineBeat => 6,
        SignatureKind::PoachersDart => 7,
        SignatureKind::NoOpStub => 8,
    }
}

/// Tick at which the cooldown of a signature fired at `tick` ends:
/// `tick + n` for `EveryTicks(n)`, `tick + 600` for a per-match count.
pub open spec fn cooldown_end(tick: int, policy: CooldownPolicy) -> int {
    match policy {
        CooldownPolicy::EveryTicks(n) => tick + n,
        CooldownPolicy::PerMatchCount(_) => tick + PER_MATCH_SPACING_TICKS,
    }
}

/// The firing window is open at `tick`.
pub open spec fn active_at(f: SignatureFiring, tick: int) -> bool {
    f.start_tick_spec() <= tick < f.start_tick_spec() + f.duration_ticks_spec()
}

/// The signature state of the match.
pub struct SignatureLedger {
    /// The firing in progress per player and bias category, at
    /// `slot * 4 + category lane`.
    pub firings: Vec<Option<SignatureFiring>>,
    /// The tick a player's signature cooldown ends, once it has fired, at
    /// `slot * 9 + kind index`.
    pub cooldown_ends: Vec<Option<i64>>,
    /// Whether a player has fired a signature this match, at
    /// `slot * 9 + kind index`.
    pub fired: Vec<bool>,
}

impl SignatureLedger {
    /// One lane per player and category, one entry per player and kind, and
    /// every firing window ends within the tick range.
    pub open spec fn wf(&self) -> bool {
        &&& self.firings@.len() == 88
        &&& self.cooldown_ends@.len() == 198
        &&& self.fired@.len() == 198
        &&& forall|i: int|
            0 <= i < 88 ==> (#[trigger] self.firings@[i] matches Some(f) ==> f.start_tick_spec()
                + f.duration_ticks_spec() <= i64::MAX)
    }

    /// Player `slot` has fired signature `kind` this match.
    pub open spec fn seen(&self, slot: int, kind: SignatureKind) -> bool {
        self.fired@[slot * 9 + kind_index(kind)]
    }

    /// A fresh ledger: no firing, no cooldown, nothing fired.
    pub fn new() -> (l: SignatureLedger)
        ensures
            l.wf(),
            forall|i: int| 0 <= i < 88 ==> #[trigger] l.firings@[i] is None,
            forall|i: int| 0 <= i < 198 ==> #[trigger] l.cooldown_ends@[i] is None,
            forall|i: int| 0 <= i < 198 ==> !#[trigger] l.fired@[i],
    {
        let mut firings: Vec<Option<SignatureFiring>> = Vec::new();
        let mut i: usize = 0;
        while i < 88
            invariant
                i <= 88,
                firings@.len() == i,
                forall|j: int| 0 <= j < i ==> #[trigger] firings@[j] is None,
            decreases 88 - i,
        {
            firings.push(None);
            i = i + 1;
        }
        let mut cooldown_ends: Vec<Option<i64>> = Vec::new();
        let mut fired: Vec<bool> = Vec::new();
        let mut k: usize = 0;
        while k < 198
            invariant
                k <= 198,
                cooldown_ends@.len() == k,
                fired@.len() == k,
                forall|j: int| 0 <= j < k ==> #[trigger] cooldown_ends@[j] is None,
                forall|j: int| 0 <= j < k ==> !#[trigger] fired@[j],
            decreases 198 - k,
        {
            cooldown_ends.push(None);
            fired.push(false);
            k = k + 1;
        }
        SignatureLedger { firings, cooldown_ends, fired }
    }
}

/// `after` is `before` with every firing window no longer open at `tick`
/// closed; cooldowns and first firings are kept.
pub open spec fn firings_expired(before: SignatureLedger, after: SignatureLedger, tick: int) -> bool {
    &&& after.wf()
    &&& after.cooldown_ends@ == before.cooldown_ends@
    &&& after.fired@ == before.fired@
    &&& after.firings@.len() == 88
    &&& forall|i: int|
        0 <= i < 88 ==> #[trigger] after.firings@[i] == (match before.firings@[i] {
            Some(f) => if active_at(f, tick) {
                Some(f)
            } else {
                None
            },
            None => None,
        })
}

/// Close every firing window that is no longer open at `tick`: each lane
/// keeps its firing exactly when the window is open at `tick`; cooldowns
/// and first firings are untouched.
pub fn expire_firings(ledger: &mut SignatureLedger, tick: i64)
    requires
        old(ledger).wf(),
    ensures
        firings_expired(*old(ledger), *final(ledger), tick as int),
{
    let ghost before = ledger.firings@;
    let mut i: usize = 0;
    while i < 88
        invariant
            0 <= i <= 88,
            ledger.wf(),
            ledger.cooldown_ends@ == old(ledger).cooldown_ends@,
            ledger.fired@ == old(ledger).fired@,
            before == old(ledger).firings@,
            forall|j: int|
                0 <= j < i ==> #[trigger] ledger.firings@[j] == (match before[j] {
                    Some(f) => if active_at(f, tick as int) {
                        Some(f)
                    } else {
                        None
                    },
                    None => None,
                }),
            forall|j: int| i <= j < 88 ==> #[trigger] ledger.firings@[j] == before[j],
        decreases 88 - i,
    {
        let close = match &ledger.firings[i] {
            Some(f) => !f.is_active(tick),
            None => false,
        };
        if close {
            ledger.firings.set(i, None);
        }
        i = i + 1;
    }
}

/// `after` is `before` with player `slot`'s firing of signature `id` (of
/// bias `category`, under cooldown `policy`) at `tick` recorded, and `first`
/// the first-firing event exactly when the player had not fired it before
/// (see [`record_firing`]).
pub open spec fn firing_recorded(
    before: SignatureLedger,
    after: SignatureLedger,
    slot: u8,
    id: Seq<char>,
    category: BiasCategory,
    policy: CooldownPolicy,
    tick: i64,
    first: Option<MemoryEvent>,
) -> bool {
    let k = kind_of_id(id).unwrap();
    &&& ledger_recorded(before, after, slot, id, category, policy, tick)
    &&& (first is Some <==> !before.seen(slot as int, k))
    &&& (first matches Some(MemoryEvent::SignatureFirstFired { player_slot, signature_id: sid, tick: t })
        ==> player_slot == slot && sid@ == id && t == tick)
}

/// `after` is `before` with player `slot`'s firing of signature `id` (of
/// bias `category`, under cooldown `policy`) at `tick` recorded: its
/// cooldown end set, it marked fired, its category lane holding a 60-tick
/// window from `tick`, every other lane kept.
pub open spec fn ledger_recorded(
    before: SignatureLedger,
    after: SignatureLedger,
    slot: u8,
    id: Seq<char>,
    category: BiasCategory,
    policy: CooldownPolicy,
    tick: i64,
) -> bool {
    let k = kind_of_id(id).unwrap();
    let idx = slot * 9 + kind_index(k);
    let lane = slot * 4 + category_index(category);
    &&& after.wf()
    &&& after.cooldown_ends@ == before.cooldown_ends@.update(
        idx,
        Some(cooldown_end(tick as int, policy) as i64),
    )
    &&& after.fired@ == before.fired@.update(idx, true)
    &&& after.firings@.len() == 88
    &&& forall|j: int|
        0 <= j < 88 && j != lane ==> #[trigger] after.firings@[j] == before.firings@[j]
    &&& after.firings@[lane] matches Some(f) && f.id_spec() == id && f.start_tick_spec() == tick
        && f.duration_ticks_spec() == 60
}

/// Record that player `slot` fired signature `signature_id` (of bias
/// `category`, under cooldown `policy`) at `tick`: its cooldown ends at
/// [`cooldown_end`]; its category lane holds a 60-tick firing window from
/// `tick`; it is marked fired. Returns the first-firing event exactly when
/// the player had not fired this signature before; nothing else changes.
pub fn record_firing(
    ledger: &mut SignatureLedger,
    slot: u8,
    signature_id: String,
    category: BiasCategory,
    policy: CooldownPolicy,
    tick: i64,
) -> (first: Option<MemoryEvent>)
    requires
        old(ledger).wf(),
        slot < 22,
        kind_of_id(signature_id@) is Some,
        cooldown_end(tick as int, policy) <= i64::MAX,
        tick + 60 <= i64::MAX,
    ensures
        firing_recorded(*old(ledger), *final(ledger), slot, signature_id@, category, policy, tick, first),
{
    let kind = signature_kind(&signature_id).unwrap();
    let idx = slot as usize * SIGNATURE_KIND_COUNT + kind_slot(kind);
    let lane = slot as usize * CATEGORY_COUNT + category_lane(category);
    let end = match policy {
        CooldownPolicy::EveryTicks(n) => tick + n as i64,
        CooldownPolicy::PerMatchCount(_) => tick + PER_MATCH_SPACING_TICKS,
    };
    ledger.cooldown_ends.set(idx, Some(end));
    let firing = SignatureFiring::new(signature_id.clone(), tick, DEFAULT_FIRING_DURATION_TICKS);
    ledger.firings.set(lane, Some(firing));
    let already = ledger.fired[idx];
    ledger.fired.set(idx, true);
    if already {
        None
    } else {
        Some(MemoryEvent::SignatureFirstFired { player_slot: slot, signature_id, tick })
    }
}

} // verus!
