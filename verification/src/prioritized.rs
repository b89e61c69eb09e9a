use vstd::prelude::*;

use crate::compat::{opt_build_tag_eq, source_more_compatible, spec_wheel_compatibility,
    wheel_is_more_compatible, wheel_more_compatible, wheel_rank_tied, HashComparison,
    IncompatibleSource, IncompatibleWheel, lemma_source_ranking_strict_order,
    lemma_wheel_ranking_strict_order, SourceDistCompatibility, spec_tag_priority,
    WheelCompatibility, WheelCompatibilityV};
use crate::distribution::{BuildTag, BuildTagV, RegistryBuiltWheel, RegistryBuiltWheelV,
    RegistrySourceDist, RegistrySourceDistV, TagTripleV, WheelFilenameV};
use crate::policy::{spec_no_binary, BuildOptionsV, HashStrategyEntryV};

verus! {

/// The best wheel candidate seen so far for one version: a compatible
/// winner, or the retained exclusion reason for diagnostics. The full
/// candidate list is never held.
#[derive(Debug)]
pub enum BestWheel {
    /// The winning wheel with its ranking keys: hash outcome, tag rank
    /// and build tag.
    Winner(RegistryBuiltWheel, HashComparison, Option<u64>, Option<BuildTag>),
    /// No compatible wheel seen yet: the best diagnostic reason.
    Excluded(IncompatibleWheel),
}

/// Mathematical value of a [`BestWheel`].
#[verifier::ext_equal]
pub ghost enum BestWheelV {
    Winner(RegistryBuiltWheelV, HashComparison, Option<u64>, Option<BuildTagV>),
    Excluded(IncompatibleWheel),
}

impl View for BestWheel {
    type V = BestWheelV;

    open spec fn view(&self) -> BestWheelV {
        match self {
            BestWheel::Winner(d, h, p, t) => BestWheelV::Winner(
                d@,
                *h,
                *p,
                match t {
                    Some(bt) => Some(bt@),
                    None => None,
                },
            ),
            BestWheel::Excluded(r) => BestWheelV::Excluded(*r),
        }
    }
}

/// The best source candidate seen so far for one version.
#[derive(Debug)]
pub enum BestSource {
    /// The winning source distribution with its hash outcome.
    Winner(RegistrySourceDist, HashComparison),
    /// No compatible source seen yet: the retained exclusion reason.
    Excluded(IncompatibleSource),
}

/// Mathematical value of a [`BestSource`].
#[verifier::ext_equal]
pub ghost enum BestSourceV {
    Winner(RegistrySourceDistV, HashComparison),
    Excluded(IncompatibleSource),
}

impl View for BestSource {
    type V = BestSourceV;

    open spec fn view(&self) -> BestSourceV {
        match self {
            BestSource::Winner(d, h) => BestSourceV::Winner(d@, *h),
            BestSource::Excluded(r) => BestSourceV::Excluded(*r),
        }
    }
}

/// The per-version record: at most one best wheel and one best source.
#[derive(Debug)]
pub struct PrioritizedDist {
    pub wheel: Option<BestWheel>,
    pub source: Option<BestSource>,
}

/// Mathematical value of a [`PrioritizedDist`].
#[verifier::ext_equal]
pub ghost struct PrioritizedDistV {
    pub wheel: Option<BestWheelV>,
    pub source: Option<BestSourceV>,
}

impl View for PrioritizedDist {
    type V = PrioritizedDistV;

    open spec fn view(&self) -> PrioritizedDistV {
        PrioritizedDistV {
            wheel: match &self.wheel {
                Some(w) => Some(w@),
                None => None,
            },
            source: match &self.source {
                Some(s) => Some(s@),
                None => None,
            },
        }
    }
}

/// The verdict that ranked the current occupant of a wheel slot.
pub open spec fn wheel_slot_verdict(s: BestWheelV) -> WheelCompatibilityV {
    match s {
        BestWheelV::Winner(_, h, p, t) => WheelCompatibilityV::Compatible(h, p, t),
        BestWheelV::Excluded(r) => WheelCompatibilityV::Incompatible(r),
    }
}

/// The slot a classified wheel candidate would occupy: a winner when
/// compatible, the bare reason when not.
pub open spec fn wheel_slot_of(d: RegistryBuiltWheelV, c: WheelCompatibilityV) -> BestWheelV {
    match c {
        WheelCompatibilityV::Compatible(h, p, t) => BestWheelV::Winner(d, h, p, t),
        WheelCompatibilityV::Incompatible(r) => BestWheelV::Excluded(r),
    }
}

/// The merge rule for wheels: install into an empty slot; otherwise
/// replace only if the new verdict strictly outranks the occupant's.
/// Ties keep the first-seen candidate.
pub open spec fn spec_insert_wheel(
    cur: Option<BestWheelV>,
    d: RegistryBuiltWheelV,
    c: WheelCompatibilityV,
) -> Option<BestWheelV> {
    match cur {
        None => Some(wheel_slot_of(d, c)),
        Some(s) => if wheel_more_compatible(c, wheel_slot_verdict(s)) {
            Some(wheel_slot_of(d, c))
        } else {
            cur
        },
    }
}

pub open spec fn source_slot_verdict(s: BestSourceV) -> SourceDistCompatibility {
    match s {
        BestSourceV::Winner(_, h) => SourceDistCompatibility::Compatible(h),
        BestSourceV::Excluded(r) => SourceDistCompatibility::Incompatible(r),
    }
}

pub open spec fn source_slot_of(d: RegistrySourceDistV, c: SourceDistCompatibility) -> BestSourceV {
    match c {
        SourceDistCompatibility::Compatible(h) => BestSourceV::Winner(d, h),
        SourceDistCompatibility::Incompatible(r) => BestSourceV::Excluded(r),
    }
}

/// The merge rule for source distributions, symmetric to the wheel rule.
pub open spec fn spec_insert_source(
    cur: Option<BestSourceV>,
    d: RegistrySourceDistV,
    c: SourceDistCompatibility,
) -> Option<BestSourceV> {
    match cur {
        None => Some(source_slot_of(d, c)),
        Some(s) => if source_more_compatible(c, source_slot_verdict(s)) {
            Some(source_slot_of(d, c))
        } else {
            cur
        },
    }
}

fn incoming_wheel_beats(c: &WheelCompatibility, s: &BestWheel) -> (r: bool)
    ensures
        r == wheel_more_compatible(c@, wheel_slot_verdict(s@)),
{
    match s {
        BestWheel::Winner(_, h, p, t) => {
            let occupant = WheelCompatibility::Compatible(
                *h,
                *p,
                match t {
                    Some(bt) => Some(bt.clone()),
                    None => None,
                },
            );
            wheel_is_more_compatible(c, &occupant)
        },
        BestWheel::Excluded(r) => {
            let occupant = WheelCompatibility::Incompatible(*r);
            wheel_is_more_compatible(c, &occupant)
        },
    }
}

impl PrioritizedDist {
    /// An empty record.
    pub fn empty() -> (r: PrioritizedDist)
        ensures
            r@ == (PrioritizedDistV { wheel: None, source: None }),
    {
        PrioritizedDist { wheel: None, source: None }
    }

    /// A record seeded with one classified wheel.
    pub fn from_built(dist: RegistryBuiltWheel, compatibility: WheelCompatibility) -> (r:
        PrioritizedDist)
        ensures
            r@.wheel == spec_insert_wheel(None, dist@, compatibility@),
            r@.source is None,
    {
        let mut r = PrioritizedDist::empty();
        r.insert_built(dist, compatibility);
        r
    }

    /// A record seeded with one classified source distribution.
    pub fn from_source(dist: RegistrySourceDist, compatibility: SourceDistCompatibility) -> (r:
        PrioritizedDist)
        ensures
            r@.source == spec_insert_source(None, dist@, compatibility),
            r@.wheel is None,
    {
        let mut r = PrioritizedDist::empty();
        r.insert_source(dist, compatibility);
        r
    }

    /// Merges one classified wheel into the record.
    pub fn insert_built(&mut self, dist: RegistryBuiltWheel, compatibility: WheelCompatibility)
        ensures
            final(self)@.wheel == spec_insert_wheel(old(self)@.wheel, dist@, compatibility@),
            final(self)@.source == old(self)@.source,
    {
        let replace = match &self.wheel {
            None => true,
            Some(cur) => incoming_wheel_beats(&compatibility, cur),
        };
        if replace {
            self.wheel = Some(
                match compatibility {
                    WheelCompatibility::Compatible(h, p, t) => BestWheel::Winner(dist, h, p, t),
                    WheelCompatibility::Incompatible(r) => BestWheel::Excluded(r),
                },
            );
        }
    }

    /// Merges one classified source distribution into the record.
    pub fn insert_source(&mut self, dist: RegistrySourceDist, compatibility: SourceDistCompatibility)
        ensures
            final(self)@.source == spec_insert_source(old(self)@.source, dist@, compatibility),
            final(self)@.wheel == old(self)@.wheel,
    {
        let replace = match &self.source {
            None => true,
            Some(cur) => {
                let occupant = match cur {
                    BestSource::Winner(_, h) => SourceDistCompatibility::Compatible(*h),
                    BestSource::Excluded(r) => SourceDistCompatibility::Incompatible(*r),
                };
                crate::compat::source_is_more_compatible(&compatibility, &occupant)
            },
        };
        if replace {
            self.source = Some(
                match compatibility {
                    SourceDistCompatibility::Compatible(h) => BestSource::Winner(dist, h),
                    SourceDistCompatibility::Incompatible(r) => BestSource::Excluded(r),
                },
            );
        }
    }
}

/// Insertion order does not matter for the wheel slot: merging two
/// classified wheel candidates in either order yields the same slot,
/// provided two distinct candidates do not tie on every ranking key
/// (ties keep the first-seen candidate, so a tie between distinct
/// compatible candidates is the one order-sensitive case).
pub proof fn lemma_insert_wheel_commutes(
    cur: Option<BestWheelV>,
    d1: RegistryBuiltWheelV,
    c1: WheelCompatibilityV,
    d2: RegistryBuiltWheelV,
    c2: WheelCompatibilityV,
)
    requires
        wheel_rank_tied(c1, c2) && c1 is Compatible ==> d1 == d2,
    ensures
        spec_insert_wheel(spec_insert_wheel(cur, d1, c1), d2, c2) == spec_insert_wheel(
            spec_insert_wheel(cur, d2, c2),
            d1,
            c1,
        ),
{
    lemma_wheel_ranking_strict_order(c1, c2, c1);
    lemma_wheel_ranking_strict_order(c2, c1, c2);
    if wheel_rank_tied(c1, c2) {
        lemma_wheel_ranking_strict_order(c1, c2, c2);
        if let (
            WheelCompatibilityV::Compatible(h1, p1, t1),
            WheelCompatibilityV::Compatible(h2, p2, t2),
        ) = (c1, c2) {
            assert(opt_build_tag_eq(t1, t2));
            if let (Some(x), Some(y)) = (t1, t2) {
                assert(x =~= y);
            }
            assert(c1 =~= c2);
        }
    }
    if let Some(s) = cur {
        let v = wheel_slot_verdict(s);
        lemma_wheel_ranking_strict_order(c1, c2, v);
        lemma_wheel_ranking_strict_order(c2, c1, v);
        lemma_wheel_ranking_strict_order(c1, v, c2);
        lemma_wheel_ranking_strict_order(c2, v, c1);
        lemma_wheel_ranking_strict_order(v, c1, c2);
        lemma_wheel_ranking_strict_order(v, c2, c1);
    }
}

/// Insertion order does not matter for the source slot, under the same
/// tie proviso as for wheels.
pub proof fn lemma_insert_source_commutes(
    cur: Option<BestSourceV>,
    d1: RegistrySourceDistV,
    c1: SourceDistCompatibility,
    d2: RegistrySourceDistV,
    c2: SourceDistCompatibility,
)
    requires
        !source_more_compatible(c1, c2) && !source_more_compatible(c2, c1) && c1 is Compatible
            ==> d1 == d2,
    ensures
        spec_insert_source(spec_insert_source(cur, d1, c1), d2, c2) == spec_insert_source(
            spec_insert_source(cur, d2, c2),
            d1,
            c1,
        ),
{
    lemma_source_ranking_strict_order(c1, c2, c1);
    lemma_source_ranking_strict_order(c2, c1, c2);
    if let Some(s) = cur {
        let v = source_slot_verdict(s);
        lemma_source_ranking_strict_order(c1, c2, v);
        lemma_source_ranking_strict_order(c2, c1, v);
        lemma_source_ranking_strict_order(c1, v, c2);
        lemma_source_ranking_strict_order(c2, v, c1);
        lemma_source_ranking_strict_order(v, c1, c2);
        lemma_source_ranking_strict_order(v, c2, c1);
    }
}

/// A wheel with no satisfying tag-table entry is never chosen over one
/// that has a satisfying entry, irrespective of hash or build-tag values:
/// classified against the same table, the matching wheel wins the slot in
/// either insertion order.
pub proof fn lemma_tag_precedence(
    f1: WheelFilenameV,
    hashes1: Seq<Seq<char>>,
    d1: RegistryBuiltWheelV,
    f2: WheelFilenameV,
    hashes2: Seq<Seq<char>>,
    d2: RegistryBuiltWheelV,
    table: Seq<TagTripleV>,
    strategy: Seq<HashStrategyEntryV>,
    opts: BuildOptionsV,
)
    requires
        !spec_no_binary(opts, f1.name),
        spec_tag_priority(table, f1.tags) is Some,
        spec_tag_priority(table, f2.tags) is None,
    ensures
        ({
            let c1 = spec_wheel_compatibility(f1, hashes1, Some(table), strategy, opts);
            let c2 = spec_wheel_compatibility(f2, hashes2, Some(table), strategy, opts);
            &&& spec_insert_wheel(spec_insert_wheel(None, d1, c1), d2, c2) == Some(
                wheel_slot_of(d1, c1),
            )
            &&& spec_insert_wheel(spec_insert_wheel(None, d2, c2), d1, c1) == Some(
                wheel_slot_of(d1, c1),
            )
        }),
{
}

/// A record holds a winning wheel only if some compatible wheel was
/// merged: merging an incompatible verdict never produces a winner.
pub proof fn lemma_excluded_never_wins(
    cur: Option<BestWheelV>,
    d: RegistryBuiltWheelV,
    c: WheelCompatibilityV,
)
    requires
        c is Incompatible,
        !(cur matches Some(BestWheelV::Winner(..))),
    ensures
        !(spec_insert_wheel(cur, d, c) matches Some(BestWheelV::Winner(..))),
{
}

/// The source analogue: merging an incompatible source verdict never
/// produces a winner.
pub proof fn lemma_excluded_source_never_wins(
    cur: Option<BestSourceV>,
    d: RegistrySourceDistV,
    c: SourceDistCompatibility,
)
    requires
        c is Incompatible,
        !(cur matches Some(BestSourceV::Winner(..))),
    ensures
        !(spec_insert_source(cur, d, c) matches Some(BestSourceV::Winner(..))),
{
}

/// An exclusion reason is retained only while no compatible candidate of
/// that kind exists: once a slot holds a winner, merging any further
/// candidate leaves a winner in place (possibly a better one), never a
/// bare reason.
pub proof fn lemma_winner_persists(
    cur: Option<BestWheelV>,
    d: RegistryBuiltWheelV,
    c: WheelCompatibilityV,
)
    requires
        cur matches Some(BestWheelV::Winner(..)),
    ensures
        spec_insert_wheel(cur, d, c) matches Some(BestWheelV::Winner(..)),
{
}

/// The source analogue: a winning source distribution is never displaced
/// by a bare exclusion reason.
pub proof fn lemma_source_winner_persists(
    cur: Option<BestSourceV>,
    d: RegistrySourceDistV,
    c: SourceDistCompatibility,
)
    requires
        cur matches Some(BestSourceV::Winner(..)),
    ensures
        spec_insert_source(cur, d, c) matches Some(BestSourceV::Winner(..)),
{
}

} // verus!
