use vstd::prelude::*;

use crate::distribution::{digests_view, triples_view, BuildTag, BuildTagV, HashDigest, TagTriple,
    TagTripleV, Tags, SourceDistFilenameV, WheelFilenameV};
use crate::lexical::{lemma_lex_lt_trans, lemma_lex_trichotomy, lex_lt, str_lex_lt};
use crate::policy::{spec_no_binary, spec_no_build, spec_required_digests, BuildOptionsV,
    HashStrategyEntryV};

verus! {

/// Outcome of checking a file's known digests against the hash policy:
/// a matched digest outranks a missing one, which outranks a mismatch.
#[derive(Clone, Copy, Debug, PartialEq, Eq, Structural)]
pub enum HashComparison {
    Mismatched,
    Missing,
    Matched,
}

pub open spec fn hash_rank(h: HashComparison) -> int {
    match h {
        HashComparison::Mismatched => 0,
        HashComparison::Missing => 1,
        HashComparison::Matched => 2,
    }
}

/// Why a wheel was excluded.
#[derive(Clone, Copy, Debug, PartialEq, Eq, Structural)]
pub enum IncompatibleWheel {
    /// Binary installs are disabled for the package.
    NoBinary,
    /// No tag-table entry is satisfied by the wheel's triples.
    Tag,
}

/// Why a source distribution was excluded.
#[derive(Clone, Copy, Debug, PartialEq, Eq, Structural)]
pub enum IncompatibleSource {
    /// Source builds are disabled for the package.
    NoBuild,
}

/// Diagnostic rank among wheel exclusion reasons: a tag mismatch is closer
/// to compatible than a policy exclusion, since another wheel of the same
/// package could still satisfy the table.
pub open spec fn wheel_reason_rank(r: IncompatibleWheel) -> int {
    match r {
        IncompatibleWheel::NoBinary => 0,
        IncompatibleWheel::Tag => 1,
    }
}

/// Verdict of classifying one wheel.
#[derive(Debug)]
pub enum WheelCompatibility {
    /// Hash outcome, tag-table rank (`None` when no table was supplied),
    /// and the wheel's build tag.
    Compatible(HashComparison, Option<u64>, Option<BuildTag>),
    Incompatible(IncompatibleWheel),
}

/// Mathematical value of a [`WheelCompatibility`].
#[verifier::ext_equal]
pub ghost enum WheelCompatibilityV {
    Compatible(HashComparison, Option<u64>, Option<BuildTagV>),
    Incompatible(IncompatibleWheel),
}

impl View for WheelCompatibility {
    type V = WheelCompatibilityV;

    open spec fn view(&self) -> WheelCompatibilityV {
        match self {
            WheelCompatibility::Compatible(h, p, t) => WheelCompatibilityV::Compatible(
                *h,
                *p,
                match t {
                    Some(bt) => Some(bt@),
                    None => None,
                },
            ),
            WheelCompatibility::Incompatible(r) => WheelCompatibilityV::Incompatible(*r),
        }
    }
}

/// Verdict of classifying one source distribution.
#[derive(Clone, Copy, Debug, PartialEq, Eq, Structural)]
pub enum SourceDistCompatibility {
    Compatible(HashComparison),
    Incompatible(IncompatibleSource),
}

/// Order on optional suffixes of a build tag: no suffix precedes any
/// suffix; suffixes compare lexicographically.
pub open spec fn suffix_lt(a: Option<Seq<char>>, b: Option<Seq<char>>) -> bool {
    match (a, b) {
        (None, Some(_)) => true,
        (Some(x), Some(y)) => lex_lt(x, y),
        _ => false,
    }
}

/// Order on build tags: numeric first, then the suffix lexicographically.
pub open spec fn build_tag_lt(a: BuildTagV, b: BuildTagV) -> bool {
    a.number < b.number || (a.number == b.number && suffix_lt(a.suffix, b.suffix))
}

/// Order on optional build tags: an absent tag loses to any present tag.
pub open spec fn opt_build_tag_lt(a: Option<BuildTagV>, b: Option<BuildTagV>) -> bool {
    match (a, b) {
        (None, Some(_)) => true,
        (Some(x), Some(y)) => build_tag_lt(x, y),
        _ => false,
    }
}

pub open spec fn opt_build_tag_eq(a: Option<BuildTagV>, b: Option<BuildTagV>) -> bool {
    match (a, b) {
        (None, None) => true,
        (Some(x), Some(y)) => x.number == y.number && x.suffix == y.suffix,
        _ => false,
    }
}

/// Order on tag-table ranks: a ranked wheel outranks an unranked one, and
/// a larger rank is a more-preferred table entry.
pub open spec fn prio_gt(a: Option<u64>, b: Option<u64>) -> bool {
    match (a, b) {
        (Some(_), None) => true,
        (Some(x), Some(y)) => x > y,
        _ => false,
    }
}

/// The ranking rule among wheel verdicts: a compatible verdict always
/// outranks an incompatible one; among compatible verdicts the primary key
/// is the hash outcome, then the tag rank, then the build tag; among
/// incompatible verdicts, the diagnostic reason rank.
pub open spec fn wheel_more_compatible(a: WheelCompatibilityV, b: WheelCompatibilityV) -> bool {
    match (a, b) {
        (WheelCompatibilityV::Compatible(h1, p1, t1), WheelCompatibilityV::Compatible(h2, p2, t2)) => {
            hash_rank(h1) > hash_rank(h2) || (h1 == h2 && prio_gt(p1, p2)) || (h1 == h2 && p1 == p2
                && opt_build_tag_lt(t2, t1))
        },
        (WheelCompatibilityV::Compatible(..), WheelCompatibilityV::Incompatible(_)) => true,
        (WheelCompatibilityV::Incompatible(_), WheelCompatibilityV::Compatible(..)) => false,
        (WheelCompatibilityV::Incompatible(r1), WheelCompatibilityV::Incompatible(r2)) => {
            wheel_reason_rank(r1) > wheel_reason_rank(r2)
        },
    }
}

/// Two wheel verdicts of equal rank: neither outranks the other.
pub open spec fn wheel_rank_tied(a: WheelCompatibilityV, b: WheelCompatibilityV) -> bool {
    !wheel_more_compatible(a, b) && !wheel_more_compatible(b, a)
}

/// The ranking rule among source verdicts: compatible outranks
/// incompatible; among compatible verdicts, the hash outcome decides.
pub open spec fn source_more_compatible(
    a: SourceDistCompatibility,
    b: SourceDistCompatibility,
) -> bool {
    match (a, b) {
        (SourceDistCompatibility::Compatible(h1), SourceDistCompatibility::Compatible(h2)) => {
            hash_rank(h1) > hash_rank(h2)
        },
        (SourceDistCompatibility::Compatible(_), SourceDistCompatibility::Incompatible(_)) => true,
        _ => false,
    }
}

/// The wheel ranking is asymmetric and transitive, and two verdicts it
/// ties agree on every ranking key.
pub proof fn lemma_wheel_ranking_strict_order(
    a: WheelCompatibilityV,
    b: WheelCompatibilityV,
    c: WheelCompatibilityV,
)
    ensures
        wheel_more_compatible(a, b) ==> !wheel_more_compatible(b, a),
        wheel_more_compatible(a, b) && wheel_more_compatible(b, c) ==> wheel_more_compatible(a, c),
        wheel_rank_tied(a, b) ==> match (a, b) {
            (
                WheelCompatibilityV::Compatible(h1, p1, t1),
                WheelCompatibilityV::Compatible(h2, p2, t2),
            ) => h1 == h2 && p1 == p2 && opt_build_tag_eq(t1, t2),
            (
                WheelCompatibilityV::Incompatible(r1),
                WheelCompatibilityV::Incompatible(r2),
            ) => r1 == r2,
            _ => false,
        },
{
    if let (WheelCompatibilityV::Compatible(_, _, t1), WheelCompatibilityV::Compatible(_, _, t2))
        = (a, b) {
        if let (Some(x), Some(y)) = (t1, t2) {
            lemma_lex_suffix_facts(x.suffix, y.suffix);
        }
    }
    if let (WheelCompatibilityV::Compatible(_, _, t1), WheelCompatibilityV::Compatible(_, _, t2))
        = (b, c) {
        if let (Some(x), Some(y)) = (t1, t2) {
            lemma_lex_suffix_facts(x.suffix, y.suffix);
        }
    }
    if let (WheelCompatibilityV::Compatible(_, _, t1), WheelCompatibilityV::Compatible(_, _, t2))
        = (a, c) {
        if let (Some(x), Some(y)) = (t1, t2) {
            lemma_lex_suffix_facts(x.suffix, y.suffix);
        }
    }
    if wheel_more_compatible(a, b) && wheel_more_compatible(b, c) {
        lemma_suffix_lt_trans_all(a, b, c);
    }
}

proof fn lemma_lex_suffix_facts(x: Option<Seq<char>>, y: Option<Seq<char>>)
    ensures
        suffix_lt(x, y) ==> !suffix_lt(y, x),
        !suffix_lt(x, y) && !suffix_lt(y, x) ==> (match (x, y) {
            (None, None) => true,
            (Some(s), Some(t)) => s == t,
            _ => false,
        }),
{
    if let (Some(s), Some(t)) = (x, y) {
        lemma_lex_trichotomy(s, t);
    }
}

proof fn lemma_suffix_lt_trans_all(
    a: WheelCompatibilityV,
    b: WheelCompatibilityV,
    c: WheelCompatibilityV,
)
    requires
        wheel_more_compatible(a, b),
        wheel_more_compatible(b, c),
    ensures
        wheel_more_compatible(a, c),
{
    if let (
        WheelCompatibilityV::Compatible(h1, p1, t1),
        WheelCompatibilityV::Compatible(h2, p2, t2),
        WheelCompatibilityV::Compatible(h3, p3, t3),
    ) = (a, b, c) {
        if h1 == h2 && h2 == h3 && p1 == p2 && p2 == p3 {
            if let (Some(x), Some(y), Some(z)) = (t3, t2, t1) {
                if x.suffix is Some && y.suffix is Some && z.suffix is Some
                    && suffix_lt(x.suffix, y.suffix) && suffix_lt(y.suffix, z.suffix) {
                    lemma_lex_lt_trans(x.suffix->Some_0, y.suffix->Some_0, z.suffix->Some_0);
                }
            }
        }
    }
}

/// The source ranking is asymmetric and transitive, and two verdicts it
/// ties agree on every ranking key or are both incompatible.
pub proof fn lemma_source_ranking_strict_order(
    a: SourceDistCompatibility,
    b: SourceDistCompatibility,
    c: SourceDistCompatibility,
)
    ensures
        source_more_compatible(a, b) ==> !source_more_compatible(b, a),
        source_more_compatible(a, b) && source_more_compatible(b, c) ==> source_more_compatible(
            a,
            c,
        ),
        !source_more_compatible(a, b) && !source_more_compatible(b, a) ==> a == b,
{
}

/// The hash outcome of a file: trivially matched when no verification is
/// required; otherwise decided by the file's known digests against the
/// required set.
/// Whether some required digest is among the file's known digests.
pub open spec fn digest_overlap(req: Seq<Seq<char>>, hashes: Seq<Seq<char>>) -> bool {
    exists|i: int| 0 <= i < req.len() && hashes.contains(req[i])
}

pub open spec fn spec_hash_outcome(
    required: Option<Seq<Seq<char>>>,
    hashes: Seq<Seq<char>>,
) -> HashComparison {
    match required {
        None => HashComparison::Matched,
        Some(req) => if hashes.len() == 0 {
            HashComparison::Missing
        } else if digest_overlap(req, hashes) {
            HashComparison::Matched
        } else {
            HashComparison::Mismatched
        },
    }
}

/// Computes the hash outcome for a file's known digests.
#[verifier::loop_isolation(false)]
pub fn hash_outcome(required: Option<&Vec<HashDigest>>, hashes: &Vec<HashDigest>) -> (r:
    HashComparison)
    ensures
        r == spec_hash_outcome(
            match required {
                Some(req) => Some(digests_view(req@)),
                None => None,
            },
            digests_view(hashes@),
        ),
{
    let req = match required {
        Some(req) => req,
        None => {
            return HashComparison::Matched;
        },
    };
    let ghost reqv = digests_view(req@);
    let ghost hv = digests_view(hashes@);
    if hashes.len() == 0 {
        return HashComparison::Missing;
    }
    let n = req.len();
    let mut i: usize = 0;
    while i < n
        invariant
            0 <= i <= n,
            n == req.len(),
            reqv == digests_view(req@),
            hv == digests_view(hashes@),
            forall|j: int| 0 <= j < i ==> !hv.contains(reqv[j]),
        decreases n - i,
    {
        let m = hashes.len();
        let mut k: usize = 0;
        while k < m
            invariant
                0 <= k <= m,
                0 <= i < n,
                n == req.len(),
                m == hashes.len(),
                reqv == digests_view(req@),
                hv == digests_view(hashes@),
                forall|j: int| 0 <= j < k ==> hv[j] != reqv[i as int],
            decreases m - k,
        {
            if req[i].value == hashes[k].value {
                assert(hv[k as int] == reqv[i as int]);
                assert(hv.contains(reqv[i as int]));
                assert(hv.len() > 0);
                assert(digest_overlap(reqv, hv)) by {
                    assert(0 <= (i as int) < reqv.len() && hv.contains(reqv[i as int]));
                }
                assert(spec_hash_outcome(Some(reqv), hv) == HashComparison::Matched);
                return HashComparison::Matched;
            }
            k = k + 1;
        }
        assert(!hv.contains(reqv[i as int]));
        i = i + 1;
    }
    proof {
        assert(!digest_overlap(reqv, hv));
    }
    HashComparison::Mismatched
}

/// First table position (scanning from `i`, most-preferred first) whose
/// triple is satisfied by one of the wheel's triples.
pub open spec fn tag_match_from(table: Seq<TagTripleV>, wheel_tags: Seq<TagTripleV>, i: int) -> Option<
    int,
>
    decreases table.len() - i,
{
    if i < 0 || i >= table.len() {
        None
    } else if wheel_tags.contains(table[i]) {
        Some(i)
    } else {
        tag_match_from(table, wheel_tags, i + 1)
    }
}

/// The tag rank of a wheel against a table: the most-preferred satisfied
/// entry, counted so that a larger rank is a more-preferred entry; `None`
/// when no entry is satisfied.
pub open spec fn spec_tag_priority(table: Seq<TagTripleV>, wheel_tags: Seq<TagTripleV>) -> Option<
    u64,
> {
    match tag_match_from(table, wheel_tags, 0) {
        Some(i) => Some((table.len() - i) as u64),
        None => None,
    }
}

/// Finds the rank of the most-preferred table entry that the wheel's
/// triples satisfy.
pub fn tag_priority(tags: &Tags, wheel_tags: &Vec<TagTriple>) -> (r: Option<u64>)
    ensures
        r == spec_tag_priority(tags@, triples_view(wheel_tags@)),
{
    let ghost tablev = tags@;
    let ghost wv = triples_view(wheel_tags@);
    let n = tags.preferred.len();
    let mut i: usize = 0;
    while i < n
        invariant
            0 <= i <= n,
            n == tags.preferred.len(),
            tablev == tags@,
            wv == triples_view(wheel_tags@),
            tag_match_from(tablev, wv, 0) == tag_match_from(tablev, wv, i as int),
        decreases n - i,
    {
        let m = wheel_tags.len();
        let mut k: usize = 0;
        while k < m
            invariant
                0 <= k <= m,
                0 <= i < n,
                n == tags.preferred.len(),
                m == wheel_tags.len(),
                tablev == tags@,
                wv == triples_view(wheel_tags@),
                tag_match_from(tablev, wv, 0) == tag_match_from(tablev, wv, i as int),
                forall|j: int| 0 <= j < k ==> wv[j] != tablev[i as int],
            decreases m - k,
        {
            if wheel_tags[k].matches(&tags.preferred[i]) {
                assert(wv[k as int] == tablev[i as int]);
                assert(wv.contains(tablev[i as int]));
                assert(tag_match_from(tablev, wv, i as int) == Some(i as int));
                assert(spec_tag_priority(tablev, wv) == Some(((tablev.len() - i) as u64)));
                assert(tablev.len() == n);
                return Some((n - i) as u64);
            }
            k = k + 1;
        }
        assert(!wv.contains(tablev[i as int]));
        assert(tag_match_from(tablev, wv, i as int) == tag_match_from(tablev, wv, i + 1));
        i = i + 1;
    }
    None
}

/// The compatibility classifier for wheels, per the build-mode, tag and
/// hash policy. Classification is total: every wheel yields a verdict.
pub open spec fn spec_wheel_compatibility(
    f: WheelFilenameV,
    hashes: Seq<Seq<char>>,
    tags: Option<Seq<TagTripleV>>,
    strategy: Seq<HashStrategyEntryV>,
    opts: BuildOptionsV,
) -> WheelCompatibilityV {
    if spec_no_binary(opts, f.name) {
        WheelCompatibilityV::Incompatible(IncompatibleWheel::NoBinary)
    } else {
        match tags {
            Some(table) => match spec_tag_priority(table, f.tags) {
                None => WheelCompatibilityV::Incompatible(IncompatibleWheel::Tag),
                Some(p) => WheelCompatibilityV::Compatible(
                    spec_hash_outcome(spec_required_digests(strategy, f.name, f.version), hashes),
                    Some(p),
                    f.build_tag,
                ),
            },
            None => WheelCompatibilityV::Compatible(
                spec_hash_outcome(spec_required_digests(strategy, f.name, f.version), hashes),
                None,
                f.build_tag,
            ),
        }
    }
}

/// The compatibility classifier for source distributions: no tag
/// filtering, since source artifacts are platform-agnostic before build.
pub open spec fn spec_source_dist_compatibility(
    f: SourceDistFilenameV,
    hashes: Seq<Seq<char>>,
    strategy: Seq<HashStrategyEntryV>,
    opts: BuildOptionsV,
) -> SourceDistCompatibility {
    if spec_no_build(opts, f.name) {
        SourceDistCompatibility::Incompatible(IncompatibleSource::NoBuild)
    } else {
        SourceDistCompatibility::Compatible(
            spec_hash_outcome(spec_required_digests(strategy, f.name, f.version), hashes),
        )
    }
}

/// Decides whether verdict `a` strictly outranks verdict `b`.
pub fn wheel_is_more_compatible(a: &WheelCompatibility, b: &WheelCompatibility) -> (r: bool)
    ensures
        r == wheel_more_compatible(a@, b@),
{
    match (a, b) {
        (WheelCompatibility::Compatible(h1, p1, t1), WheelCompatibility::Compatible(h2, p2, t2)) => {
            let r1 = hash_rank_exec(*h1);
            let r2 = hash_rank_exec(*h2);
            if r1 > r2 {
                true
            } else if r1 != r2 {
                false
            } else {
                if prio_gt_exec(p1, p2) {
                    true
                } else if prio_eq_exec(p1, p2) {
                    opt_build_tag_lt_exec(t2, t1)
                } else {
                    false
                }
            }
        },
        (WheelCompatibility::Compatible(..), WheelCompatibility::Incompatible(_)) => true,
        (WheelCompatibility::Incompatible(_), WheelCompatibility::Compatible(..)) => false,
        (WheelCompatibility::Incompatible(r1), WheelCompatibility::Incompatible(r2)) => {
            matches!(r1, IncompatibleWheel::Tag) && matches!(r2, IncompatibleWheel::NoBinary)
        },
    }
}

fn hash_rank_exec(h: HashComparison) -> (r: u8)
    ensures
        r as int == hash_rank(h),
{
    match h {
        HashComparison::Mismatched => 0,
        HashComparison::Missing => 1,
        HashComparison::Matched => 2,
    }
}

fn prio_gt_exec(a: &Option<u64>, b: &Option<u64>) -> (r: bool)
    ensures
        r == prio_gt(*a, *b),
{
    match (a, b) {
        (Some(_), None) => true,
        (Some(x), Some(y)) => *x > *y,
        _ => false,
    }
}

fn prio_eq_exec(a: &Option<u64>, b: &Option<u64>) -> (r: bool)
    ensures
        r == (*a == *b),
{
    match (a, b) {
        (None, None) => true,
        (Some(x), Some(y)) => *x == *y,
        _ => false,
    }
}

fn opt_build_tag_lt_exec(a: &Option<BuildTag>, b: &Option<BuildTag>) -> (r: bool)
    ensures
        r == opt_build_tag_lt(
            match a {
                Some(t) => Some(t@),
                None => None,
            },
            match b {
                Some(t) => Some(t@),
                None => None,
            },
        ),
{
    match (a, b) {
        (None, Some(_)) => true,
        (Some(x), Some(y)) => {
            if x.number < y.number {
                true
            } else if x.number > y.number {
                false
            } else {
                match (&x.suffix, &y.suffix) {
                    (None, Some(_)) => true,
                    (Some(s), Some(t)) => str_lex_lt(s.as_str(), t.as_str()),
                    _ => false,
                }
            }
        },
        _ => false,
    }
}

/// Decides whether source verdict `a` strictly outranks verdict `b`.
pub fn source_is_more_compatible(a: &SourceDistCompatibility, b: &SourceDistCompatibility) -> (r:
    bool)
    ensures
        r == source_more_compatible(*a, *b),
{
    match (a, b) {
        (SourceDistCompatibility::Compatible(h1), SourceDistCompatibility::Compatible(h2)) => {
            hash_rank_exec(*h1) > hash_rank_exec(*h2)
        },
        (SourceDistCompatibility::Compatible(_), SourceDistCompatibility::Incompatible(_)) => true,
        _ => false,
    }
}

} // verus!
