use vstd::prelude::*;

verus! {

/// Kind of a pre-release marker: alphas precede betas, which precede
/// release candidates.
#[derive(Clone, Copy, Debug, PartialEq, Eq, Structural)]
pub enum PreKind {
    Alpha,
    Beta,
    Rc,
}

/// The part of a version that follows the numeric release segments.
/// Within one base release, a dev release precedes every pre-release,
/// which precedes the final release, which precedes every post-release.
#[derive(Clone, Copy, Debug, PartialEq, Eq, Structural)]
pub enum VersionTail {
    Dev(u64),
    Pre(PreKind, u64),
    Final,
    Post(u64),
}

/// A package version: numeric release segments plus a tail marker.
/// Trailing zero segments do not change the ordering ("1.0" and "1.0.0"
/// compare as equal).
#[derive(Debug)]
pub struct Version {
    pub release: Vec<u64>,
    pub tail: VersionTail,
}

/// Mathematical value of a [`Version`].
#[verifier::ext_equal]
pub ghost struct VersionV {
    pub release: Seq<u64>,
    pub tail: VersionTail,
}

impl View for Version {
    type V = VersionV;

    open spec fn view(&self) -> VersionV {
        VersionV { release: self.release@, tail: self.tail }
    }
}

/// Release segment at position `i`, with absent segments reading as zero.
pub open spec fn seg_at(r: Seq<u64>, i: int) -> u64 {
    if 0 <= i < r.len() {
        r[i]
    } else {
        0
    }
}

pub open spec fn seg_bound(a: Seq<u64>, b: Seq<u64>) -> int {
    if a.len() > b.len() {
        a.len() as int
    } else {
        b.len() as int
    }
}

/// Zero-padded component-wise comparison of release segments, read from
/// position `i` onward.
pub open spec fn rel_lt_from(a: Seq<u64>, b: Seq<u64>, i: int) -> bool
    decreases seg_bound(a, b) - i,
{
    if i >= a.len() && i >= b.len() {
        false
    } else if seg_at(a, i) < seg_at(b, i) {
        true
    } else if seg_at(a, i) == seg_at(b, i) {
        rel_lt_from(a, b, i + 1)
    } else {
        false
    }
}

pub open spec fn rel_eq_from(a: Seq<u64>, b: Seq<u64>, i: int) -> bool
    decreases seg_bound(a, b) - i,
{
    if i >= a.len() && i >= b.len() {
        true
    } else {
        seg_at(a, i) == seg_at(b, i) && rel_eq_from(a, b, i + 1)
    }
}

pub open spec fn rel_lt(a: Seq<u64>, b: Seq<u64>) -> bool {
    rel_lt_from(a, b, 0)
}

pub open spec fn rel_eq(a: Seq<u64>, b: Seq<u64>) -> bool {
    rel_eq_from(a, b, 0)
}

pub open spec fn pre_rank(k: PreKind) -> int {
    match k {
        PreKind::Alpha => 0,
        PreKind::Beta => 1,
        PreKind::Rc => 2,
    }
}

pub open spec fn tail_rank(t: VersionTail) -> int {
    match t {
        VersionTail::Dev(_) => 0,
        VersionTail::Pre(_, _) => 1,
        VersionTail::Final => 2,
        VersionTail::Post(_) => 3,
    }
}

pub open spec fn tail_lt(a: VersionTail, b: VersionTail) -> bool {
    if tail_rank(a) != tail_rank(b) {
        tail_rank(a) < tail_rank(b)
    } else {
        match (a, b) {
            (VersionTail::Dev(m), VersionTail::Dev(n)) => m < n,
            (VersionTail::Pre(j, m), VersionTail::Pre(k, n)) => pre_rank(j) < pre_rank(k) || (j
                == k && m < n),
            (VersionTail::Post(m), VersionTail::Post(n)) => m < n,
            _ => false,
        }
    }
}

/// Strict total order on versions: release segments compare component-wise
/// with zero padding; equal releases are ordered by their tails.
pub open spec fn version_lt(a: VersionV, b: VersionV) -> bool {
    rel_lt(a.release, b.release) || (rel_eq(a.release, b.release) && tail_lt(a.tail, b.tail))
}

/// Version equality: equal padded release segments and equal tails.
pub open spec fn version_eq(a: VersionV, b: VersionV) -> bool {
    rel_eq(a.release, b.release) && a.tail == b.tail
}

proof fn lemma_rel_from_trichotomy(a: Seq<u64>, b: Seq<u64>, i: int)
    ensures
        rel_lt_from(a, b, i) || rel_lt_from(b, a, i) || rel_eq_from(a, b, i),
        rel_lt_from(a, b, i) ==> !rel_lt_from(b, a, i) && !rel_eq_from(a, b, i),
        rel_eq_from(a, b, i) ==> !rel_lt_from(a, b, i) && !rel_lt_from(b, a, i),
        rel_eq_from(a, b, i) == rel_eq_from(b, a, i),
    decreases seg_bound(a, b) - i,
{
    if i >= a.len() && i >= b.len() {
    } else {
        lemma_rel_from_trichotomy(a, b, i + 1);
    }
}

/// Exactly one of `rel_lt(a, b)`, `rel_lt(b, a)` and `rel_eq(a, b)` holds.
pub proof fn lemma_rel_trichotomy(a: Seq<u64>, b: Seq<u64>)
    ensures
        rel_lt(a, b) || rel_lt(b, a) || rel_eq(a, b),
        rel_lt(a, b) ==> !rel_lt(b, a) && !rel_eq(a, b),
        rel_eq(a, b) ==> !rel_lt(a, b) && !rel_lt(b, a),
        rel_eq(a, b) == rel_eq(b, a),
{
    lemma_rel_from_trichotomy(a, b, 0);
}

proof fn lemma_rel_from_trans(a: Seq<u64>, b: Seq<u64>, c: Seq<u64>, i: int)
    requires
        rel_lt_from(a, b, i),
        rel_lt_from(b, c, i),
    ensures
        rel_lt_from(a, c, i),
    decreases seg_bound(a, b) + seg_bound(b, c) - 2 * i,
{
    if seg_at(a, i) == seg_at(b, i) && seg_at(b, i) == seg_at(c, i) {
        lemma_rel_from_trans(a, b, c, i + 1);
    }
}

pub proof fn lemma_rel_lt_trans(a: Seq<u64>, b: Seq<u64>, c: Seq<u64>)
    requires
        rel_lt(a, b),
        rel_lt(b, c),
    ensures
        rel_lt(a, c),
{
    lemma_rel_from_trans(a, b, c, 0);
}

proof fn lemma_rel_from_eq_subst(a: Seq<u64>, b: Seq<u64>, c: Seq<u64>, i: int)
    requires
        rel_eq_from(a, b, i),
    ensures
        rel_lt_from(a, c, i) == rel_lt_from(b, c, i),
        rel_lt_from(c, a, i) == rel_lt_from(c, b, i),
        rel_eq_from(a, c, i) == rel_eq_from(b, c, i),
    decreases seg_bound(a, b) + seg_bound(b, c) + seg_bound(a, c) - 2 * i,
{
    if i >= a.len() && i >= b.len() && i >= c.len() {
    } else {
        lemma_rel_from_eq_subst(a, b, c, i + 1);
    }
}

/// Versions that compare as equal are interchangeable on either side of the
/// order and of equality.
pub proof fn lemma_rel_eq_subst(a: Seq<u64>, b: Seq<u64>, c: Seq<u64>)
    requires
        rel_eq(a, b),
    ensures
        rel_lt(a, c) == rel_lt(b, c),
        rel_lt(c, a) == rel_lt(c, b),
        rel_eq(a, c) == rel_eq(b, c),
{
    lemma_rel_from_eq_subst(a, b, c, 0);
}

proof fn lemma_rel_eq_refl_from(a: Seq<u64>, i: int)
    ensures
        rel_eq_from(a, a, i),
    decreases seg_bound(a, a) - i,
{
    if i < a.len() {
        lemma_rel_eq_refl_from(a, i + 1);
    }
}

/// Every version compares equal to itself.
pub proof fn lemma_version_eq_refl(a: VersionV)
    ensures
        version_eq(a, a),
{
    lemma_rel_eq_refl_from(a.release, 0);
}

/// Version equality is interchangeable on either side of the order and
/// of equality.
pub proof fn lemma_version_eq_subst(a: VersionV, b: VersionV, c: VersionV)
    requires
        version_eq(a, b),
    ensures
        version_lt(a, c) == version_lt(b, c),
        version_lt(c, a) == version_lt(c, b),
        version_eq(a, c) == version_eq(b, c),
{
    lemma_rel_eq_subst(a.release, b.release, c.release);
    lemma_rel_from_trichotomy(a.release, b.release, 0);
    lemma_rel_from_trichotomy(a.release, c.release, 0);
    lemma_rel_from_trichotomy(b.release, c.release, 0);
}

/// Version equality is symmetric.
pub proof fn lemma_version_eq_sym(a: VersionV, b: VersionV)
    ensures
        version_eq(a, b) == version_eq(b, a),
{
    lemma_rel_trichotomy(a.release, b.release);
}

/// The version order is a strict total order: trichotomy over
/// [`version_lt`] and [`version_eq`].
pub proof fn lemma_version_trichotomy(a: VersionV, b: VersionV)
    ensures
        version_lt(a, b) || version_lt(b, a) || version_eq(a, b),
        version_lt(a, b) ==> !version_lt(b, a) && !version_eq(a, b),
        version_eq(a, b) ==> !version_lt(a, b) && !version_lt(b, a),
{
    lemma_rel_trichotomy(a.release, b.release);
}

/// The version order is transitive.
pub proof fn lemma_version_lt_trans(a: VersionV, b: VersionV, c: VersionV)
    requires
        version_lt(a, b),
        version_lt(b, c),
    ensures
        version_lt(a, c),
{
    lemma_rel_trichotomy(a.release, b.release);
    lemma_rel_trichotomy(b.release, c.release);
    if rel_lt(a.release, b.release) && rel_lt(b.release, c.release) {
        lemma_rel_lt_trans(a.release, b.release, c.release);
    } else if rel_eq(a.release, b.release) {
        lemma_rel_eq_subst(a.release, b.release, c.release);
    } else {
        lemma_rel_eq_subst(b.release, c.release, a.release);
    }
}

impl Version {
    /// A final release with the given segments, e.g. `1.0.0`.
    pub fn released(release: Vec<u64>) -> (v: Version)
        ensures
            v@ == (VersionV { release: release@, tail: VersionTail::Final }),
    {
        Version { release, tail: VersionTail::Final }
    }

    /// A version with an explicit tail marker.
    pub fn with_tail(release: Vec<u64>, tail: VersionTail) -> (v: Version)
        ensures
            v@ == (VersionV { release: release@, tail: tail }),
    {
        Version { release, tail }
    }

    /// Whether `self` precedes `other` in the version total order.
    pub fn before(&self, other: &Version) -> (r: bool)
        ensures
            r == version_lt(self@, other@),
    {
        let m = if self.release.len() > other.release.len() {
            self.release.len()
        } else {
            other.release.len()
        };
        let mut i: usize = 0;
        while i < m
            invariant
                0 <= i <= m,
                m == seg_bound(self.release@, other.release@),
                rel_lt_from(self.release@, other.release@, 0) == rel_lt_from(
                    self.release@,
                    other.release@,
                    i as int,
                ),
                rel_eq_from(self.release@, other.release@, 0) == rel_eq_from(
                    self.release@,
                    other.release@,
                    i as int,
                ),
            decreases m - i,
        {
            let x = if i < self.release.len() {
                self.release[i]
            } else {
                0
            };
            let y = if i < other.release.len() {
                other.release[i]
            } else {
                0
            };
            if x < y {
                return true;
            }
            if x > y {
                proof {
                    lemma_rel_from_trichotomy(self.release@, other.release@, i as int);
                }
                return false;
            }
            i = i + 1;
        }
        // The padded segments are equal throughout: compare the tails.
        self.tail_before(other)
    }

    fn tail_before(&self, other: &Version) -> (r: bool)
        ensures
            r == tail_lt(self.tail, other.tail),
    {
        let ra = self.tail_rank_exec();
        let rb = other.tail_rank_exec();
        if ra != rb {
            return ra < rb;
        }
        match (self.tail, other.tail) {
            (VersionTail::Dev(m), VersionTail::Dev(n)) => m < n,
            (VersionTail::Pre(j, m), VersionTail::Pre(k, n)) => {
                let pj = Self::pre_rank_exec(j);
                let pk = Self::pre_rank_exec(k);
                pj < pk || (pj == pk && m < n)
            },
            (VersionTail::Post(m), VersionTail::Post(n)) => m < n,
            _ => false,
        }
    }

    fn tail_rank_exec(&self) -> (r: u8)
        ensures
            r as int == tail_rank(self.tail),
    {
        match self.tail {
            VersionTail::Dev(_) => 0,
            VersionTail::Pre(_, _) => 1,
            VersionTail::Final => 2,
            VersionTail::Post(_) => 3,
        }
    }

    fn pre_rank_exec(k: PreKind) -> (r: u8)
        ensures
            r as int == pre_rank(k),
    {
        match k {
            PreKind::Alpha => 0,
            PreKind::Beta => 1,
            PreKind::Rc => 2,
        }
    }

    /// Whether `self` and `other` denote the same version.
    pub fn same(&self, other: &Version) -> (r: bool)
        ensures
            r == version_eq(self@, other@),
    {
        if self.tail != other.tail {
            return false;
        }
        let m = if self.release.len() > other.release.len() {
            self.release.len()
        } else {
            other.release.len()
        };
        let mut i: usize = 0;
        while i < m
            invariant
                0 <= i <= m,
                m == seg_bound(self.release@, other.release@),
                rel_eq_from(self.release@, other.release@, 0) == rel_eq_from(
                    self.release@,
                    other.release@,
                    i as int,
                ),
            decreases m - i,
        {
            let x = if i < self.release.len() {
                self.release[i]
            } else {
                0
            };
            let y = if i < other.release.len() {
                other.release[i]
            } else {
                0
            };
            if x != y {
                return false;
            }
            i = i + 1;
        }
        true
    }
}

impl Clone for Version {
    /// Cloning preserves the mathematical value.
    fn clone(&self) -> (res: Version)
        ensures
            res@ == self@,
    {
        Version { release: self.release.clone(), tail: self.tail }
    }
}

} // verus!
