use vstd::prelude::*;

use crate::compat::{hash_outcome, spec_source_dist_compatibility, spec_wheel_compatibility,
    tag_priority, IncompatibleSource, IncompatibleWheel, SourceDistCompatibility,
    WheelCompatibility};
use crate::distribution::{digests_view, DistFilename, DistFilenameV, File, FileV, HashDigest,
    IndexUrl, RegistryBuiltWheel, RegistryBuiltWheelV, RegistrySourceDist, RegistrySourceDistV,
    SourceDistFilename, Tags, TagTripleV, WheelFilename};
use crate::names::PackageName;
use crate::policy::{spec_no_binary, spec_no_build, BuildOptions, BuildOptionsV, HashStrategy,
    HashStrategyEntryV};
use crate::prioritized::{lemma_excluded_never_wins, lemma_excluded_source_never_wins,
    spec_insert_source, spec_insert_wheel, BestSourceV, BestWheelV, PrioritizedDist,
    PrioritizedDistV};
use crate::version::{lemma_version_eq_refl, lemma_version_eq_subst, lemma_version_eq_sym,
    lemma_version_lt_trans, lemma_version_trichotomy, version_eq, version_lt, Version, VersionV};

verus! {

/// One discovered candidate: the file, its parsed filename, and the index
/// it came from.
#[derive(Debug)]
pub struct FlatIndexEntry {
    pub file: File,
    pub filename: DistFilename,
    pub index: IndexUrl,
}

/// Mathematical value of a [`FlatIndexEntry`].
#[verifier::ext_equal]
pub ghost struct FlatIndexEntryV {
    pub file: FileV,
    pub filename: DistFilenameV,
    pub index: Seq<char>,
}

impl View for FlatIndexEntry {
    type V = FlatIndexEntryV;

    open spec fn view(&self) -> FlatIndexEntryV {
        FlatIndexEntryV { file: self.file@, filename: self.filename@, index: self.index@ }
    }
}

/// The mathematical values of a batch of entries.
pub open spec fn entry_views(s: Seq<FlatIndexEntry>) -> Seq<FlatIndexEntryV> {
    s.map_values(|e: FlatIndexEntry| e@)
}

/// A finite batch of discovered entries, with one flag that records
/// whether any contributing source was unreachable.
#[derive(Debug)]
pub struct FlatIndexEntries {
    pub entries: Vec<FlatIndexEntry>,
    pub offline: bool,
}

impl FlatIndexEntries {
    pub fn new(entries: Vec<FlatIndexEntry>, offline: bool) -> (r: FlatIndexEntries)
        ensures
            r.entries == entries,
            r.offline == offline,
    {
        FlatIndexEntries { entries, offline }
    }

    /// Combines batches from several sources: entries are concatenated in
    /// order, and the unreachable flag is the boolean OR, as an explicit
    /// fold, over the contributing sources.
    #[verifier::loop_isolation(false)]
    pub fn aggregate(batches: Vec<FlatIndexEntries>) -> (r: FlatIndexEntries)
        ensures
            r.offline == exists|i: int| 0 <= i < batches@.len() && batches@[i].offline,
            entry_views(r.entries@) == aggregate_entries(batches@, 0),
    {
        let ghost batchesv = batches@;
        let mut out: Vec<FlatIndexEntry> = Vec::new();
        let mut offline = false;
        let mut batches = batches;
        let ghost total = batchesv.len() as int;
        let ghost mut k: int = 0;
        while batches.len() > 0
            invariant
                batchesv.len() == total,
                k == total - batches.len(),
                0 <= k <= total,
                batches@ =~= batchesv.skip(k),
                offline == exists|i: int| 0 <= i < k && batchesv[i].offline,
                entry_views(out@) + aggregate_entries(batchesv, k) == aggregate_entries(
                    batchesv,
                    0,
                ),
            decreases batches.len(),
        {
            let mut batch = batches.remove(0);
            let ghost outv0 = entry_views(out@);
            let ghost bv = entry_views(batch.entries@);
            if batch.offline {
                offline = true;
            }
            let ghost mut j: int = 0;
            let ghost bn = batch.entries@.len() as int;
            while batch.entries.len() > 0
                invariant
                    j == bn - batch.entries.len(),
                    0 <= j <= bn,
                    entry_views(batch.entries@) =~= bv.skip(j),
                    entry_views(out@) =~= outv0 + bv.take(j),
                decreases batch.entries.len(),
            {
                let ghost pre = batch.entries@;
                let ghost outpre = out@;
                let e = batch.entries.remove(0);
                proof {
                    assert(pre[0]@ == entry_views(pre)[0]);
                    assert(entry_views(pre) =~= bv.skip(j));
                    assert(e@ == bv[j]);
                    lemma_entry_views_step(pre, batch.entries@, bv, j);
                }
                out.push(e);
                proof {
                    j = j + 1;
                    assert(entry_views(out@) =~= entry_views(outpre).push(e@));
                    assert(bv.take(j) =~= bv.take(j - 1).push(bv[j - 1]));
                    assert(entry_views(out@) =~= outv0 + bv.take(j));
                }
            }
            proof {
                assert(entry_views(out@) =~= outv0 + bv);
                assert(aggregate_entries(batchesv, k) == bv + aggregate_entries(
                    batchesv,
                    k + 1,
                ));
                assert(entry_views(out@) + aggregate_entries(batchesv, k + 1)
                    =~= aggregate_entries(batchesv, 0));
            }
            proof {
                k = k + 1;
                if offline {
                    assert(exists|i: int| 0 <= i < k && batchesv[i].offline);
                }
            }
        }
        proof {
            assert(aggregate_entries(batchesv, total) =~= Seq::<FlatIndexEntryV>::empty());
            assert(entry_views(out@) =~= aggregate_entries(batchesv, 0));
        }
        FlatIndexEntries { entries: out, offline }
    }
}

proof fn lemma_entry_views_step(
    pre: Seq<FlatIndexEntry>,
    post: Seq<FlatIndexEntry>,
    bv: Seq<FlatIndexEntryV>,
    j: int,
)
    requires
        pre.len() >= 1,
        post =~= pre.subrange(1, pre.len() as int),
        entry_views(pre) =~= bv.skip(j),
        0 <= j,
        j + pre.len() == bv.len(),
    ensures
        entry_views(post) =~= bv.skip(j + 1),
{
    assert forall|idx: int| 0 <= idx < post.len() implies entry_views(post)[idx] == bv.skip(
        j + 1,
    )[idx] by {
        assert(entry_views(post)[idx] == post[idx]@);
        assert(post[idx] == pre[idx + 1]);
        assert(entry_views(pre)[idx + 1] == pre[idx + 1]@);
        assert(bv.skip(j)[idx + 1] == bv[j + idx + 1]);
        assert(bv.skip(j + 1)[idx] == bv[j + 1 + idx]);
    }
}

/// The concatenation, in order, of the entries of the batches from
/// position `i` onward.
pub open spec fn aggregate_entries(batches: Seq<FlatIndexEntries>, i: int) -> Seq<FlatIndexEntryV>
    decreases batches.len() - i,
{
    if i < 0 || i >= batches.len() {
        Seq::empty()
    } else {
        entry_views(batches[i].entries@) + aggregate_entries(batches, i + 1)
    }
}

/// The records of a per-package index, version-ordered.
pub type RecordSeq = Seq<(VersionV, PrioritizedDistV)>;

/// Strictly ascending by version: keys are unique and iteration is
/// version-ordered.
pub open spec fn records_sorted(s: RecordSeq) -> bool {
    forall|i: int, j: int| 0 <= i < j < s.len() ==> version_lt(#[trigger] s[i].0, #[trigger] s[j].0)
}

/// First position holding this version, scanning from `i`.
pub open spec fn find_version_from(s: RecordSeq, v: VersionV, i: int) -> Option<int>
    decreases s.len() - i,
{
    if i < 0 || i >= s.len() {
        None
    } else if version_eq(s[i].0, v) {
        Some(i)
    } else {
        find_version_from(s, v, i + 1)
    }
}

pub open spec fn find_version(s: RecordSeq, v: VersionV) -> Option<int> {
    find_version_from(s, v, 0)
}

/// First position whose version follows `v`, scanning from `i`: where a
/// new version's record is inserted to keep the order.
pub open spec fn insert_pos_from(s: RecordSeq, v: VersionV, i: int) -> int
    decreases s.len() - i,
{
    if i < 0 || i >= s.len() {
        s.len() as int
    } else if version_lt(v, s[i].0) {
        i
    } else {
        insert_pos_from(s, v, i + 1)
    }
}

pub open spec fn insert_pos(s: RecordSeq, v: VersionV) -> int {
    insert_pos_from(s, v, 0)
}

/// The wheel candidate an entry contributes.
pub open spec fn built_wheel_of(e: FlatIndexEntryV) -> RegistryBuiltWheelV
    recommends
        e.filename is WheelFilename,
{
    RegistryBuiltWheelV {
        filename: e.filename->WheelFilename_0,
        file: e.file,
        index: e.index,
    }
}

/// The source candidate an entry contributes.
pub open spec fn source_dist_of(e: FlatIndexEntryV) -> RegistrySourceDistV
    recommends
        e.filename is SourceDistFilename,
{
    RegistrySourceDistV {
        name: e.filename->SourceDistFilename_0.name,
        version: e.filename->SourceDistFilename_0.version,
        ext: e.filename->SourceDistFilename_0.extension,
        file: e.file,
        index: e.index,
    }
}

/// Merging one classified entry into a version's record: the entry's kind
/// decides which slot is merged; the other slot is untouched.
pub open spec fn spec_record_merge(
    r: PrioritizedDistV,
    e: FlatIndexEntryV,
    tags: Option<Seq<TagTripleV>>,
    strategy: Seq<HashStrategyEntryV>,
    opts: BuildOptionsV,
) -> PrioritizedDistV {
    match e.filename {
        DistFilenameV::WheelFilename(f) => PrioritizedDistV {
            wheel: spec_insert_wheel(
                r.wheel,
                built_wheel_of(e),
                spec_wheel_compatibility(f, e.file.hashes, tags, strategy, opts),
            ),
            source: r.source,
        },
        DistFilenameV::SourceDistFilename(f) => PrioritizedDistV {
            wheel: r.wheel,
            source: spec_insert_source(
                r.source,
                source_dist_of(e),
                spec_source_dist_compatibility(f, e.file.hashes, strategy, opts),
            ),
        },
    }
}

pub open spec fn empty_record() -> PrioritizedDistV {
    PrioritizedDistV { wheel: None, source: None }
}

/// Adding one entry to a per-package index: locate or create the
/// version's record, then merge.
pub open spec fn spec_add_file(
    s: RecordSeq,
    e: FlatIndexEntryV,
    tags: Option<Seq<TagTripleV>>,
    strategy: Seq<HashStrategyEntryV>,
    opts: BuildOptionsV,
) -> RecordSeq {
    let v = e.filename.version();
    match find_version(s, v) {
        Some(i) => s.update(i, (s[i].0, spec_record_merge(s[i].1, e, tags, strategy, opts))),
        None => s.insert(
            insert_pos(s, v),
            (v, spec_record_merge(empty_record(), e, tags, strategy, opts)),
        ),
    }
}

/// Folding a batch of entries, in arrival order, from position `i`.
pub open spec fn spec_fold_entries(
    s: RecordSeq,
    entries: Seq<FlatIndexEntryV>,
    i: int,
    tags: Option<Seq<TagTripleV>>,
    strategy: Seq<HashStrategyEntryV>,
    opts: BuildOptionsV,
) -> RecordSeq
    decreases entries.len() - i,
{
    if i < 0 || i >= entries.len() {
        s
    } else {
        spec_fold_entries(
            spec_add_file(s, entries[i], tags, strategy, opts),
            entries,
            i + 1,
            tags,
            strategy,
            opts,
        )
    }
}

proof fn lemma_find_version_none(s: RecordSeq, v: VersionV, i: int)
    requires
        0 <= i,
        find_version_from(s, v, i) is None,
    ensures
        forall|j: int| i <= j < s.len() ==> !version_eq(#[trigger] s[j].0, v),
    decreases s.len() - i,
{
    if i < s.len() {
        assert(!version_eq(s[i].0, v));
        lemma_find_version_none(s, v, i + 1);
    }
}

proof fn lemma_insert_pos_props(s: RecordSeq, v: VersionV, i: int)
    requires
        0 <= i <= s.len(),
    ensures
        i <= insert_pos_from(s, v, i) <= s.len(),
        forall|j: int| i <= j < insert_pos_from(s, v, i) ==> !version_lt(
            v,
            #[trigger] s[j].0,
        ),
        insert_pos_from(s, v, i) < s.len() ==> version_lt(
            v,
            s[insert_pos_from(s, v, i)].0,
        ),
    decreases s.len() - i,
{
    if i < s.len() && !version_lt(v, s[i].0) {
        lemma_insert_pos_props(s, v, i + 1);
    }
}

/// Inserting a fresh version at its insertion point keeps the records
/// strictly sorted.
proof fn lemma_insert_keeps_sorted(s: RecordSeq, v: VersionV, r: PrioritizedDistV)
    requires
        records_sorted(s),
        find_version(s, v) is None,
    ensures
        records_sorted(s.insert(insert_pos(s, v), (v, r))),
{
    let p = insert_pos(s, v);
    lemma_insert_pos_props(s, v, 0);
    lemma_find_version_none(s, v, 0);
    let t = s.insert(p, (v, r));
    assert forall|a: int, b: int| 0 <= a < b < t.len() implies version_lt(t[a].0, t[b].0) by {
        if b < p {
            assert(t[a] == s[a] && t[b] == s[b]);
        } else if a < p && b == p {
            assert(t[a] == s[a] && t[b].0 == v);
            assert(!version_lt(v, s[a].0));
            assert(!version_eq(s[a].0, v));
            lemma_version_trichotomy(s[a].0, v);
        } else if a < p && b > p {
            assert(t[a] == s[a] && t[b] == s[b - 1]);
            if a == b - 1 {
                assert(!version_lt(v, s[a].0));
            }
        } else if a == p {
            assert(t[a].0 == v && t[b] == s[b - 1]);
            assert(version_lt(v, s[p].0));
            if b - 1 > p {
                lemma_version_lt_trans(v, s[p].0, s[b - 1].0);
            }
        } else {
            assert(t[a] == s[a - 1] && t[b] == s[b - 1]);
        }
    }
}

/// A per-package index: each known version's record, kept in ascending
/// version order. Iteration order is load-bearing for consumers that
/// prefer the newest compatible version.
#[derive(Debug)]
pub struct FlatDistributions(Vec<(Version, PrioritizedDist)>);

spec fn records_view(s: Seq<(Version, PrioritizedDist)>) -> RecordSeq {
    s.map_values(|p: (Version, PrioritizedDist)| (p.0@, p.1@))
}

impl View for FlatDistributions {
    type V = RecordSeq;

    closed spec fn view(&self) -> RecordSeq {
        records_view(self.0@)
    }
}

impl FlatDistributions {
    /// Whether the records are strictly version-sorted; every construction
    /// path establishes it, and every mutation preserves it.
    pub open spec fn wf(&self) -> bool {
        records_sorted(self@)
    }

    /// An empty per-package index.
    pub fn new() -> (r: FlatDistributions)
        ensures
            r@ =~= Seq::<(VersionV, PrioritizedDistV)>::empty(),
            r.wf(),
    {
        let r = FlatDistributions(Vec::new());
        proof {
            assert(r@ =~= Seq::<(VersionV, PrioritizedDistV)>::empty());
        }
        r
    }

    /// Builds a per-package index from a batch of entries, in arrival
    /// order.
    #[verifier::loop_isolation(false)]
    pub fn from_entries(
        entries: Vec<FlatIndexEntry>,
        tags: Option<&Tags>,
        hasher: &HashStrategy,
        build_options: &BuildOptions,
    ) -> (r: FlatDistributions)
        ensures
            r@ == spec_fold_entries(
                Seq::empty(),
                entry_views(entries@),
                0,
                match tags {
                    Some(t) => Some(t@),
                    None => None,
                },
                hasher@,
                build_options@,
            ),
            r.wf(),
    {
        let ghost tagsv: Option<Seq<TagTripleV>> = match tags {
            Some(t) => Some(t@),
            None => None,
        };
        let ghost origv = entry_views(entries@);
        let ghost total = origv.len() as int;
        let mut entries = entries;
        let mut distributions = FlatDistributions::new();
        let ghost mut k: int = 0;
        proof {
            assert(spec_fold_entries(distributions@, origv, 0, tagsv, hasher@, build_options@)
                == spec_fold_entries(Seq::empty(), origv, 0, tagsv, hasher@, build_options@));
        }
        while entries.len() > 0
            invariant
                origv.len() == total,
                k == total - entries.len(),
                0 <= k <= total,
                entry_views(entries@) =~= origv.skip(k),
                distributions.wf(),
                spec_fold_entries(distributions@, origv, k, tagsv, hasher@, build_options@)
                    == spec_fold_entries(Seq::empty(), origv, 0, tagsv, hasher@, build_options@),
            decreases entries.len(),
        {
            let ghost pre = entries@;
            let ghost prev = distributions@;
            let entry = entries.remove(0);
            proof {
                assert(pre[0]@ == entry_views(pre)[0]);
                assert(entry_views(pre) =~= origv.skip(k));
                assert(entry@ == origv[k]);
                lemma_entry_views_step(pre, entries@, origv, k);
            }
            distributions.add_file(
                entry.file,
                entry.filename,
                tags,
                hasher,
                build_options,
                entry.index,
            );
            proof {
                assert(distributions@ == spec_add_file(prev, origv[k], tagsv, hasher@,
                build_options@));
                assert(spec_fold_entries(prev, origv, k, tagsv, hasher@, build_options@)
                    == spec_fold_entries(distributions@, origv, k + 1, tagsv, hasher@,
                build_options@));
                k = k + 1;
            }
        }
        proof {
            assert(spec_fold_entries(
                distributions@,
                origv,
                total,
                tagsv,
                hasher@,
                build_options@,
            ) == distributions@);
        }
        distributions
    }

    /// The records in ascending version order.
    pub fn iter(&self) -> (r: &Vec<(Version, PrioritizedDist)>)
        ensures
            r@.len() == self@.len(),
            forall|i: int| 0 <= i < r@.len() ==> (#[trigger] r@[i].0@, r@[i].1@) == self@[i],
    {
        proof {
            assert(forall|i: int| 0 <= i < self.0@.len() ==> (#[trigger] self.0@[i].0@,
            self.0@[i].1@) == self@[i]);
        }
        &self.0
    }

    /// Removes the record of the given version, returning it, when the
    /// version is known.
    #[verifier::loop_isolation(false)]
    pub fn remove(&mut self, version: &Version) -> (r: Option<PrioritizedDist>)
        requires
            old(self).wf(),
        ensures
            final(self).wf(),
            match find_version(old(self)@, version@) {
                Some(i) => r is Some && r->Some_0@ == old(self)@[i].1 && final(self)@ == old(
                    self,
                )@.remove(i),
                None => r is None && final(self)@ == old(self)@,
            },
    {
        let ghost sv = self@;
        let n = self.0.len();
        let mut i: usize = 0;
        while i < n
            invariant
                0 <= i <= n,
                n == self.0@.len(),
                self@ == sv,
                self.wf(),
                sv == records_view(self.0@),
                find_version(sv, version@) == find_version_from(sv, version@, i as int),
            decreases n - i,
        {
            if self.0[i].0.same(version) {
                let (_, rec) = self.0.remove(i);
                proof {
                    assert(self@ =~= sv.remove(i as int));
                    assert(records_sorted(self@));
                }
                return Some(rec);
            }
            i = i + 1;
        }
        None
    }

    /// The wheel classifier: build-mode first, then the tag table, then
    /// the hash policy. Classification is total.
    pub fn wheel_compatibility(
        filename: &WheelFilename,
        hashes: &Vec<HashDigest>,
        tags: Option<&Tags>,
        hasher: &HashStrategy,
        build_options: &BuildOptions,
    ) -> (r: WheelCompatibility)
        ensures
            r@ == spec_wheel_compatibility(
                filename@,
                digests_view(hashes@),
                match tags {
                    Some(t) => Some(t@),
                    None => None,
                },
                hasher@,
                build_options@,
            ),
    {
        if build_options.no_binary_package(&filename.name) {
            return WheelCompatibility::Incompatible(IncompatibleWheel::NoBinary);
        }
        let priority = match tags {
            Some(t) => match tag_priority(t, &filename.tags) {
                None => {
                    return WheelCompatibility::Incompatible(IncompatibleWheel::Tag);
                },
                Some(p) => Some(p),
            },
            None => None,
        };
        let required = hasher.get_package(&filename.name, &filename.version);
        let hash = hash_outcome(required, hashes);
        let build_tag = match &filename.build_tag {
            Some(t) => Some(t.clone()),
            None => None,
        };
        WheelCompatibility::Compatible(hash, priority, build_tag)
    }

    /// The source-distribution classifier: build-mode, then the hash
    /// policy; no tag filtering.
    pub fn source_dist_compatibility(
        filename: &SourceDistFilename,
        hashes: &Vec<HashDigest>,
        hasher: &HashStrategy,
        build_options: &BuildOptions,
    ) -> (r: SourceDistCompatibility)
        ensures
            r == spec_source_dist_compatibility(
                filename@,
                digests_view(hashes@),
                hasher@,
                build_options@,
            ),
    {
        if build_options.no_build_package(&filename.name) {
            return SourceDistCompatibility::Incompatible(IncompatibleSource::NoBuild);
        }
        let required = hasher.get_package(&filename.name, &filename.version);
        let hash = hash_outcome(required, hashes);
        SourceDistCompatibility::Compatible(hash)
    }

    /// Adds one discovered file: classify it, locate or create its
    /// version's record, and merge.
    #[verifier::loop_isolation(false)]
    pub fn add_file(
        &mut self,
        file: File,
        filename: DistFilename,
        tags: Option<&Tags>,
        hasher: &HashStrategy,
        build_options: &BuildOptions,
        index: IndexUrl,
    )
        requires
            old(self).wf(),
        ensures
            final(self).wf(),
            final(self)@ == spec_add_file(
                old(self)@,
                FlatIndexEntryV { file: file@, filename: filename@, index: index@ },
                match tags {
                    Some(t) => Some(t@),
                    None => None,
                },
                hasher@,
                build_options@,
            ),
    {
        let ghost e = FlatIndexEntryV { file: file@, filename: filename@, index: index@ };
        let ghost tagsv: Option<Seq<TagTripleV>> = match tags {
            Some(t) => Some(t@),
            None => None,
        };
        match filename {
            DistFilename::WheelFilename(filename) => {
                let version = filename.version.clone();
                let compatibility = Self::wheel_compatibility(
                    &filename,
                    &file.hashes,
                    tags,
                    hasher,
                    build_options,
                );
                let dist = RegistryBuiltWheel { filename, file, index };
                proof {
                    assert(dist@ == built_wheel_of(e));
                    assert(version@ == e.filename.version());
                }
                match self.position_of(&version) {
                    Some(i) => {
                        let ghost sv = self@;
                        let (ver, mut rec) = self.0.remove(i);
                        rec.insert_built(dist, compatibility);
                        self.0.insert(i, (ver, rec));
                        proof {
                            assert(self@ =~= sv.update(
                                i as int,
                                (sv[i as int].0, spec_record_merge(
                                    sv[i as int].1,
                                    e,
                                    tagsv,
                                    hasher@,
                                    build_options@,
                                )),
                            ));
                            lemma_update_keeps_sorted(sv, i as int, self@);
                        }
                    },
                    None => {
                        let rec = PrioritizedDist::from_built(dist, compatibility);
                        let ghost sv = self@;
                        let p = self.insertion_index(&version);
                        self.0.insert(p, (version, rec));
                        proof {
                            assert(self@ =~= sv.insert(
                                insert_pos(sv, e.filename.version()),
                                (e.filename.version(), spec_record_merge(
                                    empty_record(),
                                    e,
                                    tagsv,
                                    hasher@,
                                    build_options@,
                                )),
                            ));
                            lemma_insert_keeps_sorted(
                                sv,
                                e.filename.version(),
                                spec_record_merge(empty_record(), e, tagsv, hasher@,
                                build_options@),
                            );
                        }
                    },
                }
            },
            DistFilename::SourceDistFilename(filename) => {
                let version = filename.version.clone();
                let compatibility = Self::source_dist_compatibility(
                    &filename,
                    &file.hashes,
                    hasher,
                    build_options,
                );
                let dist = RegistrySourceDist {
                    name: filename.name,
                    version: filename.version,
                    ext: filename.extension,
                    file,
                    index,
                };
                proof {
                    assert(dist@ == source_dist_of(e));
                    assert(version@ == e.filename.version());
                }
                match self.position_of(&version) {
                    Some(i) => {
                        let ghost sv = self@;
                        let (ver, mut rec) = self.0.remove(i);
                        rec.insert_source(dist, compatibility);
                        self.0.insert(i, (ver, rec));
                        proof {
                            assert(self@ =~= sv.update(
                                i as int,
                                (sv[i as int].0, spec_record_merge(
                                    sv[i as int].1,
                                    e,
                                    tagsv,
                                    hasher@,
                                    build_options@,
                                )),
                            ));
                            lemma_update_keeps_sorted(sv, i as int, self@);
                        }
                    },
                    None => {
                        let rec = PrioritizedDist::from_source(dist, compatibility);
                        let ghost sv = self@;
                        let p = self.insertion_index(&version);
                        self.0.insert(p, (version, rec));
                        proof {
                            assert(self@ =~= sv.insert(
                                insert_pos(sv, e.filename.version()),
                                (e.filename.version(), spec_record_merge(
                                    empty_record(),
                                    e,
                                    tagsv,
                                    hasher@,
                                    build_options@,
                                )),
                            ));
                            lemma_insert_keeps_sorted(
                                sv,
                                e.filename.version(),
                                spec_record_merge(empty_record(), e, tagsv, hasher@,
                                build_options@),
                            );
                        }
                    },
                }
            },
        }
    }

    /// The position of this version's record, when the version is known.
    #[verifier::loop_isolation(false)]
    fn position_of(&self, version: &Version) -> (r: Option<usize>)
        ensures
            match r {
                Some(i) => find_version(self@, version@) == Some(i as int) && 0 <= (i as int)
                    < self@.len(),
                None => find_version(self@, version@) is None,
            },
    {
        let n = self.0.len();
        let mut i: usize = 0;
        while i < n
            invariant
                0 <= i <= n,
                n == self.0@.len(),
                find_version(self@, version@) == find_version_from(self@, version@, i as int),
            decreases n - i,
        {
            if self.0[i].0.same(version) {
                return Some(i);
            }
            i = i + 1;
        }
        None
    }

    /// The position where a fresh version's record is inserted.
    #[verifier::loop_isolation(false)]
    fn insertion_index(&self, version: &Version) -> (r: usize)
        ensures
            r as int == insert_pos(self@, version@),
            0 <= r as int <= self@.len(),
    {
        let n = self.0.len();
        let mut i: usize = 0;
        while i < n
            invariant
                0 <= i <= n,
                n == self.0@.len(),
                insert_pos(self@, version@) == insert_pos_from(self@, version@, i as int),
            decreases n - i,
        {
            if version.before(&self.0[i].0) {
                return i;
            }
            i = i + 1;
        }
        n
    }
}

proof fn lemma_update_keeps_sorted(s: RecordSeq, i: int, t: RecordSeq)
    requires
        records_sorted(s),
        0 <= i < s.len(),
        t.len() == s.len(),
        forall|j: int| 0 <= j < s.len() ==> #[trigger] t[j].0 == s[j].0,
    ensures
        records_sorted(t),
{
}

/// Every record of the fold of a batch whose wheel entries all belong to
/// "no binary" packages is without a winning wheel: exclusion precedence
/// for wheels.
pub open spec fn no_wheel_winner(s: RecordSeq) -> bool {
    forall|i: int| 0 <= i < s.len() ==> !(#[trigger] s[i].1.wheel matches Some(
        BestWheelV::Winner(..),
    ))
}

/// The source analogue: no record holds a winning source distribution.
pub open spec fn no_source_winner(s: RecordSeq) -> bool {
    forall|i: int| 0 <= i < s.len() ==> !(#[trigger] s[i].1.source matches Some(
        BestSourceV::Winner(..),
    ))
}

proof fn lemma_add_file_no_binary(
    s: RecordSeq,
    e: FlatIndexEntryV,
    tags: Option<Seq<TagTripleV>>,
    strategy: Seq<HashStrategyEntryV>,
    opts: BuildOptionsV,
)
    requires
        no_wheel_winner(s),
        e.filename is WheelFilename ==> spec_no_binary(opts, e.filename.name()),
    ensures
        no_wheel_winner(spec_add_file(s, e, tags, strategy, opts)),
{
    let t = spec_add_file(s, e, tags, strategy, opts);
    match e.filename {
        DistFilenameV::WheelFilename(f) => {
            let c = spec_wheel_compatibility(f, e.file.hashes, tags, strategy, opts);
            assert(c is Incompatible);
            match find_version(s, e.filename.version()) {
                Some(i) => {
                    lemma_find_version_some_bounds(s, e.filename.version(), 0);
                    lemma_excluded_never_wins(s[i].1.wheel, built_wheel_of(e), c);
                    assert forall|j: int| 0 <= j < t.len() implies !(#[trigger] t[j].1.wheel
                        matches Some(BestWheelV::Winner(..))) by {
                        if j != i {
                            assert(t[j] == s[j]);
                        }
                    }
                },
                None => {
                    lemma_excluded_never_wins(None, built_wheel_of(e), c);
                    let p = insert_pos(s, e.filename.version());
                    lemma_insert_pos_props(s, e.filename.version(), 0);
                    assert forall|j: int| 0 <= j < t.len() implies !(#[trigger] t[j].1.wheel
                        matches Some(BestWheelV::Winner(..))) by {
                        if j < p {
                            assert(t[j] == s[j]);
                        } else if j > p {
                            assert(t[j] == s[j - 1]);
                        }
                    }
                },
            }
        },
        DistFilenameV::SourceDistFilename(_) => {
            match find_version(s, e.filename.version()) {
                Some(i) => {
                    lemma_find_version_some_bounds(s, e.filename.version(), 0);
                    assert forall|j: int| 0 <= j < t.len() implies !(#[trigger] t[j].1.wheel
                        matches Some(BestWheelV::Winner(..))) by {
                        if j != i {
                            assert(t[j] == s[j]);
                        } else {
                            assert(t[j].1.wheel == s[i].1.wheel);
                        }
                    }
                },
                None => {
                    let p = insert_pos(s, e.filename.version());
                    lemma_insert_pos_props(s, e.filename.version(), 0);
                    assert forall|j: int| 0 <= j < t.len() implies !(#[trigger] t[j].1.wheel
                        matches Some(BestWheelV::Winner(..))) by {
                        if j < p {
                            assert(t[j] == s[j]);
                        } else if j > p {
                            assert(t[j] == s[j - 1]);
                        }
                    }
                },
            }
        },
    }
}

proof fn lemma_find_version_some_bounds(s: RecordSeq, v: VersionV, i: int)
    requires
        0 <= i,
        find_version_from(s, v, i) is Some,
    ensures
        i <= find_version_from(s, v, i)->Some_0 < s.len(),
    decreases s.len() - i,
{
    if i < s.len() && !version_eq(s[i].0, v) {
        lemma_find_version_some_bounds(s, v, i + 1);
    }
}

/// Exclusion precedence: a package with "no binary" set never yields a
/// winning wheel in the folded index, regardless of tag or hash merit.
pub proof fn lemma_no_binary_never_wins(
    s: RecordSeq,
    entries: Seq<FlatIndexEntryV>,
    i: int,
    tags: Option<Seq<TagTripleV>>,
    strategy: Seq<HashStrategyEntryV>,
    opts: BuildOptionsV,
)
    requires
        no_wheel_winner(s),
        forall|k: int| 0 <= k < entries.len() && (#[trigger] entries[k].filename)
            is WheelFilename ==> spec_no_binary(opts, entries[k].filename.name()),
    ensures
        no_wheel_winner(spec_fold_entries(s, entries, i, tags, strategy, opts)),
    decreases entries.len() - i,
{
    if 0 <= i < entries.len() {
        lemma_add_file_no_binary(s, entries[i], tags, strategy, opts);
        lemma_no_binary_never_wins(
            spec_add_file(s, entries[i], tags, strategy, opts),
            entries,
            i + 1,
            tags,
            strategy,
            opts,
        );
    }
}

proof fn lemma_add_file_no_build(
    s: RecordSeq,
    e: FlatIndexEntryV,
    tags: Option<Seq<TagTripleV>>,
    strategy: Seq<HashStrategyEntryV>,
    opts: BuildOptionsV,
)
    requires
        no_source_winner(s),
        e.filename is SourceDistFilename ==> spec_no_build(opts, e.filename.name()),
    ensures
        no_source_winner(spec_add_file(s, e, tags, strategy, opts)),
{
    let t = spec_add_file(s, e, tags, strategy, opts);
    let c = match e.filename {
        DistFilenameV::SourceDistFilename(f) => spec_source_dist_compatibility(
            f,
            e.file.hashes,
            strategy,
            opts,
        ),
        _ => SourceDistCompatibility::Incompatible(IncompatibleSource::NoBuild),
    };
    match find_version(s, e.filename.version()) {
        Some(i) => {
            lemma_find_version_some_bounds(s, e.filename.version(), 0);
            if e.filename is SourceDistFilename {
                lemma_excluded_source_never_wins(s[i].1.source, source_dist_of(e), c);
            }
            assert forall|j: int| 0 <= j < t.len() implies !(#[trigger] t[j].1.source matches Some(
                BestSourceV::Winner(..),
            )) by {
                if j != i {
                    assert(t[j] == s[j]);
                }
            }
        },
        None => {
            if e.filename is SourceDistFilename {
                lemma_excluded_source_never_wins(None, source_dist_of(e), c);
            }
            let p = insert_pos(s, e.filename.version());
            lemma_insert_pos_props(s, e.filename.version(), 0);
            assert forall|j: int| 0 <= j < t.len() implies !(#[trigger] t[j].1.source matches Some(
                BestSourceV::Winner(..),
            )) by {
                if j < p {
                    assert(t[j] == s[j]);
                } else if j > p {
                    assert(t[j] == s[j - 1]);
                }
            }
        },
    }
}

/// Exclusion precedence, source side: a package with "no build" set never
/// yields a winning source distribution in the folded index.
pub proof fn lemma_no_build_never_wins(
    s: RecordSeq,
    entries: Seq<FlatIndexEntryV>,
    i: int,
    tags: Option<Seq<TagTripleV>>,
    strategy: Seq<HashStrategyEntryV>,
    opts: BuildOptionsV,
)
    requires
        no_source_winner(s),
        forall|k: int| 0 <= k < entries.len() && (#[trigger] entries[k].filename)
            is SourceDistFilename ==> spec_no_build(opts, entries[k].filename.name()),
    ensures
        no_source_winner(spec_fold_entries(s, entries, i, tags, strategy, opts)),
    decreases entries.len() - i,
{
    if 0 <= i < entries.len() {
        lemma_add_file_no_build(s, entries[i], tags, strategy, opts);
        lemma_no_build_never_wins(
            spec_add_file(s, entries[i], tags, strategy, opts),
            entries,
            i + 1,
            tags,
            strategy,
            opts,
        );
    }
}

/// The packages of a top-level index: name and per-package records.
pub type PackageSeq = Seq<(Seq<char>, RecordSeq)>;

/// First position holding this package name, scanning from `i`.
pub open spec fn find_name_from(s: PackageSeq, n: Seq<char>, i: int) -> Option<int>
    decreases s.len() - i,
{
    if i < 0 || i >= s.len() {
        None
    } else if s[i].0 == n {
        Some(i)
    } else {
        find_name_from(s, n, i + 1)
    }
}

pub open spec fn find_name(s: PackageSeq, n: Seq<char>) -> Option<int> {
    find_name_from(s, n, 0)
}

/// Adding one entry to the top-level index: entries are grouped by the
/// package name parsed from the filename; no cross-entry normalization is
/// performed here.
pub open spec fn spec_index_add(
    s: PackageSeq,
    e: FlatIndexEntryV,
    tags: Option<Seq<TagTripleV>>,
    strategy: Seq<HashStrategyEntryV>,
    opts: BuildOptionsV,
) -> PackageSeq {
    match find_name(s, e.filename.name()) {
        Some(i) => s.update(i, (s[i].0, spec_add_file(s[i].1, e, tags, strategy, opts))),
        None => s.push(
            (e.filename.name(), spec_add_file(Seq::empty(), e, tags, strategy, opts)),
        ),
    }
}

/// Folding a batch of entries into the top-level index, in arrival order.
pub open spec fn spec_index_fold(
    s: PackageSeq,
    entries: Seq<FlatIndexEntryV>,
    i: int,
    tags: Option<Seq<TagTripleV>>,
    strategy: Seq<HashStrategyEntryV>,
    opts: BuildOptionsV,
) -> PackageSeq
    decreases entries.len() - i,
{
    if i < 0 || i >= entries.len() {
        s
    } else {
        spec_index_fold(
            spec_index_add(s, entries[i], tags, strategy, opts),
            entries,
            i + 1,
            tags,
            strategy,
            opts,
        )
    }
}

/// Mathematical value of a [`FlatIndex`].
#[verifier::ext_equal]
pub ghost struct FlatIndexV {
    pub packages: PackageSeq,
    pub offline: bool,
}

/// The top-level index: per-package record sets keyed by package name,
/// plus the aggregate "any source unreachable" signal. Built once from a
/// batch of entries, then read-only.
#[derive(Debug)]
pub struct FlatIndex {
    index: Vec<(PackageName, FlatDistributions)>,
    offline: bool,
}

spec fn packages_view(s: Seq<(PackageName, FlatDistributions)>) -> PackageSeq {
    s.map_values(|p: (PackageName, FlatDistributions)| (p.0@, p.1@))
}

impl View for FlatIndex {
    type V = FlatIndexV;

    closed spec fn view(&self) -> FlatIndexV {
        FlatIndexV { packages: packages_view(self.index@), offline: self.offline }
    }
}

impl FlatIndex {
    /// Package names are unique and each package's records are sorted.
    pub open spec fn wf(&self) -> bool {
        &&& forall|i: int, j: int|
            0 <= i < j < self@.packages.len() ==> (#[trigger] self@.packages[i].0)
                != (#[trigger] self@.packages[j].0)
        &&& forall|i: int|
            0 <= i < self@.packages.len() ==> records_sorted(#[trigger] self@.packages[i].1)
    }

    /// Collects a batch of discovered files into a top-level index,
    /// grouping by package name in arrival order and carrying over the
    /// batch's unreachable flag.
    #[verifier::loop_isolation(false)]
    pub fn from_entries(
        entries: FlatIndexEntries,
        tags: Option<&Tags>,
        hasher: &HashStrategy,
        build_options: &BuildOptions,
    ) -> (r: FlatIndex)
        ensures
            r@.packages == spec_index_fold(
                Seq::empty(),
                entry_views(entries.entries@),
                0,
                match tags {
                    Some(t) => Some(t@),
                    None => None,
                },
                hasher@,
                build_options@,
            ),
            r@.offline == entries.offline,
            r.wf(),
    {
        let ghost tagsv: Option<Seq<TagTripleV>> = match tags {
            Some(t) => Some(t@),
            None => None,
        };
        let offline = entries.offline;
        let mut entries = entries.entries;
        let ghost origv = entry_views(entries@);
        let ghost total = origv.len() as int;
        let mut index = FlatIndex { index: Vec::new(), offline };
        let ghost mut k: int = 0;
        proof {
            assert(index@.packages =~= Seq::<(Seq<char>, RecordSeq)>::empty());
        }
        while entries.len() > 0
            invariant
                origv.len() == total,
                k == total - entries.len(),
                0 <= k <= total,
                entry_views(entries@) =~= origv.skip(k),
                index.wf(),
                index.offline == offline,
                spec_index_fold(index@.packages, origv, k, tagsv, hasher@, build_options@)
                    == spec_index_fold(Seq::empty(), origv, 0, tagsv, hasher@, build_options@),
            decreases entries.len(),
        {
            let ghost pre = entries@;
            let ghost prev = index@.packages;
            let entry = entries.remove(0);
            proof {
                assert(pre[0]@ == entry_views(pre)[0]);
                assert(entry@ == origv[k]);
                lemma_entry_views_step(pre, entries@, origv, k);
            }
            index.add_entry(entry, tags, hasher, build_options);
            proof {
                assert(index@.packages == spec_index_add(prev, origv[k], tagsv, hasher@,
                build_options@));
                assert(spec_index_fold(prev, origv, k, tagsv, hasher@, build_options@)
                    == spec_index_fold(index@.packages, origv, k + 1, tagsv, hasher@,
                build_options@));
                k = k + 1;
            }
        }
        index
    }

    /// Adds one entry under the package name parsed from its filename.
    #[verifier::loop_isolation(false)]
    fn add_entry(
        &mut self,
        entry: FlatIndexEntry,
        tags: Option<&Tags>,
        hasher: &HashStrategy,
        build_options: &BuildOptions,
    )
        requires
            old(self).wf(),
        ensures
            final(self).wf(),
            final(self)@.packages == spec_index_add(
                old(self)@.packages,
                entry@,
                match tags {
                    Some(t) => Some(t@),
                    None => None,
                },
                hasher@,
                build_options@,
            ),
            final(self)@.offline == old(self)@.offline,
    {
        let ghost sv = self@.packages;
        let ghost e = entry@;
        let ghost tagsv: Option<Seq<TagTripleV>> = match tags {
            Some(t) => Some(t@),
            None => None,
        };
        let FlatIndexEntry { file, filename, index } = entry;
        let name = filename.name().clone();
        let n = self.index.len();
        let mut i: usize = 0;
        while i < n
            invariant
                0 <= i <= n,
                n == self.index@.len(),
                self@.packages == sv,
                self@.offline == old(self)@.offline,
                find_name(sv, e.filename.name()) == find_name_from(sv, e.filename.name(), i as int),
            decreases n - i,
        {
            if self.index[i].0 == name {
                let (nm, mut d) = self.index.remove(i);
                d.add_file(file, filename, tags, hasher, build_options, index);
                self.index.insert(i, (nm, d));
                proof {
                    assert(self@.packages =~= sv.update(
                        i as int,
                        (sv[i as int].0, spec_add_file(sv[i as int].1, e, tagsv, hasher@,
                        build_options@)),
                    ));
                    let t = self@.packages;
                    assert(forall|j: int| 0 <= j < t.len() ==> (#[trigger] t[j].0) == sv[j].0);
                    assert(records_sorted(d@));
                    assert forall|j: int| 0 <= j < t.len() implies records_sorted(
                        #[trigger] t[j].1,
                    ) by {
                        if j != i as int {
                            assert(t[j].1 == sv[j].1);
                        } else {
                            assert(t[j].1 == d@);
                        }
                    }
                }
                return ;
            }
            i = i + 1;
        }
        let mut d = FlatDistributions::new();
        d.add_file(file, filename, tags, hasher, build_options, index);
        self.index.push((name, d));
        proof {
            assert(self@.packages =~= sv.push(
                (e.filename.name(), spec_add_file(Seq::empty(), e, tagsv, hasher@,
                build_options@)),
            ));
            lemma_find_name_none(sv, e.filename.name(), 0);
            let t = self@.packages;
            assert forall|a: int, b: int| 0 <= a < b < t.len() implies (#[trigger] t[a].0)
                != (#[trigger] t[b].0) by {
                if b == t.len() - 1 {
                    assert(t[a].0 == sv[a].0);
                    assert(t[b].0 == e.filename.name());
                } else {
                    assert(t[a].0 == sv[a].0 && t[b].0 == sv[b].0);
                }
            }
            assert forall|j: int| 0 <= j < t.len() implies records_sorted(#[trigger] t[j].1) by {
                if j == t.len() - 1 {
                    assert(t[j].1 == d@);
                } else {
                    assert(t[j].1 == sv[j].1);
                }
            }
        }
    }

    /// The per-package record set for the given name, when it was ever
    /// observed.
    #[verifier::loop_isolation(false)]
    pub fn get(&self, package_name: &PackageName) -> (r: Option<&FlatDistributions>)
        ensures
            match find_name(self@.packages, package_name@) {
                Some(i) => r is Some && r->Some_0@ == self@.packages[i].1,
                None => r is None,
            },
    {
        let n = self.index.len();
        let mut i: usize = 0;
        while i < n
            invariant
                0 <= i <= n,
                n == self.index@.len(),
                find_name(self@.packages, package_name@) == find_name_from(
                    self@.packages,
                    package_name@,
                    i as int,
                ),
            decreases n - i,
        {
            if self.index[i].0 == *package_name {
                return Some(&self.index[i].1);
            }
            i = i + 1;
        }
        None
    }

    /// Whether any contributing source could not be reached.
    pub fn offline(&self) -> (r: bool)
        ensures
            r == self@.offline,
    {
        self.offline
    }
}

proof fn lemma_find_name_none(s: PackageSeq, n: Seq<char>, i: int)
    requires
        0 <= i,
        find_name_from(s, n, i) is None,
    ensures
        forall|j: int| i <= j < s.len() ==> (#[trigger] s[j].0) != n,
    decreases s.len() - i,
{
    if i < s.len() {
        lemma_find_name_none(s, n, i + 1);
    }
}

/// Whether two entries cannot tie as distinct candidates of the same
/// kind under the given policies: the proviso under which merge order is
/// immaterial.
pub open spec fn merge_tie_free(
    e1: FlatIndexEntryV,
    e2: FlatIndexEntryV,
    tags: Option<Seq<TagTripleV>>,
    strategy: Seq<HashStrategyEntryV>,
    opts: BuildOptionsV,
) -> bool {
    match (e1.filename, e2.filename) {
        (DistFilenameV::WheelFilename(f1), DistFilenameV::WheelFilename(f2)) => {
            let c1 = spec_wheel_compatibility(f1, e1.file.hashes, tags, strategy, opts);
            let c2 = spec_wheel_compatibility(f2, e2.file.hashes, tags, strategy, opts);
            crate::compat::wheel_rank_tied(c1, c2) && c1 is Compatible ==> built_wheel_of(e1)
                == built_wheel_of(e2)
        },
        (DistFilenameV::SourceDistFilename(f1), DistFilenameV::SourceDistFilename(f2)) => {
            let c1 = spec_source_dist_compatibility(f1, e1.file.hashes, strategy, opts);
            let c2 = spec_source_dist_compatibility(f2, e2.file.hashes, strategy, opts);
            !crate::compat::source_more_compatible(c1, c2) && !crate::compat::source_more_compatible(
                c2,
                c1,
            ) && c1 is Compatible ==> source_dist_of(e1) == source_dist_of(e2)
        },
        _ => true,
    }
}

/// Merging two classified candidates into a version's record in either
/// order yields the same record, provided two distinct candidates of the
/// same kind do not tie on every ranking key (ties keep the first-seen
/// candidate, the one order-sensitive case). With the per-kind ranking a
/// strict order, any permutation of a tie-free batch yields the same
/// best-of-kind outcome.
pub proof fn lemma_record_merge_commutes(
    r: PrioritizedDistV,
    e1: FlatIndexEntryV,
    e2: FlatIndexEntryV,
    tags: Option<Seq<TagTripleV>>,
    strategy: Seq<HashStrategyEntryV>,
    opts: BuildOptionsV,
)
    requires
        merge_tie_free(e1, e2, tags, strategy, opts),
    ensures
        spec_record_merge(spec_record_merge(r, e1, tags, strategy, opts), e2, tags, strategy, opts)
            == spec_record_merge(
            spec_record_merge(r, e2, tags, strategy, opts),
            e1,
            tags,
            strategy,
            opts,
        ),
{
    match (e1.filename, e2.filename) {
        (DistFilenameV::WheelFilename(f1), DistFilenameV::WheelFilename(f2)) => {
            crate::prioritized::lemma_insert_wheel_commutes(
                r.wheel,
                built_wheel_of(e1),
                spec_wheel_compatibility(f1, e1.file.hashes, tags, strategy, opts),
                built_wheel_of(e2),
                spec_wheel_compatibility(f2, e2.file.hashes, tags, strategy, opts),
            );
        },
        (DistFilenameV::SourceDistFilename(f1), DistFilenameV::SourceDistFilename(f2)) => {
            crate::prioritized::lemma_insert_source_commutes(
                r.source,
                source_dist_of(e1),
                spec_source_dist_compatibility(f1, e1.file.hashes, strategy, opts),
                source_dist_of(e2),
                spec_source_dist_compatibility(f2, e2.file.hashes, strategy, opts),
            );
        },
        _ => {},
    }
}

/// Folding a batch of classified candidates into one version's record,
/// in batch order.
pub open spec fn fold_record_merge(
    r: PrioritizedDistV,
    es: Seq<FlatIndexEntryV>,
    tags: Option<Seq<TagTripleV>>,
    strategy: Seq<HashStrategyEntryV>,
    opts: BuildOptionsV,
) -> PrioritizedDistV
    decreases es.len(),
{
    if es.len() == 0 {
        r
    } else {
        fold_record_merge(
            spec_record_merge(r, es[0], tags, strategy, opts),
            es.drop_first(),
            tags,
            strategy,
            opts,
        )
    }
}

/// No two candidates of the batch tie as distinct candidates of the same
/// kind.
pub open spec fn pairwise_tie_free(
    es: Seq<FlatIndexEntryV>,
    tags: Option<Seq<TagTripleV>>,
    strategy: Seq<HashStrategyEntryV>,
    opts: BuildOptionsV,
) -> bool {
    forall|i: int, j: int|
        0 <= i < es.len() && 0 <= j < es.len() ==> merge_tie_free(
            #[trigger] es[i],
            #[trigger] es[j],
            tags,
            strategy,
            opts,
        )
}

proof fn lemma_fold_bring_front(
    r: PrioritizedDistV,
    es: Seq<FlatIndexEntryV>,
    m: int,
    tags: Option<Seq<TagTripleV>>,
    strategy: Seq<HashStrategyEntryV>,
    opts: BuildOptionsV,
)
    requires
        0 <= m < es.len(),
        pairwise_tie_free(es, tags, strategy, opts),
    ensures
        fold_record_merge(r, es, tags, strategy, opts) == fold_record_merge(
            spec_record_merge(r, es[m], tags, strategy, opts),
            es.remove(m),
            tags,
            strategy,
            opts,
        ),
    decreases m,
{
    if m == 0 {
        assert(es.remove(0) =~= es.drop_first());
    } else {
        let dr = es.drop_first();
        assert(pairwise_tie_free(dr, tags, strategy, opts)) by {
            assert forall|i: int, j: int|
                0 <= i < dr.len() && 0 <= j < dr.len() implies merge_tie_free(
                #[trigger] dr[i],
                #[trigger] dr[j],
                tags,
                strategy,
                opts,
            ) by {
                assert(dr[i] == es[i + 1] && dr[j] == es[j + 1]);
            }
        }
        assert(dr[m - 1] == es[m]);
        lemma_fold_bring_front(
            spec_record_merge(r, es[0], tags, strategy, opts),
            dr,
            m - 1,
            tags,
            strategy,
            opts,
        );
        lemma_record_merge_commutes(r, es[0], es[m], tags, strategy, opts);
        assert(es.remove(m)[0] == es[0]);
        assert(es.remove(m).drop_first() =~= dr.remove(m - 1));
    }
}

/// Inserting a set of candidates into a version's record in any
/// permutation yields an identical final record, provided no two distinct
/// candidates of the same kind tie on every ranking key (ties keep the
/// first-seen candidate, the one order-sensitive case).
pub proof fn lemma_fold_record_merge_permutation(
    r: PrioritizedDistV,
    es1: Seq<FlatIndexEntryV>,
    es2: Seq<FlatIndexEntryV>,
    tags: Option<Seq<TagTripleV>>,
    strategy: Seq<HashStrategyEntryV>,
    opts: BuildOptionsV,
)
    requires
        es1.to_multiset() == es2.to_multiset(),
        pairwise_tie_free(es1, tags, strategy, opts),
    ensures
        fold_record_merge(r, es1, tags, strategy, opts) == fold_record_merge(
            r,
            es2,
            tags,
            strategy,
            opts,
        ),
    decreases es1.len(),
{
    es1.to_multiset_ensures();
    es2.to_multiset_ensures();
    if es1.len() == 0 {
        assert(es2.len() == 0);
    } else {
        let x = es1[0];
        assert(es1.contains(x));
        assert(es2.to_multiset().count(x) > 0);
        assert(es2.contains(x));
        let m = choose|m: int| 0 <= m < es2.len() && es2[m] == x;
        assert(pairwise_tie_free(es2, tags, strategy, opts)) by {
            assert forall|i: int, j: int|
                0 <= i < es2.len() && 0 <= j < es2.len() implies merge_tie_free(
                #[trigger] es2[i],
                #[trigger] es2[j],
                tags,
                strategy,
                opts,
            ) by {
                assert(es2.contains(es2[i]) && es2.contains(es2[j]));
                assert(es2.to_multiset().count(es2[i]) > 0);
                assert(es2.to_multiset().count(es2[j]) > 0);
                assert(es1.contains(es2[i]) && es1.contains(es2[j]));
                let a = choose|a: int| 0 <= a < es1.len() && es1[a] == es2[i];
                let b = choose|b: int| 0 <= b < es1.len() && es1[b] == es2[j];
                assert(merge_tie_free(es1[a], es1[b], tags, strategy, opts));
            }
        }
        lemma_fold_bring_front(r, es2, m, tags, strategy, opts);
        let r1 = spec_record_merge(r, x, tags, strategy, opts);
        assert(fold_record_merge(r, es1, tags, strategy, opts) == fold_record_merge(
            r1,
            es1.drop_first(),
            tags,
            strategy,
            opts,
        ));
        assert(es1.drop_first() =~= es1.remove(0));
        assert(es1.remove(0).to_multiset() =~= es1.to_multiset().remove(x));
        assert(es2.remove(m).to_multiset() =~= es2.to_multiset().remove(x));
        assert(pairwise_tie_free(es1.drop_first(), tags, strategy, opts)) by {
            let dr = es1.drop_first();
            assert forall|i: int, j: int|
                0 <= i < dr.len() && 0 <= j < dr.len() implies merge_tie_free(
                #[trigger] dr[i],
                #[trigger] dr[j],
                tags,
                strategy,
                opts,
            ) by {
                assert(dr[i] == es1[i + 1] && dr[j] == es1[j + 1]);
            }
        }
        lemma_fold_record_merge_permutation(
            r1,
            es1.drop_first(),
            es2.remove(m),
            tags,
            strategy,
            opts,
        );
    }
}

proof fn lemma_find_from_is(s: RecordSeq, v: VersionV, i: int, r: int)
    requires
        0 <= i <= r < s.len(),
        forall|j: int| i <= j < r ==> !version_eq(#[trigger] s[j].0, v),
        version_eq(s[r].0, v),
    ensures
        find_version_from(s, v, i) == Some(r),
    decreases r - i,
{
    if i < r {
        lemma_find_from_is(s, v, i + 1, r);
    }
}

proof fn lemma_find_from_none_det(s: RecordSeq, v: VersionV, i: int)
    requires
        0 <= i,
        forall|j: int| i <= j < s.len() ==> !version_eq(#[trigger] s[j].0, v),
    ensures
        find_version_from(s, v, i) is None,
    decreases s.len() - i,
{
    if i < s.len() {
        lemma_find_from_none_det(s, v, i + 1);
    }
}

proof fn lemma_find_from_props(s: RecordSeq, v: VersionV, i: int)
    requires
        0 <= i,
        find_version_from(s, v, i) is Some,
    ensures
        ({
            let r = find_version_from(s, v, i)->Some_0;
            &&& i <= r < s.len()
            &&& version_eq(s[r].0, v)
            &&& forall|j: int| i <= j < r ==> !version_eq(#[trigger] s[j].0, v)
        }),
    decreases s.len() - i,
{
    if i < s.len() && !version_eq(s[i].0, v) {
        lemma_find_from_props(s, v, i + 1);
    }
}

proof fn lemma_insert_pos_det(s: RecordSeq, v: VersionV, i: int, r: int)
    requires
        0 <= i <= r <= s.len(),
        forall|j: int| i <= j < r ==> !version_lt(v, #[trigger] s[j].0),
        r < s.len() ==> version_lt(v, s[r].0),
    ensures
        insert_pos_from(s, v, i) == r,
    decreases r - i,
{
    if i < r {
        lemma_insert_pos_det(s, v, i + 1, r);
    }
}

/// Adding one entry keeps the records strictly sorted.
pub proof fn lemma_add_file_preserves_sorted(
    s: RecordSeq,
    e: FlatIndexEntryV,
    tags: Option<Seq<TagTripleV>>,
    strategy: Seq<HashStrategyEntryV>,
    opts: BuildOptionsV,
)
    requires
        records_sorted(s),
    ensures
        records_sorted(spec_add_file(s, e, tags, strategy, opts)),
{
    let v = e.filename.version();
    let t = spec_add_file(s, e, tags, strategy, opts);
    match find_version(s, v) {
        Some(i) => {
            lemma_find_from_props(s, v, 0);
            assert(t.len() == s.len());
            assert(forall|j: int| 0 <= j < s.len() ==> #[trigger] t[j].0 == s[j].0);
            lemma_update_keeps_sorted(s, i, t);
        },
        None => {
            lemma_insert_keeps_sorted(
                s,
                v,
                spec_record_merge(empty_record(), e, tags, strategy, opts),
            );
        },
    }
}

/// The two candidates of one pair may be merged in either order: they do
/// not tie as distinct candidates of the same kind, and if their
/// versions compare equal they are the same version value (the stored
/// key is the first-seen spelling, so "1.0" and "1.0.0" are
/// order-sensitive spellings of one version).
pub open spec fn entry_pair_order_free(
    e1: FlatIndexEntryV,
    e2: FlatIndexEntryV,
    tags: Option<Seq<TagTripleV>>,
    strategy: Seq<HashStrategyEntryV>,
    opts: BuildOptionsV,
) -> bool {
    &&& merge_tie_free(e1, e2, tags, strategy, opts)
    &&& (version_eq(e1.filename.version(), e2.filename.version()) ==> e1.filename.version()
        == e2.filename.version())
}

proof fn lemma_add_file_commutes_found_fresh(
    s: RecordSeq,
    e1: FlatIndexEntryV,
    e2: FlatIndexEntryV,
    tags: Option<Seq<TagTripleV>>,
    strategy: Seq<HashStrategyEntryV>,
    opts: BuildOptionsV,
)
    requires
        records_sorted(s),
        !version_eq(e1.filename.version(), e2.filename.version()),
        !version_eq(e2.filename.version(), e1.filename.version()),
        find_version(s, e1.filename.version()) is Some,
        find_version(s, e2.filename.version()) is None,
    ensures
        spec_add_file(spec_add_file(s, e1, tags, strategy, opts), e2, tags, strategy, opts)
            == spec_add_file(spec_add_file(s, e2, tags, strategy, opts), e1, tags, strategy, opts),
{
    let v1 = e1.filename.version();
    let v2 = e2.filename.version();
    let i1 = find_version(s, v1)->Some_0;
    lemma_find_from_props(s, v1, 0);
    lemma_find_version_none(s, v2, 0);
    lemma_insert_pos_props(s, v2, 0);
    let p2 = insert_pos(s, v2);
    let m1 = spec_record_merge(s[i1].1, e1, tags, strategy, opts);
    let m2 = spec_record_merge(empty_record(), e2, tags, strategy, opts);
    let a1 = s.update(i1, (s[i1].0, m1));
    assert(spec_add_file(s, e1, tags, strategy, opts) == a1);
    // After the update the keys are unchanged: the fresh version is
    // still fresh and lands at the same position.
    lemma_find_from_none_det(a1, v2, 0);
    lemma_insert_pos_det(a1, v2, 0, p2);
    let r12 = a1.insert(p2, (v2, m2));
    assert(spec_add_file(a1, e2, tags, strategy, opts) == r12);
    // Other order: insert the fresh version first, then find the known
    // one at its (possibly shifted) position.
    let a2 = s.insert(p2, (v2, m2));
    assert(spec_add_file(s, e2, tags, strategy, opts) == a2);
    let i1s: int = if i1 < p2 {
        i1
    } else {
        i1 + 1
    };
    assert(a2[i1s] == s[i1]);
    assert forall|j: int| 0 <= j < i1s implies !version_eq(#[trigger] a2[j].0, v1) by {
        if j < p2 {
            assert(a2[j] == s[j]);
        } else if j == p2 {
            assert(a2[j].0 == v2);
        } else {
            assert(a2[j] == s[j - 1]);
        }
    }
    lemma_find_from_is(a2, v1, 0, i1s);
    let r21 = a2.update(i1s, (a2[i1s].0, spec_record_merge(a2[i1s].1, e1, tags, strategy, opts)));
    assert(spec_add_file(a2, e1, tags, strategy, opts) == r21);
    assert forall|k: int| 0 <= k < r12.len() implies r12[k] == r21[k] by {
        if k < p2 {
            if k == i1 {
                assert(r12[k] == (s[i1].0, m1) && r21[k] == (s[i1].0, m1));
            } else {
                assert(r12[k] == s[k] && r21[k] == s[k]);
            }
        } else if k == p2 {
            assert(r12[k] == (v2, m2) && r21[k] == (v2, m2));
        } else {
            if k - 1 == i1 {
                assert(r12[k] == (s[i1].0, m1) && r21[k] == (s[i1].0, m1));
            } else {
                assert(r12[k] == s[k - 1] && r21[k] == s[k - 1]);
            }
        }
    }
    assert(r12 =~= r21);
}

/// Adding two entries in either order yields the same per-package index,
/// provided the pair is order-free.
pub proof fn lemma_add_file_commutes(
    s: RecordSeq,
    e1: FlatIndexEntryV,
    e2: FlatIndexEntryV,
    tags: Option<Seq<TagTripleV>>,
    strategy: Seq<HashStrategyEntryV>,
    opts: BuildOptionsV,
)
    requires
        records_sorted(s),
        entry_pair_order_free(e1, e2, tags, strategy, opts),
        entry_pair_order_free(e2, e1, tags, strategy, opts),
    ensures
        spec_add_file(spec_add_file(s, e1, tags, strategy, opts), e2, tags, strategy, opts)
            == spec_add_file(spec_add_file(s, e2, tags, strategy, opts), e1, tags, strategy, opts),
{
    let v1 = e1.filename.version();
    let v2 = e2.filename.version();
    lemma_version_eq_sym(v1, v2);
    if version_eq(v1, v2) {
        // One version value by the order-free proviso: both entries
        // address the same record.
        assert(v1 == v2);
        match find_version(s, v1) {
            Some(i) => {
                lemma_find_from_props(s, v1, 0);
                let m1 = spec_record_merge(s[i].1, e1, tags, strategy, opts);
                let m2 = spec_record_merge(s[i].1, e2, tags, strategy, opts);
                let a1 = s.update(i, (s[i].0, m1));
                let a2 = s.update(i, (s[i].0, m2));
                assert(forall|j: int| 0 <= j < i ==> #[trigger] a1[j].0 == s[j].0);
                assert(forall|j: int| 0 <= j < i ==> #[trigger] a2[j].0 == s[j].0);
                lemma_find_from_is(a1, v1, 0, i);
                lemma_find_from_is(a2, v1, 0, i);
                lemma_record_merge_commutes(s[i].1, e1, e2, tags, strategy, opts);
                let r12 = a1.update(i, (a1[i].0, spec_record_merge(m1, e2, tags, strategy, opts)));
                let r21 = a2.update(i, (a2[i].0, spec_record_merge(m2, e1, tags, strategy, opts)));
                assert(r12 =~= r21);
            },
            None => {
                lemma_find_version_none(s, v1, 0);
                lemma_insert_pos_props(s, v1, 0);
                lemma_version_eq_refl(v1);
                let p = insert_pos(s, v1);
                let m1 = spec_record_merge(empty_record(), e1, tags, strategy, opts);
                let m2 = spec_record_merge(empty_record(), e2, tags, strategy, opts);
                let a1 = s.insert(p, (v1, m1));
                let a2 = s.insert(p, (v1, m2));
                assert forall|j: int| 0 <= j < p implies !version_eq(
                    #[trigger] a1[j].0,
                    v1,
                ) by {
                    assert(a1[j] == s[j]);
                }
                assert forall|j: int| 0 <= j < p implies !version_eq(
                    #[trigger] a2[j].0,
                    v1,
                ) by {
                    assert(a2[j] == s[j]);
                }
                lemma_find_from_is(a1, v1, 0, p);
                lemma_find_from_is(a2, v1, 0, p);
                lemma_record_merge_commutes(empty_record(), e1, e2, tags, strategy, opts);
                let r12 = a1.update(p, (a1[p].0, spec_record_merge(m1, e2, tags, strategy, opts)));
                let r21 = a2.update(p, (a2[p].0, spec_record_merge(m2, e1, tags, strategy, opts)));
                assert(spec_add_file(a1, e2, tags, strategy, opts) == r12);
                assert(spec_add_file(a2, e1, tags, strategy, opts) == r21);
                assert(r12 =~= r21);
            },
        }
    } else {
        lemma_version_trichotomy(v1, v2);
        match (find_version(s, v1), find_version(s, v2)) {
            (Some(i1), Some(i2)) => {
                lemma_find_from_props(s, v1, 0);
                lemma_find_from_props(s, v2, 0);
                if i1 == i2 {
                    lemma_version_eq_sym(s[i1].0, v1);
                    lemma_version_eq_subst(s[i1].0, v1, v2);
                    assert(false);
                }
                let m1 = spec_record_merge(s[i1].1, e1, tags, strategy, opts);
                let m2 = spec_record_merge(s[i2].1, e2, tags, strategy, opts);
                let a1 = s.update(i1, (s[i1].0, m1));
                let a2 = s.update(i2, (s[i2].0, m2));
                assert(forall|j: int| 0 <= j < s.len() ==> #[trigger] a1[j].0 == s[j].0);
                assert(forall|j: int| 0 <= j < s.len() ==> #[trigger] a2[j].0 == s[j].0);
                assert forall|j: int| 0 <= j < i2 implies !version_eq(
                    #[trigger] a1[j].0,
                    v2,
                ) by {
                    assert(a1[j].0 == s[j].0);
                }
                assert forall|j: int| 0 <= j < i1 implies !version_eq(
                    #[trigger] a2[j].0,
                    v1,
                ) by {
                    assert(a2[j].0 == s[j].0);
                }
                lemma_find_from_is(a1, v2, 0, i2);
                lemma_find_from_is(a2, v1, 0, i1);
                assert(a1[i2].1 == s[i2].1);
                assert(a2[i1].1 == s[i1].1);
                let r12 = a1.update(i2, (a1[i2].0, m2));
                let r21 = a2.update(i1, (a2[i1].0, m1));
                assert(spec_add_file(a1, e2, tags, strategy, opts) == r12);
                assert(spec_add_file(a2, e1, tags, strategy, opts) == r21);
                assert(r12 =~= r21);
            },
            (Some(_), None) => {
                lemma_add_file_commutes_found_fresh(s, e1, e2, tags, strategy, opts);
            },
            (None, Some(_)) => {
                lemma_add_file_commutes_found_fresh(s, e2, e1, tags, strategy, opts);
            },
            (None, None) => {
                lemma_find_version_none(s, v1, 0);
                lemma_find_version_none(s, v2, 0);
                lemma_insert_pos_props(s, v1, 0);
                lemma_insert_pos_props(s, v2, 0);
                let p1 = insert_pos(s, v1);
                let p2 = insert_pos(s, v2);
                let m1 = spec_record_merge(empty_record(), e1, tags, strategy, opts);
                let m2 = spec_record_merge(empty_record(), e2, tags, strategy, opts);
                // Whichever is inserted first, the two fresh records end
                // in the order the version order dictates.
                if version_lt(v1, v2) {
                    lemma_add_fresh_pair(s, v1, m1, v2, m2, p1, p2);
                    assert(spec_add_file(spec_add_file(s, e1, tags, strategy, opts), e2, tags,
                    strategy, opts) == spec_add_file(spec_add_file(s, e2, tags, strategy, opts),
                    e1, tags, strategy, opts));
                } else {
                    lemma_add_fresh_pair(s, v2, m2, v1, m1, p2, p1);
                    assert(spec_add_file(spec_add_file(s, e2, tags, strategy, opts), e1, tags,
                    strategy, opts) == spec_add_file(spec_add_file(s, e1, tags, strategy, opts),
                    e2, tags, strategy, opts));
                }
            },
        }
    }
}

/// Inserting two fresh versions with `version_lt(va, vb)` lands `va`
/// before `vb` whichever is inserted first.
proof fn lemma_add_fresh_pair(
    s: RecordSeq,
    va: VersionV,
    ma: PrioritizedDistV,
    vb: VersionV,
    mb: PrioritizedDistV,
    pa: int,
    pb: int,
)
    requires
        records_sorted(s),
        version_lt(va, vb),
        !version_eq(va, vb),
        !version_eq(vb, va),
        forall|j: int| 0 <= j < s.len() ==> !version_eq(#[trigger] s[j].0, va),
        forall|j: int| 0 <= j < s.len() ==> !version_eq(#[trigger] s[j].0, vb),
        pa == insert_pos(s, va),
        pb == insert_pos(s, vb),
    ensures
        ({
            let ab = s.insert(pa, (va, ma)).insert(pos_after(s, va, vb, pa, pb), (vb, mb));
            let ba = s.insert(pb, (vb, mb)).insert(pos_before(s, va, vb, pa, pb), (va, ma));
            &&& find_version(s.insert(pa, (va, ma)), vb) is None
            &&& find_version(s.insert(pb, (vb, mb)), va) is None
            &&& insert_pos(s.insert(pa, (va, ma)), vb) == pos_after(s, va, vb, pa, pb)
            &&& insert_pos(s.insert(pb, (vb, mb)), va) == pos_before(s, va, vb, pa, pb)
            &&& ab == ba
        }),
{
    lemma_insert_pos_props(s, va, 0);
    lemma_insert_pos_props(s, vb, 0);
    lemma_version_trichotomy(va, vb);
    // va < vb forces pa <= pb: were vb's position earlier, transitivity
    // would put va there too.
    if pa > pb {
        assert(version_lt(va, s[pb].0) == false);
        assert(version_lt(vb, s[pb].0));
        lemma_version_lt_trans(va, vb, s[pb].0);
        assert(false);
    }
    let a = s.insert(pa, (va, ma));
    let b = s.insert(pb, (vb, mb));
    assert forall|j: int| 0 <= j < a.len() implies !version_eq(#[trigger] a[j].0, vb) by {
        if j < pa {
            assert(a[j] == s[j]);
        } else if j == pa {
            assert(a[j].0 == va);
        } else {
            assert(a[j] == s[j - 1]);
        }
    }
    lemma_find_from_none_det(a, vb, 0);
    assert forall|j: int| 0 <= j < b.len() implies !version_eq(#[trigger] b[j].0, va) by {
        if j < pb {
            assert(b[j] == s[j]);
        } else if j == pb {
            assert(b[j].0 == vb);
        } else {
            assert(b[j] == s[j - 1]);
        }
    }
    lemma_find_from_none_det(b, va, 0);
    // Positions in the enlarged sequences.
    assert forall|j: int| 0 <= j < pb + 1 implies !version_lt(vb, #[trigger] a[j].0) by {
        if j < pa {
            assert(a[j] == s[j]);
        } else if j == pa {
        } else {
            assert(a[j] == s[j - 1]);
        }
    }
    lemma_insert_pos_det(a, vb, 0, pb + 1);
    assert(pos_after(s, va, vb, pa, pb) == pb + 1);
    assert forall|j: int| 0 <= j < pa implies !version_lt(va, #[trigger] b[j].0) by {
        assert(b[j] == s[j]);
    }
    assert(pa < b.len() ==> version_lt(va, b[pa].0)) by {
        if pa < pb {
            assert(b[pa] == s[pa]);
        } else {
            assert(b[pa].0 == vb);
        }
    }
    lemma_insert_pos_det(b, va, 0, pa);
    assert(pos_before(s, va, vb, pa, pb) == pa);
    let ab = a.insert(pb + 1, (vb, mb));
    let ba = b.insert(pa, (va, ma));
    assert forall|k: int| 0 <= k < ab.len() implies ab[k] == ba[k] by {
        if k < pa {
            assert(ab[k] == s[k] && ba[k] == s[k]);
        } else if k == pa {
            assert(ab[k] == (va, ma) && ba[k] == (va, ma));
        } else if k < pb + 1 {
            assert(ab[k] == s[k - 1] && ba[k] == s[k - 1]);
        } else if k == pb + 1 {
            assert(ab[k] == (vb, mb) && ba[k] == (vb, mb));
        } else {
            assert(ab[k] == s[k - 2] && ba[k] == s[k - 2]);
        }
    }
    assert(ab =~= ba);
}

/// Where the later of two fresh versions lands once the earlier one is
/// in: one past its old position.
spec fn pos_after(s: RecordSeq, va: VersionV, vb: VersionV, pa: int, pb: int) -> int {
    pb + 1
}

/// Where the earlier of two fresh versions lands once the later one is
/// in: its old position.
spec fn pos_before(s: RecordSeq, va: VersionV, vb: VersionV, pa: int, pb: int) -> int {
    pa
}

/// Every pair of the batch is order-free.
pub open spec fn pairwise_order_free(
    es: Seq<FlatIndexEntryV>,
    tags: Option<Seq<TagTripleV>>,
    strategy: Seq<HashStrategyEntryV>,
    opts: BuildOptionsV,
) -> bool {
    forall|i: int, j: int|
        0 <= i < es.len() && 0 <= j < es.len() ==> entry_pair_order_free(
            #[trigger] es[i],
            #[trigger] es[j],
            tags,
            strategy,
            opts,
        )
}

spec fn fold_df_entries(
    s: RecordSeq,
    es: Seq<FlatIndexEntryV>,
    tags: Option<Seq<TagTripleV>>,
    strategy: Seq<HashStrategyEntryV>,
    opts: BuildOptionsV,
) -> RecordSeq
    decreases es.len(),
{
    if es.len() == 0 {
        s
    } else {
        fold_df_entries(
            spec_add_file(s, es[0], tags, strategy, opts),
            es.drop_first(),
            tags,
            strategy,
            opts,
        )
    }
}

proof fn lemma_fold_entries_eq_df(
    s: RecordSeq,
    es: Seq<FlatIndexEntryV>,
    i: int,
    tags: Option<Seq<TagTripleV>>,
    strategy: Seq<HashStrategyEntryV>,
    opts: BuildOptionsV,
)
    requires
        0 <= i <= es.len(),
    ensures
        spec_fold_entries(s, es, i, tags, strategy, opts) == fold_df_entries(
            s,
            es.skip(i),
            tags,
            strategy,
            opts,
        ),
    decreases es.len() - i,
{
    if i == es.len() {
        assert(es.skip(i) =~= Seq::<FlatIndexEntryV>::empty());
    } else {
        assert(es.skip(i)[0] == es[i]);
        assert(es.skip(i).drop_first() =~= es.skip(i + 1));
        lemma_fold_entries_eq_df(
            spec_add_file(s, es[i], tags, strategy, opts),
            es,
            i + 1,
            tags,
            strategy,
            opts,
        );
    }
}

proof fn lemma_fold_entries_bring_front(
    s: RecordSeq,
    es: Seq<FlatIndexEntryV>,
    m: int,
    tags: Option<Seq<TagTripleV>>,
    strategy: Seq<HashStrategyEntryV>,
    opts: BuildOptionsV,
)
    requires
        records_sorted(s),
        pairwise_order_free(es, tags, strategy, opts),
        0 <= m < es.len(),
    ensures
        fold_df_entries(s, es, tags, strategy, opts) == fold_df_entries(
            spec_add_file(s, es[m], tags, strategy, opts),
            es.remove(m),
            tags,
            strategy,
            opts,
        ),
    decreases m,
{
    if m == 0 {
        assert(es.remove(0) =~= es.drop_first());
    } else {
        let dr = es.drop_first();
        assert(pairwise_order_free(dr, tags, strategy, opts)) by {
            assert forall|i: int, j: int|
                0 <= i < dr.len() && 0 <= j < dr.len() implies entry_pair_order_free(
                #[trigger] dr[i],
                #[trigger] dr[j],
                tags,
                strategy,
                opts,
            ) by {
                assert(dr[i] == es[i + 1] && dr[j] == es[j + 1]);
            }
        }
        assert(dr[m - 1] == es[m]);
        lemma_add_file_preserves_sorted(s, es[0], tags, strategy, opts);
        lemma_fold_entries_bring_front(
            spec_add_file(s, es[0], tags, strategy, opts),
            dr,
            m - 1,
            tags,
            strategy,
            opts,
        );
        lemma_add_file_commutes(s, es[0], es[m], tags, strategy, opts);
        assert(es.remove(m)[0] == es[0]);
        assert(es.remove(m).drop_first() =~= dr.remove(m - 1));
    }
}

proof fn lemma_fold_df_permutation(
    s: RecordSeq,
    es1: Seq<FlatIndexEntryV>,
    es2: Seq<FlatIndexEntryV>,
    tags: Option<Seq<TagTripleV>>,
    strategy: Seq<HashStrategyEntryV>,
    opts: BuildOptionsV,
)
    requires
        records_sorted(s),
        es1.to_multiset() == es2.to_multiset(),
        pairwise_order_free(es1, tags, strategy, opts),
    ensures
        fold_df_entries(s, es1, tags, strategy, opts) == fold_df_entries(
            s,
            es2,
            tags,
            strategy,
            opts,
        ),
    decreases es1.len(),
{
    es1.to_multiset_ensures();
    es2.to_multiset_ensures();
    if es1.len() == 0 {
        assert(es2.len() == 0);
    } else {
        let x = es1[0];
        assert(es1.contains(x));
        assert(es2.to_multiset().count(x) > 0);
        assert(es2.contains(x));
        let m = choose|m: int| 0 <= m < es2.len() && es2[m] == x;
        assert(pairwise_order_free(es2, tags, strategy, opts)) by {
            assert forall|i: int, j: int|
                0 <= i < es2.len() && 0 <= j < es2.len() implies entry_pair_order_free(
                #[trigger] es2[i],
                #[trigger] es2[j],
                tags,
                strategy,
                opts,
            ) by {
                assert(es2.contains(es2[i]) && es2.contains(es2[j]));
                assert(es2.to_multiset().count(es2[i]) > 0);
                assert(es2.to_multiset().count(es2[j]) > 0);
                assert(es1.contains(es2[i]) && es1.contains(es2[j]));
                let a = choose|a: int| 0 <= a < es1.len() && es1[a] == es2[i];
                let b = choose|b: int| 0 <= b < es1.len() && es1[b] == es2[j];
                assert(entry_pair_order_free(es1[a], es1[b], tags, strategy, opts));
            }
        }
        lemma_fold_entries_bring_front(s, es2, m, tags, strategy, opts);
        let s1 = spec_add_file(s, x, tags, strategy, opts);
        lemma_add_file_preserves_sorted(s, x, tags, strategy, opts);
        assert(es1.drop_first() =~= es1.remove(0));
        assert(es1.remove(0).to_multiset() =~= es1.to_multiset().remove(x));
        assert(es2.remove(m).to_multiset() =~= es2.to_multiset().remove(x));
        assert(pairwise_order_free(es1.drop_first(), tags, strategy, opts)) by {
            let dr = es1.drop_first();
            assert forall|i: int, j: int|
                0 <= i < dr.len() && 0 <= j < dr.len() implies entry_pair_order_free(
                #[trigger] dr[i],
                #[trigger] dr[j],
                tags,
                strategy,
                opts,
            ) by {
                assert(dr[i] == es1[i + 1] && dr[j] == es1[j + 1]);
            }
        }
        lemma_fold_df_permutation(s1, es1.drop_first(), es2.remove(m), tags, strategy, opts);
    }
}

/// Inserting a batch of candidate files into a per-package index in any
/// permutation yields an identical final index, provided every pair of
/// the batch is order-free: no two distinct candidates of the same kind
/// and version tie on every ranking key, and one version is not spelled
/// two ways (ties and spellings keep the first-seen, the two
/// order-sensitive cases).
pub proof fn lemma_fold_entries_permutation(
    s: RecordSeq,
    es1: Seq<FlatIndexEntryV>,
    es2: Seq<FlatIndexEntryV>,
    tags: Option<Seq<TagTripleV>>,
    strategy: Seq<HashStrategyEntryV>,
    opts: BuildOptionsV,
)
    requires
        records_sorted(s),
        es1.to_multiset() == es2.to_multiset(),
        pairwise_order_free(es1, tags, strategy, opts),
    ensures
        spec_fold_entries(s, es1, 0, tags, strategy, opts) == spec_fold_entries(
            s,
            es2,
            0,
            tags,
            strategy,
            opts,
        ),
{
    lemma_fold_entries_eq_df(s, es1, 0, tags, strategy, opts);
    lemma_fold_entries_eq_df(s, es2, 0, tags, strategy, opts);
    assert(es1.skip(0) =~= es1);
    assert(es2.skip(0) =~= es2);
    lemma_fold_df_permutation(s, es1, es2, tags, strategy, opts);
}

} // verus!
