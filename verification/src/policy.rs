use vstd::prelude::*;

use crate::distribution::{digests_view, HashDigest};
use crate::names::PackageName;
use crate::version::{version_eq, Version, VersionV};

verus! {

/// One resolved hash requirement: the digest set that files of this
/// package version must match.
#[derive(Debug)]
pub struct HashStrategyEntry {
    pub name: PackageName,
    pub version: Version,
    pub digests: Vec<HashDigest>,
}

/// Mathematical value of a [`HashStrategyEntry`].
#[verifier::ext_equal]
pub ghost struct HashStrategyEntryV {
    pub name: Seq<char>,
    pub version: VersionV,
    pub digests: Seq<Seq<char>>,
}

impl View for HashStrategyEntry {
    type V = HashStrategyEntryV;

    open spec fn view(&self) -> HashStrategyEntryV {
        HashStrategyEntryV {
            name: self.name@,
            version: self.version@,
            digests: digests_view(self.digests@),
        }
    }
}

/// The names of a list of packages.
pub open spec fn names_view(s: Seq<PackageName>) -> Seq<Seq<char>> {
    s.map_values(|n: PackageName| n@)
}

/// The mathematical values of a list of hash requirements.
pub open spec fn entries_view(s: Seq<HashStrategyEntry>) -> Seq<HashStrategyEntryV> {
    s.map_values(|e: HashStrategyEntry| e@)
}

/// The hash policy source: a package version listed here must match one of
/// its digests; any other package version requires no verification.
#[derive(Debug)]
pub struct HashStrategy {
    pub entries: Vec<HashStrategyEntry>,
}

impl View for HashStrategy {
    type V = Seq<HashStrategyEntryV>;

    open spec fn view(&self) -> Seq<HashStrategyEntryV> {
        entries_view(self.entries@)
    }
}

/// First entry for the given package version, scanning from position `i`:
/// the required digest set, or `None` for "no verification required".
pub open spec fn required_digests_from(
    entries: Seq<HashStrategyEntryV>,
    name: Seq<char>,
    version: VersionV,
    i: int,
) -> Option<Seq<Seq<char>>>
    decreases entries.len() - i,
{
    if i < 0 || i >= entries.len() {
        None
    } else if entries[i].name == name && version_eq(entries[i].version, version) {
        Some(entries[i].digests)
    } else {
        required_digests_from(entries, name, version, i + 1)
    }
}

/// The resolved hash policy for one package version.
pub open spec fn spec_required_digests(
    entries: Seq<HashStrategyEntryV>,
    name: Seq<char>,
    version: VersionV,
) -> Option<Seq<Seq<char>>> {
    required_digests_from(entries, name, version, 0)
}

impl HashStrategy {
    /// A strategy that verifies nothing.
    pub fn none() -> (r: HashStrategy)
        ensures
            r@ =~= Seq::<HashStrategyEntryV>::empty(),
    {
        HashStrategy { entries: Vec::new() }
    }

    /// The digest set that files of this package version must match, or
    /// `None` when no verification is required.
    pub fn get_package(&self, name: &PackageName, version: &Version) -> (r: Option<
        &Vec<HashDigest>,
    >)
        ensures
            match r {
                Some(digests) => Some(digests_view(digests@))
                    == spec_required_digests(self@, name@, version@),
                None => spec_required_digests(self@, name@, version@) is None,
            },
    {
        let n = self.entries.len();
        let mut i: usize = 0;
        while i < n
            invariant
                0 <= i <= n,
                n == self.entries.len(),
                spec_required_digests(self@, name@, version@) == required_digests_from(
                    self@,
                    name@,
                    version@,
                    i as int,
                ),
            decreases n - i,
        {
            let e = &self.entries[i];
            if e.name == *name && e.version.same(version) {
                return Some(&e.digests);
            }
            i = i + 1;
        }
        None
    }
}

/// Per-package build-mode policy: packages whose source builds are
/// disabled, and packages whose binary installs are disabled.
#[derive(Debug)]
pub struct BuildOptions {
    pub no_build: Vec<PackageName>,
    pub no_binary: Vec<PackageName>,
}

/// Mathematical value of a [`BuildOptions`].
#[verifier::ext_equal]
pub ghost struct BuildOptionsV {
    pub no_build: Seq<Seq<char>>,
    pub no_binary: Seq<Seq<char>>,
}

impl View for BuildOptions {
    type V = BuildOptionsV;

    open spec fn view(&self) -> BuildOptionsV {
        BuildOptionsV {
            no_build: names_view(self.no_build@),
            no_binary: names_view(self.no_binary@),
        }
    }
}

/// Whether source builds are disabled for the named package.
pub open spec fn spec_no_build(opts: BuildOptionsV, name: Seq<char>) -> bool {
    opts.no_build.contains(name)
}

/// Whether binary installs are disabled for the named package.
pub open spec fn spec_no_binary(opts: BuildOptionsV, name: Seq<char>) -> bool {
    opts.no_binary.contains(name)
}

fn name_list_contains(list: &Vec<PackageName>, name: &PackageName) -> (r: bool)
    ensures
        r == names_view(list@).contains(name@),
{
    let ghost views = names_view(list@);
    let n = list.len();
    let mut i: usize = 0;
    while i < n
        invariant
            0 <= i <= n,
            n == list.len(),
            views == names_view(list@),
            forall|j: int| 0 <= j < i ==> views[j] != name@,
        decreases n - i,
    {
        if list[i] == *name {
            assert(views[i as int] == name@);
            return true;
        }
        i = i + 1;
    }
    false
}

impl BuildOptions {
    /// A policy that disables nothing.
    pub fn allow_all() -> (r: BuildOptions)
        ensures
            r@.no_build =~= Seq::<Seq<char>>::empty(),
            r@.no_binary =~= Seq::<Seq<char>>::empty(),
    {
        BuildOptions { no_build: Vec::new(), no_binary: Vec::new() }
    }

    /// Whether source builds are disabled for the named package.
    pub fn no_build_package(&self, name: &PackageName) -> (r: bool)
        ensures
            r == spec_no_build(self@, name@),
    {
        name_list_contains(&self.no_build, name)
    }

    /// Whether binary installs are disabled for the named package.
    pub fn no_binary_package(&self, name: &PackageName) -> (r: bool)
        ensures
            r == spec_no_binary(self@, name@),
    {
        name_list_contains(&self.no_binary, name)
    }
}

} // verus!
