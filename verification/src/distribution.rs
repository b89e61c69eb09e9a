use vstd::prelude::*;

use crate::names::PackageName;
use crate::version::{Version, VersionV};

verus! {

/// A known digest of a candidate file, as a printable `algorithm:hex` form.
#[derive(Debug)]
pub struct HashDigest {
    pub value: String,
}

impl View for HashDigest {
    type V = Seq<char>;

    open spec fn view(&self) -> Seq<char> {
        self.value@
    }
}

impl HashDigest {
    pub fn new(value: String) -> (r: HashDigest)
        ensures
            r@ == value@,
    {
        HashDigest { value }
    }
}

impl Clone for HashDigest {
    /// Cloning preserves the digest.
    fn clone(&self) -> (res: HashDigest)
        ensures
            res@ == self@,
    {
        HashDigest { value: self.value.clone() }
    }
}

/// The digest sequences of a list of digests.
pub open spec fn digests_view(s: Seq<HashDigest>) -> Seq<Seq<char>> {
    s.map_values(|h: HashDigest| h@)
}

/// The mathematical values of a list of tag triples.
pub open spec fn triples_view(s: Seq<TagTriple>) -> Seq<TagTripleV> {
    s.map_values(|t: TagTriple| t@)
}

/// Identity of the index a candidate file came from.
#[derive(Debug)]
pub struct IndexUrl {
    pub url: String,
}

impl View for IndexUrl {
    type V = Seq<char>;

    open spec fn view(&self) -> Seq<char> {
        self.url@
    }
}

impl Clone for IndexUrl {
    /// Cloning preserves the location.
    fn clone(&self) -> (res: IndexUrl)
        ensures
            res@ == self@,
    {
        IndexUrl { url: self.url.clone() }
    }
}

/// An optional artifact-revision marker on a wheel, used only to break
/// ties: a number and an optional suffix.
#[derive(Debug)]
pub struct BuildTag {
    pub number: u64,
    pub suffix: Option<String>,
}

/// Mathematical value of a [`BuildTag`].
#[verifier::ext_equal]
pub ghost struct BuildTagV {
    pub number: u64,
    pub suffix: Option<Seq<char>>,
}

impl View for BuildTag {
    type V = BuildTagV;

    open spec fn view(&self) -> BuildTagV {
        BuildTagV {
            number: self.number,
            suffix: match self.suffix {
                Some(ref s) => Some(s@),
                None => None,
            },
        }
    }
}

impl Clone for BuildTag {
    /// Cloning preserves the marker.
    fn clone(&self) -> (res: BuildTag)
        ensures
            res@ == self@,
    {
        BuildTag {
            number: self.number,
            suffix: match &self.suffix {
                Some(s) => Some(s.clone()),
                None => None,
            },
        }
    }
}

/// An (interpreter, ABI, platform) compatibility triple.
#[derive(Debug)]
pub struct TagTriple {
    pub interpreter: String,
    pub abi: String,
    pub platform: String,
}

/// Mathematical value of a [`TagTriple`].
#[verifier::ext_equal]
pub ghost struct TagTripleV {
    pub interpreter: Seq<char>,
    pub abi: Seq<char>,
    pub platform: Seq<char>,
}

impl View for TagTriple {
    type V = TagTripleV;

    open spec fn view(&self) -> TagTripleV {
        TagTripleV { interpreter: self.interpreter@, abi: self.abi@, platform: self.platform@ }
    }
}

impl TagTriple {
    pub fn new(interpreter: String, abi: String, platform: String) -> (r: TagTriple)
        ensures
            r@ == (TagTripleV { interpreter: interpreter@, abi: abi@, platform: platform@ }),
    {
        TagTriple { interpreter, abi, platform }
    }

    /// Whether the two triples name the same environment.
    pub fn matches(&self, other: &TagTriple) -> (r: bool)
        ensures
            r == (self@ == other@),
    {
        let r = self.interpreter == other.interpreter && self.abi == other.abi && self.platform
            == other.platform;
        proof {
            if r {
                assert(self@ =~= other@);
            }
        }
        r
    }
}

/// The externally supplied tag preference table, most-preferred first.
/// An absent table means "accept any triple, unordered".
#[derive(Debug)]
pub struct Tags {
    pub preferred: Vec<TagTriple>,
}

impl View for Tags {
    type V = Seq<TagTripleV>;

    open spec fn view(&self) -> Seq<TagTripleV> {
        triples_view(self.preferred@)
    }
}

/// The archive format of a source distribution.
#[derive(Clone, Copy, Debug, PartialEq, Eq, Structural)]
pub enum SourceDistExtension {
    TarGz,
    TarBz2,
    Tar,
    Zip,
}

/// A discovered candidate file: its spelled name and its known digests
/// (possibly none).
#[derive(Debug)]
pub struct File {
    pub filename: String,
    pub hashes: Vec<HashDigest>,
}

/// Mathematical value of a [`File`].
#[verifier::ext_equal]
pub ghost struct FileV {
    pub filename: Seq<char>,
    pub hashes: Seq<Seq<char>>,
}

impl View for File {
    type V = FileV;

    open spec fn view(&self) -> FileV {
        FileV {
            filename: self.filename@,
            hashes: digests_view(self.hashes@),
        }
    }
}

/// The parsed filename of a wheel: platform-tagged and optionally carrying
/// a build tag.
#[derive(Debug)]
pub struct WheelFilename {
    pub name: PackageName,
    pub version: Version,
    pub build_tag: Option<BuildTag>,
    pub tags: Vec<TagTriple>,
}

/// Mathematical value of a [`WheelFilename`].
#[verifier::ext_equal]
pub ghost struct WheelFilenameV {
    pub name: Seq<char>,
    pub version: VersionV,
    pub build_tag: Option<BuildTagV>,
    pub tags: Seq<TagTripleV>,
}

impl View for WheelFilename {
    type V = WheelFilenameV;

    open spec fn view(&self) -> WheelFilenameV {
        WheelFilenameV {
            name: self.name@,
            version: self.version@,
            build_tag: match self.build_tag {
                Some(ref t) => Some(t@),
                None => None,
            },
            tags: triples_view(self.tags@),
        }
    }
}

/// The parsed filename of a source distribution: platform-agnostic.
#[derive(Debug)]
pub struct SourceDistFilename {
    pub name: PackageName,
    pub version: Version,
    pub extension: SourceDistExtension,
}

/// Mathematical value of a [`SourceDistFilename`].
#[verifier::ext_equal]
pub ghost struct SourceDistFilenameV {
    pub name: Seq<char>,
    pub version: VersionV,
    pub extension: SourceDistExtension,
}

impl View for SourceDistFilename {
    type V = SourceDistFilenameV;

    open spec fn view(&self) -> SourceDistFilenameV {
        SourceDistFilenameV {
            name: self.name@,
            version: self.version@,
            extension: self.extension,
        }
    }
}

/// A candidate filename: either a wheel or a source distribution.
#[derive(Debug)]
pub enum DistFilename {
    WheelFilename(WheelFilename),
    SourceDistFilename(SourceDistFilename),
}

/// Mathematical value of a [`DistFilename`].
#[verifier::ext_equal]
pub ghost enum DistFilenameV {
    WheelFilename(WheelFilenameV),
    SourceDistFilename(SourceDistFilenameV),
}

impl View for DistFilename {
    type V = DistFilenameV;

    open spec fn view(&self) -> DistFilenameV {
        match self {
            DistFilename::WheelFilename(f) => DistFilenameV::WheelFilename(f@),
            DistFilename::SourceDistFilename(f) => DistFilenameV::SourceDistFilename(f@),
        }
    }
}

impl DistFilenameV {
    /// The package name carried by either variant.
    pub open spec fn name(self) -> Seq<char> {
        match self {
            DistFilenameV::WheelFilename(f) => f.name,
            DistFilenameV::SourceDistFilename(f) => f.name,
        }
    }

    /// The version carried by either variant.
    pub open spec fn version(self) -> VersionV {
        match self {
            DistFilenameV::WheelFilename(f) => f.version,
            DistFilenameV::SourceDistFilename(f) => f.version,
        }
    }
}

impl DistFilename {
    /// The package name carried by either variant.
    pub fn name(&self) -> (r: &PackageName)
        ensures
            r@ == self@.name(),
    {
        match self {
            DistFilename::WheelFilename(f) => &f.name,
            DistFilename::SourceDistFilename(f) => &f.name,
        }
    }

    /// The version carried by either variant.
    pub fn version(&self) -> (r: &Version)
        ensures
            r@ == self@.version(),
    {
        match self {
            DistFilename::WheelFilename(f) => &f.version,
            DistFilename::SourceDistFilename(f) => &f.version,
        }
    }
}

/// A wheel candidate as recorded in the index.
#[derive(Debug)]
pub struct RegistryBuiltWheel {
    pub filename: WheelFilename,
    pub file: File,
    pub index: IndexUrl,
}

/// Mathematical value of a [`RegistryBuiltWheel`].
#[verifier::ext_equal]
pub ghost struct RegistryBuiltWheelV {
    pub filename: WheelFilenameV,
    pub file: FileV,
    pub index: Seq<char>,
}

impl View for RegistryBuiltWheel {
    type V = RegistryBuiltWheelV;

    open spec fn view(&self) -> RegistryBuiltWheelV {
        RegistryBuiltWheelV { filename: self.filename@, file: self.file@, index: self.index@ }
    }
}

/// A source-distribution candidate as recorded in the index.
#[derive(Debug)]
pub struct RegistrySourceDist {
    pub name: PackageName,
    pub version: Version,
    pub ext: SourceDistExtension,
    pub file: File,
    pub index: IndexUrl,
}

/// Mathematical value of a [`RegistrySourceDist`].
#[verifier::ext_equal]
pub ghost struct RegistrySourceDistV {
    pub name: Seq<char>,
    pub version: VersionV,
    pub ext: SourceDistExtension,
    pub file: FileV,
    pub index: Seq<char>,
}

impl View for RegistrySourceDist {
    type V = RegistrySourceDistV;

    open spec fn view(&self) -> RegistrySourceDistV {
        RegistrySourceDistV {
            name: self.name@,
            version: self.version@,
            ext: self.ext,
            file: self.file@,
            index: self.index@,
        }
    }
}

} // verus!
