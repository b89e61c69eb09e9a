use vstd::prelude::*;

use crate::names::{normalized_of, ExtraName, PackageName};

verus! {

/// Which declared-dynamic field makes static extraction impossible.
#[derive(Clone, Copy, Debug, PartialEq, Eq, Structural)]
pub enum DynamicFieldKind {
    Dependencies,
    OptionalDependencies,
}

/// Why static metadata extraction failed. Every failure is recoverable by
/// falling back to an alternate metadata source.
#[derive(Clone, Copy, Debug, PartialEq, Eq, Structural)]
pub enum MetadataError {
    /// The manifest text is not well-formed structured text, or a field
    /// has the wrong shape.
    ConfigParse,
    /// The manifest has no project section.
    FieldNotFound,
    /// The named field is computed dynamically and cannot be trusted
    /// statically.
    DynamicField(DynamicFieldKind),
    /// Dependencies are declared only in the legacy alternate section:
    /// returning zero dependencies would be silently wrong.
    PoetrySyntax,
}

/// One canonical requirement: the declared specification verbatim, plus
/// the optional-dependency group it is restricted to, when it came from
/// one. The requirement string grammar itself is opaque to this crate.
#[derive(Debug)]
pub struct Requirement {
    pub verbatim: String,
    pub extra: Option<ExtraName>,
}

/// Mathematical value of a [`Requirement`].
#[verifier::ext_equal]
pub ghost struct RequirementV {
    pub verbatim: Seq<char>,
    pub extra: Option<Seq<char>>,
}

impl View for Requirement {
    type V = RequirementV;

    open spec fn view(&self) -> RequirementV {
        RequirementV {
            verbatim: self.verbatim@,
            extra: match self.extra {
                Some(ref e) => Some(e@),
                None => None,
            },
        }
    }
}

/// The canonical requirement set extracted from a manifest: package name,
/// ordered requirements, declared optional-dependency group names, and
/// whether the version is dynamically computed. Immutable once built.
#[derive(Debug)]
pub struct RequiresDist {
    pub name: PackageName,
    pub requires_dist: Vec<Requirement>,
    pub provides_extras: Vec<ExtraName>,
    pub dynamic: bool,
}

/// Mathematical value of a [`RequiresDist`].
#[verifier::ext_equal]
pub ghost struct RequiresDistV {
    pub name: Seq<char>,
    pub requires_dist: Seq<RequirementV>,
    pub provides_extras: Seq<Seq<char>>,
    pub dynamic: bool,
}

impl View for RequiresDist {
    type V = RequiresDistV;

    open spec fn view(&self) -> RequiresDistV {
        RequiresDistV {
            name: self.name@,
            requires_dist: req_views(self.requires_dist@),
            provides_extras: extra_names_view(self.provides_extras@),
            dynamic: self.dynamic,
        }
    }
}

pub open spec fn req_views(s: Seq<Requirement>) -> Seq<RequirementV> {
    s.map_values(|r: Requirement| r@)
}

pub open spec fn extra_names_view(s: Seq<ExtraName>) -> Seq<Seq<char>> {
    s.map_values(|e: ExtraName| e@)
}

pub open spec fn strings_view(s: Seq<String>) -> Seq<Seq<char>> {
    s.map_values(|t: String| t@)
}

/// One optional-dependency group as read from the manifest: the spelled
/// group name and its requirement strings, in declared order.
#[derive(Debug)]
pub struct RawOptionalGroup {
    pub extra: String,
    pub requirements: Vec<String>,
}

/// Mathematical value of a [`RawOptionalGroup`].
#[verifier::ext_equal]
pub ghost struct RawOptionalGroupV {
    pub extra: Seq<char>,
    pub requirements: Seq<Seq<char>>,
}

impl View for RawOptionalGroup {
    type V = RawOptionalGroupV;

    open spec fn view(&self) -> RawOptionalGroupV {
        RawOptionalGroupV { extra: self.extra@, requirements: strings_view(self.requirements@) }
    }
}

pub open spec fn groups_view(s: Seq<RawOptionalGroup>) -> Seq<RawOptionalGroupV> {
    s.map_values(|g: RawOptionalGroup| g@)
}

/// The project section of a manifest, reduced to the plain values the
/// extractor reads.
#[derive(Debug)]
pub struct RawProject {
    pub name: String,
    pub dynamic: Vec<String>,
    pub dependencies: Option<Vec<String>>,
    pub optional_dependencies: Option<Vec<RawOptionalGroup>>,
}

/// Mathematical value of a [`RawProject`].
#[verifier::ext_equal]
pub ghost struct RawProjectV {
    pub name: Seq<char>,
    pub dynamic: Seq<Seq<char>>,
    pub dependencies: Option<Seq<Seq<char>>>,
    pub optional_dependencies: Option<Seq<RawOptionalGroupV>>,
}

impl View for RawProject {
    type V = RawProjectV;

    open spec fn view(&self) -> RawProjectV {
        RawProjectV {
            name: self.name@,
            dynamic: strings_view(self.dynamic@),
            dependencies: match self.dependencies {
                Some(ref d) => Some(strings_view(d@)),
                None => None,
            },
            optional_dependencies: match self.optional_dependencies {
                Some(ref g) => Some(groups_view(g@)),
                None => None,
            },
        }
    }
}

/// A manifest reduced to what the extractor reads: the project section,
/// if any, and whether the legacy alternate dependency section is
/// present.
#[derive(Debug)]
pub struct RawManifest {
    pub project: Option<RawProject>,
    pub has_poetry_tool: bool,
}

/// Mathematical value of a [`RawManifest`].
#[verifier::ext_equal]
pub ghost struct RawManifestV {
    pub project: Option<RawProjectV>,
    pub has_poetry_tool: bool,
}

impl View for RawManifest {
    type V = RawManifestV;

    open spec fn view(&self) -> RawManifestV {
        RawManifestV {
            project: match self.project {
                Some(ref p) => Some(p@),
                None => None,
            },
            has_poetry_tool: self.has_poetry_tool,
        }
    }
}

/// Scanning the declared-dynamic field list from position `i`:
/// "dependencies" and "optional-dependencies" abort extraction;
/// "version" records that the version is dynamic; other names are
/// ignored. The first offending field decides.
pub open spec fn scan_dynamic_from(fields: Seq<Seq<char>>, i: int) -> Result<
    bool,
    DynamicFieldKind,
>
    decreases fields.len() - i,
{
    if i < 0 || i >= fields.len() {
        Ok(false)
    } else if fields[i] == "dependencies"@ {
        Err(DynamicFieldKind::Dependencies)
    } else if fields[i] == "optional-dependencies"@ {
        Err(DynamicFieldKind::OptionalDependencies)
    } else {
        match scan_dynamic_from(fields, i + 1) {
            Ok(b) => Ok(b || fields[i] == "version"@),
            Err(e) => Err(e),
        }
    }
}

pub open spec fn scan_dynamic(fields: Seq<Seq<char>>) -> Result<bool, DynamicFieldKind> {
    scan_dynamic_from(fields, 0)
}

/// The base requirements: each literal dependency string verbatim, with
/// no group restriction.
pub open spec fn base_reqs(deps: Option<Seq<Seq<char>>>) -> Seq<RequirementV> {
    match deps {
        Some(d) => d.map_values(
            |t: Seq<char>| RequirementV { verbatim: t, extra: None },
        ),
        None => Seq::empty(),
    }
}

/// One group's requirements, each carrying the marker that restricts it
/// to the group's normalized extra name; per-group order is preserved.
pub open spec fn group_reqs(g: RawOptionalGroupV) -> Seq<RequirementV> {
    g.requirements.map_values(
        |t: Seq<char>| RequirementV { verbatim: t, extra: Some(normalized_of(g.extra)) },
    )
}

/// The concatenation of the groups' requirements from position `i`
/// onward, in declared group order.
pub open spec fn groups_flat(gs: Seq<RawOptionalGroupV>, i: int) -> Seq<RequirementV>
    decreases gs.len() - i,
{
    if i < 0 || i >= gs.len() {
        Seq::empty()
    } else {
        group_reqs(gs[i]) + groups_flat(gs, i + 1)
    }
}

/// The declared group names in order, normalized.
pub open spec fn extras_of(gs: Seq<RawOptionalGroupV>) -> Seq<Seq<char>> {
    gs.map_values(|g: RawOptionalGroupV| normalized_of(g.extra))
}

pub open spec fn opt_groups(gs: Option<Seq<RawOptionalGroupV>>) -> Seq<RawOptionalGroupV> {
    match gs {
        Some(g) => g,
        None => Seq::empty(),
    }
}

/// The whole extractor on plain values: the project section must exist;
/// dynamic "dependencies" or "optional-dependencies" abort; a missing
/// "dependencies" key beside a legacy alternate section aborts; otherwise
/// the canonical set is the base requirements followed by the groups'
/// requirements in declared order, each group requirement marked with its
/// normalized extra name.
pub open spec fn spec_from_parts(project: Option<RawProjectV>, has_poetry: bool) -> Result<
    RequiresDistV,
    MetadataError,
> {
    match project {
        None => Err(MetadataError::FieldNotFound),
        Some(p) => match scan_dynamic(p.dynamic) {
            Err(k) => Err(MetadataError::DynamicField(k)),
            Ok(version_dynamic) => if p.dependencies is None && has_poetry {
                Err(MetadataError::PoetrySyntax)
            } else {
                let gs = opt_groups(p.optional_dependencies);
                Ok(
                    RequiresDistV {
                        name: normalized_of(p.name),
                        requires_dist: base_reqs(p.dependencies) + groups_flat(gs, 0),
                        provides_extras: extras_of(gs),
                        dynamic: version_dynamic,
                    },
                )
            },
        },
    }
}

/// The view of an extraction result.
pub open spec fn extraction_view(r: Result<RequiresDist, MetadataError>) -> Result<
    RequiresDistV,
    MetadataError,
> {
    match r {
        Ok(d) => Ok(d@),
        Err(e) => Err(e),
    }
}

impl RequiresDist {
    /// Extracts the canonical requirement set from the plain values read
    /// out of a manifest.
    #[verifier::loop_isolation(false)]
    #[verifier::rlimit(100)]
    pub fn from_parts(manifest: RawManifest) -> (r: Result<RequiresDist, MetadataError>)
        ensures
            extraction_view(r) == spec_from_parts(
                match manifest.project {
                    Some(ref p) => Some(p@),
                    None => None,
                },
                manifest.has_poetry_tool,
            ),
    {
        let project = match manifest.project {
            Some(p) => p,
            None => {
                return Err(MetadataError::FieldNotFound);
            },
        };
        let ghost pv = project@;

        // Scan the declared-dynamic field list.
        let dep_key: String = "dependencies".to_owned();
        let opt_key: String = "optional-dependencies".to_owned();
        let ver_key: String = "version".to_owned();
        let ghost fieldsv = strings_view(project.dynamic@);
        let mut version_dynamic = false;
        let n = project.dynamic.len();
        let mut i: usize = 0;
        while i < n
            invariant
                0 <= i <= n,
                n == project.dynamic@.len(),
                dep_key@ == "dependencies"@,
                opt_key@ == "optional-dependencies"@,
                ver_key@ == "version"@,
                scan_dynamic(fieldsv) == (match scan_dynamic_from(fieldsv, i as int) {
                    Ok(b) => Ok::<bool, DynamicFieldKind>(b || version_dynamic),
                    Err(e) => Err(e),
                }),
            decreases n - i,
        {
            let field = &project.dynamic[i];
            proof {
                assert(fieldsv[i as int] == field@);
            }
            if *field == dep_key {
                return Err(MetadataError::DynamicField(DynamicFieldKind::Dependencies));
            }
            if *field == opt_key {
                return Err(MetadataError::DynamicField(DynamicFieldKind::OptionalDependencies));
            }
            if *field == ver_key {
                version_dynamic = true;
            }
            i = i + 1;
        }
        proof {
            assert(scan_dynamic(fieldsv) == Ok::<bool, DynamicFieldKind>(version_dynamic));
        }

        // The legacy-format guard: a project section without a literal
        // "dependencies" key beside an alternate declaration section must
        // not silently yield zero dependencies.
        if matches!(project.dependencies, None) && manifest.has_poetry_tool {
            return Err(MetadataError::PoetrySyntax);
        }

        let name = PackageName::new(project.name.as_str());

        // Base requirements, in declared order.
        let mut requires_dist: Vec<Requirement> = Vec::new();
        let ghost depsv: Option<Seq<Seq<char>>> = match project.dependencies {
            Some(ref d) => Some(strings_view(d@)),
            None => None,
        };
        match &project.dependencies {
            Some(deps) => {
                let m = deps.len();
                let mut j: usize = 0;
                while j < m
                    invariant
                        0 <= j <= m,
                        m == deps@.len(),
                        depsv == Some(strings_view(deps@)),
                        req_views(requires_dist@) =~= base_reqs(depsv).take(j as int),
                    decreases m - j,
                {
                    requires_dist.push(Requirement { verbatim: deps[j].clone(), extra: None });
                    j = j + 1;
                    proof {
                        assert(base_reqs(depsv)[j - 1] == (RequirementV {
                            verbatim: strings_view(deps@)[j - 1],
                            extra: None,
                        }));
                        assert(req_views(requires_dist@) =~= base_reqs(depsv).take(j as int));
                    }
                }
            },
            None => {},
        }
        proof {
            assert(req_views(requires_dist@) =~= base_reqs(depsv));
        }

        // Group requirements, groups in declared key order, each marked
        // with its group's extra name.
        let mut provides_extras: Vec<ExtraName> = Vec::new();
        let ghost gv = opt_groups(
            match project.optional_dependencies {
                Some(ref g) => Some(groups_view(g@)),
                None => None,
            },
        );
        match &project.optional_dependencies {
            Some(groups) => {
                let gn = groups.len();
                let mut gi: usize = 0;
                while gi < gn
                    invariant
                        0 <= gi <= gn,
                        gn == groups@.len(),
                        gv == groups_view(groups@),
                        extra_names_view(provides_extras@) =~= extras_of(gv).take(gi as int),
                        req_views(requires_dist@) + groups_flat(gv, gi as int) =~= base_reqs(
                            depsv,
                        ) + groups_flat(gv, 0),
                    decreases gn - gi,
                {
                    let group = &groups[gi];
                    proof {
                        assert(gv[gi as int] == group@);
                    }
                    let extra_name = ExtraName::new(group.extra.as_str());
                    let m = group.requirements.len();
                    let mut j: usize = 0;
                    while j < m
                        invariant
                            0 <= j <= m,
                            0 <= gi < gn,
                            m == group.requirements@.len(),
                            gv[gi as int] == group@,
                            extra_name@ == normalized_of(group.extra@),
                            req_views(requires_dist@) + group_reqs(gv[gi as int]).skip(j as int)
                                + groups_flat(gv, gi + 1) =~= base_reqs(depsv) + groups_flat(
                                gv,
                                0,
                            ),
                        decreases m - j,
                    {
                        requires_dist.push(
                            Requirement {
                                verbatim: group.requirements[j].clone(),
                                extra: Some(extra_name.clone()),
                            },
                        );
                        j = j + 1;
                        proof {
                            assert(group_reqs(gv[gi as int])[j - 1] == (RequirementV {
                                verbatim: strings_view(group.requirements@)[j - 1],
                                extra: Some(normalized_of(group.extra@)),
                            }));
                            assert(req_views(requires_dist@) + group_reqs(gv[gi as int]).skip(
                                j as int,
                            ) + groups_flat(gv, gi + 1) =~= base_reqs(depsv) + groups_flat(gv, 0));
                        }
                    }
                    provides_extras.push(extra_name);
                    gi = gi + 1;
                    proof {
                        assert(extras_of(gv)[gi - 1] == normalized_of(group.extra@));
                        assert(extra_names_view(provides_extras@) =~= extras_of(gv).take(
                            gi as int,
                        ));
                        assert(group_reqs(gv[gi - 1]).skip(m as int)
                            =~= Seq::<RequirementV>::empty());
                        assert(req_views(requires_dist@) + groups_flat(gv, gi as int)
                            =~= base_reqs(depsv) + groups_flat(gv, 0));
                    }
                }
            },
            None => {},
        }
        proof {
            assert(groups_flat(gv, gv.len() as int) =~= Seq::<RequirementV>::empty());
            assert(req_views(requires_dist@) =~= base_reqs(depsv) + groups_flat(gv, 0));
            assert(extra_names_view(provides_extras@) =~= extras_of(gv));
        }

        let result = RequiresDist { name, requires_dist, provides_extras, dynamic: version_dynamic };
        proof {
            assert(result@ =~= spec_from_parts(Some(pv), manifest.has_poetry_tool)->Ok_0);
        }
        Ok(result)
    }
}

// ---------------------------------------------------------------------
// Reading a manifest with the `toml` crate. The parse is the only
// trusted step: its result is mirrored into the library as a value tree
// and named, so that the extractor's whole contract is a function of the
// manifest text. The reduction of the tree to plain values is verified.
// ---------------------------------------------------------------------

/// The `toml` crate's parse error, carried only to be mapped to
/// [`MetadataError::ConfigParse`].
#[verifier::external_type_specification]
#[verifier::external_body]
pub struct ExTomlDeError(toml::de::Error);

/// A parsed TOML value, read only inside the trusted mirror below.
#[verifier::external_type_specification]
#[verifier::external_body]
pub struct ExTomlValue(toml::Value);

/// The `toml` crate's table type, read only inside the trusted mirror
/// below.
#[verifier::external_type_specification]
#[verifier::external_body]
#[verifier::reject_recursive_types(K)]
#[verifier::reject_recursive_types(V)]
pub struct ExTomlMap<K, V>(toml::map::Map<K, V>);

/// A TOML value mirrored into the library: exactly the shapes the
/// extractor reads. Integers, floats, booleans and datetimes all mirror
/// to `Other`; the extractor rejects such a value wherever it needs a
/// string, an array or a table.
#[derive(Debug)]
pub enum TomlNode {
    Str(String),
    Arr(Vec<TomlNode>),
    Table(Vec<(String, TomlNode)>),
    Other,
}

/// Mathematical value of a [`TomlNode`].
#[verifier::ext_equal]
pub ghost enum TomlNodeV {
    Str(Seq<char>),
    Arr(Seq<TomlNodeV>),
    Table(Seq<(Seq<char>, TomlNodeV)>),
    Other,
}

pub open spec fn node_view(n: TomlNode) -> TomlNodeV
    decreases n,
{
    match n {
        TomlNode::Str(s) => TomlNodeV::Str(s@),
        TomlNode::Arr(items) => TomlNodeV::Arr(nodes_view(items@)),
        TomlNode::Table(entries) => TomlNodeV::Table(table_view(entries@)),
        TomlNode::Other => TomlNodeV::Other,
    }
}

pub open spec fn nodes_view(s: Seq<TomlNode>) -> Seq<TomlNodeV>
    decreases s,
{
    if s.len() == 0 {
        Seq::empty()
    } else {
        seq![node_view(s[0])] + nodes_view(s.subrange(1, s.len() as int))
    }
}

pub open spec fn table_view(s: Seq<(String, TomlNode)>) -> Seq<(Seq<char>, TomlNodeV)>
    decreases s,
{
    if s.len() == 0 {
        Seq::empty()
    } else {
        seq![(s[0].0@, node_view(s[0].1))] + table_view(s.subrange(1, s.len() as int))
    }
}

proof fn lemma_nodes_view_index(s: Seq<TomlNode>)
    ensures
        nodes_view(s).len() == s.len(),
        forall|i: int| 0 <= i < s.len() ==> nodes_view(s)[i] == node_view(s[i]),
    decreases s,
{
    if s.len() > 0 {
        lemma_nodes_view_index(s.subrange(1, s.len() as int));
        assert forall|i: int| 0 <= i < s.len() implies nodes_view(s)[i] == node_view(s[i]) by {
            if i > 0 {
                assert(nodes_view(s)[i] == nodes_view(s.subrange(1, s.len() as int))[i - 1]);
                assert(s.subrange(1, s.len() as int)[i - 1] == s[i]);
            }
        }
    }
}

proof fn lemma_table_view_index(s: Seq<(String, TomlNode)>)
    ensures
        table_view(s).len() == s.len(),
        forall|i: int| 0 <= i < s.len() ==> table_view(s)[i] == (s[i].0@, node_view(s[i].1)),
    decreases s,
{
    if s.len() > 0 {
        lemma_table_view_index(s.subrange(1, s.len() as int));
        assert forall|i: int| 0 <= i < s.len() implies table_view(s)[i] == (
            s[i].0@,
            node_view(s[i].1),
        ) by {
            if i > 0 {
                assert(table_view(s)[i] == table_view(s.subrange(1, s.len() as int))[i - 1]);
                assert(s.subrange(1, s.len() as int)[i - 1] == s[i]);
            }
        }
    }
}

/// The mirrored result of parsing manifest text: the document's root
/// table in declared key order, or nothing when the text is malformed.
/// The parse is a function of the text alone, so its result bears a
/// name; the contracts of the extractor are stated over it.
pub uninterp spec fn toml_doc_of(text: Seq<char>) -> Option<Seq<(Seq<char>, TomlNodeV)>>;

/// Relies on `toml::from_str`: parses manifest text, or fails on
/// malformed syntax. The mirrored result is `toml_doc_of` of the text;
/// table entries keep declared key order (the crate is built with
/// order-preserving tables).
#[verifier::external_body]
fn toml_parse(s: &str) -> (r: Result<Vec<(String, TomlNode)>, toml::de::Error>)
    ensures
        match r {
            Ok(doc) => toml_doc_of(s@) == Some(table_view(doc@)),
            Err(_) => toml_doc_of(s@) is None,
        },
{
    match toml::from_str::<toml::map::Map<String, toml::Value>>(s) {
        Ok(t) => Ok(convert_table(&t)),
        Err(e) => Err(e),
    }
}

/// Relies on `toml::Value`'s variants: mirrors one value, arm by arm,
/// moving the contents; every variant the extractor cannot read becomes
/// `Other`. Called only from the trusted parse above.
#[verifier::external_body]
fn convert_value(v: &toml::Value) -> TomlNode {
    match v {
        toml::Value::String(s) => TomlNode::Str(s.clone()),
        toml::Value::Array(items) => {
            let mut out = Vec::new();
            for item in items {
                out.push(convert_value(item));
            }
            TomlNode::Arr(out)
        },
        toml::Value::Table(t) => TomlNode::Table(convert_table(t)),
        _ => TomlNode::Other,
    }
}

/// Relies on `toml::map::Map::iter`: mirrors a table's entries, one for
/// one, in declared key order. Called only from the trusted parse above.
#[verifier::external_body]
fn convert_table(t: &toml::map::Map<String, toml::Value>) -> Vec<(String, TomlNode)> {
    let mut out = Vec::new();
    for (k, v) in t.iter() {
        out.push((k.clone(), convert_value(v)));
    }
    out
}

/// First value under this key, scanning from position `i`.
pub open spec fn lookup_from(
    t: Seq<(Seq<char>, TomlNodeV)>,
    key: Seq<char>,
    i: int,
) -> Option<TomlNodeV>
    decreases t.len() - i,
{
    if i < 0 || i >= t.len() {
        None
    } else if t[i].0 == key {
        Some(t[i].1)
    } else {
        lookup_from(t, key, i + 1)
    }
}

pub open spec fn spec_lookup(t: Seq<(Seq<char>, TomlNodeV)>, key: Seq<char>) -> Option<TomlNodeV> {
    lookup_from(t, key, 0)
}

#[verifier::loop_isolation(false)]
fn table_lookup<'a>(t: &'a Vec<(String, TomlNode)>, key: &String) -> (r: Option<&'a TomlNode>)
    ensures
        match r {
            Some(n) => spec_lookup(table_view(t@), key@) == Some(node_view(*n)),
            None => spec_lookup(table_view(t@), key@) is None,
        },
{
    proof {
        lemma_table_view_index(t@);
    }
    let ghost tv = table_view(t@);
    let n = t.len();
    let mut i: usize = 0;
    while i < n
        invariant
            0 <= i <= n,
            n == t@.len(),
            spec_lookup(tv, key@) == lookup_from(tv, key@, i as int),
        decreases n - i,
    {
        if t[i].0 == *key {
            return Some(&t[i].1);
        }
        i = i + 1;
    }
    None
}

/// The strings of an array node, read from position `i`: any element of
/// another shape makes the whole array unreadable.
pub open spec fn strings_from(items: Seq<TomlNodeV>, i: int) -> Option<Seq<Seq<char>>>
    decreases items.len() - i,
{
    if i < 0 || i >= items.len() {
        Some(Seq::empty())
    } else {
        match items[i] {
            TomlNodeV::Str(s) => match strings_from(items, i + 1) {
                Some(rest) => Some(seq![s] + rest),
                None => None,
            },
            _ => None,
        }
    }
}

/// A node read as an array of strings.
pub open spec fn spec_strings_of(v: TomlNodeV) -> Option<Seq<Seq<char>>> {
    match v {
        TomlNodeV::Arr(items) => strings_from(items, 0),
        _ => None,
    }
}

/// Reads an array of strings; any other shape is a
/// [`MetadataError::ConfigParse`].
#[verifier::loop_isolation(false)]
fn read_string_array(node: &TomlNode) -> (r: Result<Vec<String>, MetadataError>)
    ensures
        match r {
            Ok(out) => spec_strings_of(node_view(*node)) == Some(strings_view(out@)),
            Err(e) => e == MetadataError::ConfigParse && spec_strings_of(node_view(*node))
                is None,
        },
{
    let items = match node {
        TomlNode::Arr(items) => items,
        _ => {
            return Err(MetadataError::ConfigParse);
        },
    };
    proof {
        lemma_nodes_view_index(items@);
    }
    let ghost itemsv = nodes_view(items@);
    let mut out: Vec<String> = Vec::new();
    let n = items.len();
    let mut i: usize = 0;
    while i < n
        invariant
            0 <= i <= n,
            n == items@.len(),
            strings_from(itemsv, 0) == (match strings_from(itemsv, i as int) {
                Some(rest) => Some::<Seq<Seq<char>>>(strings_view(out@) + rest),
                None => None::<Seq<Seq<char>>>,
            }),
        decreases n - i,
    {
        match &items[i] {
            TomlNode::Str(s) => {
                out.push(s.clone());
            },
            _ => {
                return Err(MetadataError::ConfigParse);
            },
        }
        i = i + 1;
        proof {
            assert(strings_from(itemsv, 0) == (match strings_from(itemsv, i as int) {
                Some(rest) => Some::<Seq<Seq<char>>>(strings_view(out@) + rest),
                None => None::<Seq<Seq<char>>>,
            }));
        }
    }
    proof {
        assert(strings_view(out@) + Seq::<Seq<char>>::empty() =~= strings_view(out@));
    }
    Ok(out)
}

/// The optional-dependency groups of a table node, read from position
/// `i`: each value must be an array of strings.
pub open spec fn groups_from(
    entries: Seq<(Seq<char>, TomlNodeV)>,
    i: int,
) -> Option<Seq<RawOptionalGroupV>>
    decreases entries.len() - i,
{
    if i < 0 || i >= entries.len() {
        Some(Seq::empty())
    } else {
        match spec_strings_of(entries[i].1) {
            Some(requirements) => match groups_from(entries, i + 1) {
                Some(rest) => Some(
                    seq![RawOptionalGroupV { extra: entries[i].0, requirements }] + rest,
                ),
                None => None,
            },
            None => None,
        }
    }
}

/// A node read as a table of optional-dependency groups.
pub open spec fn spec_groups_of(v: TomlNodeV) -> Option<Seq<RawOptionalGroupV>> {
    match v {
        TomlNodeV::Table(entries) => groups_from(entries, 0),
        _ => None,
    }
}

/// Reads the optional-dependency groups, in declared key order.
#[verifier::loop_isolation(false)]
fn read_groups(node: &TomlNode) -> (r: Result<Vec<RawOptionalGroup>, MetadataError>)
    ensures
        match r {
            Ok(out) => spec_groups_of(node_view(*node)) == Some(groups_view(out@)),
            Err(e) => e == MetadataError::ConfigParse && spec_groups_of(node_view(*node)) is None,
        },
{
    let entries = match node {
        TomlNode::Table(entries) => entries,
        _ => {
            return Err(MetadataError::ConfigParse);
        },
    };
    proof {
        lemma_table_view_index(entries@);
    }
    let ghost ev = table_view(entries@);
    let mut out: Vec<RawOptionalGroup> = Vec::new();
    let n = entries.len();
    let mut i: usize = 0;
    while i < n
        invariant
            0 <= i <= n,
            n == entries@.len(),
            groups_from(ev, 0) == (match groups_from(ev, i as int) {
                Some(rest) => Some::<Seq<RawOptionalGroupV>>(groups_view(out@) + rest),
                None => None::<Seq<RawOptionalGroupV>>,
            }),
        decreases n - i,
    {
        let requirements = match read_string_array(&entries[i].1) {
            Ok(requirements) => requirements,
            Err(e) => {
                return Err(e);
            },
        };
        out.push(RawOptionalGroup { extra: entries[i].0.clone(), requirements });
        i = i + 1;
        proof {
            assert(groups_from(ev, 0) == (match groups_from(ev, i as int) {
                Some(rest) => Some::<Seq<RawOptionalGroupV>>(groups_view(out@) + rest),
                None => None::<Seq<RawOptionalGroupV>>,
            }));
        }
    }
    proof {
        assert(groups_view(out@) + Seq::<RawOptionalGroupV>::empty() =~= groups_view(out@));
    }
    Ok(out)
}

/// The project section of a root table, reduced to plain values: the
/// name must be a string; "dynamic" and "dependencies" arrays of
/// strings; "optional-dependencies" a table of such arrays. Any other
/// shape makes the manifest unreadable.
pub open spec fn spec_reduce_project(pt: Seq<(Seq<char>, TomlNodeV)>) -> Option<RawProjectV> {
    match spec_lookup(pt, "name"@) {
        Some(TomlNodeV::Str(name)) => {
            let dynamic = match spec_lookup(pt, "dynamic"@) {
                None => Some(Seq::<Seq<char>>::empty()),
                Some(v) => spec_strings_of(v),
            };
            match dynamic {
                None => None,
                Some(dynamic) => {
                    let deps = match spec_lookup(pt, "dependencies"@) {
                        None => Some(None::<Seq<Seq<char>>>),
                        Some(v) => match spec_strings_of(v) {
                            Some(d) => Some(Some(d)),
                            None => None,
                        },
                    };
                    match deps {
                        None => None,
                        Some(dependencies) => {
                            let groups = match spec_lookup(pt, "optional-dependencies"@) {
                                None => Some(None::<Seq<RawOptionalGroupV>>),
                                Some(v) => match spec_groups_of(v) {
                                    Some(g) => Some(Some(g)),
                                    None => None,
                                },
                            };
                            match groups {
                                None => None,
                                Some(optional_dependencies) => Some(
                                    RawProjectV { name, dynamic, dependencies, optional_dependencies },
                                ),
                            }
                        },
                    }
                },
            }
        },
        _ => None,
    }
}

/// A whole root table reduced to what the extractor reads: the legacy
/// alternate section's presence under "tool.poetry", and the project
/// section, if any.
pub open spec fn spec_reduce(doc: Seq<(Seq<char>, TomlNodeV)>) -> Option<RawManifestV> {
    let poetry = match spec_lookup(doc, "tool"@) {
        None => Some(false),
        Some(TomlNodeV::Table(tool)) => match spec_lookup(tool, "poetry"@) {
            None => Some(false),
            Some(TomlNodeV::Table(_)) => Some(true),
            Some(_) => None,
        },
        Some(_) => None,
    };
    match poetry {
        None => None,
        Some(has_poetry_tool) => match spec_lookup(doc, "project"@) {
            None => Some(RawManifestV { project: None, has_poetry_tool }),
            Some(TomlNodeV::Table(pt)) => match spec_reduce_project(pt) {
                None => None,
                Some(p) => Some(RawManifestV { project: Some(p), has_poetry_tool }),
            },
            Some(_) => None,
        },
    }
}

/// Reduces a mirrored root table to the plain values the extractor
/// reads. A field of the wrong shape is a [`MetadataError::ConfigParse`].
fn raw_from_table(doc: &Vec<(String, TomlNode)>) -> (r: Result<RawManifest, MetadataError>)
    ensures
        match r {
            Ok(m) => spec_reduce(table_view(doc@)) == Some(m@),
            Err(e) => e == MetadataError::ConfigParse && spec_reduce(table_view(doc@)) is None,
        },
{
    let tool_key: String = "tool".to_owned();
    let poetry_key: String = "poetry".to_owned();
    let project_key: String = "project".to_owned();
    let name_key: String = "name".to_owned();
    let dynamic_key: String = "dynamic".to_owned();
    let dependencies_key: String = "dependencies".to_owned();
    let optional_key: String = "optional-dependencies".to_owned();

    // The legacy alternate dependency section: `tool.poetry`.
    let has_poetry_tool = match table_lookup(doc, &tool_key) {
        None => false,
        Some(TomlNode::Table(tool)) => match table_lookup(tool, &poetry_key) {
            None => false,
            Some(TomlNode::Table(_)) => true,
            Some(_) => {
                return Err(MetadataError::ConfigParse);
            },
        },
        Some(_) => {
            return Err(MetadataError::ConfigParse);
        },
    };

    let pt = match table_lookup(doc, &project_key) {
        None => {
            return Ok(RawManifest { project: None, has_poetry_tool });
        },
        Some(TomlNode::Table(pt)) => pt,
        Some(_) => {
            return Err(MetadataError::ConfigParse);
        },
    };

    let name = match table_lookup(pt, &name_key) {
        Some(TomlNode::Str(name)) => name.clone(),
        _ => {
            return Err(MetadataError::ConfigParse);
        },
    };

    let dynamic = match table_lookup(pt, &dynamic_key) {
        None => Vec::new(),
        Some(v) => match read_string_array(v) {
            Ok(d) => d,
            Err(e) => {
                return Err(e);
            },
        },
    };

    let dependencies = match table_lookup(pt, &dependencies_key) {
        None => None,
        Some(v) => match read_string_array(v) {
            Ok(d) => Some(d),
            Err(e) => {
                return Err(e);
            },
        },
    };

    let optional_dependencies = match table_lookup(pt, &optional_key) {
        None => None,
        Some(v) => match read_groups(v) {
            Ok(g) => Some(g),
            Err(e) => {
                return Err(e);
            },
        },
    };

    let result = RawManifest {
        project: Some(RawProject { name, dynamic, dependencies, optional_dependencies }),
        has_poetry_tool,
    };
    proof {
        assert(result@.project->Some_0 =~= spec_reduce_project(
            spec_lookup(table_view(doc@), "project"@)->Some_0->Table_0,
        )->Some_0);
    }
    Ok(result)
}

/// The whole extractor as a function of the manifest text: malformed
/// text is a [`MetadataError::ConfigParse`]; a readable document is
/// reduced to plain values and extracted by [`spec_from_parts`]. Equal
/// text always gives an equal result.
pub open spec fn spec_parse_pyproject_toml(text: Seq<char>) -> Result<
    RequiresDistV,
    MetadataError,
> {
    match toml_doc_of(text) {
        None => Err(MetadataError::ConfigParse),
        Some(doc) => match spec_reduce(doc) {
            None => Err(MetadataError::ConfigParse),
            Some(m) => spec_from_parts(m.project, m.has_poetry_tool),
        },
    }
}

impl RequiresDist {
    /// Extracts the canonical requirement set from manifest text:
    /// exactly [`spec_parse_pyproject_toml`] of the text. Success is
    /// owed precisely when the named parse and the shape reduction
    /// succeed and the extractor accepts the plain values; malformed
    /// text is a [`MetadataError::ConfigParse`].
    pub fn parse_pyproject_toml(contents: &str) -> (r: Result<RequiresDist, MetadataError>)
        ensures
            extraction_view(r) == spec_parse_pyproject_toml(contents@),
    {
        let doc = match toml_parse(contents) {
            Ok(doc) => doc,
            Err(_) => {
                return Err(MetadataError::ConfigParse);
            },
        };
        let raw = match raw_from_table(&doc) {
            Ok(raw) => raw,
            Err(e) => {
                return Err(e);
            },
        };
        let ghost rawv = raw@;
        let result = Self::from_parts(raw);
        proof {
            assert(extraction_view(result) == spec_from_parts(rawv.project, rawv.has_poetry_tool));
        }
        result
    }
}

} // verus!
