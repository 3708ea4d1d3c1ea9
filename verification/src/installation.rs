//! Realm-aware installation planning: the decision table that turns one
//! dependency edge into link-file text, and the whole-install link plan over
//! a resolved graph.
//!
//! Three realms segment where code runs: shared, server and dev.  A link
//! within one realm requires the dependency relative to that realm's index; a
//! link that crosses into the server or shared index requires it through an
//! externally configured absolute root, and fails with a configuration error
//! naming the missing setting when that root was never supplied; dev-realm
//! code must never be required by a non-dev dependent, which is always a
//! fatal realm violation.
//!
//! The library computes paths and file contents as plain values; writing
//! them to disk, and the concurrent download/unpack/extract phase that must
//! complete first, live outside it.

use vstd::prelude::*;

use crate::extract_types::{ExportStatementV, ExtractTypesResult, format_spec};
use vstd::string::StringExecFns;

verus! {

/// Execution realm a package's code is intended for.
#[derive(Clone, Copy, Debug, PartialEq, Eq, Structural)]
pub enum Realm {
    Shared,
    Server,
    Dev,
}

/// Mathematical value of a [`PackageId`].
pub struct PackageIdV {
    pub scope: Seq<char>,
    pub name: Seq<char>,
    pub version: Seq<char>,
}

/// A package identity: scope, name and exact version, globally unique within
/// one install.
#[derive(Clone)]
pub struct PackageId {
    pub scope: String,
    pub name: String,
    pub version: String,
}

impl View for PackageId {
    type V = PackageIdV;

    open spec fn view(&self) -> PackageIdV {
        PackageIdV { scope: self.scope@, name: self.name@, version: self.version@ }
    }
}

impl PackageId {
    /// Whether two identities denote the same package version.
    pub fn same_id(&self, other: &PackageId) -> (r: bool)
        ensures
            r == (self@ == other@),
    {
        let r = self.scope.eq(&other.scope) && self.name.eq(&other.name) && self.version.eq(
            &other.version,
        );
        proof {
            if self@ == other@ {
                assert(self.scope@ == other.scope@);
                assert(self.name@ == other.name@);
                assert(self.version@ == other.version@);
            }
        }
        r
    }
}

/// The directory name holding one package version: `scope_name@version`,
/// collision-free across versions.
pub open spec fn package_id_file_name_spec(id: PackageIdV) -> Seq<char> {
    id.scope + "_"@ + id.name + "@"@ + id.version
}

/// Derives the directory name used in every path that refers to `id`.
pub fn package_id_file_name(id: &PackageId) -> (r: String)
    ensures
        r@ == package_id_file_name_spec(id@),
{
    let mut out = String::new();
    out.append(id.scope.as_str());
    out.append("_");
    out.append(id.name.as_str());
    out.append("@");
    out.append(id.version.as_str());
    proof {
        assert(out@ =~= package_id_file_name_spec(id@));
    }
    out
}

/// The view of an optional configured path.
pub open spec fn opt_view(o: Option<String>) -> Option<Seq<char>> {
    match o {
        Some(s) => Some(s@),
        None => None,
    }
}

/// Mathematical value of an [`InstallationContext`].
pub struct InstallationContextV {
    pub shared_dir: Seq<char>,
    pub shared_index_dir: Seq<char>,
    pub shared_path: Option<Seq<char>>,
    pub server_dir: Seq<char>,
    pub server_index_dir: Seq<char>,
    pub server_path: Option<Seq<char>>,
    pub dev_dir: Seq<char>,
    pub dev_index_dir: Seq<char>,
}

/// The six realm/index root paths derived once from a project root, plus the
/// externally configured absolute roots used only by cross-realm links.
/// Immutable for the duration of an install.
#[derive(Clone)]
pub struct InstallationContext {
    pub shared_dir: String,
    pub shared_index_dir: String,
    pub shared_path: Option<String>,
    pub server_dir: String,
    pub server_index_dir: String,
    pub server_path: Option<String>,
    pub dev_dir: String,
    pub dev_index_dir: String,
}

impl View for InstallationContext {
    type V = InstallationContextV;

    open spec fn view(&self) -> InstallationContextV {
        InstallationContextV {
            shared_dir: self.shared_dir@,
            shared_index_dir: self.shared_index_dir@,
            shared_path: opt_view(self.shared_path),
            server_dir: self.server_dir@,
            server_index_dir: self.server_index_dir@,
            server_path: opt_view(self.server_path),
            dev_dir: self.dev_dir@,
            dev_index_dir: self.dev_index_dir@,
        }
    }
}

impl InstallationContext {
    /// Creates the context for the project at `project_path`: three realm
    /// roots (`Packages`, `ServerPackages`, `DevPackages`), each with an
    /// `_Index` directory for installed package versions.
    pub fn new(project_path: &str, shared_path: Option<String>, server_path: Option<String>) -> (r:
        Self)
        ensures
            r@.shared_dir == project_path@ + "/Packages"@,
            r@.server_dir == project_path@ + "/ServerPackages"@,
            r@.dev_dir == project_path@ + "/DevPackages"@,
            r@.shared_index_dir == r@.shared_dir + "/_Index"@,
            r@.server_index_dir == r@.server_dir + "/_Index"@,
            r@.dev_index_dir == r@.dev_dir + "/_Index"@,
            r@.shared_path == opt_view(shared_path),
            r@.server_path == opt_view(server_path),
    {
        let mut shared_dir = String::new();
        shared_dir.append(project_path);
        shared_dir.append("/Packages");
        let mut server_dir = String::new();
        server_dir.append(project_path);
        server_dir.append("/ServerPackages");
        let mut dev_dir = String::new();
        dev_dir.append(project_path);
        dev_dir.append("/DevPackages");
        let mut shared_index_dir = shared_dir.clone();
        shared_index_dir.append("/_Index");
        let mut server_index_dir = server_dir.clone();
        server_index_dir.append("/_Index");
        let mut dev_index_dir = dev_dir.clone();
        dev_index_dir.append("/_Index");
        let r = InstallationContext {
            shared_dir,
            shared_index_dir,
            shared_path,
            server_dir,
            server_index_dir,
            server_path,
            dev_dir,
            dev_index_dir,
        };
        proof {
            assert(r@.shared_dir =~= project_path@ + "/Packages"@);
            assert(r@.server_dir =~= project_path@ + "/ServerPackages"@);
            assert(r@.dev_dir =~= project_path@ + "/DevPackages"@);
        }
        r
    }
}

/// Why link planning failed.
#[derive(Clone, Copy, Debug, PartialEq, Eq, Structural)]
pub enum InstallError {
    /// A server or dev dependent requires a shared dependency, but the
    /// shared-packages root was never configured.
    MissingSharedPlacePath,
    /// A dev dependent requires a server dependency, but the server-packages
    /// root was never configured.
    MissingServerPlacePath,
    /// A dev-realm dependency is required by a non-dev dependent.
    DevDependencyViolation,
}

/// The message reported for each planning error.  The configuration errors
/// name the exact setting to add.
pub open spec fn install_error_message_spec(e: InstallError) -> Seq<char> {
    match e {
        InstallError::MissingSharedPlacePath => "A server or dev dependency is depending on a shared dependency.\nTo link these packages correctly you must declare where shared\npackages are placed in the roblox datamodel in your wally.toml.\n\nThis typically looks like:\n\n[place]\nshared-packages = \"game.ReplicatedStorage.Packages\"\n"@,
        InstallError::MissingServerPlacePath => "A dev dependency is depending on a server dependency.\nTo link these packages correctly you must declare where server\npackages are placed in the roblox datamodel in your wally.toml.\n\nThis typically looks like:\n\n[place]\nserver-packages = \"game.ServerScriptService.Packages\"\n"@,
        InstallError::DevDependencyViolation => "A dev dependency cannot be depended upon by a non-dev dependency"@,
    }
}

impl InstallError {
    /// Renders this error's message.
    pub fn message(&self) -> (r: String)
        ensures
            r@ == install_error_message_spec(*self),
    {
        match self {
            InstallError::MissingSharedPlacePath => String::from_str(
                "A server or dev dependency is depending on a shared dependency.\nTo link these packages correctly you must declare where shared\npackages are placed in the roblox datamodel in your wally.toml.\n\nThis typically looks like:\n\n[place]\nshared-packages = \"game.ReplicatedStorage.Packages\"\n",
            ),
            InstallError::MissingServerPlacePath => String::from_str(
                "A dev dependency is depending on a server dependency.\nTo link these packages correctly you must declare where server\npackages are placed in the roblox datamodel in your wally.toml.\n\nThis typically looks like:\n\n[place]\nserver-packages = \"game.ServerScriptService.Packages\"\n",
            ),
            InstallError::DevDependencyViolation => String::from_str(
                "A dev dependency cannot be depended upon by a non-dev dependency",
            ),
        }
    }
}

// ---------------------------------------------------------------------------
// Link-file contents
// ---------------------------------------------------------------------------

/// Contents of a package-to-package link within the same index: the sibling
/// is reached by stepping up two levels into its own slot.  With no exported
/// types the file is a single `return require(...)` line; otherwise the
/// required value is bound, each forwarding line appended, and the binding
/// returned.
pub open spec fn sibling_link_spec(id: PackageIdV, exports: Seq<ExportStatementV>) -> Seq<char> {
    if exports.len() == 0 {
        "return require(script.Parent.Parent[\""@ + package_id_file_name_spec(id) + "\"][\""@
            + id.name + "\"])\n"@
    } else {
        "local MODULE = require(script.Parent.Parent[\""@ + package_id_file_name_spec(id)
            + "\"][\""@ + id.name + "\"])\n"@ + format_spec(exports, "MODULE"@)
            + "\nreturn MODULE\n"@
    }
}

/// Contents of a root-to-package link: the dependency is reached directly
/// through the realm's `_Index`.
pub open spec fn root_link_spec(id: PackageIdV, exports: Seq<ExportStatementV>) -> Seq<char> {
    if exports.len() == 0 {
        "return require(script.Parent._Index[\""@ + package_id_file_name_spec(id) + "\"][\""@
            + id.name + "\"])\n"@
    } else {
        "local MODULE = require(script.Parent._Index[\""@ + package_id_file_name_spec(id)
            + "\"][\""@ + id.name + "\"])\n"@ + format_spec(exports, "MODULE"@)
            + "\nreturn MODULE\n"@
    }
}

/// Contents of a cross-realm link through a configured absolute root
/// `packages`.
pub open spec fn index_link_spec(
    packages: Seq<char>,
    id: PackageIdV,
    exports: Seq<ExportStatementV>,
) -> Seq<char> {
    if exports.len() == 0 {
        "return require("@ + packages + "._Index[\""@ + package_id_file_name_spec(id) + "\"][\""@
            + id.name + "\"])\n"@
    } else {
        "local MODULE = require("@ + packages + "._Index[\""@ + package_id_file_name_spec(id)
            + "\"][\""@ + id.name + "\"])\n"@ + format_spec(exports, "MODULE"@)
            + "\nreturn MODULE\n"@
    }
}

/// A cross-realm link into the shared index: succeeds exactly when the
/// shared-packages root is configured.
pub open spec fn shared_index_link_spec(
    ctx: InstallationContextV,
    id: PackageIdV,
    exports: Seq<ExportStatementV>,
) -> Result<Seq<char>, InstallError> {
    match ctx.shared_path {
        Some(p) => Ok(index_link_spec(p, id, exports)),
        None => Err(InstallError::MissingSharedPlacePath),
    }
}

/// A cross-realm link into the server index: succeeds exactly when the
/// server-packages root is configured.
pub open spec fn server_index_link_spec(
    ctx: InstallationContextV,
    id: PackageIdV,
    exports: Seq<ExportStatementV>,
) -> Result<Seq<char>, InstallError> {
    match ctx.server_path {
        Some(p) => Ok(index_link_spec(p, id, exports)),
        None => Err(InstallError::MissingServerPlacePath),
    }
}

/// How an executable link result realises its specified value.
pub open spec fn link_result_matches(
    r: Result<String, InstallError>,
    s: Result<Seq<char>, InstallError>,
) -> bool {
    match (r, s) {
        (Ok(c), Ok(cs)) => c@ == cs,
        (Err(e1), Err(e2)) => e1 == e2,
        _ => false,
    }
}

/// Link-file contents for one dependency edge, by the decision table over
/// (dependent realm, dependency realm).  All nine cases, spelled out: equal
/// realms require within the index; a differing server or shared dependency
/// realm requires through the configured root; a dev dependency under a
/// non-dev dependent is always a realm violation.
pub open spec fn edge_link_spec(
    ctx: InstallationContextV,
    dependent_realm: Realm,
    dependent_is_root: bool,
    dep: PackageIdV,
    dep_realm: Realm,
    exports: Seq<ExportStatementV>,
) -> Result<Seq<char>, InstallError> {
    let same_index = if dependent_is_root {
        root_link_spec(dep, exports)
    } else {
        sibling_link_spec(dep, exports)
    };
    match (dependent_realm, dep_realm) {
        (Realm::Shared, Realm::Shared) => Ok(same_index),
        (Realm::Server, Realm::Server) => Ok(same_index),
        (Realm::Dev, Realm::Dev) => Ok(same_index),
        (Realm::Shared, Realm::Server) => server_index_link_spec(ctx, dep, exports),
        (Realm::Dev, Realm::Server) => server_index_link_spec(ctx, dep, exports),
        (Realm::Server, Realm::Shared) => shared_index_link_spec(ctx, dep, exports),
        (Realm::Dev, Realm::Shared) => shared_index_link_spec(ctx, dep, exports),
        (Realm::Shared, Realm::Dev) => Err(InstallError::DevDependencyViolation),
        (Realm::Server, Realm::Dev) => Err(InstallError::DevDependencyViolation),
    }
}

impl InstallationContext {
    /// Contents of a package-to-package link within the same index.
    pub fn link_sibling_same_index(&self, id: &PackageId, exports: &ExtractTypesResult) -> (r:
        String)
        ensures
            r@ == sibling_link_spec(id@, exports@),
    {
        let full_name = package_id_file_name(id);
        let mut out = String::new();
        if exports.is_empty() {
            out.append("return require(script.Parent.Parent[\"");
            out.append(full_name.as_str());
            out.append("\"][\"");
            out.append(id.name.as_str());
            out.append("\"])\n");
        } else {
            out.append("local MODULE = require(script.Parent.Parent[\"");
            out.append(full_name.as_str());
            out.append("\"][\"");
            out.append(id.name.as_str());
            out.append("\"])\n");
            let fwd = exports.format_forwarding_statements("MODULE");
            out.append(fwd.as_str());
            out.append("\nreturn MODULE\n");
        }
        proof {
            assert(out@ =~= sibling_link_spec(id@, exports@));
        }
        out
    }

    /// Contents of a root-to-package link within the same index.
    pub fn link_root_same_index(&self, id: &PackageId, exports: &ExtractTypesResult) -> (r: String)
        ensures
            r@ == root_link_spec(id@, exports@),
    {
        let full_name = package_id_file_name(id);
        let mut out = String::new();
        if exports.is_empty() {
            out.append("return require(script.Parent._Index[\"");
            out.append(full_name.as_str());
            out.append("\"][\"");
            out.append(id.name.as_str());
            out.append("\"])\n");
        } else {
            out.append("local MODULE = require(script.Parent._Index[\"");
            out.append(full_name.as_str());
            out.append("\"][\"");
            out.append(id.name.as_str());
            out.append("\"])\n");
            let fwd = exports.format_forwarding_statements("MODULE");
            out.append(fwd.as_str());
            out.append("\nreturn MODULE\n");
        }
        proof {
            assert(out@ =~= root_link_spec(id@, exports@));
        }
        out
    }

    /// Contents of a link into the shared index from outside the shared
    /// realm; fails when the shared-packages root is not configured.
    pub fn link_shared_index(&self, id: &PackageId, exports: &ExtractTypesResult) -> (r: Result<
        String,
        InstallError,
    >)
        ensures
            link_result_matches(r, shared_index_link_spec(self@, id@, exports@)),
    {
        match &self.shared_path {
            Some(p) => Ok(self.link_configured_index(p, id, exports)),
            None => Err(InstallError::MissingSharedPlacePath),
        }
    }

    /// Contents of a link into the server index from outside the server
    /// realm; fails when the server-packages root is not configured.
    pub fn link_server_index(&self, id: &PackageId, exports: &ExtractTypesResult) -> (r: Result<
        String,
        InstallError,
    >)
        ensures
            link_result_matches(r, server_index_link_spec(self@, id@, exports@)),
    {
        match &self.server_path {
            Some(p) => Ok(self.link_configured_index(p, id, exports)),
            None => Err(InstallError::MissingServerPlacePath),
        }
    }

    /// Contents of a cross-realm link through the configured root
    /// `packages`.
    fn link_configured_index(&self, packages: &String, id: &PackageId, exports:
        &ExtractTypesResult) -> (r: String)
        ensures
            r@ == index_link_spec(packages@, id@, exports@),
    {
        let full_name = package_id_file_name(id);
        let mut out = String::new();
        if exports.is_empty() {
            out.append("return require(");
            out.append(packages.as_str());
            out.append("._Index[\"");
            out.append(full_name.as_str());
            out.append("\"][\"");
            out.append(id.name.as_str());
            out.append("\"])\n");
        } else {
            out.append("local MODULE = require(");
            out.append(packages.as_str());
            out.append("._Index[\"");
            out.append(full_name.as_str());
            out.append("\"][\"");
            out.append(id.name.as_str());
            out.append("\"])\n");
            let fwd = exports.format_forwarding_statements("MODULE");
            out.append(fwd.as_str());
            out.append("\nreturn MODULE\n");
        }
        proof {
            assert(out@ =~= index_link_spec(packages@, id@, exports@));
        }
        out
    }

    /// Link-file contents for one dependency edge: the explicit match over
    /// the nine (dependent realm, dependency realm) cases.
    pub fn edge_link_contents(
        &self,
        dependent_realm: Realm,
        dependent_is_root: bool,
        dep_id: &PackageId,
        dep_realm: Realm,
        exports: &ExtractTypesResult,
    ) -> (r: Result<String, InstallError>)
        ensures
            link_result_matches(
                r,
                edge_link_spec(
                    self@,
                    dependent_realm,
                    dependent_is_root,
                    dep_id@,
                    dep_realm,
                    exports@,
                ),
            ),
    {
        match (dependent_realm, dep_realm) {
            (Realm::Shared, Realm::Shared) => Ok(self.link_same_index(
                dependent_is_root,
                dep_id,
                exports,
            )),
            (Realm::Server, Realm::Server) => Ok(self.link_same_index(
                dependent_is_root,
                dep_id,
                exports,
            )),
            (Realm::Dev, Realm::Dev) => Ok(self.link_same_index(
                dependent_is_root,
                dep_id,
                exports,
            )),
            (Realm::Shared, Realm::Server) => self.link_server_index(dep_id, exports),
            (Realm::Dev, Realm::Server) => self.link_server_index(dep_id, exports),
            (Realm::Server, Realm::Shared) => self.link_shared_index(dep_id, exports),
            (Realm::Dev, Realm::Shared) => self.link_shared_index(dep_id, exports),
            (Realm::Shared, Realm::Dev) => Err(InstallError::DevDependencyViolation),
            (Realm::Server, Realm::Dev) => Err(InstallError::DevDependencyViolation),
        }
    }

    /// Same-realm link contents, root or sibling form.
    fn link_same_index(&self, dependent_is_root: bool, id: &PackageId, exports:
        &ExtractTypesResult) -> (r: String)
        ensures
            r@ == (if dependent_is_root {
                root_link_spec(id@, exports@)
            } else {
                sibling_link_spec(id@, exports@)
            }),
    {
        if dependent_is_root {
            self.link_root_same_index(id, exports)
        } else {
            self.link_sibling_same_index(id, exports)
        }
    }
}

// ---------------------------------------------------------------------------
// The resolved graph, and lookups over it
// ---------------------------------------------------------------------------

/// Mathematical value of a [`PackageMetadata`].
pub struct PackageMetadataV {
    pub origin_realm: Realm,
    pub source_registry: Seq<char>,
}

/// Per-package facts from resolution: the realm its code runs in, and a
/// reference to the registry that serves it.
pub struct PackageMetadata {
    pub origin_realm: Realm,
    pub source_registry: String,
}

impl View for PackageMetadata {
    type V = PackageMetadataV;

    open spec fn view(&self) -> PackageMetadataV {
        PackageMetadataV {
            origin_realm: self.origin_realm,
            source_registry: self.source_registry@,
        }
    }
}

/// Mathematical value of a [`Dependency`].
pub struct DependencyV {
    pub alias: Seq<char>,
    pub package_id: PackageIdV,
}

/// One dependency edge: the alias the dependent uses for it, and the
/// dependency's identity.
pub struct Dependency {
    pub alias: String,
    pub package_id: PackageId,
}

impl View for Dependency {
    type V = DependencyV;

    open spec fn view(&self) -> DependencyV {
        DependencyV { alias: self.alias@, package_id: self.package_id@ }
    }
}

/// Mathematical value of a [`MetadataEntry`].
pub struct MetadataEntryV {
    pub package_id: PackageIdV,
    pub metadata: PackageMetadataV,
}

/// One row of the metadata table.
pub struct MetadataEntry {
    pub package_id: PackageId,
    pub metadata: PackageMetadata,
}

impl View for MetadataEntry {
    type V = MetadataEntryV;

    open spec fn view(&self) -> MetadataEntryV {
        MetadataEntryV { package_id: self.package_id@, metadata: self.metadata@ }
    }
}

/// Mathematical value of a [`DependencyListEntry`].
pub struct DependencyListEntryV {
    pub dependent: PackageIdV,
    pub dependencies: Seq<DependencyV>,
}

/// One row of a realm's dependency map: a dependent and its ordered edges.
pub struct DependencyListEntry {
    pub dependent: PackageId,
    pub dependencies: Vec<Dependency>,
}

impl View for DependencyListEntry {
    type V = DependencyListEntryV;

    open spec fn view(&self) -> DependencyListEntryV {
        DependencyListEntryV {
            dependent: self.dependent@,
            dependencies: self.dependencies@.map_values(|d: Dependency| d@),
        }
    }
}

/// Mathematical value of a [`TypesEntry`].
pub struct TypesEntryV {
    pub package_id: PackageIdV,
    pub types: Seq<ExportStatementV>,
}

/// One row of the extraction-result lookup built at the join barrier.
pub struct TypesEntry {
    pub package_id: PackageId,
    pub types: ExtractTypesResult,
}

impl View for TypesEntry {
    type V = TypesEntryV;

    open spec fn view(&self) -> TypesEntryV {
        TypesEntryV { package_id: self.package_id@, types: self.types@ }
    }
}

/// Mathematical value of a [`Resolution`].
pub struct ResolutionV {
    pub activated: Seq<PackageIdV>,
    pub metadata: Seq<MetadataEntryV>,
    pub shared_dependencies: Seq<DependencyListEntryV>,
    pub server_dependencies: Seq<DependencyListEntryV>,
    pub dev_dependencies: Seq<DependencyListEntryV>,
}

/// The resolved graph, consumed read-only: the activated identities, their
/// metadata, and the three realm dependency maps.
pub struct Resolution {
    pub activated: Vec<PackageId>,
    pub metadata: Vec<MetadataEntry>,
    pub shared_dependencies: Vec<DependencyListEntry>,
    pub server_dependencies: Vec<DependencyListEntry>,
    pub dev_dependencies: Vec<DependencyListEntry>,
}

impl View for Resolution {
    type V = ResolutionV;

    open spec fn view(&self) -> ResolutionV {
        ResolutionV {
            activated: self.activated@.map_values(|p: PackageId| p@),
            metadata: self.metadata@.map_values(|e: MetadataEntry| e@),
            shared_dependencies: self.shared_dependencies@.map_values(
                |e: DependencyListEntry| e@,
            ),
            server_dependencies: self.server_dependencies@.map_values(
                |e: DependencyListEntry| e@,
            ),
            dev_dependencies: self.dev_dependencies@.map_values(|e: DependencyListEntry| e@),
        }
    }
}

/// The view of the extraction-result table.
pub open spec fn types_view(v: Seq<TypesEntry>) -> Seq<TypesEntryV> {
    v.map_values(|t: TypesEntry| t@)
}

/// First metadata row for `id`, if any.
pub open spec fn lookup_metadata(entries: Seq<MetadataEntryV>, id: PackageIdV) -> Option<
    PackageMetadataV,
>
    decreases entries.len(),
{
    if entries.len() == 0 {
        None
    } else if entries[0].package_id == id {
        Some(entries[0].metadata)
    } else {
        lookup_metadata(entries.drop_first(), id)
    }
}

/// First extraction-result row for `id`, if any.
pub open spec fn lookup_types(entries: Seq<TypesEntryV>, id: PackageIdV) -> Option<
    Seq<ExportStatementV>,
>
    decreases entries.len(),
{
    if entries.len() == 0 {
        None
    } else if entries[0].package_id == id {
        Some(entries[0].types)
    } else {
        lookup_types(entries.drop_first(), id)
    }
}

/// First dependency list for `id` in one realm map, if any.
pub open spec fn lookup_dependencies(entries: Seq<DependencyListEntryV>, id: PackageIdV) -> Option<
    Seq<DependencyV>,
>
    decreases entries.len(),
{
    if entries.len() == 0 {
        None
    } else if entries[0].dependent == id {
        Some(entries[0].dependencies)
    } else {
        lookup_dependencies(entries.drop_first(), id)
    }
}

/// A missing dependency list means no edges.
pub open spec fn deps_or_empty(entries: Seq<DependencyListEntryV>, id: PackageIdV) -> Seq<
    DependencyV,
> {
    match lookup_dependencies(entries, id) {
        Some(d) => d,
        None => Seq::empty(),
    }
}

fn find_metadata<'a>(entries: &'a Vec<MetadataEntry>, id: &PackageId) -> (r: Option<
    &'a PackageMetadata,
>)
    ensures
        (match r {
            Some(m) => lookup_metadata(entries@.map_values(|e: MetadataEntry| e@), id@) == Some(
                m@,
            ),
            None => lookup_metadata(entries@.map_values(|e: MetadataEntry| e@), id@) is None,
        }),
{
    let ghost all = entries@.map_values(|e: MetadataEntry| e@);
    proof {
        assert(all.skip(0) =~= all);
    }
    let n = entries.len();
    let mut k: usize = 0;
    while k < n
        invariant
            k <= n,
            n == entries@.len(),
            lookup_metadata(all, id@) == lookup_metadata(all.skip(k as int), id@),
        decreases n - k,
    {
        if entries[k].package_id.same_id(id) {
            proof {
                assert(all.skip(k as int)[0] == entries@[k as int]@);
                assert(lookup_metadata(all.skip(k as int), id@) == Some(
                    entries@[k as int]@.metadata,
                ));
            }
            return Some(&entries[k].metadata);
        }
        k += 1;
        proof {
            assert(all.skip(k as int - 1)[0] == entries@[k as int - 1]@);
            assert(all.skip(k as int - 1).drop_first() =~= all.skip(k as int));
        }
    }
    proof {
        assert(all.skip(n as int) =~= Seq::<MetadataEntryV>::empty());
    }
    None
}

fn find_types<'a>(entries: &'a Vec<TypesEntry>, id: &PackageId) -> (r: Option<
    &'a ExtractTypesResult,
>)
    ensures
        (match r {
            Some(t) => lookup_types(types_view(entries@), id@) == Some(t@),
            None => lookup_types(types_view(entries@), id@) is None,
        }),
{
    let ghost all = types_view(entries@);
    proof {
        assert(all.skip(0) =~= all);
    }
    let n = entries.len();
    let mut k: usize = 0;
    while k < n
        invariant
            k <= n,
            n == entries@.len(),
            lookup_types(all, id@) == lookup_types(all.skip(k as int), id@),
        decreases n - k,
    {
        if entries[k].package_id.same_id(id) {
            proof {
                assert(all.skip(k as int)[0] == entries@[k as int]@);
                assert(lookup_types(all.skip(k as int), id@) == Some(entries@[k as int]@.types));
            }
            return Some(&entries[k].types);
        }
        k += 1;
        proof {
            assert(all.skip(k as int - 1)[0] == entries@[k as int - 1]@);
            assert(all.skip(k as int - 1).drop_first() =~= all.skip(k as int));
        }
    }
    proof {
        assert(all.skip(n as int) =~= Seq::<TypesEntryV>::empty());
    }
    None
}

fn find_dependencies<'a>(entries: &'a Vec<DependencyListEntry>, id: &PackageId) -> (r: Option<
    &'a Vec<Dependency>,
>)
    ensures
        (match r {
            Some(d) => lookup_dependencies(
                entries@.map_values(|e: DependencyListEntry| e@),
                id@,
            ) == Some(d@.map_values(|q: Dependency| q@)),
            None => lookup_dependencies(
                entries@.map_values(|e: DependencyListEntry| e@),
                id@,
            ) is None,
        }),
{
    let ghost all = entries@.map_values(|e: DependencyListEntry| e@);
    proof {
        assert(all.skip(0) =~= all);
    }
    let n = entries.len();
    let mut k: usize = 0;
    while k < n
        invariant
            k <= n,
            n == entries@.len(),
            lookup_dependencies(all, id@) == lookup_dependencies(all.skip(k as int), id@),
        decreases n - k,
    {
        if entries[k].dependent.same_id(id) {
            proof {
                assert(all.skip(k as int)[0] == entries@[k as int]@);
                assert(lookup_dependencies(all.skip(k as int), id@) == Some(
                    entries@[k as int]@.dependencies,
                ));
            }
            return Some(&entries[k].dependencies);
        }
        k += 1;
        proof {
            assert(all.skip(k as int - 1)[0] == entries@[k as int - 1]@);
            assert(all.skip(k as int - 1).drop_first() =~= all.skip(k as int));
        }
    }
    proof {
        assert(all.skip(n as int) =~= Seq::<DependencyListEntryV>::empty());
    }
    None
}

// ---------------------------------------------------------------------------
// The link plan
// ---------------------------------------------------------------------------

/// Mathematical value of a [`LinkFile`].
pub struct LinkFileV {
    pub path: Seq<char>,
    pub contents: Seq<char>,
}

/// One planned link file: where it goes and what it holds.
#[derive(Clone, Debug)]
pub struct LinkFile {
    pub path: String,
    pub contents: String,
}

impl View for LinkFile {
    type V = LinkFileV;

    open spec fn view(&self) -> LinkFileV {
        LinkFileV { path: self.path@, contents: self.contents@ }
    }
}

/// How an executable plan result realises its specified value.
pub open spec fn plan_result_matches(
    r: Result<Vec<LinkFile>, InstallError>,
    s: Result<Seq<LinkFileV>, InstallError>,
) -> bool {
    match (r, s) {
        (Ok(v), Ok(sv)) => v@.map_values(|f: LinkFile| f@) == sv,
        (Err(e1), Err(e2)) => e1 == e2,
        _ => false,
    }
}

/// The realm root directory a root dependent's links go into.
pub open spec fn realm_dir_spec(ctx: InstallationContextV, realm: Realm) -> Seq<char> {
    match realm {
        Realm::Shared => ctx.shared_dir,
        Realm::Server => ctx.server_dir,
        Realm::Dev => ctx.dev_dir,
    }
}

/// The realm index directory package slots live in.
pub open spec fn realm_index_dir_spec(ctx: InstallationContextV, realm: Realm) -> Seq<char> {
    match realm {
        Realm::Shared => ctx.shared_index_dir,
        Realm::Server => ctx.server_index_dir,
        Realm::Dev => ctx.dev_index_dir,
    }
}

/// A non-root dependent's own slot in its realm's index, where its link
/// files are placed.
pub open spec fn package_slot_spec(
    ctx: InstallationContextV,
    id: PackageIdV,
    realm: Realm,
) -> Seq<char> {
    realm_index_dir_spec(ctx, realm) + "/"@ + package_id_file_name_spec(id)
}

/// Where one package's fetched contents are unpacked: its slot, then its
/// short name.
pub open spec fn package_contents_path_spec(
    ctx: InstallationContextV,
    id: PackageIdV,
    realm: Realm,
) -> Seq<char> {
    package_slot_spec(ctx, id, realm) + "/"@ + id.name
}

/// The planned files for one dependent's edge list, in edge order: one file
/// per edge, named `<alias>.lua` under `base`.  The first failing edge's
/// error is the list's error.
pub open spec fn edges_plan_spec(
    ctx: InstallationContextV,
    dependent_realm: Realm,
    dependent_is_root: bool,
    base: Seq<char>,
    deps: Seq<DependencyV>,
    metadata: Seq<MetadataEntryV>,
    types: Seq<TypesEntryV>,
) -> Result<Seq<LinkFileV>, InstallError>
    decreases deps.len(),
{
    if deps.len() == 0 {
        Ok(Seq::empty())
    } else {
        let d = deps[0];
        let dep_realm = lookup_metadata(metadata, d.package_id).unwrap().origin_realm;
        let dep_exports = lookup_types(types, d.package_id).unwrap();
        match edge_link_spec(
            ctx,
            dependent_realm,
            dependent_is_root,
            d.package_id,
            dep_realm,
            dep_exports,
        ) {
            Err(e) => Err(e),
            Ok(contents) => match edges_plan_spec(
                ctx,
                dependent_realm,
                dependent_is_root,
                base,
                deps.drop_first(),
                metadata,
                types,
            ) {
                Err(e) => Err(e),
                Ok(rest) => Ok(
                    seq![
                        LinkFileV { path: base + "/"@ + d.alias + ".lua"@, contents: contents }
                    ] + rest,
                ),
            },
        }
    }
}

/// Whether every edge in `deps` has known metadata and a known extraction
/// result: the join barrier's totality, which must hold before any link file
/// is decided.
pub open spec fn deps_covered(
    deps: Seq<DependencyV>,
    metadata: Seq<MetadataEntryV>,
    types: Seq<TypesEntryV>,
) -> bool {
    forall|j: int|
        0 <= j < deps.len() ==> {
            &&& lookup_metadata(metadata, (#[trigger] deps[j]).package_id) is Some
            &&& lookup_types(types, deps[j].package_id) is Some
        }
}

/// Sequential composition: files already planned, then the rest of the plan.
pub open spec fn plan_combine(
    prefix: Seq<LinkFileV>,
    r: Result<Seq<LinkFileV>, InstallError>,
) -> Result<Seq<LinkFileV>, InstallError> {
    match r {
        Ok(s) => Ok(prefix + s),
        Err(e) => Err(e),
    }
}

/// The planned files for one activated package: the root's three lists go
/// into the realm roots themselves, under the realm each list names; a
/// non-root package's three lists go into its own index slot, under its own
/// origin realm.  Lists are planned in shared, server, dev order.
pub open spec fn package_plan_spec(
    ctx: InstallationContextV,
    r: ResolutionV,
    root: PackageIdV,
    types: Seq<TypesEntryV>,
    id: PackageIdV,
) -> Result<Seq<LinkFileV>, InstallError> {
    if id == root {
        let shared = edges_plan_spec(
            ctx,
            Realm::Shared,
            true,
            ctx.shared_dir,
            deps_or_empty(r.shared_dependencies, id),
            r.metadata,
            types,
        );
        let server = edges_plan_spec(
            ctx,
            Realm::Server,
            true,
            ctx.server_dir,
            deps_or_empty(r.server_dependencies, id),
            r.metadata,
            types,
        );
        let dev = edges_plan_spec(
            ctx,
            Realm::Dev,
            true,
            ctx.dev_dir,
            deps_or_empty(r.dev_dependencies, id),
            r.metadata,
            types,
        );
        concat_plans(shared, server, dev)
    } else {
        let realm = lookup_metadata(r.metadata, id).unwrap().origin_realm;
        let base = package_slot_spec(ctx, id, realm);
        let shared = edges_plan_spec(
            ctx,
            realm,
            false,
            base,
            deps_or_empty(r.shared_dependencies, id),
            r.metadata,
            types,
        );
        let server = edges_plan_spec(
            ctx,
            realm,
            false,
            base,
            deps_or_empty(r.server_dependencies, id),
            r.metadata,
            types,
        );
        let dev = edges_plan_spec(
            ctx,
            realm,
            false,
            base,
            deps_or_empty(r.dev_dependencies, id),
            r.metadata,
            types,
        );
        concat_plans(shared, server, dev)
    }
}

/// Three list plans in order, stopping at the first error.
pub open spec fn concat_plans(
    a: Result<Seq<LinkFileV>, InstallError>,
    b: Result<Seq<LinkFileV>, InstallError>,
    c: Result<Seq<LinkFileV>, InstallError>,
) -> Result<Seq<LinkFileV>, InstallError> {
    match a {
        Err(e) => Err(e),
        Ok(x) => match b {
            Err(e) => Err(e),
            Ok(y) => match c {
                Err(e) => Err(e),
                Ok(z) => Ok(x + y + z),
            },
        },
    }
}

/// What planning one package needs known: its own metadata (unless it is the
/// root, which is not installed), and coverage of all its edges.
pub open spec fn package_covered(
    r: ResolutionV,
    root: PackageIdV,
    types: Seq<TypesEntryV>,
    id: PackageIdV,
) -> bool {
    &&& (id != root ==> lookup_metadata(r.metadata, id) is Some)
    &&& deps_covered(deps_or_empty(r.shared_dependencies, id), r.metadata, types)
    &&& deps_covered(deps_or_empty(r.server_dependencies, id), r.metadata, types)
    &&& deps_covered(deps_or_empty(r.dev_dependencies, id), r.metadata, types)
}

/// The join barrier, stated over the whole graph: before link planning
/// begins, the metadata and extraction-result lookups are total over every
/// activated package and every dependency edge.
pub open spec fn plan_covered(r: ResolutionV, root: PackageIdV, types: Seq<TypesEntryV>) -> bool {
    forall|k: int|
        0 <= k < r.activated.len() ==> package_covered(
            r,
            root,
            types,
            #[trigger] r.activated[k],
        )
}

/// The whole install's planned link files: every activated package's plan,
/// in activation order, stopping at the first error.
pub open spec fn plan_from_spec(
    ctx: InstallationContextV,
    r: ResolutionV,
    root: PackageIdV,
    types: Seq<TypesEntryV>,
    k: int,
) -> Result<Seq<LinkFileV>, InstallError>
    decreases r.activated.len() - k,
{
    if k < 0 || k >= r.activated.len() {
        Ok(Seq::empty())
    } else {
        match package_plan_spec(ctx, r, root, types, r.activated[k]) {
            Err(e) => Err(e),
            Ok(files) => match plan_from_spec(ctx, r, root, types, k + 1) {
                Err(e) => Err(e),
                Ok(rest) => Ok(files + rest),
            },
        }
    }
}

/// The full plan, from the first activated package.
pub open spec fn plan_links_spec(
    ctx: InstallationContextV,
    r: ResolutionV,
    root: PackageIdV,
    types: Seq<TypesEntryV>,
) -> Result<Seq<LinkFileV>, InstallError> {
    plan_from_spec(ctx, r, root, types, 0)
}

proof fn lemma_link_files_view_concat(a: Seq<LinkFile>, b: Seq<LinkFile>)
    ensures
        (a + b).map_values(|f: LinkFile| f@) =~= a.map_values(|f: LinkFile| f@) + b.map_values(
            |f: LinkFile| f@,
        ),
{
    assert forall|j: int| #![trigger (a + b)[j]] 0 <= j < (a + b).len() implies (a
        + b).map_values(|f: LinkFile| f@)[j] == (a.map_values(|f: LinkFile| f@) + b.map_values(
        |f: LinkFile| f@,
    ))[j] by {
        if j < a.len() {
            assert((a + b)[j] == a[j]);
        } else {
            assert((a + b)[j] == b[j - a.len()]);
        }
    }
}

impl InstallationContext {
    /// The realm root directory for root-dependent links.
    pub fn realm_dir(&self, realm: Realm) -> (r: String)
        ensures
            r@ == realm_dir_spec(self@, realm),
    {
        match realm {
            Realm::Shared => self.shared_dir.clone(),
            Realm::Server => self.server_dir.clone(),
            Realm::Dev => self.dev_dir.clone(),
        }
    }

    /// The realm index directory package slots live in.
    pub fn realm_index_dir(&self, realm: Realm) -> (r: String)
        ensures
            r@ == realm_index_dir_spec(self@, realm),
    {
        match realm {
            Realm::Shared => self.shared_index_dir.clone(),
            Realm::Server => self.server_index_dir.clone(),
            Realm::Dev => self.dev_index_dir.clone(),
        }
    }

    /// A non-root dependent's own slot in its realm's index.
    pub fn package_slot(&self, id: &PackageId, realm: Realm) -> (r: String)
        ensures
            r@ == package_slot_spec(self@, id@, realm),
    {
        let mut out = self.realm_index_dir(realm);
        out.append("/");
        let full_name = package_id_file_name(id);
        out.append(full_name.as_str());
        proof {
            assert(out@ =~= package_slot_spec(self@, id@, realm));
        }
        out
    }

    /// Where `id`'s fetched contents are unpacked before extraction.
    pub fn package_contents_path(&self, id: &PackageId, realm: Realm) -> (r: String)
        ensures
            r@ == package_contents_path_spec(self@, id@, realm),
    {
        let mut out = self.package_slot(id, realm);
        out.append("/");
        out.append(id.name.as_str());
        proof {
            assert(out@ =~= package_contents_path_spec(self@, id@, realm));
        }
        out
    }

    /// Plans the link files for one dependent's edge list.
    fn link_files_for_deps(
        &self,
        dependent_realm: Realm,
        dependent_is_root: bool,
        base: &String,
        deps: &Vec<Dependency>,
        metadata: &Vec<MetadataEntry>,
        types: &Vec<TypesEntry>,
    ) -> (r: Result<Vec<LinkFile>, InstallError>)
        requires
            deps_covered(
                deps@.map_values(|d: Dependency| d@),
                metadata@.map_values(|e: MetadataEntry| e@),
                types_view(types@),
            ),
        ensures
            plan_result_matches(
                r,
                edges_plan_spec(
                    self@,
                    dependent_realm,
                    dependent_is_root,
                    base@,
                    deps@.map_values(|d: Dependency| d@),
                    metadata@.map_values(|e: MetadataEntry| e@),
                    types_view(types@),
                ),
            ),
    {
        let ghost depsv = deps@.map_values(|d: Dependency| d@);
        let ghost mv = metadata@.map_values(|e: MetadataEntry| e@);
        let ghost tv = types_view(types@);
        let ghost full = edges_plan_spec(
            self@,
            dependent_realm,
            dependent_is_root,
            base@,
            depsv,
            mv,
            tv,
        );
        proof {
            assert(depsv.skip(0) =~= depsv);
        }
        let mut out: Vec<LinkFile> = Vec::new();
        let n = deps.len();
        let mut k: usize = 0;
        while k < n
            invariant
                k <= n,
                n == deps@.len(),
                full == plan_combine(
                    out@.map_values(|f: LinkFile| f@),
                    edges_plan_spec(
                        self@,
                        dependent_realm,
                        dependent_is_root,
                        base@,
                        depsv.skip(k as int),
                        mv,
                        tv,
                    ),
                ),
            decreases n - k,
        {
            let d = &deps[k];
            proof {
                assert(depsv[k as int] == d@);
                assert(depsv.skip(k as int)[0] == depsv[k as int]);
                assert(depsv.skip(k as int).drop_first() =~= depsv.skip(k as int + 1));
            }
            let meta = match find_metadata(metadata, &d.package_id) {
                Some(m) => m,
                None => {
                    proof {
                        assert(false);
                    }
                    return Err(InstallError::DevDependencyViolation);
                }
            };
            let dep_types = match find_types(types, &d.package_id) {
                Some(t) => t,
                None => {
                    proof {
                        assert(false);
                    }
                    return Err(InstallError::DevDependencyViolation);
                }
            };
            match self.edge_link_contents(
                dependent_realm,
                dependent_is_root,
                &d.package_id,
                meta.origin_realm,
                dep_types,
            ) {
                Ok(contents) => {
                    let mut path = String::new();
                    path.append(base.as_str());
                    path.append("/");
                    path.append(d.alias.as_str());
                    path.append(".lua");
                    let link_file = LinkFile { path, contents };
                    let ghost lfv = link_file@;
                    let ghost suffix_here = edges_plan_spec(
                        self@,
                        dependent_realm,
                        dependent_is_root,
                        base@,
                        depsv.skip(k as int),
                        mv,
                        tv,
                    );
                    let ghost suffix_next = edges_plan_spec(
                        self@,
                        dependent_realm,
                        dependent_is_root,
                        base@,
                        depsv.skip(k as int + 1),
                        mv,
                        tv,
                    );
                    proof {
                        assert(link_file@.path =~= base@ + "/"@ + depsv[k as int].alias
                            + ".lua"@);
                        assert(lfv == LinkFileV {
                            path: base@ + "/"@ + depsv[k as int].alias + ".lua"@,
                            contents: link_file@.contents,
                        });
                        assert(suffix_here == (match suffix_next {
                            Err(e2) => Err::<Seq<LinkFileV>, InstallError>(e2),
                            Ok(rest) => Ok(seq![lfv] + rest),
                        }));
                    }
                    let ghost pre_out = out@;
                    out.push(link_file);
                    k += 1;
                    proof {
                        assert(out@.map_values(|f: LinkFile| f@) =~= pre_out.map_values(
                            |f: LinkFile| f@,
                        ).push(lfv));
                        if suffix_next is Ok {
                            let rest = suffix_next.unwrap();
                            assert(pre_out.map_values(|f: LinkFile| f@) + (seq![lfv] + rest)
                                =~= out@.map_values(|f: LinkFile| f@) + rest);
                        }
                        assert(full == plan_combine(
                            out@.map_values(|f: LinkFile| f@),
                            suffix_next,
                        ));
                    }
                }
                Err(e) => {
                    proof {
                        assert(full == Err::<Seq<LinkFileV>, InstallError>(e));
                    }
                    return Err(e);
                }
            }
        }
        proof {
            assert(depsv.skip(n as int) =~= Seq::<DependencyV>::empty());
            assert(out@.map_values(|f: LinkFile| f@) + Seq::<LinkFileV>::empty()
                =~= out@.map_values(|f: LinkFile| f@));
        }
        Ok(out)
    }

    /// Plans the link files for one activated package: the root's lists go
    /// into the realm roots under the realm each list names; a non-root
    /// package's lists go into its own index slot under its origin realm.
    pub fn package_link_files(
        &self,
        resolved: &Resolution,
        root_package_id: &PackageId,
        types: &Vec<TypesEntry>,
        package_id: &PackageId,
    ) -> (r: Result<Vec<LinkFile>, InstallError>)
        requires
            package_covered(resolved@, root_package_id@, types_view(types@), package_id@),
        ensures
            plan_result_matches(
                r,
                package_plan_spec(
                    self@,
                    resolved@,
                    root_package_id@,
                    types_view(types@),
                    package_id@,
                ),
            ),
    {
        let is_root = package_id.same_id(root_package_id);
        let (shared_realm, server_realm, dev_realm, shared_base, server_base, dev_base) = if is_root {
            (
                Realm::Shared,
                Realm::Server,
                Realm::Dev,
                self.realm_dir(Realm::Shared),
                self.realm_dir(Realm::Server),
                self.realm_dir(Realm::Dev),
            )
        } else {
            let meta = match find_metadata(&resolved.metadata, package_id) {
                Some(m) => m,
                None => {
                    proof {
                        assert(false);
                    }
                    return Err(InstallError::DevDependencyViolation);
                }
            };
            let realm = meta.origin_realm;
            let base = self.package_slot(package_id, realm);
            (realm, realm, realm, base.clone(), base.clone(), base)
        };
        let ghost plan_a = edges_plan_spec(
            self@,
            shared_realm,
            is_root,
            shared_base@,
            deps_or_empty(resolved@.shared_dependencies, package_id@),
            resolved@.metadata,
            types_view(types@),
        );
        let shared_files = match find_dependencies(&resolved.shared_dependencies, package_id) {
            Some(deps) => {
                match self.link_files_for_deps(
                    shared_realm,
                    is_root,
                    &shared_base,
                    deps,
                    &resolved.metadata,
                    types,
                ) {
                    Ok(files) => files,
                    Err(e) => {
                        proof {
                            assert(plan_a == Err::<Seq<LinkFileV>, InstallError>(e));
                        }
                        return Err(e);
                    }
                }
            }
            None => Vec::new(),
        };
        proof {
            if lookup_dependencies(resolved@.shared_dependencies, package_id@) is None {
                assert(deps_or_empty(resolved@.shared_dependencies, package_id@)
                    =~= Seq::<DependencyV>::empty());
                assert(shared_files@.map_values(|f: LinkFile| f@) =~= Seq::<LinkFileV>::empty());
            }
            assert(plan_a == Ok::<Seq<LinkFileV>, InstallError>(shared_files@.map_values(
                |f: LinkFile| f@,
            )));
        }
        let ghost plan_b = edges_plan_spec(
            self@,
            server_realm,
            is_root,
            server_base@,
            deps_or_empty(resolved@.server_dependencies, package_id@),
            resolved@.metadata,
            types_view(types@),
        );
        let mut server_files = match find_dependencies(&resolved.server_dependencies, package_id) {
            Some(deps) => {
                match self.link_files_for_deps(
                    server_realm,
                    is_root,
                    &server_base,
                    deps,
                    &resolved.metadata,
                    types,
                ) {
                    Ok(files) => files,
                    Err(e) => {
                        proof {
                            assert(plan_b == Err::<Seq<LinkFileV>, InstallError>(e));
                        }
                        return Err(e);
                    }
                }
            }
            None => Vec::new(),
        };
        proof {
            if lookup_dependencies(resolved@.server_dependencies, package_id@) is None {
                assert(deps_or_empty(resolved@.server_dependencies, package_id@)
                    =~= Seq::<DependencyV>::empty());
                assert(server_files@.map_values(|f: LinkFile| f@) =~= Seq::<LinkFileV>::empty());
            }
            assert(plan_b == Ok::<Seq<LinkFileV>, InstallError>(server_files@.map_values(
                |f: LinkFile| f@,
            )));
        }
        let ghost plan_c = edges_plan_spec(
            self@,
            dev_realm,
            is_root,
            dev_base@,
            deps_or_empty(resolved@.dev_dependencies, package_id@),
            resolved@.metadata,
            types_view(types@),
        );
        let mut dev_files = match find_dependencies(&resolved.dev_dependencies, package_id) {
            Some(deps) => {
                match self.link_files_for_deps(
                    dev_realm,
                    is_root,
                    &dev_base,
                    deps,
                    &resolved.metadata,
                    types,
                ) {
                    Ok(files) => files,
                    Err(e) => {
                        proof {
                            assert(plan_c == Err::<Seq<LinkFileV>, InstallError>(e));
                        }
                        return Err(e);
                    }
                }
            }
            None => Vec::new(),
        };
        proof {
            if lookup_dependencies(resolved@.dev_dependencies, package_id@) is None {
                assert(deps_or_empty(resolved@.dev_dependencies, package_id@)
                    =~= Seq::<DependencyV>::empty());
                assert(dev_files@.map_values(|f: LinkFile| f@) =~= Seq::<LinkFileV>::empty());
            }
            assert(plan_c == Ok::<Seq<LinkFileV>, InstallError>(dev_files@.map_values(
                |f: LinkFile| f@,
            )));
        }
        let ghost sv = shared_files@;
        let ghost rv = server_files@;
        let ghost dv = dev_files@;
        let mut out = shared_files;
        out.append(&mut server_files);
        out.append(&mut dev_files);
        proof {
            lemma_link_files_view_concat(sv, rv);
            lemma_link_files_view_concat(sv + rv, dv);
            assert(out@.map_values(|f: LinkFile| f@) =~= sv.map_values(|f: LinkFile| f@)
                + rv.map_values(|f: LinkFile| f@) + dv.map_values(|f: LinkFile| f@));
            assert(package_plan_spec(
                self@,
                resolved@,
                root_package_id@,
                types_view(types@),
                package_id@,
            ) == concat_plans(plan_a, plan_b, plan_c));
        }
        Ok(out)
    }

    /// Plans every link file of the install: one plan per activated package,
    /// in activation order, stopping at the first error.  The extraction
    /// results handed in must already be total over every dependency edge —
    /// the join barrier — so no file's contents can depend on an extraction
    /// that has not happened.
    pub fn plan_links(
        &self,
        resolved: &Resolution,
        root_package_id: &PackageId,
        types: &Vec<TypesEntry>,
    ) -> (r: Result<Vec<LinkFile>, InstallError>)
        requires
            plan_covered(resolved@, root_package_id@, types_view(types@)),
        ensures
            plan_result_matches(
                r,
                plan_links_spec(self@, resolved@, root_package_id@, types_view(types@)),
            ),
    {
        let ghost full = plan_links_spec(self@, resolved@, root_package_id@, types_view(types@));
        let mut out: Vec<LinkFile> = Vec::new();
        let n = resolved.activated.len();
        let mut k: usize = 0;
        while k < n
            invariant
                k <= n,
                n == resolved.activated@.len(),
                full == plan_combine(
                    out@.map_values(|f: LinkFile| f@),
                    plan_from_spec(
                        self@,
                        resolved@,
                        root_package_id@,
                        types_view(types@),
                        k as int,
                    ),
                ),
            decreases n - k,
        {
            let package_id = &resolved.activated[k];
            proof {
                assert(resolved@.activated[k as int] == package_id@);
            }
            let ghost suffix_here = plan_from_spec(
                self@,
                resolved@,
                root_package_id@,
                types_view(types@),
                k as int,
            );
            let ghost suffix_next = plan_from_spec(
                self@,
                resolved@,
                root_package_id@,
                types_view(types@),
                k as int + 1,
            );
            match self.package_link_files(resolved, root_package_id, types, package_id) {
                Ok(files) => {
                    let ghost pre_out = out@;
                    let ghost fv = files@;
                    proof {
                        assert(suffix_here == (match suffix_next {
                            Err(e2) => Err::<Seq<LinkFileV>, InstallError>(e2),
                            Ok(rest) => Ok(fv.map_values(|f: LinkFile| f@) + rest),
                        }));
                    }
                    let mut files = files;
                    out.append(&mut files);
                    k += 1;
                    proof {
                        lemma_link_files_view_concat(pre_out, fv);
                        assert(out@.map_values(|f: LinkFile| f@) =~= pre_out.map_values(
                            |f: LinkFile| f@,
                        ) + fv.map_values(|f: LinkFile| f@));
                        if suffix_next is Ok {
                            let rest = suffix_next.unwrap();
                            assert(pre_out.map_values(|f: LinkFile| f@) + (fv.map_values(
                                |f: LinkFile| f@,
                            ) + rest) =~= out@.map_values(|f: LinkFile| f@) + rest);
                        }
                        assert(full == plan_combine(
                            out@.map_values(|f: LinkFile| f@),
                            suffix_next,
                        ));
                    }
                }
                Err(e) => {
                    proof {
                        assert(suffix_here == Err::<Seq<LinkFileV>, InstallError>(e));
                        assert(full == Err::<Seq<LinkFileV>, InstallError>(e));
                    }
                    return Err(e);
                }
            }
        }
        proof {
            assert(out@.map_values(|f: LinkFile| f@) + Seq::<LinkFileV>::empty()
                =~= out@.map_values(|f: LinkFile| f@));
        }
        Ok(out)
    }
}

// ---------------------------------------------------------------------------
// Realm laws
// ---------------------------------------------------------------------------

/// A dev-realm dependency under a non-dev dependent is a realm violation,
/// whatever the context, the identity or the extraction result: no link file
/// contents exist for such an edge.
pub proof fn lemma_dev_edge_is_violation(
    ctx: InstallationContextV,
    dependent_realm: Realm,
    dependent_is_root: bool,
    dep: PackageIdV,
    exports: Seq<ExportStatementV>,
)
    requires
        dependent_realm != Realm::Dev,
    ensures
        edge_link_spec(ctx, dependent_realm, dependent_is_root, dep, Realm::Dev, exports)
            == Err::<Seq<char>, InstallError>(InstallError::DevDependencyViolation),
{
}

/// A cross-realm edge into the server or shared realm succeeds exactly when
/// that realm's packages root is configured, and then requires through that
/// root; unconfigured, it fails with the configuration error for that exact
/// setting.
pub proof fn lemma_cross_realm_needs_configured_root(
    ctx: InstallationContextV,
    dependent_realm: Realm,
    dependent_is_root: bool,
    dep: PackageIdV,
    dep_realm: Realm,
    exports: Seq<ExportStatementV>,
)
    requires
        dependent_realm != dep_realm,
        dep_realm != Realm::Dev,
    ensures
        dep_realm == Realm::Server ==> edge_link_spec(
            ctx,
            dependent_realm,
            dependent_is_root,
            dep,
            dep_realm,
            exports,
        ) == (match ctx.server_path {
            Some(p) => Ok::<Seq<char>, InstallError>(index_link_spec(p, dep, exports)),
            None => Err(InstallError::MissingServerPlacePath),
        }),
        dep_realm == Realm::Shared ==> edge_link_spec(
            ctx,
            dependent_realm,
            dependent_is_root,
            dep,
            dep_realm,
            exports,
        ) == (match ctx.shared_path {
            Some(p) => Ok::<Seq<char>, InstallError>(index_link_spec(p, dep, exports)),
            None => Err(InstallError::MissingSharedPlacePath),
        }),
{
}

/// If the `j`-th edge of a non-dev dependent's list names a dev-realm
/// dependency, the whole list's plan fails: no file is planned for any edge
/// of that list.
pub proof fn lemma_dev_edge_fails_edges_plan(
    ctx: InstallationContextV,
    dependent_realm: Realm,
    dependent_is_root: bool,
    base: Seq<char>,
    deps: Seq<DependencyV>,
    metadata: Seq<MetadataEntryV>,
    types: Seq<TypesEntryV>,
    j: int,
)
    requires
        dependent_realm != Realm::Dev,
        0 <= j < deps.len(),
        lookup_metadata(metadata, deps[j].package_id) matches Some(m) && m.origin_realm
            == Realm::Dev,
    ensures
        edges_plan_spec(ctx, dependent_realm, dependent_is_root, base, deps, metadata, types)
            is Err,
    decreases j,
{
    if j > 0 {
        assert(deps.drop_first()[j - 1] == deps[j]);
        lemma_dev_edge_fails_edges_plan(
            ctx,
            dependent_realm,
            dependent_is_root,
            base,
            deps.drop_first(),
            metadata,
            types,
            j - 1,
        );
    }
}

/// A failing package plan anywhere in the activation order fails the plan
/// from any earlier position.
pub proof fn lemma_package_error_fails_plan(
    ctx: InstallationContextV,
    r: ResolutionV,
    root: PackageIdV,
    types: Seq<TypesEntryV>,
    from: int,
    k: int,
)
    requires
        0 <= from <= k < r.activated.len(),
        package_plan_spec(ctx, r, root, types, r.activated[k]) is Err,
    ensures
        plan_from_spec(ctx, r, root, types, from) is Err,
    decreases k - from,
{
    if from < k {
        lemma_package_error_fails_plan(ctx, r, root, types, from + 1, k);
    }
}

/// The realm dependency map selected by `which`.
pub open spec fn realm_map_of(r: ResolutionV, which: Realm) -> Seq<DependencyListEntryV> {
    match which {
        Realm::Shared => r.shared_dependencies,
        Realm::Server => r.server_dependencies,
        Realm::Dev => r.dev_dependencies,
    }
}

/// The realm a dependent's list from map `which` is written under: the map's
/// own realm for the root, the dependent's origin realm otherwise.
pub open spec fn dependent_list_realm(
    r: ResolutionV,
    root: PackageIdV,
    id: PackageIdV,
    which: Realm,
) -> Realm {
    if id == root {
        which
    } else {
        lookup_metadata(r.metadata, id).unwrap().origin_realm
    }
}

/// An edge in any realm map that points a non-dev dependent at a dev-realm
/// dependency fails the whole install plan: the install aborts and the plan
/// yields no files at all.
pub proof fn lemma_dev_dependency_fails_plan(
    ctx: InstallationContextV,
    r: ResolutionV,
    root: PackageIdV,
    types: Seq<TypesEntryV>,
    k: int,
    which: Realm,
    j: int,
)
    requires
        0 <= k < r.activated.len(),
        0 <= j < deps_or_empty(realm_map_of(r, which), r.activated[k]).len(),
        lookup_metadata(
            r.metadata,
            deps_or_empty(realm_map_of(r, which), r.activated[k])[j].package_id,
        ) matches Some(m) && m.origin_realm == Realm::Dev,
        dependent_list_realm(r, root, r.activated[k], which) != Realm::Dev,
    ensures
        plan_links_spec(ctx, r, root, types) is Err,
{
    let id = r.activated[k];
    let deps = deps_or_empty(realm_map_of(r, which), id);
    let dependent_realm = dependent_list_realm(r, root, id, which);
    if id == root {
        match which {
            Realm::Shared => {
                lemma_dev_edge_fails_edges_plan(
                    ctx,
                    Realm::Shared,
                    true,
                    ctx.shared_dir,
                    deps,
                    r.metadata,
                    types,
                    j,
                );
            }
            Realm::Server => {
                lemma_dev_edge_fails_edges_plan(
                    ctx,
                    Realm::Server,
                    true,
                    ctx.server_dir,
                    deps,
                    r.metadata,
                    types,
                    j,
                );
            }
            Realm::Dev => {
                assert(false);
            }
        }
    } else {
        let realm = lookup_metadata(r.metadata, id).unwrap().origin_realm;
        let base = package_slot_spec(ctx, id, realm);
        lemma_dev_edge_fails_edges_plan(
            ctx,
            realm,
            false,
            base,
            deps,
            r.metadata,
            types,
            j,
        );
    }
    assert(package_plan_spec(ctx, r, root, types, id) is Err);
    lemma_package_error_fails_plan(ctx, r, root, types, 0, k);
}

/// The plan is a function of the resolution graph, the configuration and
/// the extraction results alone: planning again on unchanged inputs, as
/// after an explicit clean, reproduces the identical file set.
pub proof fn lemma_plan_deterministic(
    ctx1: InstallationContextV,
    ctx2: InstallationContextV,
    r1: ResolutionV,
    r2: ResolutionV,
    root1: PackageIdV,
    root2: PackageIdV,
    types1: Seq<TypesEntryV>,
    types2: Seq<TypesEntryV>,
)
    requires
        ctx1 == ctx2,
        r1 == r2,
        root1 == root2,
        types1 == types2,
    ensures
        plan_links_spec(ctx1, r1, root1, types1) == plan_links_spec(ctx2, r2, root2, types2),
{
}

} // verus!
