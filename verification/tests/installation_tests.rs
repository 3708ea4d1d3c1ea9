use wally_install::extract_types::parse_types;
use wally_install::installation::{
    package_id_file_name, Dependency, DependencyListEntry, InstallError, InstallationContext,
    MetadataEntry, PackageId, PackageMetadata, Realm, Resolution, TypesEntry,
};

fn id(scope: &str, name: &str, version: &str) -> PackageId {
    PackageId {
        scope: scope.to_string(),
        name: name.to_string(),
        version: version.to_string(),
    }
}

fn context(shared_path: Option<&str>, server_path: Option<&str>) -> InstallationContext {
    InstallationContext::new(
        "/proj",
        shared_path.map(str::to_string),
        server_path.map(str::to_string),
    )
}

#[test]
fn file_name_is_scope_name_version() {
    assert_eq!(
        package_id_file_name(&id("scope", "name", "1.2.3")),
        "scope_name@1.2.3"
    );
}

#[test]
fn context_derives_six_roots() {
    let ctx = context(None, None);
    assert_eq!(ctx.shared_dir, "/proj/Packages");
    assert_eq!(ctx.server_dir, "/proj/ServerPackages");
    assert_eq!(ctx.dev_dir, "/proj/DevPackages");
    assert_eq!(ctx.shared_index_dir, "/proj/Packages/_Index");
    assert_eq!(ctx.server_index_dir, "/proj/ServerPackages/_Index");
    assert_eq!(ctx.dev_index_dir, "/proj/DevPackages/_Index");
}

#[test]
fn contents_path_is_slot_plus_short_name() {
    let ctx = context(None, None);
    assert_eq!(
        ctx.package_contents_path(&id("scope", "name", "1.2.3"), Realm::Server),
        "/proj/ServerPackages/_Index/scope_name@1.2.3/name"
    );
}

#[test]
fn root_link_without_types_is_one_line() {
    let ctx = context(None, None);
    let exports = parse_types("");
    assert_eq!(
        ctx.link_root_same_index(&id("a", "b", "0.1.0"), &exports),
        "return require(script.Parent._Index[\"a_b@0.1.0\"][\"b\"])\n"
    );
}

#[test]
fn sibling_link_without_types_is_one_line() {
    let ctx = context(None, None);
    let exports = parse_types("");
    assert_eq!(
        ctx.link_sibling_same_index(&id("a", "b", "0.1.0"), &exports),
        "return require(script.Parent.Parent[\"a_b@0.1.0\"][\"b\"])\n"
    );
}

#[test]
fn link_with_types_binds_and_forwards() {
    let ctx = context(None, None);
    let exports = parse_types("export type Name = 1");
    assert_eq!(
        ctx.link_root_same_index(&id("a", "b", "0.1.0"), &exports),
        "local MODULE = require(script.Parent._Index[\"a_b@0.1.0\"][\"b\"])\n\
         export type Name = MODULE.Name\n\
         return MODULE\n"
    );
}

#[test]
fn cross_realm_link_uses_configured_root() {
    let ctx = context(Some("game.ReplicatedStorage.Packages"), None);
    let exports = parse_types("");
    let link = ctx.edge_link_contents(Realm::Server, false, &id("a", "b", "0.1.0"), Realm::Shared, &exports);
    assert_eq!(
        link.unwrap(),
        "return require(game.ReplicatedStorage.Packages._Index[\"a_b@0.1.0\"][\"b\"])\n"
    );
}

#[test]
fn cross_realm_link_without_shared_root_fails_naming_setting() {
    let ctx = context(None, None);
    let exports = parse_types("");
    let link = ctx.edge_link_contents(Realm::Server, false, &id("a", "b", "0.1.0"), Realm::Shared, &exports);
    let err = link.unwrap_err();
    assert_eq!(err, InstallError::MissingSharedPlacePath);
    assert!(err.message().contains("shared-packages"));
}

#[test]
fn cross_realm_link_without_server_root_fails_naming_setting() {
    let ctx = context(None, None);
    let exports = parse_types("");
    let link = ctx.edge_link_contents(Realm::Dev, false, &id("a", "b", "0.1.0"), Realm::Server, &exports);
    let err = link.unwrap_err();
    assert_eq!(err, InstallError::MissingServerPlacePath);
    assert!(err.message().contains("server-packages"));
}

#[test]
fn dev_dependency_of_non_dev_dependent_is_violation() {
    let ctx = context(Some("g.S"), Some("g.T"));
    let exports = parse_types("");
    for dependent in [Realm::Shared, Realm::Server] {
        let link = ctx.edge_link_contents(dependent, true, &id("a", "b", "0.1.0"), Realm::Dev, &exports);
        assert_eq!(link.unwrap_err(), InstallError::DevDependencyViolation);
    }
}

#[test]
fn same_realm_dev_edge_is_allowed() {
    let ctx = context(None, None);
    let exports = parse_types("");
    let link = ctx.edge_link_contents(Realm::Dev, true, &id("a", "b", "0.1.0"), Realm::Dev, &exports);
    assert!(link.is_ok());
}

fn small_graph(dep_realm_of_b: Realm) -> (Resolution, PackageId, Vec<TypesEntry>) {
    let root = id("me", "project", "0.1.0");
    let a = id("scope", "alpha", "1.0.0");
    let b = id("scope", "beta", "2.0.0");
    let resolved = Resolution {
        activated: vec![root.clone(), a.clone(), b.clone()],
        metadata: vec![
            MetadataEntry {
                package_id: a.clone(),
                metadata: PackageMetadata {
                    origin_realm: Realm::Shared,
                    source_registry: "registry".to_string(),
                },
            },
            MetadataEntry {
                package_id: b.clone(),
                metadata: PackageMetadata {
                    origin_realm: dep_realm_of_b,
                    source_registry: "registry".to_string(),
                },
            },
        ],
        shared_dependencies: vec![
            DependencyListEntry {
                dependent: root.clone(),
                dependencies: vec![Dependency {
                    alias: "Alpha".to_string(),
                    package_id: a.clone(),
                }],
            },
            DependencyListEntry {
                dependent: a.clone(),
                dependencies: vec![Dependency {
                    alias: "Beta".to_string(),
                    package_id: b.clone(),
                }],
            },
        ],
        server_dependencies: vec![],
        dev_dependencies: vec![],
    };
    let types = vec![
        TypesEntry {
            package_id: a.clone(),
            types: parse_types("export type Alpha = 1"),
        },
        TypesEntry {
            package_id: b.clone(),
            types: parse_types(""),
        },
    ];
    (resolved, root, types)
}

#[test]
fn plan_links_covers_every_edge_in_order() {
    let ctx = context(None, None);
    let (resolved, root, types) = small_graph(Realm::Shared);
    let files = ctx.plan_links(&resolved, &root, &types).unwrap();
    assert_eq!(files.len(), 2);
    assert_eq!(files[0].path, "/proj/Packages/Alpha.lua");
    assert_eq!(
        files[0].contents,
        "local MODULE = require(script.Parent._Index[\"scope_alpha@1.0.0\"][\"alpha\"])\n\
         export type Alpha = MODULE.Alpha\n\
         return MODULE\n"
    );
    assert_eq!(
        files[1].path,
        "/proj/Packages/_Index/scope_alpha@1.0.0/Beta.lua"
    );
    assert_eq!(
        files[1].contents,
        "return require(script.Parent.Parent[\"scope_beta@2.0.0\"][\"beta\"])\n"
    );
}

#[test]
fn plan_links_fails_on_dev_edge_and_plans_nothing() {
    let ctx = context(None, None);
    let (resolved, root, types) = small_graph(Realm::Dev);
    let err = ctx.plan_links(&resolved, &root, &types).unwrap_err();
    assert_eq!(err, InstallError::DevDependencyViolation);
}

#[test]
fn replanning_unchanged_graph_reproduces_identical_files() {
    let ctx = context(None, None);
    let (resolved, root, types) = small_graph(Realm::Shared);
    let first = ctx.plan_links(&resolved, &root, &types).unwrap();
    let (resolved2, root2, types2) = small_graph(Realm::Shared);
    let second = ctx.plan_links(&resolved2, &root2, &types2).unwrap();
    assert_eq!(first.len(), second.len());
    for (f, s) in first.iter().zip(second.iter()) {
        assert_eq!(f.path, s.path);
        assert_eq!(f.contents, s.contents);
    }
}

#[test]
fn root_dev_list_may_use_dev_dependency() {
    let ctx = context(None, None);
    let root = id("me", "project", "0.1.0");
    let d = id("scope", "tool", "3.0.0");
    let resolved = Resolution {
        activated: vec![root.clone(), d.clone()],
        metadata: vec![MetadataEntry {
            package_id: d.clone(),
            metadata: PackageMetadata {
                origin_realm: Realm::Dev,
                source_registry: "registry".to_string(),
            },
        }],
        shared_dependencies: vec![],
        server_dependencies: vec![],
        dev_dependencies: vec![DependencyListEntry {
            dependent: root.clone(),
            dependencies: vec![Dependency {
                alias: "Tool".to_string(),
                package_id: d.clone(),
            }],
        }],
    };
    let types = vec![TypesEntry {
        package_id: d.clone(),
        types: parse_types(""),
    }];
    let files = ctx.plan_links(&resolved, &root, &types).unwrap();
    assert_eq!(files.len(), 1);
    assert_eq!(files[0].path, "/proj/DevPackages/Tool.lua");
    assert_eq!(
        files[0].contents,
        "return require(script.Parent._Index[\"scope_tool@3.0.0\"][\"tool\"])\n"
    );
}

#[test]
fn plan_crosses_realms_through_configured_root() {
    // A server-realm package depending on a shared-realm package links
    // through the configured shared-packages root.
    let ctx = context(Some("game.ReplicatedStorage.Packages"), None);
    let root = id("me", "project", "0.1.0");
    let srv = id("scope", "backend", "1.0.0");
    let shr = id("scope", "common", "1.0.0");
    let resolved = Resolution {
        activated: vec![root.clone(), srv.clone(), shr.clone()],
        metadata: vec![
            MetadataEntry {
                package_id: srv.clone(),
                metadata: PackageMetadata {
                    origin_realm: Realm::Server,
                    source_registry: "registry".to_string(),
                },
            },
            MetadataEntry {
                package_id: shr.clone(),
                metadata: PackageMetadata {
                    origin_realm: Realm::Shared,
                    source_registry: "registry".to_string(),
                },
            },
        ],
        shared_dependencies: vec![DependencyListEntry {
            dependent: srv.clone(),
            dependencies: vec![Dependency {
                alias: "Common".to_string(),
                package_id: shr.clone(),
            }],
        }],
        server_dependencies: vec![DependencyListEntry {
            dependent: root.clone(),
            dependencies: vec![Dependency {
                alias: "Backend".to_string(),
                package_id: srv.clone(),
            }],
        }],
        dev_dependencies: vec![],
    };
    let types = vec![
        TypesEntry {
            package_id: srv.clone(),
            types: parse_types(""),
        },
        TypesEntry {
            package_id: shr.clone(),
            types: parse_types(""),
        },
    ];
    let files = ctx.plan_links(&resolved, &root, &types).unwrap();
    assert_eq!(files.len(), 2);
    assert_eq!(files[0].path, "/proj/ServerPackages/Backend.lua");
    assert_eq!(
        files[1].path,
        "/proj/ServerPackages/_Index/scope_backend@1.0.0/Common.lua"
    );
    assert_eq!(
        files[1].contents,
        "return require(game.ReplicatedStorage.Packages._Index[\"scope_common@1.0.0\"][\"common\"])\n"
    );

    // The same edge with no shared root configured fails with the
    // configuration error instead.
    let bare = context(None, None);
    let err = bare.plan_links(&resolved, &root, &types).unwrap_err();
    assert_eq!(err, InstallError::MissingSharedPlacePath);
}
