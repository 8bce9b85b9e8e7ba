use profile_generator::assembly::{build_profile, plan_installation, DEFAULT_MAIN_CLASS};
use profile_generator::base::expand_base_libraries;
use profile_generator::config::{next_attempt_count, Config};
use profile_generator::error::ProfileError;
use profile_generator::loader::{expand_loader_libraries, maven_downloads, push_tweak_args};
use profile_generator::manifest::{
    Classifiers, FabricLoaderManifest, ForgeManifest, GameType, Libraries, Library, LibraryFile,
    LibraryType, NameLibrary, PlatformRule,
};
use profile_generator::natives::{is_native_library, native_downloads, select_native_entries};
use profile_generator::paths::LibrarySet;
use profile_generator::profile::InstallLayout;
use profile_generator::rules::{
    optional_for_rule, rule_compare_mode, strip_version, CompareMode, Location, OsType,
};

fn file(url: &str, path: Option<&str>) -> LibraryFile {
    LibraryFile { url: url.to_string(), path: path.map(|p| p.to_string()) }
}

fn plain_library(url: &str, path: &str) -> Library {
    Library { artifact: Some(file(url, Some(path))), classifiers: None, rules: None }
}

fn rule(action: &str, os: Option<&str>) -> PlatformRule {
    PlatformRule { action: action.to_string(), os: os.map(|o| o.to_string()) }
}

fn base_manifest(libraries: Vec<Library>) -> Libraries {
    Libraries {
        client_url: Some("https://launcher.example/client.jar".to_string()),
        asset_index_id: "1.16".to_string(),
        asset_index_url: "https://launcher.example/1.16.json".to_string(),
        libraries,
    }
}

#[test]
fn native_extraction_picks_shared_objects() {
    let names = vec!["liba.so".to_string(), "b.txt".to_string(), "libc.dylib".to_string()];
    assert_eq!(select_native_entries(&names), vec!["liba.so".to_string(), "libc.dylib".to_string()]);
}

#[test]
fn native_suffixes() {
    assert!(is_native_library("lwjgl64.dll"));
    assert!(is_native_library("so/liblwjgl.so"));
    assert!(!is_native_library("META-INF/MANIFEST.MF"));
    assert!(!is_native_library("so"));
    assert!(!is_native_library("x.so.txt"));
}

#[test]
fn osx_rule_is_equal_to_mac() {
    let o = optional_for_rule(&rule("allow", Some("osx")), "a-1.2.3-osx.jar", "a.jar").unwrap();
    assert_eq!(o.rules.len(), 1);
    assert_eq!(o.rules[0].os_type, OsType::MacOsX64);
    assert_eq!(o.rules[0].compare_mode, CompareMode::Equal);
    assert_eq!(o.actions.len(), 1);
    assert_eq!(o.actions[0].location, Location::Libraries);
    assert!(o.actions[0].files.original_paths.is_empty());
    assert_eq!(
        o.actions[0].files.rename_paths,
        vec![("a-1.2.3-osx.jar".to_string(), "a.jar".to_string())]
    );
    assert!(o.enabled);
    assert!(!o.visible);
    assert_eq!(o.name, None);
    assert_eq!(o.description, None);
}

#[test]
fn allow_without_os_is_unequal_to_mac() {
    let o = optional_for_rule(&rule("allow", None), "a.jar", "b.jar").unwrap();
    assert_eq!(o.rules[0].compare_mode, CompareMode::Unequal);
}

#[test]
fn other_rule_shapes_are_ignored() {
    assert!(rule_compare_mode(&rule("disallow", Some("osx"))).is_none());
    assert!(rule_compare_mode(&rule("disallow", None)).is_none());
    assert!(rule_compare_mode(&rule("allow", Some("windows"))).is_none());
    assert!(optional_for_rule(&rule("allow", Some("linux")), "a", "b").is_none());
}

#[test]
fn version_qualifier_is_stripped() {
    assert_eq!(
        strip_version("lwjgl-platform-2.9.4-nightly-20150209.jar").unwrap(),
        "lwjgl-platform.jar"
    );
    assert_eq!(strip_version("plain.jar").unwrap(), "plain.jar");
}

#[test]
fn base_library_with_rules() {
    let lib = Library {
        artifact: Some(file(
            "https://libs/lwjgl-platform-2.9.4-nightly-20150209.jar",
            Some("org/lwjgl/lwjgl-platform/2.9.4/lwjgl-platform-2.9.4-nightly-20150209.jar"),
        )),
        classifiers: None,
        rules: Some(vec![rule("allow", None), rule("disallow", Some("osx")), rule("allow", Some("osx"))]),
    };
    let mut set = LibrarySet::new();
    let r = expand_base_libraries(&vec![lib], "static/libraries", &mut set).unwrap();
    assert_eq!(set.to_vec(), vec!["lwjgl-platform.jar".to_string()]);
    assert_eq!(
        r.downloads,
        vec![(
            "https://libs/lwjgl-platform-2.9.4-nightly-20150209.jar".to_string(),
            "static/libraries".to_string()
        )]
    );
    assert_eq!(r.optionals.len(), 2);
    assert_eq!(r.optionals[0].rules[0].compare_mode, CompareMode::Unequal);
    assert_eq!(r.optionals[1].rules[0].compare_mode, CompareMode::Equal);
    assert_eq!(
        r.optionals[1].actions[0].files.rename_paths,
        vec![(
            "lwjgl-platform-2.9.4-nightly-20150209.jar".to_string(),
            "lwjgl-platform.jar".to_string()
        )]
    );
}

#[test]
fn base_libraries_dedup_and_skip_artifactless() {
    let libs = vec![
        plain_library("https://l/a.jar", "x/a.jar"),
        Library { artifact: None, classifiers: None, rules: None },
        plain_library("https://m/a.jar", "y/a.jar"),
    ];
    let mut set = LibrarySet::new();
    let r = expand_base_libraries(&libs, "L", &mut set).unwrap();
    assert_eq!(set.to_vec(), vec!["a.jar".to_string()]);
    assert_eq!(r.downloads.len(), 2);
    assert!(r.optionals.is_empty());
}

#[test]
fn base_library_without_path_fails() {
    let libs = vec![Library { artifact: Some(file("https://l/a.jar", None)), classifiers: None, rules: None }];
    let mut set = LibrarySet::new();
    let r = expand_base_libraries(&libs, "L", &mut set);
    assert_eq!(r.err(), Some(ProfileError::MissingField("path".to_string())));
}

#[test]
fn loader_libraries_of_both_shapes() {
    let libs = vec![
        LibraryType::NameLibrary(NameLibrary {
            name: "net.minecraft:launchwrapper:1.12".to_string(),
            url: "https://libraries.minecraft.net/".to_string(),
        }),
        LibraryType::PathLibrary(plain_library("https://f/forge.jar", "net/minecraftforge/forge/1/forge-1.jar")),
        LibraryType::PathLibrary(Library { artifact: Some(file("https://f/none.jar", None)), classifiers: None, rules: None }),
    ];
    let mut set = LibrarySet::new();
    let mut downloads = Vec::new();
    expand_loader_libraries(&libs, "L", &mut set, &mut downloads).unwrap();
    assert_eq!(set.to_vec(), vec!["launchwrapper-1.12.jar".to_string(), "forge-1.jar".to_string()]);
    assert_eq!(
        downloads,
        vec![
            (
                "https://libraries.minecraft.net/net/minecraft/launchwrapper/1.12/launchwrapper-1.12.jar".to_string(),
                "L".to_string()
            ),
            ("https://f/forge.jar".to_string(), "L".to_string()),
        ]
    );
}

#[test]
fn loader_library_errors() {
    let bad = vec![LibraryType::NameLibrary(NameLibrary { name: "bad".to_string(), url: "u".to_string() })];
    let mut set = LibrarySet::new();
    let mut downloads = Vec::new();
    assert_eq!(
        expand_loader_libraries(&bad, "L", &mut set, &mut downloads),
        Err(ProfileError::MalformedCoordinate("bad".to_string()))
    );
    let missing = vec![LibraryType::PathLibrary(Library { artifact: None, classifiers: None, rules: None })];
    assert_eq!(
        expand_loader_libraries(&missing, "L", &mut set, &mut downloads),
        Err(ProfileError::MissingField("artifact".to_string()))
    );
}

#[test]
fn maven_files_go_under_their_directory() {
    let files = vec![
        plain_library("https://m/forge-1-universal.jar", "net/minecraftforge/forge/1/forge-1-universal.jar"),
        Library { artifact: Some(file("https://m/skip.jar", None)), classifiers: None, rules: None },
        plain_library("https://m/top.jar", "top.jar"),
    ];
    assert_eq!(
        maven_downloads(&files, "static/libraries").unwrap(),
        vec![
            (
                "https://m/forge-1-universal.jar".to_string(),
                "static/libraries/net/minecraftforge/forge/1".to_string()
            ),
            ("https://m/top.jar".to_string(), "static/libraries/".to_string()),
        ]
    );
    let missing = vec![Library { artifact: None, classifiers: None, rules: None }];
    assert_eq!(maven_downloads(&missing, "L"), Err(ProfileError::MissingField("artifact".to_string())));
}

#[test]
fn tweak_arguments() {
    let mut args = vec!["--x".to_string()];
    push_tweak_args(&vec!["a.Tweak".to_string(), "b.Tweak".to_string()], &mut args);
    assert_eq!(args, vec!["--x", "--tweakClass", "a.Tweak", "--tweakClass", "b.Tweak"]);
}

#[test]
fn native_bundles_in_platform_order() {
    let lib = Library {
        artifact: None,
        classifiers: Some(Classifiers {
            natives_osx: Some(file("https://n/osx.jar", None)),
            natives_windows: None,
            natives_linux: Some(file("https://n/linux.jar", None)),
        }),
        rules: None,
    };
    let d = native_downloads(&vec![plain_library("https://l/a.jar", "a.jar"), lib], "T");
    assert_eq!(
        d,
        vec![
            ("https://n/osx.jar".to_string(), "T".to_string()),
            ("https://n/linux.jar".to_string(), "T".to_string()),
        ]
    );
}

#[test]
fn layout_folders() {
    let l = InstallLayout::new("myprofile", "1.16.5", None);
    assert_eq!(l.native_folder, "static/natives/1.16.5");
    assert_eq!(l.assets_folder, "static/assets/myprofile");
    assert_eq!(l.profile_folder, "static/profiles/myprofile");
    assert_eq!(l.libraries_folder, "static/libraries");
    assert_eq!(l.temp_natives, "static/natives_temp");
    let shared = InstallLayout::new("myprofile", "1.16.5", Some("shared"));
    assert_eq!(shared.assets_folder, "static/assets/shared");
}

#[test]
fn base_only_profile() {
    let manifest = base_manifest(vec![plain_library(
        "https://libraries.minecraft.net/com/mojang/brigadier/1.0.17/brigadier-1.0.17.jar",
        "com/mojang/brigadier/1.0.17/brigadier-1.0.17.jar",
    )]);
    let layout = InstallLayout::new("p", "1.16.5", None);
    let plan = plan_installation(&manifest, &GameType::Vanilla, "1.16.5", &layout).unwrap();
    let profile = build_profile("p", "1.16.5", &plan, &manifest.asset_index_id, None, "localhost", 25565);
    assert_eq!(profile.libraries, vec!["brigadier-1.0.17.jar".to_string()]);
    assert_eq!(profile.main_class, DEFAULT_MAIN_CLASS);
    assert_eq!(profile.main_class, "net/minecraft/client/main/Main");
    assert_eq!(profile.class_path, vec!["minecraft.jar".to_string()]);
    assert_eq!(profile.assets, "1.16");
    assert_eq!(profile.assets_dir, "assets/p");
    assert_eq!(profile.server_name, "localhost");
    assert_eq!(profile.server_port, 25565);
    assert!(profile.client_args.is_empty());
    assert!(plan.loader_downloads.is_empty());
    assert!(plan.extra_downloads.is_empty());
}

#[test]
fn fabric_profile() {
    let manifest = base_manifest(vec![plain_library("https://l/a.jar", "x/a.jar")]);
    let fabric = FabricLoaderManifest {
        main_class_client: "net.fabricmc.loader.launch.knot.KnotClient".to_string(),
        client: vec![NameLibrary {
            name: "net.fabricmc:fabric-loader:0.11.3".to_string(),
            url: "https://maven.fabricmc.net/".to_string(),
        }],
        common: vec![NameLibrary { name: "org.ow2.asm:asm:9.1".to_string(), url: "https://maven.fabricmc.net/".to_string() }],
    };
    let layout = InstallLayout::new("p", "1.16.5", Some("shared"));
    let plan = plan_installation(&manifest, &GameType::Fabric(fabric), "1.16.5", &layout).unwrap();
    assert_eq!(
        plan.libraries.to_vec(),
        vec![
            "a.jar".to_string(),
            "fabric-loader-0.11.3.jar".to_string(),
            "asm-9.1.jar".to_string(),
            "net/fabricmc/intermediary/1.16.5/intermediary-1.16.5.jar".to_string(),
        ]
    );
    assert_eq!(plan.loader_downloads.len(), 2);
    assert_eq!(
        plan.extra_downloads,
        vec![(
            "https://maven.fabricmc.net/net/fabricmc/intermediary/1.16.5/intermediary-1.16.5.jar".to_string(),
            "static/libraries".to_string()
        )]
    );
    assert_eq!(plan.main_class, "net.fabricmc.loader.launch.knot.KnotClient");
    let profile = build_profile("p", "1.16.5", &plan, "1.16", Some("shared"), "a", 1);
    assert_eq!(profile.assets_dir, "assets/shared");
}

#[test]
fn forge_profile() {
    let manifest = base_manifest(vec![]);
    let forge = ForgeManifest {
        main_class: "net.minecraft.launchwrapper.Launch".to_string(),
        tweakers: Some(vec!["net.minecraftforge.fml.common.launcher.FMLTweaker".to_string()]),
        maven_files: None,
        libraries: vec![LibraryType::NameLibrary(NameLibrary {
            name: "net.minecraft:launchwrapper:1.12".to_string(),
            url: "https://libraries.minecraft.net/".to_string(),
        })],
    };
    let layout = InstallLayout::new("p", "1.12.2", None);
    let plan = plan_installation(&manifest, &GameType::Forge(forge), "1.12.2", &layout).unwrap();
    assert_eq!(plan.main_class, "net.minecraft.launchwrapper.Launch");
    assert_eq!(
        plan.client_args,
        vec!["--tweakClass".to_string(), "net.minecraftforge.fml.common.launcher.FMLTweaker".to_string()]
    );
    assert_eq!(plan.libraries.to_vec(), vec!["launchwrapper-1.12.jar".to_string()]);
}

#[test]
fn plan_fails_on_bad_coordinate() {
    let manifest = base_manifest(vec![]);
    let fabric = FabricLoaderManifest {
        main_class_client: "M".to_string(),
        client: vec![],
        common: vec![NameLibrary { name: "broken".to_string(), url: "u".to_string() }],
    };
    let layout = InstallLayout::new("p", "1", None);
    let r = plan_installation(&manifest, &GameType::Fabric(fabric), "1", &layout);
    assert_eq!(r.err(), Some(ProfileError::MalformedCoordinate("broken".to_string())));
}

#[test]
fn limiter_defaults_and_decisions() {
    let c = Config::default();
    assert_eq!(c.rate_limit, 10);
    assert_eq!(c.ip_limit, Some(1000));
    assert_eq!(c.max_try, 3);
    assert_eq!(next_attempt_count(0, 3), Some(1));
    assert_eq!(next_attempt_count(2, 3), Some(3));
    assert_eq!(next_attempt_count(3, 3), None);
}
