use profile_generator::coordinate::{generate_download_url, generate_lib_path, Artifact};
use profile_generator::error::ProfileError;
use profile_generator::manifest::{forge_manifest_url, LibraryFile};
use profile_generator::paths::{get_yarn_path, get_yarn_url, jar_url, last_segment, LibrarySet};

#[test]
fn lib_path_without_classifier() {
    assert_eq!(
        generate_lib_path("net.fabricmc:fabric-loader:0.11.3").unwrap(),
        "net/fabricmc/fabric-loader/0.11.3/fabric-loader-0.11.3.jar"
    );
}

#[test]
fn lib_path_with_classifier() {
    assert_eq!(
        generate_lib_path("org.lwjgl:lwjgl:3.2.2:natives-linux").unwrap(),
        "org/lwjgl/lwjgl/3.2.2/lwjgl-3.2.2-natives-linux.jar"
    );
}

#[test]
fn download_url_is_base_plus_path() {
    let url = generate_download_url("https://maven.fabricmc.net/", "net.fabricmc:tiny-mappings-parser:0.3.0+build.17")
        .unwrap();
    assert_eq!(
        url,
        "https://maven.fabricmc.net/net/fabricmc/tiny-mappings-parser/0.3.0+build.17/tiny-mappings-parser-0.3.0+build.17.jar"
    );
    let path = generate_lib_path("net.fabricmc:tiny-mappings-parser:0.3.0+build.17").unwrap();
    assert_eq!(url, format!("https://maven.fabricmc.net/{}", path));
}

#[test]
fn too_few_colons_is_malformed() {
    assert_eq!(
        generate_lib_path("group:artifact"),
        Err(ProfileError::MalformedCoordinate("group:artifact".to_string()))
    );
    assert_eq!(
        generate_lib_path("nothing"),
        Err(ProfileError::MalformedCoordinate("nothing".to_string()))
    );
    assert_eq!(
        generate_download_url("https://x/", ""),
        Err(ProfileError::MalformedCoordinate(String::new()))
    );
}

#[test]
fn too_many_colons_is_malformed() {
    assert!(generate_lib_path("a:b:c:d:e").is_err());
}

#[test]
fn artifact_parts() {
    let a = Artifact::parse("com.google.guava:guava:21.0").unwrap();
    assert_eq!(a.group, "com.google.guava");
    assert_eq!(a.artifact, "guava");
    assert_eq!(a.version, "21.0");
    assert_eq!(a.classifier, None);
    assert_eq!(a.to_path(), "com/google/guava/guava/21.0/guava-21.0.jar");
}

#[test]
fn empty_parts_are_kept() {
    assert_eq!(generate_lib_path("::").unwrap(), "///-.jar");
}

#[test]
fn yarn_locations() {
    assert_eq!(get_yarn_path("1.16.5"), "net/fabricmc/intermediary/1.16.5/intermediary-1.16.5.jar");
    assert_eq!(
        get_yarn_url("1.16.5"),
        "https://maven.fabricmc.net/net/fabricmc/intermediary/1.16.5/intermediary-1.16.5.jar"
    );
}

#[test]
fn forge_manifest_location() {
    assert_eq!(
        forge_manifest_url("14.23.5.2854"),
        "https://meta.multimc.org/v1/net.minecraftforge/14.23.5.2854.json"
    );
}

#[test]
fn jar_url_pairs_url_with_folder() {
    let f = LibraryFile { url: "https://host/a/b.jar".to_string(), path: None };
    assert_eq!(jar_url("static/natives_temp", &f), ("https://host/a/b.jar".to_string(), "static/natives_temp".to_string()));
}

#[test]
fn last_segment_of_paths() {
    assert_eq!(last_segment("a/b/c.jar"), "c.jar");
    assert_eq!(last_segment("c.jar"), "c.jar");
    assert_eq!(last_segment("a/b/"), "");
}

#[test]
fn library_set_deduplicates_in_order() {
    let mut s = LibrarySet::new();
    s.insert("b.jar".to_string());
    s.insert("a.jar".to_string());
    s.insert("b.jar".to_string());
    assert_eq!(s.len(), 2);
    assert!(s.contains(&"a.jar".to_string()));
    assert!(!s.contains(&"c.jar".to_string()));
    assert_eq!(s.to_vec(), vec!["b.jar".to_string(), "a.jar".to_string()]);
}
