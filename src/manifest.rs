use vstd::prelude::*;
use vstd::string::StringExecFns;

verus! {

/// A downloadable file of a library: its URL and, optionally, its
/// repository-relative path.
pub struct LibraryFile {
    pub url: String,
    pub path: Option<String>,
}

/// The per-platform native bundles of a library.
pub struct Classifiers {
    pub natives_osx: Option<LibraryFile>,
    pub natives_windows: Option<LibraryFile>,
    pub natives_linux: Option<LibraryFile>,
}

/// A platform rule attached to a library: `allow`/`disallow`, with an
/// optional operating-system name.
pub struct PlatformRule {
    pub action: String,
    pub os: Option<String>,
}

/// A library entry of the base runtime manifest.
pub struct Library {
    pub artifact: Option<LibraryFile>,
    pub classifiers: Option<Classifiers>,
    pub rules: Option<Vec<PlatformRule>>,
}

/// A library named by a maven coordinate, hosted under a repository URL.
pub struct NameLibrary {
    pub name: String,
    pub url: String,
}

/// The base runtime manifest.
pub struct Libraries {
    pub client_url: Option<String>,
    pub asset_index_id: String,
    pub asset_index_url: String,
    pub libraries: Vec<Library>,
}

/// The first loader flavour: client and common library lists and a client
/// entry point.
pub struct FabricLoaderManifest {
    pub main_class_client: String,
    pub client: Vec<NameLibrary>,
    pub common: Vec<NameLibrary>,
}

/// A library of the second loader flavour: either a full download entry or a
/// maven coordinate.
pub enum LibraryType {
    PathLibrary(Library),
    NameLibrary(NameLibrary),
}

/// The second loader flavour: entry point, tweak classes, extra maven-hosted
/// files and its libraries.
pub struct ForgeManifest {
    pub main_class: String,
    pub tweakers: Option<Vec<String>>,
    pub maven_files: Option<Vec<Library>>,
    pub libraries: Vec<LibraryType>,
}

/// Which loader, if any, is layered on the base version.
pub enum GameType {
    Vanilla,
    Fabric(FabricLoaderManifest),
    Forge(ForgeManifest),
}

/// Where the second loader flavour's manifest for `version` is published.
pub fn forge_manifest_url(version: &str) -> (r: String)
    ensures
        r@ == "https://meta.multimc.org/v1/net.minecraftforge/"@ + version@ + ".json"@,
{
    let mut r = String::from_str("https://meta.multimc.org/v1/net.minecraftforge/");
    r.append(version);
    r.append(".json");
    r
}

} // verus!
