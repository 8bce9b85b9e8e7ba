use vstd::prelude::*;
use vstd::string::{StrSliceExecFns, StringExecFns};
use crate::error::ProfileError;
use crate::paths::join_path;

verus! {

/// Where an installation's parts go, under the `static` root.
pub struct InstallLayout {
    pub native_folder: String,
    pub assets_folder: String,
    pub profile_folder: String,
    pub libraries_folder: String,
    pub temp_natives: String,
}

/// The asset directory name: the one supplied, else the profile name.
pub open spec fn assets_name(name: Seq<char>, assets: Option<&str>) -> Seq<char> {
    match assets {
        Some(a) => a@,
        None => name,
    }
}

impl InstallLayout {
    /// The layout of profile `name` for game `version`; `assets` names an
    /// existing asset directory to use instead of the profile's own.
    pub fn new(name: &str, version: &str, assets: Option<&str>) -> (r: InstallLayout)
        ensures
            r.native_folder@ == "static/natives"@ + "/"@ + version@,
            r.assets_folder@ == "static/assets"@ + "/"@ + assets_name(name@, assets),
            r.profile_folder@ == "static/profiles"@ + "/"@ + name@,
            r.libraries_folder@ == "static/libraries"@,
            r.temp_natives@ == "static/natives_temp"@,
    {
        let assets_dir = match assets {
            Some(a) => a,
            None => name,
        };
        InstallLayout {
            native_folder: join_path("static/natives", version),
            assets_folder: join_path("static/assets", assets_dir),
            profile_folder: join_path("static/profiles", name),
            libraries_folder: String::from_str("static/libraries"),
            temp_natives: String::from_str("static/natives_temp"),
        }
    }
}

/// The host that serves asset objects.
pub const ASSET_HOST: &'static str = "https://resources.download.minecraft.net/";

/// The download of the asset object with content hash `hash`: from
/// `<host>/<hash[0:2]>/<hash>` into `<objects>/<hash[0:2]>`.
pub open spec fn asset_download_spec(hash: Seq<char>, objects: Seq<char>) -> (Seq<char>, Seq<char>) {
    (ASSET_HOST@ + hash.take(2) + "/"@ + hash, objects + "/"@ + hash.take(2))
}

/// Plans the download of one asset object; a hash shorter than two
/// characters names no bucket and is refused.
pub fn asset_download(hash: &str, objects: &str) -> (r: Result<(String, String), ProfileError>)
    ensures
        r is Ok <==> hash@.len() >= 2,
        r is Ok ==> (r->Ok_0.0@, r->Ok_0.1@) == asset_download_spec(hash@, objects@),
        r is Err ==> (r matches Err(ProfileError::InvalidAssetHash(h)) && h@ == hash@),
{
    if hash.unicode_len() < 2 {
        return Err(ProfileError::InvalidAssetHash(hash.to_owned()));
    }
    let bucket = hash.substring_char(0, 2);
    let mut url = String::from_str(ASSET_HOST);
    url.append(bucket);
    url.append("/");
    url.append(hash);
    Ok((url, join_path(objects, bucket)))
}

/// Plans the downloads of the asset objects with the given hashes, in order.
pub fn asset_downloads(hashes: &Vec<String>, objects: &str) -> (r: Result<
    Vec<(String, String)>,
    ProfileError,
>)
    ensures
        r is Ok <==> forall|i: int| 0 <= i < hashes@.len() ==> (#[trigger] hashes@[i])@.len() >= 2,
        r is Err ==> r->Err_0 is InvalidAssetHash,
        r is Ok ==> r->Ok_0@.len() == hashes@.len() && forall|i: int|
            0 <= i < hashes@.len() ==> ((#[trigger] r->Ok_0@[i]).0@, r->Ok_0@[i].1@)
                == asset_download_spec(hashes@[i]@, objects@),
{
    let mut r: Vec<(String, String)> = Vec::new();
    let mut i: usize = 0;
    while i < hashes.len()
        invariant
            i <= hashes@.len(),
            forall|j: int| 0 <= j < i ==> (#[trigger] hashes@[j])@.len() >= 2,
            r@.len() == i,
            forall|j: int|
                0 <= j < i ==> ((#[trigger] r@[j]).0@, r@[j].1@) == asset_download_spec(
                    hashes@[j]@,
                    objects@,
                ),
        decreases hashes@.len() - i,
    {
        let d = asset_download(hashes[i].as_str(), objects)?;
        r.push(d);
        i += 1;
    }
    Ok(r)
}

/// The final installation descriptor.
pub struct Profile {
    pub name: String,
    pub version: String,
    pub libraries: Vec<String>,
    pub class_path: Vec<String>,
    pub main_class: String,
    pub update_verify: Vec<String>,
    pub update_exclusion: Vec<String>,
    pub jvm_args: Vec<String>,
    pub client_args: Vec<String>,
    pub assets: String,
    pub assets_dir: String,
    pub server_name: String,
    pub server_port: u32,
}

/// The name the client archive is installed under.
pub const CLIENT_JAR: &'static str = "minecraft.jar";

} // verus!
