use vstd::prelude::*;
use vstd::string::StringExecFns;
use crate::base::{
    base_model, expand_base_libraries, lemma_base_targets_registered, optionals_match, RenameModel,
};
use crate::error::{ErrorModel, ProfileError};
use crate::loader::{
    expand_loader_libraries, expand_named_libraries, lemma_loader_keeps_paths, loader_model,
    maven_downloads, maven_model,
    named_entries, push_tweak_args, tweak_args, LoaderState,
};
use crate::manifest::{GameType, Libraries};
use crate::natives::{native_downloads, native_downloads_of};
use crate::paths::{get_yarn_path, get_yarn_url, insert_path, pairs_view, yarn_path, LibrarySet};
use crate::profile::{assets_name, InstallLayout, Profile, CLIENT_JAR};
use crate::rules::Optional;

verus! {

/// The entry point of the base runtime.
pub const DEFAULT_MAIN_CLASS: &'static str = "net/minecraft/client/main/Main";

/// Everything an installation needs, before any file is fetched.
pub struct InstallPlan {
    /// Installed library paths, without duplicates, in registration order.
    pub libraries: LibrarySet,
    pub base_downloads: Vec<(String, String)>,
    pub loader_downloads: Vec<(String, String)>,
    /// Single extra files: mappings or maven-hosted loader files.
    pub extra_downloads: Vec<(String, String)>,
    pub native_downloads: Vec<(String, String)>,
    pub optionals: Vec<Optional>,
    pub main_class: String,
    pub client_args: Vec<String>,
}

/// The abstract value of an [`InstallPlan`].
pub struct PlanModel {
    pub libraries: Seq<Seq<char>>,
    pub base_downloads: Seq<(Seq<char>, Seq<char>)>,
    pub loader_downloads: Seq<(Seq<char>, Seq<char>)>,
    pub extra_downloads: Seq<(Seq<char>, Seq<char>)>,
    pub native_downloads: Seq<(Seq<char>, Seq<char>)>,
    pub optionals: Seq<RenameModel>,
    pub main_class: Seq<char>,
    pub client_args: Seq<Seq<char>>,
}

/// The plan for the base libraries of `manifest` and the loader of
/// `game_type`: base libraries first, then the loader's, each failure
/// ending the plan.
pub open spec fn plan_model(
    manifest: Libraries,
    game_type: GameType,
    version: Seq<char>,
    layout: InstallLayout,
) -> Result<PlanModel, ErrorModel> {
    let folder = layout.libraries_folder@;
    let natives = native_downloads_of(manifest.libraries@, layout.temp_natives@);
    match base_model(seq![], manifest.libraries@, folder) {
        Err(e) => Err(e),
        Ok(b) => {
            let st = LoaderState { paths: b.paths, downloads: seq![] };
            match game_type {
                GameType::Vanilla => Ok(
                    PlanModel {
                        libraries: b.paths,
                        base_downloads: b.downloads,
                        loader_downloads: seq![],
                        extra_downloads: seq![],
                        native_downloads: natives,
                        optionals: b.optionals,
                        main_class: DEFAULT_MAIN_CLASS@,
                        client_args: seq![],
                    },
                ),
                GameType::Fabric(f) => match loader_model(st, named_entries(f.client@), folder) {
                    Err(e) => Err(e),
                    Ok(s1) => match loader_model(s1, named_entries(f.common@), folder) {
                        Err(e) => Err(e),
                        Ok(s2) => Ok(
                            PlanModel {
                                libraries: insert_path(s2.paths, yarn_path(version)),
                                base_downloads: b.downloads,
                                loader_downloads: s2.downloads,
                                extra_downloads: seq![
                                    ("https://maven.fabricmc.net/"@ + yarn_path(version), folder),
                                ],
                                native_downloads: natives,
                                optionals: b.optionals,
                                main_class: f.main_class_client@,
                                client_args: seq![],
                            },
                        ),
                    },
                },
                GameType::Forge(f) => match loader_model(st, f.libraries@, folder) {
                    Err(e) => Err(e),
                    Ok(s) => {
                        let maven = match f.maven_files {
                            Some(files) => maven_model(files@, folder),
                            None => Ok(seq![]),
                        };
                        match maven {
                            Err(e) => Err(e),
                            Ok(extra) => Ok(
                                PlanModel {
                                    libraries: s.paths,
                                    base_downloads: b.downloads,
                                    loader_downloads: s.downloads,
                                    extra_downloads: extra,
                                    native_downloads: natives,
                                    optionals: b.optionals,
                                    main_class: f.main_class@,
                                    client_args: match f.tweakers {
                                        Some(ts) => tweak_args(ts@.map_values(|t: String| t@)),
                                        None => seq![],
                                    },
                                },
                            ),
                        }
                    },
                },
            }
        },
    }
}

/// Every rename optional of a plan targets a library path the plan
/// registers.
pub proof fn lemma_rename_targets_registered(
    manifest: Libraries,
    game_type: GameType,
    version: Seq<char>,
    layout: InstallLayout,
)
    requires
        plan_model(manifest, game_type, version, layout) is Ok,
    ensures
        forall|i: int|
            0 <= i < plan_model(manifest, game_type, version, layout)->Ok_0.optionals.len()
                ==> plan_model(manifest, game_type, version, layout)->Ok_0.libraries.contains(
                (#[trigger] plan_model(manifest, game_type, version, layout)->Ok_0.optionals[i]).1,
            ),
{
    let folder = layout.libraries_folder@;
    let m = plan_model(manifest, game_type, version, layout)->Ok_0;
    lemma_base_targets_registered(seq![], manifest.libraries@, folder);
    let b = base_model(seq![], manifest.libraries@, folder)->Ok_0;
    let st = LoaderState { paths: b.paths, downloads: seq![] };
    assert forall|i: int| 0 <= i < m.optionals.len() implies m.libraries.contains(
        (#[trigger] m.optionals[i]).1,
    ) by {
        assert(m.optionals == b.optionals);
        assert(b.paths.contains(b.optionals[i].1));
        match game_type {
            GameType::Vanilla => {},
            GameType::Fabric(f) => {
                lemma_loader_keeps_paths(st, named_entries(f.client@), folder);
                let s1 = loader_model(st, named_entries(f.client@), folder)->Ok_0;
                lemma_loader_keeps_paths(s1, named_entries(f.common@), folder);
                let s2 = loader_model(s1, named_entries(f.common@), folder)->Ok_0;
                assert(s2.paths.contains(b.optionals[i].1));
                if !s2.paths.contains(yarn_path(version)) {
                    let k = choose|k: int| 0 <= k < s2.paths.len() && s2.paths[k] == b.optionals[i].1;
                    assert(s2.paths.push(yarn_path(version))[k] == b.optionals[i].1);
                }
            },
            GameType::Forge(f) => {
                lemma_loader_keeps_paths(st, f.libraries@, folder);
            },
        }
    }
}

/// `p` has the value `m`.
pub open spec fn plan_matches(p: InstallPlan, m: PlanModel) -> bool {
    &&& p.libraries.wf()
    &&& p.libraries@ == m.libraries
    &&& pairs_view(p.base_downloads@) == m.base_downloads
    &&& pairs_view(p.loader_downloads@) == m.loader_downloads
    &&& pairs_view(p.extra_downloads@) == m.extra_downloads
    &&& pairs_view(p.native_downloads@) == m.native_downloads
    &&& optionals_match(p.optionals@, m.optionals)
    &&& p.main_class@ == m.main_class
    &&& p.client_args@.map_values(|s: String| s@) == m.client_args
}

/// Resolves every library of the base manifest and of the selected loader
/// into installed paths, downloads, rename optionals, entry point and
/// extra arguments.
pub fn plan_installation(
    manifest: &Libraries,
    game_type: &GameType,
    version: &str,
    layout: &InstallLayout,
) -> (r: Result<InstallPlan, ProfileError>)
    ensures
        match plan_model(*manifest, *game_type, version@, *layout) {
            Ok(m) => r is Ok && plan_matches(r->Ok_0, m),
            Err(e) => r is Err && r->Err_0@ == e,
        },
{
    let folder = layout.libraries_folder.as_str();
    let mut libraries = LibrarySet::new();
    let base = expand_base_libraries(&manifest.libraries, folder, &mut libraries)?;
    let natives = native_downloads(&manifest.libraries, layout.temp_natives.as_str());
    let mut loader_downloads: Vec<(String, String)> = Vec::new();
    let mut extra_downloads: Vec<(String, String)> = Vec::new();
    let mut client_args: Vec<String> = Vec::new();
    proof {
        assert(pairs_view(loader_downloads@) =~= seq![]);
        assert(client_args@.map_values(|s: String| s@) =~= seq![]);
    }
    let main_class = match game_type {
        GameType::Vanilla => {
            assert(pairs_view(extra_downloads@) =~= seq![]);
            String::from_str(DEFAULT_MAIN_CLASS)
        },
        GameType::Fabric(f) => {
            expand_named_libraries(&f.client, folder, &mut libraries, &mut loader_downloads)?;
            expand_named_libraries(&f.common, folder, &mut libraries, &mut loader_downloads)?;
            let path = get_yarn_path(version);
            libraries.insert(path);
            extra_downloads.push((get_yarn_url(version), String::from_str(folder)));
            assert(pairs_view(extra_downloads@) =~= seq![
                ("https://maven.fabricmc.net/"@ + yarn_path(version@), folder@),
            ]);
            f.main_class_client.clone()
        },
        GameType::Forge(f) => {
            expand_loader_libraries(&f.libraries, folder, &mut libraries, &mut loader_downloads)?;
            match &f.maven_files {
                Some(files) => {
                    extra_downloads = maven_downloads(files, folder)?;
                },
                None => {
                    assert(pairs_view(extra_downloads@) =~= seq![]);
                },
            }
            match &f.tweakers {
                Some(ts) => {
                    push_tweak_args(ts, &mut client_args);
                    assert(client_args@.map_values(|s: String| s@) =~= tweak_args(
                        ts@.map_values(|t: String| t@),
                    ));
                },
                None => {},
            }
            f.main_class.clone()
        },
    };
    Ok(
        InstallPlan {
            libraries,
            base_downloads: base.downloads,
            loader_downloads,
            extra_downloads,
            native_downloads: natives,
            optionals: base.optionals,
            main_class,
            client_args,
        },
    )
}

/// The descriptor `build_profile` writes for a plan.
pub open spec fn profile_matches(
    p: Profile,
    name: Seq<char>,
    version: Seq<char>,
    plan: InstallPlan,
    asset_index_id: Seq<char>,
    assets: Option<&str>,
    address: Seq<char>,
    port: u32,
) -> bool {
    &&& p.name@ == name
    &&& p.version@ == version
    &&& p.libraries@.map_values(|s: String| s@) == plan.libraries@
    &&& p.class_path@.map_values(|s: String| s@) == seq![CLIENT_JAR@]
    &&& p.main_class@ == plan.main_class@
    &&& p.update_verify@.len() == 0
    &&& p.update_exclusion@.len() == 0
    &&& p.jvm_args@.len() == 0
    &&& p.client_args@.map_values(|s: String| s@) == plan.client_args@.map_values(
        |s: String| s@,
    )
    &&& p.assets@ == asset_index_id
    &&& p.assets_dir@ == "assets/"@ + assets_name(name, assets)
    &&& p.server_name@ == address
    &&& p.server_port == port
}

/// Builds the installation descriptor of a plan.
pub fn build_profile(
    name: &str,
    version: &str,
    plan: &InstallPlan,
    asset_index_id: &str,
    assets: Option<&str>,
    address: &str,
    port: u32,
) -> (r: Profile)
    ensures
        profile_matches(r, name@, version@, *plan, asset_index_id@, assets, address@, port),
{
    let mut class_path: Vec<String> = Vec::new();
    class_path.push(String::from_str(CLIENT_JAR));
    assert(class_path@.map_values(|s: String| s@) =~= seq![CLIENT_JAR@]);
    let mut client_args: Vec<String> = Vec::new();
    let mut i: usize = 0;
    while i < plan.client_args.len()
        invariant
            i <= plan.client_args@.len(),
            client_args@.map_values(|s: String| s@) == plan.client_args@.take(i as int).map_values(
                |s: String| s@,
            ),
        decreases plan.client_args@.len() - i,
    {
        let ghost prev = client_args@;
        let a = plan.client_args[i].clone();
        client_args.push(a);
        assert(client_args@.map_values(|s: String| s@) =~= prev.map_values(|s: String| s@).push(
            a@,
        ));
        assert(plan.client_args@.take(i + 1).map_values(|s: String| s@) =~= plan.client_args@.take(
            i as int,
        ).map_values(|s: String| s@).push(plan.client_args@[i as int]@));
        i += 1;
    }
    assert(plan.client_args@.take(i as int) =~= plan.client_args@);
    let mut assets_dir = String::from_str("assets/");
    match assets {
        Some(a) => assets_dir.append(a),
        None => assets_dir.append(name),
    }
    Profile {
        name: String::from_str(name),
        version: String::from_str(version),
        libraries: plan.libraries.to_vec(),
        class_path,
        main_class: plan.main_class.clone(),
        update_verify: Vec::new(),
        update_exclusion: Vec::new(),
        jvm_args: Vec::new(),
        client_args,
        assets: String::from_str(asset_index_id),
        assets_dir,
        server_name: String::from_str(address),
        server_port: port,
    }
}

} // verus!
