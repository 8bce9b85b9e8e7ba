use vstd::prelude::*;
use vstd::string::StringExecFns;
use crate::coordinate::{
    coordinate_path, coordinate_well_formed, count_char, generate_download_url,
    generate_lib_path, split_on,
};
use crate::error::{ErrorModel, ProfileError};
use crate::manifest::{Library, LibraryType, NameLibrary};
use crate::paths::{file_name, insert_path, join_path, last_segment, pairs_view, LibrarySet};

verus! {

/// Registered library paths and planned downloads.
pub struct LoaderState {
    pub paths: Seq<Seq<char>>,
    pub downloads: Seq<(Seq<char>, Seq<char>)>,
}

/// One loader library expanded against `st`: a coordinate registers the
/// file name of its resolved path and downloads from its repository; a
/// download entry with a path registers that path's file name.
pub open spec fn entry_step(st: LoaderState, e: LibraryType, folder: Seq<char>) -> Result<
    LoaderState,
    ErrorModel,
> {
    match e {
        LibraryType::NameLibrary(v) => if !coordinate_well_formed(v.name@) {
            Err(ErrorModel::MalformedCoordinate(v.name@))
        } else {
            Ok(
                LoaderState {
                    paths: insert_path(st.paths, file_name(coordinate_path(v.name@))),
                    downloads: st.downloads.push((v.url@ + coordinate_path(v.name@), folder)),
                },
            )
        },
        LibraryType::PathLibrary(v) => match v.artifact {
            None => Err(ErrorModel::MissingField("artifact"@)),
            Some(f) => match f.path {
                None => Ok(st),
                Some(p) => Ok(
                    LoaderState {
                        paths: insert_path(st.paths, file_name(p@)),
                        downloads: st.downloads.push((f.url@, folder)),
                    },
                ),
            },
        },
    }
}

/// Loader libraries expanded in order; the first failing one decides.
pub open spec fn loader_model(st: LoaderState, es: Seq<LibraryType>, folder: Seq<char>) -> Result<
    LoaderState,
    ErrorModel,
>
    decreases es.len(),
{
    if es.len() == 0 {
        Ok(st)
    } else {
        match loader_model(st, es.drop_last(), folder) {
            Err(e) => Err(e),
            Ok(s) => entry_step(s, es.last(), folder),
        }
    }
}

/// Expanding loader libraries keeps every registered path.
pub proof fn lemma_loader_keeps_paths(st: LoaderState, es: Seq<LibraryType>, folder: Seq<char>)
    requires
        loader_model(st, es, folder) is Ok,
    ensures
        forall|q: Seq<char>| st.paths.contains(q) ==> #[trigger] loader_model(st, es, folder)->Ok_0.paths.contains(q),
    decreases es.len(),
{
    if es.len() > 0 {
        lemma_loader_keeps_paths(st, es.drop_last(), folder);
        let s = loader_model(st, es.drop_last(), folder)->Ok_0;
        assert forall|q: Seq<char>| s.paths.contains(q) implies #[trigger] loader_model(st, es, folder)->Ok_0.paths.contains(q) by {
            let k = choose|k: int| 0 <= k < s.paths.len() && s.paths[k] == q;
            match es.last() {
                LibraryType::NameLibrary(v) => {
                    let p = file_name(coordinate_path(v.name@));
                    if !s.paths.contains(p) {
                        assert(s.paths.push(p)[k] == q);
                    }
                },
                LibraryType::PathLibrary(v) => {
                    if let Some(f) = v.artifact {
                        if let Some(pp) = f.path {
                            let p = file_name(pp@);
                            if !s.paths.contains(p) {
                                assert(s.paths.push(p)[k] == q);
                            }
                        }
                    }
                },
            }
        }
    }
}

/// Coordinate libraries as loader entries.
pub open spec fn named_entries(libs: Seq<NameLibrary>) -> Seq<LibraryType> {
    libs.map_values(|l: NameLibrary| LibraryType::NameLibrary(l))
}

proof fn lemma_loader_err_extends(st: LoaderState, es: Seq<LibraryType>, folder: Seq<char>, j: int)
    requires
        0 <= j <= es.len(),
        loader_model(st, es.take(j), folder) is Err,
    ensures
        loader_model(st, es, folder) == loader_model(st, es.take(j), folder),
    decreases es.len() - j,
{
    if j < es.len() {
        assert(es.take(j + 1).drop_last() =~= es.take(j));
        lemma_loader_err_extends(st, es, folder, j + 1);
    } else {
        assert(es.take(j) =~= es);
    }
}

/// Expands one coordinate library.
fn expand_named(
    v: &NameLibrary,
    folder: &str,
    set: &mut LibrarySet,
    downloads: &mut Vec<(String, String)>,
) -> (r: Result<(), ProfileError>)
    requires
        old(set).wf(),
    ensures
        final(set).wf(),
        ({
            let st = LoaderState { paths: old(set)@, downloads: pairs_view(old(downloads)@) };
            match entry_step(st, LibraryType::NameLibrary(*v), folder@) {
                Ok(s) => r is Ok && final(set)@ == s.paths && pairs_view(final(downloads)@)
                    == s.downloads,
                Err(e) => r is Err && r->Err_0@ == e,
            }
        }),
{
    let path = generate_lib_path(v.name.as_str())?;
    let url = generate_download_url(v.url.as_str(), v.name.as_str())?;
    set.insert(last_segment(path.as_str()));
    let ghost prev = downloads@;
    downloads.push((url, String::from_str(folder)));
    assert(pairs_view(downloads@) =~= pairs_view(prev).push((url@, folder@)));
    Ok(())
}

/// Expands one loader library.
fn expand_entry(
    e: &LibraryType,
    folder: &str,
    set: &mut LibrarySet,
    downloads: &mut Vec<(String, String)>,
) -> (r: Result<(), ProfileError>)
    requires
        old(set).wf(),
    ensures
        final(set).wf(),
        ({
            let st = LoaderState { paths: old(set)@, downloads: pairs_view(old(downloads)@) };
            match entry_step(st, *e, folder@) {
                Ok(s) => r is Ok && final(set)@ == s.paths && pairs_view(final(downloads)@)
                    == s.downloads,
                Err(e) => r is Err && r->Err_0@ == e,
            }
        }),
{
    match e {
        LibraryType::NameLibrary(v) => expand_named(v, folder, set, downloads),
        LibraryType::PathLibrary(v) => match &v.artifact {
            None => Err(ProfileError::MissingField(String::from_str("artifact"))),
            Some(f) => match &f.path {
                None => Ok(()),
                Some(p) => {
                    set.insert(last_segment(p.as_str()));
                    let ghost prev = downloads@;
                    downloads.push((f.url.clone(), String::from_str(folder)));
                    assert(pairs_view(downloads@) =~= pairs_view(prev).push((f.url@, folder@)));
                    Ok(())
                },
            },
        },
    }
}

/// Expands the libraries of the second loader flavour, registering their
/// paths in `set` and planning their downloads into `folder` after those
/// already in `downloads`.
pub fn expand_loader_libraries(
    libs: &Vec<LibraryType>,
    folder: &str,
    set: &mut LibrarySet,
    downloads: &mut Vec<(String, String)>,
) -> (r: Result<(), ProfileError>)
    requires
        old(set).wf(),
    ensures
        final(set).wf(),
        ({
            let st = LoaderState { paths: old(set)@, downloads: pairs_view(old(downloads)@) };
            match loader_model(st, libs@, folder@) {
                Ok(s) => r is Ok && final(set)@ == s.paths && pairs_view(final(downloads)@)
                    == s.downloads,
                Err(e) => r is Err && r->Err_0@ == e,
            }
        }),
{
    let ghost st0 = LoaderState { paths: set@, downloads: pairs_view(downloads@) };
    let mut i: usize = 0;
    while i < libs.len()
        invariant
            i <= libs@.len(),
            set.wf(),
            st0 == (LoaderState { paths: old(set)@, downloads: pairs_view(old(downloads)@) }),
            loader_model(st0, libs@.take(i as int), folder@) is Ok,
            set@ == loader_model(st0, libs@.take(i as int), folder@)->Ok_0.paths,
            pairs_view(downloads@) == loader_model(st0, libs@.take(i as int), folder@)->Ok_0.downloads,
        decreases libs@.len() - i,
    {
        assert(libs@.take(i + 1).drop_last() =~= libs@.take(i as int));
        match expand_entry(&libs[i], folder, set, downloads) {
            Ok(()) => {},
            Err(e) => {
                proof {
                    lemma_loader_err_extends(st0, libs@, folder@, i + 1);
                }
                return Err(e);
            },
        }
        i += 1;
    }
    assert(libs@.take(i as int) =~= libs@);
    Ok(())
}

/// Expands a list of coordinate libraries, as [`expand_loader_libraries`]
/// does for loader entries.
pub fn expand_named_libraries(
    libs: &Vec<NameLibrary>,
    folder: &str,
    set: &mut LibrarySet,
    downloads: &mut Vec<(String, String)>,
) -> (r: Result<(), ProfileError>)
    requires
        old(set).wf(),
    ensures
        final(set).wf(),
        ({
            let st = LoaderState { paths: old(set)@, downloads: pairs_view(old(downloads)@) };
            match loader_model(st, named_entries(libs@), folder@) {
                Ok(s) => r is Ok && final(set)@ == s.paths && pairs_view(final(downloads)@)
                    == s.downloads,
                Err(e) => r is Err && r->Err_0@ == e,
            }
        }),
{
    let ghost st0 = LoaderState { paths: set@, downloads: pairs_view(downloads@) };
    let ghost es = named_entries(libs@);
    let mut i: usize = 0;
    while i < libs.len()
        invariant
            i <= libs@.len(),
            es == named_entries(libs@),
            set.wf(),
            st0 == (LoaderState { paths: old(set)@, downloads: pairs_view(old(downloads)@) }),
            loader_model(st0, es.take(i as int), folder@) is Ok,
            set@ == loader_model(st0, es.take(i as int), folder@)->Ok_0.paths,
            pairs_view(downloads@) == loader_model(st0, es.take(i as int), folder@)->Ok_0.downloads,
        decreases libs@.len() - i,
    {
        assert(es.take(i + 1).drop_last() =~= es.take(i as int));
        assert(es.take(i + 1).last() == LibraryType::NameLibrary(libs@[i as int]));
        match expand_named(&libs[i], folder, set, downloads) {
            Ok(()) => {},
            Err(e) => {
                proof {
                    lemma_loader_err_extends(st0, es, folder@, i + 1);
                }
                return Err(e);
            },
        }
        i += 1;
    }
    assert(es.take(i as int) =~= es);
    Ok(())
}

/// The extra arguments that tweak classes call for: `--tweakClass` before
/// each, in order.
pub open spec fn tweak_args(tweakers: Seq<Seq<char>>) -> Seq<Seq<char>>
    decreases tweakers.len(),
{
    if tweakers.len() == 0 {
        seq![]
    } else {
        tweak_args(tweakers.drop_last()).push("--tweakClass"@).push(tweakers.last())
    }
}

/// Appends the arguments for `tweakers` to `args`.
pub fn push_tweak_args(tweakers: &Vec<String>, args: &mut Vec<String>)
    ensures
        final(args)@.map_values(|s: String| s@) == old(args)@.map_values(|s: String| s@)
            + tweak_args(tweakers@.map_values(|s: String| s@)),
{
    let ghost ts = tweakers@.map_values(|s: String| s@);
    let mut i: usize = 0;
    while i < tweakers.len()
        invariant
            i <= tweakers@.len(),
            ts == tweakers@.map_values(|s: String| s@),
            args@.map_values(|s: String| s@) == old(args)@.map_values(|s: String| s@)
                + tweak_args(ts.take(i as int)),
        decreases tweakers@.len() - i,
    {
        let ghost prev = args@;
        args.push(String::from_str("--tweakClass"));
        args.push(tweakers[i].clone());
        assert(ts.take(i + 1).drop_last() =~= ts.take(i as int));
        assert(args@.map_values(|s: String| s@) =~= prev.map_values(|s: String| s@).push(
            "--tweakClass"@,
        ).push(ts[i as int]));
        i += 1;
    }
    assert(ts.take(i as int) =~= ts);
}

/// The last segment of a path with a separator is shorter than the path.
pub proof fn lemma_file_name_len(p: Seq<char>)
    ensures
        file_name(p).len() <= p.len(),
        count_char(p, '/') > 0 ==> file_name(p).len() < p.len(),
    decreases p.len(),
{
    crate::coordinate::lemma_split_len(p, '/');
    if p.len() > 0 {
        lemma_file_name_len(p.drop_last());
        crate::coordinate::lemma_split_len(p.drop_last(), '/');
    }
}

/// The directory part of `p`: everything before its last separator, or
/// nothing when it has none.
pub open spec fn parent_dir(p: Seq<char>) -> Seq<char> {
    if count_char(p, '/') == 0 {
        seq![]
    } else {
        p.take(p.len() - file_name(p).len() - 1)
    }
}

/// The download of one maven-hosted file: into the folder under `folder`
/// that mirrors its repository path.
pub open spec fn maven_step(lib: Library, folder: Seq<char>) -> Result<
    Seq<(Seq<char>, Seq<char>)>,
    ErrorModel,
> {
    match lib.artifact {
        None => Err(ErrorModel::MissingField("artifact"@)),
        Some(f) => match f.path {
            None => Ok(seq![]),
            Some(p) => Ok(seq![(f.url@, folder + "/"@ + parent_dir(p@))]),
        },
    }
}

/// Maven-hosted files in order; the first failing one decides.
pub open spec fn maven_model(libs: Seq<Library>, folder: Seq<char>) -> Result<
    Seq<(Seq<char>, Seq<char>)>,
    ErrorModel,
>
    decreases libs.len(),
{
    if libs.len() == 0 {
        Ok(seq![])
    } else {
        match maven_model(libs.drop_last(), folder) {
            Err(e) => Err(e),
            Ok(d) => match maven_step(libs.last(), folder) {
                Err(e) => Err(e),
                Ok(x) => Ok(d + x),
            },
        }
    }
}

proof fn lemma_maven_err_extends(libs: Seq<Library>, folder: Seq<char>, j: int)
    requires
        0 <= j <= libs.len(),
        maven_model(libs.take(j), folder) is Err,
    ensures
        maven_model(libs, folder) == maven_model(libs.take(j), folder),
    decreases libs.len() - j,
{
    if j < libs.len() {
        assert(libs.take(j + 1).drop_last() =~= libs.take(j));
        lemma_maven_err_extends(libs, folder, j + 1);
    } else {
        assert(libs.take(j) =~= libs);
    }
}

/// The directory part of a path.
fn parent_of(p: &str) -> (r: String)
    ensures
        r@ == parent_dir(p@),
{
    let parts = crate::coordinate::split_at_char(p, '/');
    proof {
        crate::coordinate::lemma_split_len(p@, '/');
        lemma_file_name_len(p@);
    }
    if parts.len() == 1 {
        return String::new();
    }
    let name = last_segment(p);
    let n = p.unicode_len();
    p.substring_char(0, n - name.unicode_len() - 1).to_owned()
}

/// Plans the downloads of the maven-hosted files of the second loader flavour.
pub fn maven_downloads(libs: &Vec<Library>, folder: &str) -> (r: Result<
    Vec<(String, String)>,
    ProfileError,
>)
    ensures
        match maven_model(libs@, folder@) {
            Ok(d) => r is Ok && pairs_view(r->Ok_0@) == d,
            Err(e) => r is Err && r->Err_0@ == e,
        },
{
    let mut downloads: Vec<(String, String)> = Vec::new();
    let mut i: usize = 0;
    while i < libs.len()
        invariant
            i <= libs@.len(),
            maven_model(libs@.take(i as int), folder@) is Ok,
            pairs_view(downloads@) == maven_model(libs@.take(i as int), folder@)->Ok_0,
        decreases libs@.len() - i,
    {
        assert(libs@.take(i + 1).drop_last() =~= libs@.take(i as int));
        let lib = &libs[i];
        match &lib.artifact {
            None => {
                proof {
                    lemma_maven_err_extends(libs@, folder@, i + 1);
                }
                return Err(ProfileError::MissingField(String::from_str("artifact")));
            },
            Some(f) => match &f.path {
                None => {
                    assert(pairs_view(downloads@) + seq![] =~= pairs_view(downloads@));
                },
                Some(p) => {
                    let parent = parent_of(p.as_str());
                    let dir = join_path(folder, parent.as_str());
                    let ghost prev = downloads@;
                    let ghost url = f.url@;
                    downloads.push((f.url.clone(), dir));
                    assert(pairs_view(downloads@) =~= pairs_view(prev) + seq![
                        (url, folder@ + "/"@ + parent_dir(p@)),
                    ]);
                },
            },
        }
        i += 1;
    }
    assert(libs@.take(i as int) =~= libs@);
    Ok(downloads)
}

} // verus!
