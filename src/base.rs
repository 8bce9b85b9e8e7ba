use vstd::prelude::*;
use vstd::string::StringExecFns;
use crate::error::{ErrorModel, ProfileError};
use crate::manifest::{Library, PlatformRule};
use crate::paths::{file_name, insert_all, last_segment, lemma_insert_all_contains, pairs_view, LibrarySet};
use crate::rules::{
    is_rename_optional, optional_for_rule, regex_compiles, rule_condition, strip_version,
    stripped_name, CompareMode, Optional, VERSION_PATTERN,
};

verus! {

/// A rename optional in the abstract: original name, new name, and how the
/// system is compared with Mac.
pub type RenameModel = (Seq<char>, Seq<char>, CompareMode);

/// Each optional of `os` is the rename that `ms` describes at its index.
pub open spec fn optionals_match(os: Seq<Optional>, ms: Seq<RenameModel>) -> bool {
    &&& os.len() == ms.len()
    &&& forall|i: int|
        0 <= i < os.len() ==> is_rename_optional(#[trigger] os[i], ms[i].0, ms[i].1, ms[i].2)
}

/// The renames that `rules` give, in order, for a library installed as
/// `original` and renamed to `renamed`.
pub open spec fn rule_optionals(
    rules: Seq<PlatformRule>,
    original: Seq<char>,
    renamed: Seq<char>,
) -> Seq<RenameModel>
    decreases rules.len(),
{
    if rules.len() == 0 {
        seq![]
    } else {
        let prev = rule_optionals(rules.drop_last(), original, renamed);
        match rule_condition(rules.last()) {
            Some(m) => prev.push((original, renamed, m)),
            None => prev,
        }
    }
}

/// Why a base library cannot be expanded, if it cannot.
pub open spec fn lib_error(lib: Library) -> Option<ErrorModel> {
    match lib.artifact {
        None => None,
        Some(f) => match f.path {
            None => Some(ErrorModel::MissingField("path"@)),
            Some(_) => match lib.rules {
                Some(rs) => if rs@.len() > 0 && !regex_compiles(VERSION_PATTERN@) {
                    Some(ErrorModel::InvalidPattern)
                } else {
                    None
                },
                None => None,
            },
        },
    }
}

/// The installed name of a base library with an artifact.
pub open spec fn lib_name(lib: Library) -> Seq<char> {
    file_name(lib.artifact->Some_0.path->Some_0@)
}

/// The paths a base library registers, in order: its file name when it has
/// no rules, else its version-stripped name once per rule.
pub open spec fn lib_paths(lib: Library) -> Seq<Seq<char>> {
    match lib.artifact {
        None => seq![],
        Some(f) => match lib.rules {
            None => seq![lib_name(lib)],
            Some(rs) => Seq::new(rs@.len(), |_i: int| stripped_name(lib_name(lib))),
        },
    }
}

/// The renames a base library's rules give.
pub open spec fn lib_optionals(lib: Library) -> Seq<RenameModel> {
    match lib.artifact {
        None => seq![],
        Some(f) => match lib.rules {
            None => seq![],
            Some(rs) => rule_optionals(rs@, lib_name(lib), stripped_name(lib_name(lib))),
        },
    }
}

/// The download a base library needs into `folder`.
pub open spec fn lib_downloads(lib: Library, folder: Seq<char>) -> Seq<(Seq<char>, Seq<char>)> {
    match lib.artifact {
        None => seq![],
        Some(f) => seq![(f.url@, folder)],
    }
}

/// What expanding a list of base libraries yields.
pub struct BaseModel {
    pub paths: Seq<Seq<char>>,
    pub optionals: Seq<RenameModel>,
    pub downloads: Seq<(Seq<char>, Seq<char>)>,
}

/// Expanding `libs` in order, starting from the registered `paths`; the
/// first library that cannot be expanded decides the error.
pub open spec fn base_model(paths: Seq<Seq<char>>, libs: Seq<Library>, folder: Seq<char>) -> Result<
    BaseModel,
    ErrorModel,
>
    decreases libs.len(),
{
    if libs.len() == 0 {
        Ok(BaseModel { paths, optionals: seq![], downloads: seq![] })
    } else {
        match base_model(paths, libs.drop_last(), folder) {
            Err(e) => Err(e),
            Ok(m) => {
                let lib = libs.last();
                match lib_error(lib) {
                    Some(e) => Err(e),
                    None => Ok(
                        BaseModel {
                            paths: insert_all(m.paths, lib_paths(lib)),
                            optionals: m.optionals + lib_optionals(lib),
                            downloads: m.downloads + lib_downloads(lib, folder),
                        },
                    ),
                }
            },
        }
    }
}

proof fn lemma_base_err_extends(
    paths: Seq<Seq<char>>,
    libs: Seq<Library>,
    folder: Seq<char>,
    j: int,
)
    requires
        0 <= j <= libs.len(),
        base_model(paths, libs.take(j), folder) is Err,
    ensures
        base_model(paths, libs, folder) == base_model(paths, libs.take(j), folder),
    decreases libs.len() - j,
{
    if j < libs.len() {
        assert(libs.take(j + 1).drop_last() =~= libs.take(j));
        lemma_base_err_extends(paths, libs, folder, j + 1);
    } else {
        assert(libs.take(j) =~= libs);
    }
}

proof fn lemma_optionals_concat(
    a: Seq<Optional>,
    ma: Seq<RenameModel>,
    b: Seq<Optional>,
    mb: Seq<RenameModel>,
)
    requires
        optionals_match(a, ma),
        optionals_match(b, mb),
    ensures
        optionals_match(a + b, ma + mb),
{
    assert forall|i: int| 0 <= i < (a + b).len() implies is_rename_optional(
        #[trigger] (a + b)[i],
        (ma + mb)[i].0,
        (ma + mb)[i].1,
        (ma + mb)[i].2,
    ) by {
        if i >= a.len() {
            assert(b[i - a.len()] == (a + b)[i]);
        }
    }
}

/// The optionals of a library's rules; registers the renamed file once per rule.
fn expand_rules(
    rules: &Vec<PlatformRule>,
    name: &String,
    stripped: &String,
    set: &mut LibrarySet,
) -> (r: Vec<Optional>)
    requires
        old(set).wf(),
    ensures
        final(set).wf(),
        final(set)@ == insert_all(old(set)@, Seq::new(rules@.len(), |_i: int| stripped@)),
        optionals_match(r@, rule_optionals(rules@, name@, stripped@)),
{
    let ghost set0 = set@;
    let mut r: Vec<Optional> = Vec::new();
    let mut i: usize = 0;
    while i < rules.len()
        invariant
            i <= rules@.len(),
            set.wf(),
            set@ == insert_all(set0, Seq::new(i as nat, |_i: int| stripped@)),
            optionals_match(r@, rule_optionals(rules@.take(i as int), name@, stripped@)),
        decreases rules@.len() - i,
    {
        set.insert(stripped.clone());
        let ghost prev = r@;
        match optional_for_rule(&rules[i], name.as_str(), stripped.as_str()) {
            Some(o) => {
                r.push(o);
            },
            None => {},
        }
        assert(rules@.take(i + 1).drop_last() =~= rules@.take(i as int));
        assert(Seq::new((i + 1) as nat, |_i: int| stripped@).drop_last() =~= Seq::new(
            i as nat,
            |_i: int| stripped@,
        ));
        assert(optionals_match(r@, rule_optionals(rules@.take(i + 1), name@, stripped@))) by {
            if r@.len() > prev.len() {
                assert(r@ =~= prev.push(r@.last()));
            }
        }
        i += 1;
    }
    assert(rules@.take(i as int) =~= rules@);
    r
}

proof fn lemma_rule_optionals_target(rules: Seq<PlatformRule>, original: Seq<char>, renamed: Seq<char>)
    ensures
        forall|i: int|
            0 <= i < rule_optionals(rules, original, renamed).len() ==> (#[trigger] rule_optionals(
                rules,
                original,
                renamed,
            )[i]).1 == renamed,
        rule_optionals(rules, original, renamed).len() <= rules.len(),
    decreases rules.len(),
{
    if rules.len() > 0 {
        lemma_rule_optionals_target(rules.drop_last(), original, renamed);
    }
}

/// Every rename that expanding the base libraries yields targets a path
/// that is registered, as are all paths registered before.
pub proof fn lemma_base_targets_registered(
    paths: Seq<Seq<char>>,
    libs: Seq<Library>,
    folder: Seq<char>,
)
    requires
        base_model(paths, libs, folder) is Ok,
    ensures
        forall|q: Seq<char>| paths.contains(q) ==> #[trigger] base_model(paths, libs, folder)->Ok_0.paths.contains(q),
        forall|i: int|
            0 <= i < base_model(paths, libs, folder)->Ok_0.optionals.len() ==> base_model(
                paths,
                libs,
                folder,
            )->Ok_0.paths.contains((#[trigger] base_model(paths, libs, folder)->Ok_0.optionals[i]).1),
    decreases libs.len(),
{
    if libs.len() > 0 {
        let prev = libs.drop_last();
        lemma_base_targets_registered(paths, prev, folder);
        let m = base_model(paths, prev, folder)->Ok_0;
        let lib = libs.last();
        let m2 = base_model(paths, libs, folder)->Ok_0;
        lemma_insert_all_contains(m.paths, lib_paths(lib));
        assert forall|i: int| 0 <= i < m2.optionals.len() implies m2.paths.contains(
            (#[trigger] m2.optionals[i]).1,
        ) by {
            if i < m.optionals.len() {
                assert(m2.optionals[i] == m.optionals[i]);
                assert(m.paths.contains(m.optionals[i].1));
            } else {
                let f = lib.artifact->Some_0;
                let rs = lib.rules->Some_0;
                let stripped = stripped_name(lib_name(lib));
                lemma_rule_optionals_target(rs@, lib_name(lib), stripped);
                assert(m2.optionals[i] == lib_optionals(lib)[i - m.optionals.len()]);
                assert(lib_paths(lib)[0] == stripped);
            }
        }
    }
}

/// The downloads and rename optionals of the base libraries.
pub struct BaseLibraries {
    pub downloads: Vec<(String, String)>,
    pub optionals: Vec<Optional>,
}

/// Expands the base libraries: registers each one's installed name in `set`,
/// plans its download into `folder`, and turns its platform rules into
/// rename optionals.
pub fn expand_base_libraries(libs: &Vec<Library>, folder: &str, set: &mut LibrarySet) -> (r: Result<
    BaseLibraries,
    ProfileError,
>)
    requires
        old(set).wf(),
    ensures
        final(set).wf(),
        match base_model(old(set)@, libs@, folder@) {
            Ok(m) => {
                &&& r is Ok
                &&& final(set)@ == m.paths
                &&& pairs_view(r->Ok_0.downloads@) == m.downloads
                &&& optionals_match(r->Ok_0.optionals@, m.optionals)
            },
            Err(e) => r is Err && r->Err_0@ == e,
        },
{
    let ghost set0 = set@;
    let mut downloads: Vec<(String, String)> = Vec::new();
    let mut optionals: Vec<Optional> = Vec::new();
    let mut i: usize = 0;
    while i < libs.len()
        invariant
            i <= libs@.len(),
            set.wf(),
            set0 == old(set)@,
            base_model(set0, libs@.take(i as int), folder@) is Ok,
            set@ == base_model(set0, libs@.take(i as int), folder@)->Ok_0.paths,
            pairs_view(downloads@) == base_model(set0, libs@.take(i as int), folder@)->Ok_0.downloads,
            optionals_match(
                optionals@,
                base_model(set0, libs@.take(i as int), folder@)->Ok_0.optionals,
            ),
        decreases libs@.len() - i,
    {
        let lib = &libs[i];
        assert(libs@.take(i + 1).drop_last() =~= libs@.take(i as int));
        assert(libs@.take(i + 1).last() == *lib);
        let ghost m = base_model(set0, libs@.take(i as int), folder@)->Ok_0;
        match &lib.artifact {
            None => {
                assert(insert_all(set@, seq![]) == set@);
                assert(m.optionals + seq![] =~= m.optionals);
                assert(m.downloads + seq![] =~= m.downloads);
            },
            Some(file) => {
                let path = match &file.path {
                    Some(p) => p,
                    None => {
                        let e = ProfileError::MissingField(String::from_str("path"));
                        assert(lib_error(*lib) == Some(ErrorModel::MissingField("path"@)));
                        assert(base_model(set0, libs@.take(i + 1), folder@) == Err::<
                            BaseModel,
                            ErrorModel,
                        >(e@));
                        proof {
                            lemma_base_err_extends(set0, libs@, folder@, i + 1);
                        }
                        return Err(e);
                    },
                };
                let name = last_segment(path.as_str());
                match &lib.rules {
                    None => {
                        let ghost before = set@;
                        let ghost name_view = name@;
                        set.insert(name);
                        assert(seq![lib_name(*lib)].drop_last() =~= Seq::<Seq<char>>::empty());
                        assert(insert_all(before, Seq::<Seq<char>>::empty()) == before);
                        assert(lib_paths(*lib) == seq![name_view]);
                        assert(insert_all(before, lib_paths(*lib)) == set@);
                        assert(m.optionals + seq![] =~= m.optionals);
                    },
                    Some(rules) => {
                        if rules.len() > 0 {
                            let stripped = match strip_version(name.as_str()) {
                                Ok(s) => s,
                                Err(e) => {
                                    assert(lib_error(*lib) == Some(ErrorModel::InvalidPattern));
                                    assert(base_model(set0, libs@.take(i + 1), folder@) == Err::<
                                        BaseModel,
                                        ErrorModel,
                                    >(e@));
                                    proof {
                                        lemma_base_err_extends(set0, libs@, folder@, i + 1);
                                    }
                                    return Err(e);
                                },
                            };
                            let mut new_optionals = expand_rules(rules, &name, &stripped, set);
                            assert(Seq::new(rules@.len(), |_i: int| stripped@) =~= lib_paths(*lib));
                            proof {
                                lemma_optionals_concat(
                                    optionals@,
                                    m.optionals,
                                    new_optionals@,
                                    lib_optionals(*lib),
                                );
                            }
                            optionals.append(&mut new_optionals);
                        } else {
                            assert(Seq::new(0, |_i: int| stripped_name(lib_name(*lib)))
                                =~= Seq::<Seq<char>>::empty());
                            assert(rule_optionals(rules@, lib_name(*lib), stripped_name(lib_name(*lib)))
                                == Seq::<RenameModel>::empty());
                            assert(m.optionals + seq![] =~= m.optionals);
                        }
                    },
                }
                let ghost prev = downloads@;
                downloads.push((file.url.clone(), String::from_str(folder)));
                assert(pairs_view(downloads@) =~= pairs_view(prev).push((file.url@, folder@)));
                assert(m.downloads + lib_downloads(*lib, folder@) =~= m.downloads.push((file.url@, folder@)));
            },
        }
        i += 1;
    }
    assert(libs@.take(i as int) =~= libs@);
    Ok(BaseLibraries { downloads, optionals })
}

} // verus!
