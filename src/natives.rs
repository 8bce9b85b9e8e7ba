use vstd::prelude::*;
use vstd::string::StrSliceExecFns;
use crate::manifest::{Library, LibraryFile};
use crate::paths::{jar_url, pairs_view};

verus! {

/// `s` ends with `suffix`.
pub open spec fn ends_with(s: Seq<char>, suffix: Seq<char>) -> bool {
    s.len() >= suffix.len() && s.subrange(s.len() - suffix.len(), s.len() as int) == suffix
}

/// An archive entry is a platform shared object.
pub open spec fn is_native_name(name: Seq<char>) -> bool {
    ends_with(name, ".so"@) || ends_with(name, ".dll"@) || ends_with(name, ".dylib"@)
}

/// Whether `s` ends with `suffix`.
fn str_ends_with(s: &str, suffix: &str) -> (r: bool)
    ensures
        r == ends_with(s@, suffix@),
{
    let n = s.unicode_len();
    let m = suffix.unicode_len();
    if n < m {
        return false;
    }
    let mut i: usize = 0;
    while i < m
        invariant
            i <= m,
            m <= n,
            n == s@.len(),
            m == suffix@.len(),
            forall|j: int| 0 <= j < i ==> s@[n - m + j] == suffix@[j],
        decreases m - i,
    {
        if s.get_char(n - m + i) != suffix.get_char(i) {
            assert(s@.subrange(n - m, n as int)[i as int] != suffix@[i as int]);
            return false;
        }
        i += 1;
    }
    assert(s@.subrange(n - m, n as int) =~= suffix@);
    true
}

/// Whether an archive entry named `name` is a platform shared object
/// (`.so`, `.dll` or `.dylib`).
pub fn is_native_library(name: &str) -> (r: bool)
    ensures
        r == is_native_name(name@),
{
    str_ends_with(name, ".so") || str_ends_with(name, ".dll") || str_ends_with(name, ".dylib")
}

/// The entries of `names` that are platform shared objects, in order.
pub open spec fn native_names(names: Seq<Seq<char>>) -> Seq<Seq<char>>
    decreases names.len(),
{
    if names.len() == 0 {
        seq![]
    } else {
        let prev = native_names(names.drop_last());
        if is_native_name(names.last()) {
            prev.push(names.last())
        } else {
            prev
        }
    }
}

/// Picks, from the file entries of an archive, those to extract.
pub fn select_native_entries(names: &Vec<String>) -> (r: Vec<String>)
    ensures
        r@.map_values(|s: String| s@) == native_names(names@.map_values(|s: String| s@)),
{
    let ghost ns = names@.map_values(|s: String| s@);
    let mut r: Vec<String> = Vec::new();
    let mut i: usize = 0;
    while i < names.len()
        invariant
            i <= names@.len(),
            ns == names@.map_values(|s: String| s@),
            r@.map_values(|s: String| s@) == native_names(ns.take(i as int)),
        decreases names@.len() - i,
    {
        assert(ns.take(i + 1).drop_last() =~= ns.take(i as int));
        if is_native_library(names[i].as_str()) {
            let ghost prev = r@;
            r.push(names[i].clone());
            assert(r@.map_values(|s: String| s@) =~= prev.map_values(|s: String| s@).push(
                ns[i as int],
            ));
        }
        i += 1;
    }
    assert(ns.take(i as int) =~= ns);
    r
}

/// The native bundles of one library to fetch into `dir`: Mac, then
/// Windows, then Linux, each where present.
pub open spec fn lib_native_downloads(lib: Library, dir: Seq<char>) -> Seq<(Seq<char>, Seq<char>)> {
    match lib.classifiers {
        None => seq![],
        Some(c) => {
            let osx = match c.natives_osx {
                Some(f) => seq![(f.url@, dir)],
                None => seq![],
            };
            let windows = match c.natives_windows {
                Some(f) => seq![(f.url@, dir)],
                None => seq![],
            };
            let linux = match c.natives_linux {
                Some(f) => seq![(f.url@, dir)],
                None => seq![],
            };
            osx + windows + linux
        },
    }
}

/// The native bundles of `libs`, library by library.
pub open spec fn native_downloads_of(libs: Seq<Library>, dir: Seq<char>) -> Seq<
    (Seq<char>, Seq<char>),
>
    decreases libs.len(),
{
    if libs.len() == 0 {
        seq![]
    } else {
        native_downloads_of(libs.drop_last(), dir) + lib_native_downloads(libs.last(), dir)
    }
}

fn push_bundle(f: &Option<LibraryFile>, dir: &str, out: &mut Vec<(String, String)>)
    ensures
        pairs_view(final(out)@) == pairs_view(old(out)@) + match *f {
            Some(file) => seq![(file.url@, dir@)],
            None => Seq::<(Seq<char>, Seq<char>)>::empty(),
        },
{
    match f {
        Some(file) => {
            let ghost prev = out@;
            out.push(jar_url(dir, file));
            assert(pairs_view(out@) =~= pairs_view(prev) + seq![(file.url@, dir@)]);
        },
        None => {
            assert(pairs_view(out@) + Seq::<(Seq<char>, Seq<char>)>::empty() =~= pairs_view(
                out@,
            ));
        },
    }
}

/// Plans the downloads of every native bundle of `libs` into `dir`.
pub fn native_downloads(libs: &Vec<Library>, dir: &str) -> (r: Vec<(String, String)>)
    ensures
        pairs_view(r@) == native_downloads_of(libs@, dir@),
{
    let mut r: Vec<(String, String)> = Vec::new();
    let mut i: usize = 0;
    while i < libs.len()
        invariant
            i <= libs@.len(),
            pairs_view(r@) == native_downloads_of(libs@.take(i as int), dir@),
        decreases libs@.len() - i,
    {
        assert(libs@.take(i + 1).drop_last() =~= libs@.take(i as int));
        let ghost before = pairs_view(r@);
        match &libs[i].classifiers {
            None => {
                assert(before + seq![] =~= before);
            },
            Some(c) => {
                push_bundle(&c.natives_osx, dir, &mut r);
                push_bundle(&c.natives_windows, dir, &mut r);
                push_bundle(&c.natives_linux, dir, &mut r);
                assert(pairs_view(r@) =~= before + lib_native_downloads(libs@[i as int], dir@));
            },
        }
        i += 1;
    }
    assert(libs@.take(i as int) =~= libs@);
    r
}

} // verus!
