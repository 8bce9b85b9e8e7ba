use vstd::prelude::*;
use vstd::string::StringExecFns;
use crate::coordinate::{split_at_char, split_on};
use crate::manifest::LibraryFile;

verus! {

/// The last `/`-separated segment of `path`.
pub open spec fn file_name(path: Seq<char>) -> Seq<char> {
    split_on(path, '/').last()
}

/// The view of a list of (URL, destination) pairs.
pub open spec fn pairs_view(v: Seq<(String, String)>) -> Seq<(Seq<char>, Seq<char>)> {
    v.map_values(|d: (String, String)| (d.0@, d.1@))
}

/// The last `/`-separated segment of `path`.
pub fn last_segment(path: &str) -> (r: String)
    ensures
        r@ == file_name(path@),
{
    let mut parts = split_at_char(path, '/');
    proof {
        crate::coordinate::lemma_split_len(path@, '/');
    }
    let n = parts.len();
    parts.remove(n - 1)
}

/// `base/segment`.
pub fn join_path(base: &str, segment: &str) -> (r: String)
    ensures
        r@ == base@ + "/"@ + segment@,
{
    let mut r = String::from_str(base);
    r.append("/");
    r.append(segment);
    r
}

/// The download of a library file into `base_path`.
pub fn jar_url(base_path: &str, file: &LibraryFile) -> (r: (String, String))
    ensures
        r.0@ == file.url@,
        r.1@ == base_path@,
{
    (file.url.clone(), String::from_str(base_path))
}

/// The repository path of the intermediary mappings for `version`.
pub open spec fn yarn_path(version: Seq<char>) -> Seq<char> {
    "net/fabricmc/intermediary/"@ + version + "/intermediary-"@ + version + ".jar"@
}

/// The repository path of the intermediary mappings for a game version.
pub fn get_yarn_path(version: &str) -> (r: String)
    ensures
        r@ == yarn_path(version@),
{
    let mut r = String::from_str("net/fabricmc/intermediary/");
    r.append(version);
    r.append("/intermediary-");
    r.append(version);
    r.append(".jar");
    r
}

/// The download URL of the intermediary mappings for a game version.
pub fn get_yarn_url(version: &str) -> (r: String)
    ensures
        r@ == "https://maven.fabricmc.net/"@ + yarn_path(version@),
{
    let path = get_yarn_path(version);
    let mut r = String::from_str("https://maven.fabricmc.net/");
    r.append(path.as_str());
    r
}

/// `s` with `p` added at the end unless it is already there.
pub open spec fn insert_path(s: Seq<Seq<char>>, p: Seq<char>) -> Seq<Seq<char>> {
    if s.contains(p) {
        s
    } else {
        s.push(p)
    }
}

/// `s` after inserting each of `items` in turn.
pub open spec fn insert_all(s: Seq<Seq<char>>, items: Seq<Seq<char>>) -> Seq<Seq<char>>
    decreases items.len(),
{
    if items.len() == 0 {
        s
    } else {
        insert_path(insert_all(s, items.drop_last()), items.last())
    }
}

/// Inserting keeps what was there and adds what was inserted.
pub proof fn lemma_insert_all_contains(s: Seq<Seq<char>>, items: Seq<Seq<char>>)
    ensures
        forall|q: Seq<char>| s.contains(q) ==> #[trigger] insert_all(s, items).contains(q),
        forall|j: int| 0 <= j < items.len() ==> insert_all(s, items).contains(#[trigger] items[j]),
    decreases items.len(),
{
    if items.len() > 0 {
        let prev = items.drop_last();
        lemma_insert_all_contains(s, prev);
        let t = insert_all(s, prev);
        assert forall|q: Seq<char>| t.contains(q) implies #[trigger] insert_path(t, items.last()).contains(q) by {
            if !t.contains(items.last()) {
                let k = choose|k: int| 0 <= k < t.len() && t[k] == q;
                assert(t.push(items.last())[k] == q);
            }
        }
        assert(insert_path(t, items.last()).contains(items.last())) by {
            if !t.contains(items.last()) {
                assert(t.push(items.last())[t.len() as int] == items.last());
            }
        }
        assert forall|j: int| 0 <= j < items.len() implies insert_all(s, items).contains(#[trigger] items[j]) by {
            if j < prev.len() {
                assert(prev[j] == items[j]);
                assert(t.contains(prev[j]));
            }
        }
    }
}

/// An insertion-ordered set of library paths: no path occurs twice.
pub struct LibrarySet {
    paths: Vec<String>,
}

impl View for LibrarySet {
    type V = Seq<Seq<char>>;

    closed spec fn view(&self) -> Seq<Seq<char>> {
        self.paths@.map_values(|p: String| p@)
    }
}

impl LibrarySet {
    /// No path occurs twice.
    pub open spec fn wf(&self) -> bool {
        self@.no_duplicates()
    }

    /// The empty set.
    pub fn new() -> (r: LibrarySet)
        ensures
            r.wf(),
            r@ == Seq::<Seq<char>>::empty(),
    {
        let r = LibrarySet { paths: Vec::new() };
        assert(r@ =~= Seq::<Seq<char>>::empty());
        r
    }

    /// Whether `p` is in the set.
    pub fn contains(&self, p: &String) -> (r: bool)
        ensures
            r == self@.contains(p@),
    {
        let mut i: usize = 0;
        while i < self.paths.len()
            invariant
                i <= self.paths@.len(),
                forall|j: int| 0 <= j < i ==> self@[j] != p@,
            decreases self.paths@.len() - i,
        {
            if self.paths[i].eq(p) {
                assert(self@[i as int] == p@);
                return true;
            }
            i += 1;
        }
        false
    }

    /// Adds `p` unless it is already in the set.
    pub fn insert(&mut self, p: String)
        requires
            old(self).wf(),
        ensures
            final(self).wf(),
            final(self)@ == insert_path(old(self)@, p@),
    {
        if !self.contains(&p) {
            self.paths.push(p);
            assert(self@ =~= old(self)@.push(p@));
        }
    }

    /// Number of paths.
    pub fn len(&self) -> (r: usize)
        ensures
            r == self@.len(),
    {
        self.paths.len()
    }

    /// The paths, in insertion order.
    pub fn to_vec(&self) -> (r: Vec<String>)
        ensures
            r@.map_values(|p: String| p@) == self@,
    {
        let mut r: Vec<String> = Vec::new();
        let mut i: usize = 0;
        while i < self.paths.len()
            invariant
                i <= self.paths@.len(),
                r@.map_values(|p: String| p@) == self@.take(i as int),
            decreases self.paths@.len() - i,
        {
            let s = self.paths[i].clone();
            assert(s@ == self@[i as int]);
            let ghost prev = r@;
            r.push(s);
            assert(r@.map_values(|p: String| p@) =~= prev.map_values(|p: String| p@).push(s@));
            assert(self@.take(i + 1) =~= self@.take(i as int).push(self@[i as int]));
            i += 1;
        }
        assert(self@.take(i as int) =~= self@);
        r
    }
}

} // verus!
