use vstd::prelude::*;
use vstd::string::StrSliceExecFns;
use vstd::string::StringExecFns;
use crate::error::ProfileError;

verus! {

/// Number of occurrences of `c` in `s`.
pub open spec fn count_char(s: Seq<char>, c: char) -> nat
    decreases s.len(),
{
    if s.len() == 0 {
        0
    } else {
        count_char(s.drop_last(), c) + if s.last() == c { 1nat } else { 0nat }
    }
}

/// The pieces of `s` between occurrences of `sep`, empty pieces kept.
pub open spec fn split_on(s: Seq<char>, sep: char) -> Seq<Seq<char>>
    decreases s.len(),
{
    if s.len() == 0 {
        seq![Seq::empty()]
    } else {
        let prev = split_on(s.drop_last(), sep);
        if s.last() == sep {
            prev.push(Seq::empty())
        } else {
            prev.update(prev.len() - 1, prev.last().push(s.last()))
        }
    }
}

/// There is always one more piece than separators.
pub proof fn lemma_split_len(s: Seq<char>, sep: char)
    ensures
        split_on(s, sep).len() == count_char(s, sep) + 1,
    decreases s.len(),
{
    if s.len() > 0 {
        lemma_split_len(s.drop_last(), sep);
    }
}

/// A coordinate has three or four colon-separated parts.
pub open spec fn coordinate_well_formed(s: Seq<char>) -> bool {
    let n = split_on(s, ':').len();
    n == 3 || n == 4
}

/// A string with fewer than two colons is not a coordinate, so resolving
/// it fails as malformed.
pub proof fn lemma_few_colons_malformed(s: Seq<char>)
    requires
        count_char(s, ':') < 2,
    ensures
        !coordinate_well_formed(s),
{
    lemma_split_len(s, ':');
}

/// `s` with every `.` turned into a path separator.
pub open spec fn dots_to_slashes(s: Seq<char>) -> Seq<char> {
    s.map_values(|c: char| if c == '.' { '/' } else { c })
}

/// `group-path/artifact/version/artifact-version[-classifier].jar`.
pub open spec fn artifact_path(
    group: Seq<char>,
    artifact: Seq<char>,
    version: Seq<char>,
    classifier: Option<Seq<char>>,
) -> Seq<char> {
    let stem = dots_to_slashes(group) + "/"@ + artifact + "/"@ + version + "/"@ + artifact + "-"@
        + version;
    match classifier {
        Some(c) => stem + "-"@ + c + ".jar"@,
        None => stem + ".jar"@,
    }
}

/// The relative path a well-formed coordinate resolves to.
pub open spec fn coordinate_path(s: Seq<char>) -> Seq<char> {
    let p = split_on(s, ':');
    artifact_path(p[0], p[1], p[2], if p.len() == 4 { Some(p[3]) } else { None })
}

/// A parsed maven coordinate.
pub struct Artifact {
    pub group: String,
    pub artifact: String,
    pub version: String,
    pub classifier: Option<String>,
}

impl Artifact {
    /// The classifier as a sequence, if any.
    pub open spec fn classifier_view(&self) -> Option<Seq<char>> {
        match self.classifier {
            Some(c) => Some(c@),
            None => None,
        }
    }

    /// The relative path this artifact is stored under.
    pub open spec fn path_view(&self) -> Seq<char> {
        artifact_path(self.group@, self.artifact@, self.version@, self.classifier_view())
    }

    /// Parses `group:artifact:version[:classifier]`.
    pub fn parse(s: &str) -> (r: Result<Artifact, ProfileError>)
        ensures
            coordinate_well_formed(s@) <==> r is Ok,
            r is Ok ==> ({
                let a = r->Ok_0;
                let p = split_on(s@, ':');
                &&& a.group@ == p[0]
                &&& a.artifact@ == p[1]
                &&& a.version@ == p[2]
                &&& a.classifier_view() == if p.len() == 4 { Some(p[3]) } else { None }
                &&& a.path_view() == coordinate_path(s@)
            }),
            r is Err ==> (r matches Err(ProfileError::MalformedCoordinate(m)) && m@ == s@),
    {
        let parts = split_at_char(s, ':');
        let n = parts.len();
        if n != 3 && n != 4 {
            return Err(ProfileError::MalformedCoordinate(s.to_owned()));
        }
        let classifier = if n == 4 {
            Some(parts[3].clone())
        } else {
            None
        };
        Ok(Artifact {
            group: parts[0].clone(),
            artifact: parts[1].clone(),
            version: parts[2].clone(),
            classifier,
        })
    }

    /// Builds the relative path of this artifact.
    pub fn to_path(&self) -> (r: String)
        ensures
            r@ == self.path_view(),
    {
        let mut r = replace_dots(self.group.as_str());
        r.append("/");
        r.append(self.artifact.as_str());
        r.append("/");
        r.append(self.version.as_str());
        r.append("/");
        r.append(self.artifact.as_str());
        r.append("-");
        r.append(self.version.as_str());
        match &self.classifier {
            Some(c) => {
                r.append("-");
                r.append(c.as_str());
                r.append(".jar");
            },
            None => {
                r.append(".jar");
            },
        }
        r
    }
}

/// Splits `s` at every occurrence of `sep`.
pub(crate) fn split_at_char(s: &str, sep: char) -> (r: Vec<String>)
    ensures
        r@.map_values(|p: String| p@) == split_on(s@, sep),
{
    let n = s.unicode_len();
    let mut parts: Vec<String> = Vec::new();
    let mut cur = String::new();
    let mut i: usize = 0;
    while i < n
        invariant
            i <= n,
            n == s@.len(),
            parts@.map_values(|p: String| p@).push(cur@) == split_on(s@.take(i as int), sep),
        decreases n - i,
    {
        let c = s.get_char(i);
        let ghost before = parts@.map_values(|p: String| p@).push(cur@);
        assert(s@.take(i + 1).drop_last() == s@.take(i as int));
        if c == sep {
            parts.push(cur);
            cur = String::new();
            assert(parts@.map_values(|p: String| p@).push(cur@) == before.push(Seq::empty()));
        } else {
            let piece = s.substring_char(i, i + 1);
            let ghost old_cur = cur@;
            cur.append(piece);
            assert(piece@ =~= seq![c]);
            assert(cur@ =~= old_cur.push(c));
            assert(parts@.map_values(|p: String| p@).push(cur@) =~= before.update(
                before.len() - 1,
                before.last().push(c),
            ));
        }
        i += 1;
    }
    assert(s@.take(n as int) == s@);
    parts.push(cur);
    parts
}

/// `s` with every `.` replaced by `/`.
fn replace_dots(s: &str) -> (r: String)
    ensures
        r@ == dots_to_slashes(s@),
{
    let n = s.unicode_len();
    let mut r = String::new();
    let mut i: usize = 0;
    while i < n
        invariant
            i <= n,
            n == s@.len(),
            r@ == dots_to_slashes(s@.take(i as int)),
        decreases n - i,
    {
        let c = s.get_char(i);
        proof {
            reveal_strlit("/");
        }
        assert(s@.take(i + 1) =~= s@.take(i as int).push(c));
        if c == '.' {
            r.append("/");
        } else {
            r.append(s.substring_char(i, i + 1));
        }
        i += 1;
        assert(r@ =~= dots_to_slashes(s@.take(i as int)));
    }
    assert(s@.take(n as int) == s@);
    r
}

/// The relative path of the library a coordinate names.
pub fn generate_lib_path(name: &str) -> (r: Result<String, ProfileError>)
    ensures
        coordinate_well_formed(name@) <==> r is Ok,
        r is Ok ==> r->Ok_0@ == coordinate_path(name@),
        r is Err ==> (r matches Err(ProfileError::MalformedCoordinate(m)) && m@ == name@),
{
    let artifact = Artifact::parse(name)?;
    Ok(artifact.to_path())
}

/// The download URL of the library a coordinate names, under `base_url`.
pub fn generate_download_url(base_url: &str, name: &str) -> (r: Result<String, ProfileError>)
    ensures
        coordinate_well_formed(name@) <==> r is Ok,
        r is Ok ==> r->Ok_0@ == base_url@ + coordinate_path(name@),
        r is Err ==> (r matches Err(ProfileError::MalformedCoordinate(m)) && m@ == name@),
{
    let path = generate_lib_path(name)?;
    let mut url = base_url.to_owned();
    url.append(path.as_str());
    Ok(url)
}

} // verus!
