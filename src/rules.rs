use vstd::prelude::*;
use vstd::string::StringExecFns;
use crate::error::ProfileError;
use crate::manifest::PlatformRule;

verus! {

/// The pattern of the version qualifier embedded in a platform-specific
/// library's file name.
pub const VERSION_PATTERN: &'static str = "-\\d.\\d.\\d.+";

/// Whether `pattern` is a regular expression the matcher accepts.
pub uninterp spec fn regex_compiles(pattern: Seq<char>) -> bool;

/// `text` with every non-overlapping match of `pattern` replaced by
/// `replacement`.
pub uninterp spec fn regex_replace_all(
    pattern: Seq<char>,
    text: Seq<char>,
    replacement: Seq<char>,
) -> Seq<char>;

/// Relies on `regex::Regex::new` (an error exactly when the pattern is not a
/// valid expression) and `regex::Regex::replace_all` (all non-overlapping
/// matches replaced); the outcome depends on the three strings alone.
#[verifier::external_body]
fn replace_all_matches(pattern: &str, text: &str, replacement: &str) -> (r: Option<String>)
    ensures
        r is Some <==> regex_compiles(pattern@),
        r is Some ==> r->Some_0@ == regex_replace_all(pattern@, text@, replacement@),
{
    regex::Regex::new(pattern).ok().map(|re| re.replace_all(text, replacement).into_owned())
}

/// The file name a platform-specific library is installed under: `name`
/// with its version qualifier replaced by `.jar`.
pub open spec fn stripped_name(name: Seq<char>) -> Seq<char> {
    regex_replace_all(VERSION_PATTERN@, name, ".jar"@)
}

/// Strips the version qualifier from a library file name.
pub fn strip_version(name: &str) -> (r: Result<String, ProfileError>)
    ensures
        r is Ok <==> regex_compiles(VERSION_PATTERN@),
        r is Ok ==> r->Ok_0@ == stripped_name(name@),
        r is Err ==> r->Err_0 == ProfileError::InvalidPattern,
{
    match replace_all_matches(VERSION_PATTERN, name, ".jar") {
        Some(s) => Ok(s),
        None => Err(ProfileError::InvalidPattern),
    }
}

/// How an optional's platform condition compares the running system with
/// its operating-system type.
#[derive(Debug, Clone, Copy, PartialEq, Eq, Structural)]
pub enum CompareMode {
    Equal,
    Unequal,
}

/// The operating-system types a condition can name.
#[derive(Debug, Clone, Copy, PartialEq, Eq, Structural)]
pub enum OsType {
    MacOsX64,
}

/// A platform condition of an optional.
#[derive(Debug, Clone, Copy, PartialEq, Eq, Structural)]
pub struct OsRule {
    pub os_type: OsType,
    pub compare_mode: CompareMode,
}

/// The installation folder a file action works in.
#[derive(Debug, Clone, Copy, PartialEq, Eq, Structural)]
pub enum Location {
    Libraries,
}

/// The files a file action touches.
pub struct OptionalFiles {
    pub original_paths: Vec<String>,
    pub rename_paths: Vec<(String, String)>,
}

/// A file action of an optional.
pub struct FileAction {
    pub location: Location,
    pub files: OptionalFiles,
}

/// A conditional installation step, evaluated by the launcher at run time.
pub struct Optional {
    pub actions: Vec<FileAction>,
    pub rules: Vec<OsRule>,
    pub enabled: bool,
    pub visible: bool,
    pub description: Option<String>,
    pub name: Option<String>,
}

/// The condition a platform rule turns into: `allow` with no operating
/// system keeps the default name off Mac; `allow` on `osx` takes the Mac
/// variant on Mac only; other shapes give none.
pub open spec fn rule_condition(rule: PlatformRule) -> Option<CompareMode> {
    if rule.action@ == "allow"@ {
        match rule.os {
            None => Some(CompareMode::Unequal),
            Some(os) => if os@ == "osx"@ {
                Some(CompareMode::Equal)
            } else {
                None
            },
        }
    } else {
        None
    }
}

/// `o` renames `original` to `renamed` in the libraries folder, on the
/// condition that the system compares to Mac by `mode`.
pub open spec fn is_rename_optional(
    o: Optional,
    original: Seq<char>,
    renamed: Seq<char>,
    mode: CompareMode,
) -> bool {
    &&& o.actions@.len() == 1
    &&& o.actions@[0].location == Location::Libraries
    &&& o.actions@[0].files.original_paths@.len() == 0
    &&& o.actions@[0].files.rename_paths@.len() == 1
    &&& o.actions@[0].files.rename_paths@[0].0@ == original
    &&& o.actions@[0].files.rename_paths@[0].1@ == renamed
    &&& o.rules@ == seq![OsRule { os_type: OsType::MacOsX64, compare_mode: mode }]
    &&& o.enabled
    &&& !o.visible
    &&& o.description is None
    &&& o.name is None
}

/// The comparison mode a platform rule calls for, if it is a supported shape.
pub fn rule_compare_mode(rule: &PlatformRule) -> (r: Option<CompareMode>)
    ensures
        r == rule_condition(*rule),
{
    if rule.action == String::from_str("allow") {
        match &rule.os {
            None => Some(CompareMode::Unequal),
            Some(os) => if *os == String::from_str("osx") {
                Some(CompareMode::Equal)
            } else {
                None
            },
        }
    } else {
        None
    }
}

/// The optional a platform rule gives for a library installed as `original`
/// and renamed to `renamed`; none for an unsupported rule shape.
pub fn optional_for_rule(rule: &PlatformRule, original: &str, renamed: &str) -> (r: Option<
    Optional,
>)
    ensures
        r is Some <==> rule_condition(*rule) is Some,
        r is Some ==> is_rename_optional(
            r->Some_0,
            original@,
            renamed@,
            rule_condition(*rule)->Some_0,
        ),
{
    match rule_compare_mode(rule) {
        None => None,
        Some(mode) => {
            let mut rename_paths: Vec<(String, String)> = Vec::new();
            rename_paths.push((String::from_str(original), String::from_str(renamed)));
            let mut actions: Vec<FileAction> = Vec::new();
            actions.push(
                FileAction {
                    location: Location::Libraries,
                    files: OptionalFiles { original_paths: Vec::new(), rename_paths },
                },
            );
            let mut rules: Vec<OsRule> = Vec::new();
            rules.push(OsRule { os_type: OsType::MacOsX64, compare_mode: mode });
            Some(
                Optional {
                    actions,
                    rules,
                    enabled: true,
                    visible: false,
                    description: None,
                    name: None,
                },
            )
        },
    }
}

} // verus!
