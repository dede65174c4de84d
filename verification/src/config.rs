//! Run configuration data and the small decisions made over it.
//!
//! Loading the configuration from disk, parsing it, discovering files and
//! mining git metadata are a caller's concern; this module holds the plain
//! data those steps produce and the pure rules the run applies to it: how a
//! file name resolves to a header type, how the git feature gates combine,
//! and when unknown files fail a run.

use vstd::prelude::*;

use crate::text::chars_end_with;
use crate::text::lower_of;
use crate::text::seq_ends_with;
use crate::text::str_chars;
use crate::text::to_lower;

verus! {

/// Whether a feature is forced on, forced off, or decided by the
/// environment.
#[derive(Clone, Copy, PartialEq, Eq, Structural)]
pub enum FeatureGate {
    /// Decide by the environment whether to turn the feature on.
    Auto,
    /// Force the feature on.
    Enable,
    /// Force the feature off.
    Disable,
}

impl FeatureGate {
    pub fn is_enable(&self) -> (r: bool)
        ensures
            r == (*self is Enable),
    {
        match self {
            FeatureGate::Auto => false,
            FeatureGate::Enable => true,
            FeatureGate::Disable => false,
        }
    }

    pub fn is_disable(&self) -> (r: bool)
        ensures
            r == (*self is Disable),
    {
        match self {
            FeatureGate::Auto => false,
            FeatureGate::Enable => false,
            FeatureGate::Disable => true,
        }
    }

    pub fn is_auto(&self) -> (r: bool)
        ensures
            r == (*self is Auto),
    {
        match self {
            FeatureGate::Auto => true,
            FeatureGate::Enable => false,
            FeatureGate::Disable => false,
        }
    }
}

/// The git-related feature gates of a run.
#[derive(Clone, Copy, PartialEq, Eq, Structural)]
pub struct Git {
    /// Mining file attributes (authors, years) from history.
    pub attrs: FeatureGate,
    /// Honouring gitignore rules during file discovery.
    pub ignore: FeatureGate,
}

impl Default for Git {
    /// Attribute mining starts off, as it is expensive; ignore handling is
    /// decided by the environment.
    fn default() -> (r: Self)
        ensures
            r.attrs is Disable,
            r.ignore is Auto,
    {
        Git { attrs: FeatureGate::Disable, ignore: FeatureGate::Auto }
    }
}

/// The combined git gate of a run: on when any gate forces on, otherwise
/// environment-decided when any gate leaves it open, otherwise off.
pub open spec fn spec_resolve_features(g: Git) -> FeatureGate {
    if g.attrs is Enable || g.ignore is Enable {
        FeatureGate::Enable
    } else if g.attrs is Auto || g.ignore is Auto {
        FeatureGate::Auto
    } else {
        FeatureGate::Disable
    }
}

pub fn resolve_features(config: &Git) -> (r: FeatureGate)
    ensures
        r == spec_resolve_features(*config),
{
    if config.attrs.is_enable() || config.ignore.is_enable() {
        FeatureGate::Enable
    } else if config.attrs.is_auto() || config.ignore.is_auto() {
        FeatureGate::Auto
    } else {
        FeatureGate::Disable
    }
}

/// One rule mapping file names to a header type, either by the whole name
/// or by extension; comparisons ignore case.
pub enum Mapping {
    Filename { pattern: String, header_type: String },
    Extension { pattern: String, header_type: String },
}

impl Mapping {
    /// The header type this rule assigns to the given file name, if it
    /// applies: a filename rule on the lowercased whole name, an extension
    /// rule on a lowercased `.extension` suffix.
    pub fn header_type(&self, filename: &str) -> (r: Option<String>)
        ensures
            self matches Mapping::Filename { pattern, header_type } ==> {
                if lower_of(filename@) == lower_of(pattern@) {
                    r matches Some(h) && h@ == header_type@
                } else {
                    r is None
                }
            },
            self matches Mapping::Extension { pattern, header_type } ==> {
                if seq_ends_with(lower_of(filename@), seq!['.'] + lower_of(pattern@)) {
                    r matches Some(h) && h@ == header_type@
                } else {
                    r is None
                }
            },
    {
        let lf: String = to_lower(filename);
        match self {
            Mapping::Filename { pattern, header_type } => {
                let lp: String = to_lower(pattern.as_str());
                if lf == lp {
                    Some(header_type.clone())
                } else {
                    None
                }
            },
            Mapping::Extension { pattern, header_type } => {
                let lp: String = to_lower(pattern.as_str());
                let mut dotted: String = String::from_str(".");
                dotted.append(lp.as_str());
                proof {
                    reveal_strlit(".");
                    assert("."@ =~= seq!['.']);
                }
                let fv: Vec<char> = str_chars(lf.as_str());
                let sv: Vec<char> = str_chars(dotted.as_str());
                if chars_end_with(&fv, &sv) {
                    Some(header_type.clone())
                } else {
                    None
                }
            },
        }
    }
}

/// Per-file attributes available to header templates.
pub struct Attributes {
    /// The file's own name.
    pub filename: Option<String>,
    /// When git history records the file's creation.
    pub git_created_time: Option<String>,
    /// When git history last records a change to the file.
    pub git_modified_time: Option<String>,
    /// The authors git history records for the file.
    pub git_authors: Vec<String>,
}

/// One entry of the default document-type table: a pattern and the header
/// type it selects, usable as an extension rule, a filename rule, or both.
pub struct DocumentType {
    pub pattern: String,
    pub header_type: String,
    pub extension: bool,
    pub filename: bool,
}

impl DocumentType {
    /// The mapping rules this entry contributes: an extension rule first,
    /// then a filename rule, each only when enabled.
    pub fn mappings(&self) -> (r: Vec<Mapping>)
        ensures
            r@.len() == (if self.extension {
                1int
            } else {
                0int
            }) + (if self.filename {
                1int
            } else {
                0int
            }),
            self.extension ==> (r@[0] matches Mapping::Extension { pattern, header_type }
                && pattern@ == self.pattern@ && header_type@ == self.header_type@),
            self.filename ==> (r@[r@.len() - 1] matches Mapping::Filename { pattern, header_type }
                && pattern@ == self.pattern@ && header_type@ == self.header_type@),
    {
        let mut r: Vec<Mapping> = Vec::new();
        if self.extension {
            r.push(
                Mapping::Extension {
                    pattern: self.pattern.clone(),
                    header_type: self.header_type.clone(),
                },
            );
        }
        if self.filename {
            r.push(
                Mapping::Filename {
                    pattern: self.pattern.clone(),
                    header_type: self.header_type.clone(),
                },
            );
        }
        r
    }
}

/// The canonical license text a run checks files against.
pub struct HeaderSource {
    /// The text, with any placeholders already resolved by the caller.
    pub content: String,
}

impl HeaderSource {
    pub fn new(content: String) -> (r: HeaderSource)
        ensures
            r.content@ == content@,
    {
        HeaderSource { content }
    }
}

/// A whole run's configuration, as the caller assembled it from
/// configuration files and defaults.
pub struct Config {
    /// Directory the run starts from.
    pub base_dir: String,
    /// License text given inline, taking priority over `header_path`.
    pub inline_header: Option<String>,
    /// Path of a license text file, relative to `base_dir`.
    pub header_path: Option<String>,
    /// Whether matching is strict (line for line) or loose.
    pub strict_check: bool,
    /// Whether the built-in exclude patterns apply.
    pub use_default_excludes: bool,
    /// Whether the built-in filename mapping applies.
    pub use_default_mapping: bool,
    /// Keywords that must occur in a detected header.
    pub keywords: Vec<String>,
    /// Glob patterns of files to process.
    pub includes: Vec<String>,
    /// Glob patterns of files to leave alone.
    pub excludes: Vec<String>,
    /// Template properties, as key and value.
    pub properties: Vec<(String, String)>,
    /// File-name mapping rules.
    pub mapping: Vec<Mapping>,
    /// The git feature gates.
    pub git: Git,
    /// Paths of further header-definition files.
    pub additional_headers: Vec<String>,
}

pub fn default_true() -> (r: bool)
    ensures
        r,
{
    true
}

pub fn default_cwd() -> (r: String)
    ensures
        r@ == "."@,
{
    String::from_str(".")
}

pub fn default_keywords() -> (r: Vec<String>)
    ensures
        r@.len() == 1,
        r@[0]@ == "copyright"@,
{
    let mut r: Vec<String> = Vec::new();
    r.push(String::from_str("copyright"));
    r
}

/// The configuration file a run reads when none is named.
pub fn default_config() -> (r: String)
    ensures
        r@ == "licenserc.toml"@,
{
    String::from_str("licenserc.toml")
}

/// Whether a run with the given unknown files must fail: only when there
/// are any and the run was asked to fail on them.
pub fn check_unknown_files(unknown: &Vec<String>, fail_if_unknown: bool) -> (r: bool)
    ensures
        r == (unknown@.len() > 0 && fail_if_unknown),
{
    unknown.len() > 0 && fail_if_unknown
}

/// What git history records about one file: when it was created, when it
/// was last changed, and who touched it. Times are seconds since the
/// epoch.
pub struct GitFileAttrs {
    pub created_time: i64,
    pub modified_time: i64,
    pub authors: Vec<String>,
}

impl GitFileAttrs {
    /// Starts the record from one observed commit.
    pub fn new(time: i64, author: String) -> (r: GitFileAttrs)
        ensures
            r.created_time == time,
            r.modified_time == time,
            r.authors@.len() == 1,
            r.authors@[0]@ == author@,
    {
        let mut authors: Vec<String> = Vec::new();
        authors.push(author);
        GitFileAttrs { created_time: time, modified_time: time, authors }
    }

    /// Folds one more observed commit into the record: the creation time
    /// becomes the earlier of the two, the modification time the later,
    /// and an author not seen before is appended.
    pub fn observe(&mut self, time: i64, author: String)
        ensures
            final(self).created_time == if time < old(self).created_time {
                time
            } else {
                old(self).created_time
            },
            final(self).modified_time == if time > old(self).modified_time {
                time
            } else {
                old(self).modified_time
            },
            (exists|j: int|
                0 <= j < old(self).authors@.len() && (#[trigger] old(self).authors@[j])@
                    == author@) ==> final(self).authors@ == old(self).authors@,
            !(exists|j: int|
                0 <= j < old(self).authors@.len() && (#[trigger] old(self).authors@[j])@
                    == author@) ==> final(self).authors@ == old(self).authors@.push(author),
    {
        if time < self.created_time {
            self.created_time = time;
        }
        if time > self.modified_time {
            self.modified_time = time;
        }
        let mut known: bool = false;
        let mut j: usize = 0;
        while j < self.authors.len()
            invariant
                0 <= j <= self.authors@.len(),
                known == (exists|i: int|
                    0 <= i < j && (#[trigger] self.authors@[i])@ == author@),
        decreases self.authors@.len() - j,
        {
            if self.authors[j] == author {
                known = true;
            }
            j = j + 1;
        }
        if !known {
            self.authors.push(author);
        }
    }
}

/// What a build of this tool records about itself.
pub struct BuildInfo {
    pub branch: String,
    pub commit: String,
    pub commit_short: String,
    pub clean: bool,
    pub description: String,
    pub source_time: String,
    pub build_time: String,
    pub rustc: String,
    pub target: String,
    pub version: String,
}

impl BuildInfo {
    /// The version report: one labelled line per recorded field.
    pub fn render(&self) -> (r: String)
        ensures
            r@ == "\nversion: "@ + self.version@ + "\nbranch: "@ + self.branch@ + "\ncommit: "@
                + self.commit@ + "\nclean: "@ + (if self.clean {
                "true"@
            } else {
                "false"@
            }) + "\nsource_time: "@ + self.source_time@ + "\nbuild_time: "@ + self.build_time@
                + "\nrustc: "@ + self.rustc@ + "\ntarget: "@ + self.target@,
    {
        let mut r: String = String::from_str("\nversion: ");
        r.append(self.version.as_str());
        r.append("\nbranch: ");
        r.append(self.branch.as_str());
        r.append("\ncommit: ");
        r.append(self.commit.as_str());
        r.append("\nclean: ");
        if self.clean {
            r.append("true");
        } else {
            r.append("false");
        }
        r.append("\nsource_time: ");
        r.append(self.source_time.as_str());
        r.append("\nbuild_time: ");
        r.append(self.build_time.as_str());
        r.append("\nrustc: ");
        r.append(self.rustc.as_str());
        r.append("\ntarget: ");
        r.append(self.target.as_str());
        r
    }
}

} // verus!
