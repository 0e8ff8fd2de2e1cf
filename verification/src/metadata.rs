//! The project metadata model: the contents of a project's manifest as
//! plain values, and its validity check.  Reading the manifest file and
//! decoding TOML happen outside the library; the rules of validity live
//! here.

use vstd::prelude::*;

verus! {

/// Errors of metadata search, loading and validation.
#[derive(Debug, PartialEq, Eq)]
pub enum MetadataError {
    /// No manifest file was found in the searched directories.
    FileNotFound,
    /// The manifest could not be read.
    Io(String),
    /// The manifest text is not valid TOML for the expected schema.
    Toml(String),
    /// The project name is not an identifier.
    InvalidProjectName(String),
    /// The license is not a valid SPDX expression.
    InvalidLicense(String),
}

/// A semantic version, held as plain values: the three numeric parts and
/// the pre-release and build-metadata tails (empty when absent).
#[derive(Clone, Debug, PartialEq, Eq)]
pub struct Version {
    pub major: u64,
    pub minor: u64,
    pub patch: u64,
    pub pre: String,
    pub build: String,
}

#[derive(Debug)]
pub struct Project {
    pub name: String,
    pub version: Version,
    pub authors: Vec<String>,
    pub description: Option<String>,
    pub license: Option<String>,
    pub repository: Option<String>,
}

#[derive(Clone, Copy, PartialEq, Eq, Structural, Debug)]
pub enum ClockType {
    PosEdge,
    NegEdge,
}

impl Default for ClockType {
    fn default() -> (r: ClockType)
        ensures
            r is PosEdge,
    {
        ClockType::PosEdge
    }
}

#[derive(Clone, Copy, PartialEq, Eq, Structural, Debug)]
pub enum ResetType {
    AsyncLow,
    AsyncHigh,
    SyncLow,
    SyncHigh,
}

impl Default for ResetType {
    fn default() -> (r: ResetType)
        ensures
            r is AsyncLow,
    {
        ResetType::AsyncLow
    }
}

#[derive(Clone, Copy, PartialEq, Eq, Structural, Debug)]
pub enum FilelistType {
    Absolute,
    Relative,
    Flgen,
}

impl Default for FilelistType {
    fn default() -> (r: FilelistType)
        ensures
            r is Absolute,
    {
        FilelistType::Absolute
    }
}

/// Where generated sources are placed.
#[derive(Clone, Debug, PartialEq, Eq)]
pub enum Target {
    Source,
    Directory { path: String },
}

impl Default for Target {
    fn default() -> (r: Target)
        ensures
            r is Source,
    {
        Target::Source
    }
}

#[derive(Clone, Debug, PartialEq, Eq)]
pub struct Build {
    pub clock_type: ClockType,
    pub reset_type: ResetType,
    pub filelist_type: FilelistType,
    pub target: Target,
}

impl Default for Build {
    fn default() -> (r: Build)
        ensures
            r.clock_type is PosEdge,
            r.reset_type is AsyncLow,
            r.filelist_type is Absolute,
            r.target is Source,
    {
        Build {
            clock_type: ClockType::PosEdge,
            reset_type: ResetType::AsyncLow,
            filelist_type: FilelistType::Absolute,
            target: Target::Source,
        }
    }
}

#[derive(Clone, Copy, PartialEq, Eq, Structural, Debug)]
pub struct Format {
    pub indent_width: usize,
}

pub fn default_indent_width() -> (r: usize)
    ensures
        r == 4,
{
    4
}

impl Default for Format {
    fn default() -> (r: Format)
        ensures
            r.indent_width == 4,
    {
        Format { indent_width: 4 }
    }
}

/// One dependency entry of the manifest.
#[derive(Clone, Debug, PartialEq, Eq)]
pub struct Dependency {
    pub git: Option<String>,
    pub rev: Option<String>,
    pub tag: Option<String>,
    pub branch: Option<String>,
}

/// The project manifest, decoded to plain values.
#[derive(Debug)]
pub struct Metadata {
    pub project: Project,
    pub build: Build,
    pub format: Format,
    pub dependencies: Vec<(String, Dependency)>,
    pub metadata_path: String,
}

/// A character that may start an identifier: a letter or an underscore.
pub open spec fn is_name_start(c: char) -> bool {
    ('a' <= c && c <= 'z') || ('A' <= c && c <= 'Z') || c == '_'
}

/// A character that may continue an identifier: a letter, digit or
/// underscore.
pub open spec fn is_name_char(c: char) -> bool {
    is_name_start(c) || ('0' <= c && c <= '9')
}

/// A valid project name is a non-empty identifier.
pub open spec fn is_valid_project_name(s: Seq<char>) -> bool {
    s.len() > 0 && is_name_start(s[0]) && forall|i: int|
        1 <= i < s.len() ==> is_name_char(#[trigger] s[i])
}

/// Whether a license string is a valid SPDX license expression; a function
/// of the string alone.
pub uninterp spec fn spdx_expression_ok(s: Seq<char>) -> bool;

/// Relies on regex::Regex::is_match: the anchored pattern
/// `^[a-zA-Z_][0-9a-zA-Z_]*$` matches a haystack exactly when the whole of
/// it is a letter or underscore followed by letters, digits or
/// underscores.
#[verifier::external_body]
fn project_name_is_identifier(name: &str) -> (r: bool)
    ensures
        r == is_valid_project_name(name@),
{
    let re = regex::Regex::new(r"^[a-zA-Z_][0-9a-zA-Z_]*$").unwrap();
    re.is_match(name)
}

/// Relies on spdx::Expression::parse: whether a string parses as an SPDX
/// license expression depends on the string alone; on failure the parse
/// error's display text is handed back.
#[verifier::external_body]
fn parse_license_expression(license: &str) -> (r: Result<(), String>)
    ensures
        (r is Ok) == spdx_expression_ok(license@),
{
    match spdx::Expression::parse(license) {
        Ok(_) => Ok(()),
        Err(e) => Err(format!("{}", e)),
    }
}

/// An absent license is acceptable; a present one must be a valid SPDX
/// expression.
pub open spec fn license_ok(license: Option<String>) -> bool {
    match license {
        Option::Some(l) => spdx_expression_ok(l@),
        Option::None => true,
    }
}

/// The whole validity condition of a manifest.
pub open spec fn metadata_valid(m: &Metadata) -> bool {
    is_valid_project_name(m.project.name@) && license_ok(m.project.license)
}

impl Metadata {
    /// Validates the manifest: the project name must be an identifier, and
    /// the license, when present, a valid SPDX expression.  The name is
    /// checked first.
    pub fn check(&self) -> (r: Result<(), MetadataError>)
        ensures
            (r is Ok) == metadata_valid(self),
            !is_valid_project_name(self.project.name@) ==> r == Err::<(), MetadataError>(
                MetadataError::InvalidProjectName(self.project.name),
            ),
            is_valid_project_name(self.project.name@) && !license_ok(self.project.license)
                ==> r is Err && (r matches Err(e) && e is InvalidLicense),
    {
        if !project_name_is_identifier(self.project.name.as_str()) {
            return Err(MetadataError::InvalidProjectName(self.project.name.clone()));
        }
        match &self.project.license {
            Some(license) => {
                match parse_license_expression(license.as_str()) {
                    Ok(()) => Ok(()),
                    Err(msg) => Err(MetadataError::InvalidLicense(msg)),
                }
            },
            None => Ok(()),
        }
    }
}

} // verus!
