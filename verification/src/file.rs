use vstd::prelude::*;
use vstd::string::StringExecFns;

use crate::clock::{file_stamp_text, file_timestamp, Timestamp};
use crate::error::BuildError;
use crate::text::{is_blank, is_blank_seq, is_white_space};

verus! {

/// File output configuration.
#[derive(Debug, Clone, PartialEq, Eq)]
pub struct FileConfig {
    directory: String,
    latest_file_name: String,
    session_file_prefix: Option<String>,
}

/// What a file configuration holds.
pub struct FileConfigView {
    /// The directory the files are written to.
    pub directory: Seq<char>,
    /// The name of the file rewritten at every session.
    pub latest_file_name: Seq<char>,
    /// The prefix of the session file names, if any.
    pub session_file_prefix: Option<Seq<char>>,
}

impl View for FileConfig {
    type V = FileConfigView;

    closed spec fn view(&self) -> FileConfigView {
        FileConfigView {
            directory: self.directory@,
            latest_file_name: self.latest_file_name@,
            session_file_prefix: match self.session_file_prefix {
                Some(p) => Some(p@),
                None => None,
            },
        }
    }
}

/// The default name of the latest-session file.
pub open spec fn default_latest_file_name() -> Seq<char> {
    seq!['l', 'a', 't', 'e', 's', 't', '.', 'l', 'o', 'g']
}

impl FileConfig {
    /// Create a file configuration rooted in `directory`, writing
    /// `latest.log` and unprefixed session files.
    pub fn new(directory: &str) -> (r: FileConfig)
        ensures
            r@.directory == directory@,
            r@.latest_file_name == default_latest_file_name(),
            r@.session_file_prefix is None,
    {
        proof {
            reveal_strlit("latest.log");
            assert("latest.log"@ =~= default_latest_file_name());
        }
        FileConfig {
            directory: directory.to_owned(),
            latest_file_name: String::from_str("latest.log"),
            session_file_prefix: None,
        }
    }

    /// Change the name used for the rolling "latest" session file.
    pub fn with_latest_file_name(self, file_name: &str) -> (r: FileConfig)
        ensures
            r@ == (FileConfigView { latest_file_name: file_name@, ..self@ }),
    {
        FileConfig { latest_file_name: file_name.to_owned(), ..self }
    }

    /// Prefix the generated session file name.
    ///
    /// With prefix `app`, session files look like `app-2026-05-25_14-22-10.log`.
    pub fn with_session_file_prefix(self, prefix: &str) -> (r: FileConfig)
        ensures
            r@ == (FileConfigView { session_file_prefix: Some(prefix@), ..self@ }),
    {
        FileConfig { session_file_prefix: Some(prefix.to_owned()), ..self }
    }

    /// Return the configured output directory.
    pub fn directory(&self) -> (r: &str)
        ensures
            r@ == self@.directory,
    {
        self.directory.as_str()
    }

    /// Return the configured latest file name.
    pub fn latest_file_name(&self) -> (r: &str)
        ensures
            r@ == self@.latest_file_name,
    {
        self.latest_file_name.as_str()
    }

    /// Return the configured session prefix, if any.
    pub fn session_file_prefix(&self) -> (r: Option<&str>)
        ensures
            match r {
                Some(p) => self@.session_file_prefix == Some(p@),
                None => self@.session_file_prefix is None,
            },
    {
        match &self.session_file_prefix {
            Some(p) => Some(p.as_str()),
            None => None,
        }
    }
}

/// Why a configuration is refused, if it is: a latest file name that is
/// blank once trimmed, or a session prefix that is.
pub open spec fn file_config_problem(c: FileConfigView) -> Option<Seq<char>> {
    if is_blank_seq(c.latest_file_name) {
        Some("latest file name cannot be empty"@)
    } else if c.session_file_prefix matches Some(p) && is_blank_seq(p) {
        Some("session file prefix cannot be empty"@)
    } else {
        None
    }
}

/// Check a file configuration before any file is opened.
pub fn validate_file_config(config: &FileConfig) -> (r: Result<(), BuildError>)
    ensures
        match file_config_problem(config@) {
            None => r is Ok,
            Some(msg) => r matches Err(BuildError::InvalidFileConfig(m)) && m@ == msg,
        },
{
    if is_blank(config.latest_file_name.as_str()) {
        return Err(BuildError::InvalidFileConfig("latest file name cannot be empty"));
    }
    if let Some(prefix) = &config.session_file_prefix {
        if is_blank(prefix.as_str()) {
            return Err(BuildError::InvalidFileConfig("session file prefix cannot be empty"));
        }
    }
    Ok(())
}

/// The name of a session file: `prefix-stamp.log`, or `stamp.log` without a
/// prefix.
pub open spec fn session_file_name_text(prefix: Option<Seq<char>>, stamp: Seq<char>) -> Seq<
    char,
> {
    match prefix {
        Some(p) => p + seq!['-'] + stamp + seq!['.', 'l', 'o', 'g'],
        None => stamp + seq!['.', 'l', 'o', 'g'],
    }
}

/// The name of the session file for a session started at `stamp` (already
/// rendered as text).
pub fn session_file_name(config: &FileConfig, stamp: &str) -> (r: String)
    ensures
        r@ == session_file_name_text(config@.session_file_prefix, stamp@),
{
    proof {
        reveal_strlit("-");
        reveal_strlit(".log");
    }
    let mut name = String::new();
    if let Some(prefix) = &config.session_file_prefix {
        name.append(prefix.as_str());
        name.append("-");
    }
    name.append(stamp);
    name.append(".log");
    proof {
        assert(name@ =~= session_file_name_text(config@.session_file_prefix, stamp@));
    }
    name
}

/// A path separator on some platform: `/`, or `\` on Windows.
pub open spec fn is_separator(c: char) -> bool {
    c == '/' || c == '\\'
}

/// A single file name that every platform reads as one relative component:
/// not empty, not `.` or `..`, and without `/`, `\` or `:`.
pub open spec fn is_plain_file_name(name: Seq<char>) -> bool {
    &&& name.len() > 0
    &&& name != seq!['.']
    &&& name != seq!['.', '.']
    &&& forall|i: int| 0 <= i < name.len() ==> !is_separator(#[trigger] name[i]) && name[i] != ':'
}

/// A directory that ends in a name and that no platform normalizes on a
/// join: not empty, ending in neither a separator nor `:`, and without `?`
/// (so without the verbatim prefix `\\?\` of Windows, under which a join
/// removes `.` and `..` components).
pub open spec fn is_plain_directory(directory: Seq<char>) -> bool {
    &&& directory.len() > 0
    &&& !is_separator(directory.last())
    &&& directory.last() != ':'
    &&& forall|i: int| 0 <= i < directory.len() ==> #[trigger] directory[i] != '?'
}

/// `path` is what joining a plain file name to a plain directory gives: the
/// directory, one separator, the name. Nothing is said of other inputs.
pub open spec fn joins(directory: Seq<char>, name: Seq<char>, path: Seq<char>) -> bool {
    is_plain_directory(directory) && is_plain_file_name(name) ==> exists|s: char|
        is_separator(s) && path == directory + seq![s] + name
}

/// Calls `std::path::Path::join` with `directory` and `name`, and reads the
/// joined path back as text. The contract claims what holds on every
/// platform when `name` is one plain relative component and `directory`
/// ends in a name and has no verbatim prefix: the platform's separator is
/// added between them. Which separator (it depends on the platform), and
/// what other inputs give, is not stated.
#[verifier::external_body]
fn join_path(directory: &str, name: &str) -> (r: String)
    ensures
        joins(directory@, name@, r@),
{
    std::path::Path::new(directory).join(name).to_string_lossy().into_owned()
}

/// The path of the file rewritten at every session: the directory joined
/// with the latest file name.
pub fn latest_path(config: &FileConfig) -> (r: String)
    ensures
        joins(config@.directory, config@.latest_file_name, r@),
{
    join_path(config.directory.as_str(), config.latest_file_name.as_str())
}

/// The path of the session file for a session started at `timestamp`: the
/// directory joined with `prefix-YYYY-MM-DD_HH-MM-SS.log` (or the name
/// without `prefix-` when no prefix is set).
pub fn session_path(config: &FileConfig, timestamp: &Timestamp) -> (r: String)
    ensures
        joins(
            config@.directory,
            session_file_name_text(config@.session_file_prefix, file_stamp_text(timestamp@)),
            r@,
        ),
{
    let stamp = file_timestamp(timestamp);
    let name = session_file_name(config, stamp.as_str());
    join_path(config.directory.as_str(), name.as_str())
}

/// A configuration is accepted exactly when its latest file name, and its
/// session prefix when one is set, each hold a character other than white
/// space. A blank latest file name is refused whatever the prefix, and is
/// reported before a blank prefix.
pub proof fn file_configs_are_refused_exactly_when_a_name_is_blank(c: FileConfigView)
    ensures
        (forall|i: int| 0 <= i < c.latest_file_name.len() ==> is_white_space(
            #[trigger] c.latest_file_name[i],
        )) ==> file_config_problem(c) == Some("latest file name cannot be empty"@),
        (exists|i: int| 0 <= i < c.latest_file_name.len() && !is_white_space(
            #[trigger] c.latest_file_name[i],
        )) ==> (file_config_problem(c) is None <==> (c.session_file_prefix matches Some(p) ==> exists|
            i: int,
        | 0 <= i < p.len() && !is_white_space(#[trigger] p[i]))),
        file_config_problem(c) is Some <==> (is_blank_seq(c.latest_file_name) || (
        c.session_file_prefix matches Some(p) && is_blank_seq(p))),
{
}

/// An empty name and a name of spaces are blank; a name holding any other
/// character is not.
pub proof fn blank_names_hold_only_white_space(s: Seq<char>, c: char)
    ensures
        is_blank_seq(Seq::<char>::empty()),
        is_blank_seq(seq![' ', ' ', ' ']),
        is_blank_seq(seq!['\t', '\n', '\r']),
        !is_white_space(c) ==> !is_blank_seq(s.push(c)),
        c != ' ' && (c as u32) < 0x09 ==> !is_white_space(c),
        !is_white_space('a'),
{
    if !is_white_space(c) {
        assert(s.push(c)[s.len() as int] == c);
    }
}

} // verus!
