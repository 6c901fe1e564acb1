//! Configuration: Telegram API credentials and where things are kept.
//!
//! The `api_id` / `api_hash` pair comes from the environment or from a small
//! TOML file. Reading either, and parsing the TOML, is outside.

use crate::text::{contains_text, has_text, is_white_space, numeral_round_trip,
    numerals_hold_no_white_space, occurs_at, opt_view, parse_i64, parse_int, signed_decimal, trim,
    trim_leaves_the_middle, trimmed};
use vstd::prelude::*;

verus! {

/// Telegram application credentials.
#[derive(Clone, Debug)]
pub struct Credentials {
    /// The numeric `api_id` issued by <https://my.telegram.org>.
    pub api_id: i32,
    /// The `api_hash` string paired with `api_id`.
    pub api_hash: String,
}

/// The mathematical value of [`Credentials`].
pub struct CredentialsView {
    pub api_id: i32,
    pub api_hash: Seq<char>,
}

impl View for Credentials {
    type V = CredentialsView;

    open spec fn view(&self) -> CredentialsView {
        CredentialsView { api_id: self.api_id, api_hash: self.api_hash@ }
    }
}

/// Everything that can go wrong while resolving [`Credentials`].
#[derive(Debug)]
pub enum ConfigError {
    /// No credentials were found in the environment or on disk.
    Missing,
    /// Reading the credentials file failed.
    Io(String),
    /// The credentials file exists but could not be parsed or is not valid.
    Parse(String),
}

/// The mathematical value of a [`ConfigError`].
pub enum ConfigErrorView {
    Missing,
    Io(Seq<char>),
    Parse(Seq<char>),
}

impl View for ConfigError {
    type V = ConfigErrorView;

    open spec fn view(&self) -> ConfigErrorView {
        match *self {
            ConfigError::Missing => ConfigErrorView::Missing,
            ConfigError::Io(e) => ConfigErrorView::Io(e@),
            ConfigError::Parse(e) => ConfigErrorView::Parse(e@),
        }
    }
}

impl ConfigErrorView {
    /// The error in words.
    pub open spec fn text(self) -> Seq<char> {
        match self {
            ConfigErrorView::Missing => {
                "no Telegram API credentials found; set PALOMA_API_ID/PALOMA_API_HASH or create the credentials file"@
            },
            ConfigErrorView::Io(e) => "failed to read credentials file: "@ + e,
            ConfigErrorView::Parse(e) => "invalid credentials: "@ + e,
        }
    }
}

impl ConfigError {
    /// The error in words.
    pub fn message(&self) -> (r: String)
        ensures
            r@ == self@.text(),
    {
        match self {
            ConfigError::Missing => {
                "no Telegram API credentials found; set PALOMA_API_ID/PALOMA_API_HASH or create the credentials file".to_owned()
            },
            ConfigError::Io(e) => {
                let mut r: String = "failed to read credentials file: ".to_owned();
                r.append(e.as_str());
                r
            },
            ConfigError::Parse(e) => {
                let mut r: String = "invalid credentials: ".to_owned();
                r.append(e.as_str());
                r
            },
        }
    }
}

/// What was found of the credentials file.
#[derive(Debug)]
pub enum CredentialsFile {
    /// There is no such file.
    Absent,
    /// It could not be read, with the error in words.
    Unreadable { error: String },
    /// It is no TOML of the expected shape, with the error in words.
    Malformed { contents: String, error: String },
    /// Its two values.
    Parsed { api_id: i32, api_hash: String },
}

/// The mathematical value of a [`CredentialsFile`].
pub enum CredentialsFileView {
    Absent,
    Unreadable { error: Seq<char> },
    Malformed { contents: Seq<char>, error: Seq<char> },
    Parsed { api_id: i32, api_hash: Seq<char> },
}

impl View for CredentialsFile {
    type V = CredentialsFileView;

    open spec fn view(&self) -> CredentialsFileView {
        match *self {
            CredentialsFile::Absent => CredentialsFileView::Absent,
            CredentialsFile::Unreadable { error } => CredentialsFileView::Unreadable {
                error: error@,
            },
            CredentialsFile::Malformed { contents, error } => CredentialsFileView::Malformed {
                contents: contents@,
                error: error@,
            },
            CredentialsFile::Parsed { api_id, api_hash } => CredentialsFileView::Parsed {
                api_id,
                api_hash: api_hash@,
            },
        }
    }
}

/// The credentials that the environment holds: both variables are set, and the
/// id is a number.
pub open spec fn from_environment(id: Option<Seq<char>>, hash: Option<Seq<char>>) -> Option<
    CredentialsView,
> {
    if id is None || hash is None {
        None
    } else {
        match parse_int(trim(id->0), i32::MIN as int, i32::MAX as int) {
            Some(n) => Some(CredentialsView { api_id: n as i32, api_hash: hash->0 }),
            None => None,
        }
    }
}

/// Whether a file quotes its `api_id`, the most common mistake.
pub open spec fn quotes_id(contents: Seq<char>) -> bool {
    contains_text(contents, "api_id = \""@) || contains_text(contents, "api_id=\""@)
}

/// The error for a malformed file, with a hint for the most common mistake.
pub open spec fn malformed(contents: Seq<char>, error: Seq<char>) -> Seq<char> {
    if quotes_id(contents) {
        "api_id must be a bare integer, not quoted. "@ + error
    } else {
        error
    }
}

/// The credentials that the file holds.
pub open spec fn from_file(file: CredentialsFileView) -> Result<CredentialsView, ConfigErrorView> {
    match file {
        CredentialsFileView::Absent => Err(ConfigErrorView::Missing),
        CredentialsFileView::Unreadable { error } => Err(ConfigErrorView::Io(error)),
        CredentialsFileView::Malformed { contents, error } => Err(
            ConfigErrorView::Parse(malformed(contents, error)),
        ),
        CredentialsFileView::Parsed { api_id, api_hash } => if api_id == 0 {
            Err(ConfigErrorView::Parse("api_id is 0"@))
        } else if api_hash.len() == 0 {
            Err(ConfigErrorView::Parse("api_hash is empty"@))
        } else {
            Ok(CredentialsView { api_id, api_hash })
        },
    }
}

/// The credentials: those of the environment, else those of the file.
pub open spec fn resolved(
    id: Option<Seq<char>>,
    hash: Option<Seq<char>>,
    file: CredentialsFileView,
) -> Result<CredentialsView, ConfigErrorView> {
    match from_environment(id, hash) {
        Some(c) => Ok(c),
        None => from_file(file),
    }
}

/// The value of a result.
pub open spec fn result_view(r: Result<Credentials, ConfigError>) -> Result<
    CredentialsView,
    ConfigErrorView,
> {
    match r {
        Ok(c) => Ok(c@),
        Err(e) => Err(e@),
    }
}

/// The value of a string that may be missing.
pub open spec fn str_view(s: Option<&str>) -> Option<Seq<char>> {
    match s {
        Some(s) => Some(s@),
        None => None,
    }
}

/// The credentials that the environment holds; `id` and `hash` are the values
/// of `PALOMA_API_ID` and `PALOMA_API_HASH`.
pub fn environment_credentials(id: Option<&str>, hash: Option<&str>) -> (r: Option<Credentials>)
    ensures
        match r {
            Some(c) => from_environment(str_view(id), str_view(hash)) == Some(c@),
            None => from_environment(str_view(id), str_view(hash)) is None,
        },
{
    match (id, hash) {
        (Some(id), Some(hash)) => {
            let id: String = trimmed(id);
            match parse_i64(id.as_str(), i32::MIN as i64, i32::MAX as i64) {
                Some(n) => Some(Credentials { api_id: n as i32, api_hash: hash.to_owned() }),
                None => None,
            }
        },
        _ => None,
    }
}

/// Resolves the credentials. The environment comes first; a file counts only
/// where the environment holds none.
pub fn load_credentials(id: Option<&str>, hash: Option<&str>, file: &CredentialsFile) -> (r: Result<
    Credentials,
    ConfigError,
>)
    ensures
        result_view(r) == resolved(str_view(id), str_view(hash), file@),
{
    match environment_credentials(id, hash) {
        Some(c) => {
            return Ok(c);
        },
        None => {},
    }
    match file {
        CredentialsFile::Absent => Err(ConfigError::Missing),
        CredentialsFile::Unreadable { error } => Err(ConfigError::Io(error.clone())),
        CredentialsFile::Malformed { contents, error } => {
            let quoted: bool = has_text(contents.as_str(), "api_id = \"") || has_text(
                contents.as_str(),
                "api_id=\"",
            );
            let text: String = if quoted {
                let mut t: String = "api_id must be a bare integer, not quoted. ".to_owned();
                t.append(error.as_str());
                t
            } else {
                error.clone()
            };
            Err(ConfigError::Parse(text))
        },
        CredentialsFile::Parsed { api_id, api_hash } => {
            if *api_id == 0 {
                Err(ConfigError::Parse("api_id is 0".to_owned()))
            } else if api_hash.as_str().is_empty() {
                Err(ConfigError::Parse("api_hash is empty".to_owned()))
            } else {
                Ok(Credentials { api_id: *api_id, api_hash: api_hash.clone() })
            }
        },
    }
}

// --- Paths -------------------------------------------------------------------

/// The relative path `rest` below the directory `dir`.
pub open spec fn joined(dir: Seq<char>, rest: Seq<char>) -> Seq<char> {
    if dir.len() == 0 || dir.last() == '/' {
        dir + rest
    } else {
        dir + "/"@ + rest
    }
}

/// A directory, or another where it is not known.
pub open spec fn or_dir(dir: Option<Seq<char>>, other: Seq<char>) -> Seq<char> {
    match dir {
        Some(d) => d,
        None => other,
    }
}

/// The credentials file below the directory for configuration files; a relative
/// path where that is not known.
pub open spec fn credentials_file(dir: Option<Seq<char>>) -> Seq<char> {
    joined(or_dir(dir, Seq::empty()), "paloma/credentials.toml"@)
}

/// The data directory of Paloma below the directory for data files.
pub open spec fn data_below(dir: Option<Seq<char>>) -> Seq<char> {
    joined(or_dir(dir, ".local/share"@), "paloma"@)
}

/// The relative path `rest` below the directory `dir`.
fn join(dir: &str, rest: &str) -> (r: String)
    ensures
        r@ == joined(dir@, rest@),
{
    let ends: bool = dir.is_empty() || ends_with_slash(dir);
    let mut r: String = dir.to_owned();
    if !ends {
        r.append("/");
    }
    r.append(rest);
    r
}

fn ends_with_slash(dir: &str) -> (r: bool)
    requires
        dir@.len() > 0,
    ensures
        r == (dir@.last() == '/'),
{
    let v: Vec<char> = crate::text::chars_of(dir);
    v[v.len() - 1] == '/'
}

/// `dirs::config_dir`: the user's directory for configuration files, `None`
/// where there is none. Nothing is claimed of the result, which depends on the
/// environment. A path that is no Unicode comes with replacement characters.
#[verifier::external_body]
fn config_dir() -> (r: Option<String>)
{
    dirs::config_dir().map(|p| p.to_string_lossy().into_owned())
}

/// `dirs::data_dir`: the user's directory for data files, `None` where there
/// is none. Nothing is claimed of the result, which depends on the environment.
/// A path that is no Unicode comes with replacement characters.
#[verifier::external_body]
fn user_data_dir() -> (r: Option<String>)
{
    dirs::data_dir().map(|p| p.to_string_lossy().into_owned())
}

/// The credentials file below `dir`, the user's directory for configuration
/// files. Without one it is the relative `paloma/credentials.toml`.
pub fn credentials_path_in(dir: Option<String>) -> (r: String)
    ensures
        r@ == credentials_file(opt_view(dir)),
{
    match dir {
        Some(d) => join(d.as_str(), "paloma/credentials.toml"),
        None => "paloma/credentials.toml".to_owned(),
    }
}

/// The credentials file, `~/.config/paloma/credentials.toml`.
pub fn credentials_path() -> (r: String)
    ensures
        exists|dir: Option<Seq<char>>| r@ == #[trigger] credentials_file(dir),
{
    let dir: Option<String> = config_dir();
    let r: String = credentials_path_in(dir);
    assert(r@ == credentials_file(opt_view(dir)));
    r
}

/// The data directory of Paloma below `dir`, the user's directory for data
/// files.
pub fn data_dir_in(dir: Option<String>) -> (r: String)
    ensures
        r@ == data_below(opt_view(dir)),
{
    match dir {
        Some(d) => join(d.as_str(), "paloma"),
        None => join(".local/share", "paloma"),
    }
}

/// The data directory of Paloma, `~/.local/share/paloma`.
pub fn data_dir() -> (r: String)
    ensures
        exists|dir: Option<Seq<char>>| r@ == #[trigger] data_below(dir),
{
    let dir: Option<String> = user_data_dir();
    let r: String = data_dir_in(dir);
    assert(r@ == data_below(opt_view(dir)));
    r
}

/// The directory of the TDLib database below `data`, the data directory of
/// Paloma.
pub fn td_database_dir_in(data: &str) -> (r: String)
    ensures
        r@ == joined(data@, "td"@),
{
    join(data, "td")
}

/// The directory of the TDLib database, `~/.local/share/paloma/td`.
pub fn td_database_dir() -> (r: String)
    ensures
        exists|dir: Option<Seq<char>>| r@ == joined(#[trigger] data_below(dir), "td"@),
{
    let data: String = data_dir();
    td_database_dir_in(data.as_str())
}

/// What to do without credentials, with the path of the credentials file.
pub open spec fn help_text(path: Seq<char>) -> Seq<char> {
    "Paloma needs a Telegram API ID and hash.\n\n1. Visit my.telegram.org and log in.\n2. Open “API development tools” and create an app.\n3. Copy the api_id and api_hash into:\n"@
        + path
        + "\n\nas:\napi_id = 123456\napi_hash = \"your-hash-here\"\n\nThen restart Paloma."@
}

/// What to do without credentials.
pub fn credentials_help(path: &str) -> (r: String)
    ensures
        r@ == help_text(path@),
{
    let mut r: String =
        "Paloma needs a Telegram API ID and hash.\n\n1. Visit my.telegram.org and log in.\n2. Open “API development tools” and create an app.\n3. Copy the api_id and api_hash into:\n".to_owned();
    r.append(path);
    r.append(
        "\n\nas:\napi_id = 123456\napi_hash = \"your-hash-here\"\n\nThen restart Paloma.",
    );
    r
}

// --- Laws --------------------------------------------------------------------

/// Credentials from the file always have an id other than 0 and a hash that is
/// not empty.
pub proof fn file_credentials_are_valid(file: CredentialsFileView)
    ensures
        from_file(file) matches Ok(c) ==> c.api_id != 0 && c.api_hash.len() > 0,
{
}

/// Without credentials in the environment, `Missing` says that there is no
/// file, and `Parse` that there is one that is malformed or not valid.
pub proof fn errors_tell_what_was_found(
    id: Option<Seq<char>>,
    hash: Option<Seq<char>>,
    file: CredentialsFileView,
)
    requires
        from_environment(id, hash) is None,
    ensures
        resolved(id, hash, file) == Err::<CredentialsView, _>(ConfigErrorView::Missing)
            <==> file is Absent,
        (resolved(id, hash, file) matches Err(ConfigErrorView::Io(_))) <==> file is Unreadable,
        (resolved(id, hash, file) matches Err(ConfigErrorView::Parse(_))) <==> (file is Malformed
            || (file matches CredentialsFileView::Parsed { api_id, api_hash } && (api_id == 0
            || api_hash.len() == 0))),
{
}

/// The environment overrides the file, whatever the file holds.
pub proof fn environment_overrides_file(
    id: Option<Seq<char>>,
    hash: Option<Seq<char>>,
    file: CredentialsFileView,
    other: CredentialsFileView,
)
    requires
        from_environment(id, hash) is Some,
    ensures
        resolved(id, hash, file) is Ok,
        resolved(id, hash, file) == resolved(id, hash, other),
{
}

/// The credentials file is always `paloma/credentials.toml` below some
/// directory.
pub proof fn credentials_file_ends_correctly(dir: Option<Seq<char>>)
    ensures
        ({
            let path = credentials_file(dir);
            let end = "paloma/credentials.toml"@;
            &&& path.len() >= end.len()
            &&& path.skip(path.len() - end.len()) == end
        }),
{
    let path = credentials_file(dir);
    let end = "paloma/credentials.toml"@;
    assert(path.skip(path.len() - end.len()) =~= end);
}

/// The environment gives exactly the id that it spells and the hash as it
/// stands, if it holds both; white space around the id does not count.
pub proof fn environment_is_read(id: i32, hash: Seq<char>, before: Seq<char>, after: Seq<char>)
    requires
        forall|i: int| 0 <= i < before.len() ==> is_white_space(#[trigger] before[i]),
        forall|i: int| 0 <= i < after.len() ==> is_white_space(#[trigger] after[i]),
    ensures
        from_environment(Some(before + signed_decimal(id as int) + after), Some(hash)) == Some(
            CredentialsView { api_id: id, api_hash: hash },
        ),
        from_environment(None, Some(hash)) is None,
        from_environment(Some(signed_decimal(id as int)), None) is None,
{
    let n = signed_decimal(id as int);
    let s = before + n + after;
    let a = before.len() as int;
    let b = a + n.len();
    numerals_hold_no_white_space(id as int);
    numeral_round_trip(id as int, i32::MIN as int, i32::MAX as int);
    assert(s[a] == n[0]);
    assert(s[b - 1] == n[n.len() - 1]);
    assert forall|i: int| 0 <= i < a implies is_white_space(#[trigger] s[i]) by {
        assert(s[i] == before[i]);
    }
    assert forall|i: int| b <= i < s.len() implies is_white_space(#[trigger] s[i]) by {
        assert(s[i] == after[i - b]);
    }
    trim_leaves_the_middle(s, a, b);
    assert(s.subrange(a, b) =~= n);
}

/// A valid file gives exactly the credentials that it holds, and every failure
/// is told in the words that came with it.
pub proof fn file_is_read(api_id: i32, api_hash: Seq<char>, contents: Seq<char>, error: Seq<char>)
    ensures
        api_id != 0 && api_hash.len() > 0 ==> from_file(
            CredentialsFileView::Parsed { api_id, api_hash },
        ) == Ok::<_, ConfigErrorView>(CredentialsView { api_id, api_hash }),
        api_id == 0 || api_hash.len() == 0 ==> from_file(
            CredentialsFileView::Parsed { api_id, api_hash },
        ) is Err,
        from_file(CredentialsFileView::Unreadable { error }) == Err::<CredentialsView, _>(
            ConfigErrorView::Io(error),
        ),
        from_file(CredentialsFileView::Malformed { contents, error }) matches Err(
            ConfigErrorView::Parse(said),
        ) && said.len() >= error.len() && said.skip(said.len() - error.len()) == error && (
        !contains_text(contents, "api_id = \""@) && !contains_text(contents, "api_id=\""@)
            ==> said == error) && (contains_text(contents, "api_id = \""@) || contains_text(
            contents,
            "api_id=\""@,
        ) ==> said.len() > error.len()),
{
    let said = malformed(contents, error);
    reveal_strlit("api_id must be a bare integer, not quoted. ");
    assert(said.skip(said.len() - error.len()) =~= error);
}

/// An error in words ends with what was found.
pub proof fn errors_say_what_was_found(error: Seq<char>)
    ensures
        ({
            let io = ConfigErrorView::Io(error).text();
            let parse = ConfigErrorView::Parse(error).text();
            &&& io.len() > error.len() && io.skip(io.len() - error.len()) == error
            &&& parse.len() > error.len() && parse.skip(parse.len() - error.len()) == error
            &&& io != parse
        }),
{
    let io = ConfigErrorView::Io(error).text();
    let parse = ConfigErrorView::Parse(error).text();
    reveal_strlit("failed to read credentials file: ");
    reveal_strlit("invalid credentials: ");
    assert(io.skip(io.len() - error.len()) =~= error);
    assert(parse.skip(parse.len() - error.len()) =~= error);
    assert(io[0] != parse[0]);
}

/// A path below a directory begins with the directory and ends with what lies
/// below it, with one slash between them.
pub proof fn paths_are_joined(dir: Seq<char>, rest: Seq<char>)
    ensures
        ({
            let path = joined(dir, rest);
            &&& dir.is_prefix_of(path)
            &&& path.skip(path.len() - rest.len()) == rest
            &&& dir.len() > 0 ==> path[path.len() - rest.len() - 1] == '/'
            &&& dir.len() > 0 && dir.last() == '/' ==> path.len() == dir.len() + rest.len()
            &&& dir.len() > 0 && dir.last() != '/' ==> path.len() == dir.len() + 1 + rest.len()
            &&& dir.len() == 0 ==> path == rest
        }),
{
    let path = joined(dir, rest);
    reveal_strlit("/");
    assert(path.skip(path.len() - rest.len()) =~= rest);
    assert(dir =~= path.subrange(0, dir.len() as int));
    if dir.len() == 0 {
        assert(path =~= rest);
    }
}

/// Everything lies below the directories that the system names, and has its place
/// where it names none.
pub proof fn directories_are_kept(dir: Seq<char>)
    ensures
        dir.is_prefix_of(credentials_file(Some(dir))),
        dir.is_prefix_of(data_below(Some(dir))),
        credentials_file(None) == "paloma/credentials.toml"@,
        data_below(None) == ".local/share/paloma"@,
{
    paths_are_joined(dir, "paloma/credentials.toml"@);
    paths_are_joined(dir, "paloma"@);
    paths_are_joined(Seq::empty(), "paloma/credentials.toml"@);
    reveal_strlit(".local/share");
    reveal_strlit("/");
    reveal_strlit("paloma");
    reveal_strlit(".local/share/paloma");
    assert(data_below(None) =~= ".local/share/paloma"@);
}

/// The help names the file that is missing.
pub proof fn help_names_the_file(path: Seq<char>)
    ensures
        contains_text(help_text(path), path),
{
    let head =
        "Paloma needs a Telegram API ID and hash.\n\n1. Visit my.telegram.org and log in.\n2. Open “API development tools” and create an app.\n3. Copy the api_id and api_hash into:\n"@;
    let all = help_text(path);
    let at = head.len() as int;
    assert(all.subrange(at, at + path.len()) =~= path);
    assert(occurs_at(all, path, at));
}

} // verus!
