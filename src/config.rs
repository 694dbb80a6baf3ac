//! Where the profile table comes from: which file is read, which parser reads
//! it, and how the table is built from what the parser found.

use vstd::prelude::*;
use crate::text::{after_last, find_last, lemma_last_index_bounds, last_index_of, same_text, text_after_last};

verus! {

/// Failures while finding the role or the MFA device in configuration.
#[derive(Debug)]
pub enum ConfigError {
    /// None of the candidate configuration files exists.
    NoConfigFile,
    /// The file's extension names no known format; holds the extension.
    UnsupportedFormat(String),
    /// A configuration file could not be read or parsed; holds the reason.
    Unreadable(String),
    /// The requested profile is not in the table; holds its name.
    ProfileNotFound(String),
    /// The profile's section has no MFA serial number; holds the profile name.
    SerialMissing(String),
    /// No source of an MFA serial number was given.
    NoSerialSource,
    /// The interactive selection ended without a choice.
    SelectionCancelled,
}

impl ConfigError {
    pub fn message(&self) -> (r: String)
        ensures
            r@ == match *self {
                ConfigError::NoConfigFile => "Unable to load config"@,
                ConfigError::UnsupportedFormat(e) => "Unsupported extension: "@ + e@,
                ConfigError::Unreadable(m) => "Unable to parse config file: "@ + m@,
                ConfigError::ProfileNotFound(n) => "profile "@ + n@ + " is not found"@,
                ConfigError::SerialMissing(p) => "serial_number is missing for profile "@ + p@,
                ConfigError::NoSerialSource => "Unable to get serial number"@,
                ConfigError::SelectionCancelled => "No role was selected"@,
            },
    {
        match self {
            ConfigError::NoConfigFile => String::from_str("Unable to load config"),
            ConfigError::UnsupportedFormat(e) => String::from_str("Unsupported extension: ").concat(
                e.as_str(),
            ),
            ConfigError::Unreadable(m) => String::from_str("Unable to parse config file: ").concat(
                m.as_str(),
            ),
            ConfigError::ProfileNotFound(n) => String::from_str("profile ").concat(n.as_str()).concat(
                " is not found",
            ),
            ConfigError::SerialMissing(p) => String::from_str(
                "serial_number is missing for profile ",
            ).concat(p.as_str()),
            ConfigError::NoSerialSource => String::from_str("Unable to get serial number"),
            ConfigError::SelectionCancelled => String::from_str("No role was selected"),
        }
    }
}

/// The two configuration formats.
#[derive(PartialEq, Eq, Structural, Clone, Copy, Debug)]
pub enum ConfigFormat {
    /// Structured markup (`.toml`): a `profile` table of `role_arn` entries.
    Toml,
    /// Sectioned key-value text without extension, sections `profile <name>`.
    Ini,
}

/// `p` without the `/` characters that end it.
pub open spec fn trim_trailing_slashes(p: Seq<char>) -> Seq<char>
    decreases p.len(),
{
    if p.len() > 0 && p.last() == '/' {
        trim_trailing_slashes(p.drop_last())
    } else {
        p
    }
}

/// The last segment of a `/`-separated path, trailing `/` ignored.
pub open spec fn file_name_of(p: Seq<char>) -> Seq<char> {
    after_last(trim_trailing_slashes(p), '/')
}

/// The text after the last `.` of the file name, unless that dot starts the
/// name or there is none.
pub open spec fn extension_of(p: Seq<char>) -> Option<Seq<char>> {
    let name = file_name_of(p);
    let d = last_index_of(name, '.');
    if d <= 0 {
        None
    } else {
        Some(name.subrange(d + 1, name.len() as int))
    }
}

/// Which parser reads the file at `p`, or the extension that no parser takes.
pub open spec fn format_of(p: Seq<char>) -> Result<ConfigFormat, Seq<char>> {
    match extension_of(p) {
        None => Ok(ConfigFormat::Ini),
        Some(e) => if e == "toml"@ {
            Ok(ConfigFormat::Toml)
        } else {
            Err(e)
        },
    }
}

/// The extension of the file that `path` names (see `extension_of`).
pub fn path_extension(path: &str) -> (r: Option<String>)
    ensures
        match r {
            Some(e) => extension_of(path@) == Some(e@),
            None => extension_of(path@) is None,
        },
{
    let mut end: usize = path.unicode_len();
    assert(path@.subrange(0, end as int) == path@);
    while end > 0 && path.get_char(end - 1) == '/'
        invariant
            end <= path@.len(),
            trim_trailing_slashes(path@) == trim_trailing_slashes(path@.subrange(0, end as int)),
        decreases end,
    {
        assert(path@.subrange(0, end as int).drop_last() == path@.subrange(0, end - 1));
        end = end - 1;
    }
    let trimmed = path.substring_char(0, end);
    assert(trim_trailing_slashes(trimmed@) == trimmed@);
    let name = text_after_last(trimmed, '/');
    proof {
        lemma_last_index_bounds(name@, '.');
    }
    match find_last(name, '.') {
        Some(d) => if d == 0 {
            None
        } else {
            let n = name.unicode_len();
            Some(String::from_str(name.substring_char(d + 1, n)))
        },
        None => None,
    }
}

/// Chooses the parser by the file's extension: `toml` for the structured
/// format, none for the sectioned one; any other is refused.
pub fn config_format(path: &str) -> (r: Result<ConfigFormat, ConfigError>)
    ensures
        match format_of(path@) {
            Ok(f) => r == Ok::<ConfigFormat, ConfigError>(f),
            Err(e) => r matches Err(ConfigError::UnsupportedFormat(x)) && x@ == e,
        },
{
    match path_extension(path) {
        None => Ok(ConfigFormat::Ini),
        Some(e) => {
            if same_text(e.as_str(), "toml") {
                Ok(ConfigFormat::Toml)
            } else {
                Err(ConfigError::UnsupportedFormat(e))
            }
        },
    }
}

/// The default structured configuration file under the home directory.
pub open spec fn default_toml_path(home: Seq<char>) -> Seq<char> {
    home + "/.aws/config.toml"@
}

/// The default sectioned configuration file under the home directory.
pub open spec fn default_ini_path(home: Seq<char>) -> Seq<char> {
    home + "/.aws/config"@
}

pub fn default_toml_file(home: &str) -> (r: String)
    ensures
        r@ == default_toml_path(home@),
{
    String::from_str(home).concat("/.aws/config.toml")
}

pub fn default_ini_file(home: &str) -> (r: String)
    ensures
        r@ == default_ini_path(home@),
{
    String::from_str(home).concat("/.aws/config")
}

/// Picks the configuration file: the one given explicitly, else the default
/// structured file if it exists, else the default sectioned file if it exists.
pub fn choose_config_path(
    explicit: &Option<String>,
    home: &str,
    toml_exists: bool,
    ini_exists: bool,
) -> (r: Result<String, ConfigError>)
    ensures
        explicit is Some ==> (r matches Ok(p) && p@ == explicit->0@),
        explicit is None && toml_exists ==> (r matches Ok(p) && p@ == default_toml_path(home@)),
        explicit is None && !toml_exists && ini_exists ==> (r matches Ok(p) && p@
            == default_ini_path(home@)),
        explicit is None && !toml_exists && !ini_exists ==> r matches Err(
            ConfigError::NoConfigFile,
        ),
{
    match explicit {
        Some(p) => Ok(p.clone()),
        None => if toml_exists {
            Ok(default_toml_file(home))
        } else if ini_exists {
            Ok(default_ini_file(home))
        } else {
            Err(ConfigError::NoConfigFile)
        },
    }
}

proof fn lemma_last_index_concat(a: Seq<char>, b: Seq<char>, c: char)
    ensures
        last_index_of(a + b, c) == if last_index_of(b, c) >= 0 {
            a.len() + last_index_of(b, c)
        } else {
            last_index_of(a, c)
        },
    decreases b.len(),
{
    if b.len() == 0 {
        assert(a + b == a);
    } else {
        assert((a + b).drop_last() == a + b.drop_last());
        assert((a + b).last() == b.last());
        lemma_last_index_concat(a, b.drop_last(), c);
    }
}

/// A path whose file name is some text followed by `.toml` is read by the
/// structured parser, whatever the file holds; a path whose file name has no
/// dot past its first character is read by the sectioned parser.
pub proof fn lemma_format_by_extension(p: Seq<char>, stem: Seq<char>)
    ensures
        p == stem + ".toml"@ && stem.len() > 0 && stem.last() != '/' ==> format_of(p) == Ok::<
            ConfigFormat,
            Seq<char>,
        >(ConfigFormat::Toml),
        last_index_of(file_name_of(p), '.') <= 0 ==> format_of(p) == Ok::<
            ConfigFormat,
            Seq<char>,
        >(ConfigFormat::Ini),
{
    if p == stem + ".toml"@ && stem.len() > 0 && stem.last() != '/' {
        reveal_strlit(".toml");
        reveal_strlit("toml");
        let ext = ".toml"@;
        assert(ext.len() == 5);
        assert(ext =~= seq!['.', 't', 'o', 'm', 'l']);
        reveal_with_fuel(last_index_of, 6);
        assert(last_index_of(ext, '/') == -1) by {
            assert(ext.drop_last() =~= seq!['.', 't', 'o', 'm']);
            assert(ext.drop_last().drop_last() =~= seq!['.', 't', 'o']);
            assert(ext.drop_last().drop_last().drop_last() =~= seq!['.', 't']);
            assert(ext.drop_last().drop_last().drop_last().drop_last() =~= seq!['.']);
            assert(ext.drop_last().drop_last().drop_last().drop_last().drop_last() =~= Seq::<char>::empty());
        }
        assert(p.last() == 'l');
        assert(trim_trailing_slashes(p) == p);
        lemma_last_index_concat(stem, ext, '/');
        lemma_last_index_bounds(stem, '/');
        let s = last_index_of(stem, '/');
        assert(s < stem.len() - 1);
        let head = stem.subrange(s + 1, stem.len() as int);
        assert(head.len() > 0);
        assert(file_name_of(p) == head + ext);
        assert(last_index_of(ext, '.') == 0) by {
            assert(ext.drop_last() =~= seq!['.', 't', 'o', 'm']);
            assert(ext.drop_last().drop_last() =~= seq!['.', 't', 'o']);
            assert(ext.drop_last().drop_last().drop_last() =~= seq!['.', 't']);
            assert(ext.drop_last().drop_last().drop_last().drop_last() =~= seq!['.']);
        }
        lemma_last_index_concat(head, ext, '.');
        assert(last_index_of(file_name_of(p), '.') == head.len());
        assert((head + ext).subrange(head.len() as int + 1, (head + ext).len() as int) =~= "toml"@);
    }
}

} // verus!
