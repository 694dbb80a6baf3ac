//! Handing the credentials on: as environment variables rendered for a shell
//! or as JSON, or as the environment of a command run in this process's place.

use vstd::prelude::*;
use chrono::{DateTime, SecondsFormat};
use crate::broker::TemporaryCredentials;
use crate::cli::Format;

verus! {

/// RFC 3339 text, in UTC with millisecond precision and a `+00:00` offset, of
/// the instant `ms` milliseconds after the unix epoch.
pub uninterp spec fn rfc3339_millis_utc(ms: int) -> Seq<char>;

pub open spec fn hex_digit(d: int) -> char {
    "0123456789abcdef"@[d]
}

/// How one character is written inside a JSON string: `"` and `\\` and the
/// control characters below U+0020 are escaped, the five usual ones by a
/// letter and the rest as `\\u00XX` in lower-case hex; all else stands as it is.
pub open spec fn json_char(c: char) -> Seq<char> {
    if c == '"' {
        seq!['\\', '"']
    } else if c == '\\' {
        seq!['\\', '\\']
    } else if c == '\u{8}' {
        seq!['\\', 'b']
    } else if c == '\t' {
        seq!['\\', 't']
    } else if c == '\n' {
        seq!['\\', 'n']
    } else if c == '\u{c}' {
        seq!['\\', 'f']
    } else if c == '\r' {
        seq!['\\', 'r']
    } else if (c as u32) < 0x20 {
        seq!['\\', 'u', '0', '0', hex_digit((c as u32) as int / 16), hex_digit((c as u32) as int % 16)]
    } else {
        seq![c]
    }
}

/// The characters of `s`, each written as inside a JSON string.
pub open spec fn json_escaped(s: Seq<char>) -> Seq<char>
    decreases s.len(),
{
    if s.len() == 0 {
        Seq::empty()
    } else {
        json_escaped(s.drop_last()) + json_char(s.last())
    }
}

/// The JSON string literal that holds `s`.
pub open spec fn json_string_of(s: Seq<char>) -> Seq<char> {
    seq!['"'] + json_escaped(s) + seq!['"']
}

/// No character of `s` needs escaping in JSON.
pub open spec fn json_plain(s: Seq<char>) -> bool {
    forall|i: int|
        0 <= i < s.len() ==> #[trigger] s[i] != '"' && s[i] != '\\' && (s[i] as u32) >= 0x20
}

/// Text that needs no escaping stands in JSON as it is.
pub proof fn lemma_json_plain_verbatim(s: Seq<char>)
    requires
        json_plain(s),
    ensures
        json_escaped(s) == s,
    decreases s.len(),
{
    if s.len() > 0 {
        let t = s.drop_last();
        assert(json_plain(t)) by {
            assert forall|i: int| 0 <= i < t.len() implies #[trigger] t[i] != '"' && t[i] != '\\'
                && (t[i] as u32) >= 0x20 by {
                assert(t[i] == s[i]);
            }
        }
        lemma_json_plain_verbatim(t);
        assert(s[s.len() - 1] != '"');
        assert(json_char(s.last()) == seq![s.last()]);
        assert(t.push(s.last()) == s);
    }
}

/// Last millisecond of the year 9999, the end of four-digit years.
pub const LAST_FOUR_DIGIT_YEAR_MILLIS: i64 = 253402300799999;

/// First millisecond of the year 2000.
pub const YEAR_2000_MILLIS: i64 = 946684800000;

/// First millisecond of the year 2100.
pub const YEAR_2100_MILLIS: i64 = 4102444800000;

/// `YYYY-MM-DDTHH:MM:SS.mmm+00:00`: the shape of RFC 3339 text in UTC with
/// milliseconds for a four-digit year.
pub open spec fn rfc3339_millis_shape(s: Seq<char>) -> bool {
    &&& s.len() == 29
    &&& s[4] == '-' && s[7] == '-' && s[10] == 'T' && s[13] == ':' && s[16] == ':' && s[19] == '.'
    &&& s.subrange(23, 29) == "+00:00"@
}

/// Relies on chrono's DateTime::from_timestamp_millis (none only outside
/// chrono's range of dates, which holds the years 0 to 9999) and on
/// DateTime::to_rfc3339_opts with SecondsFormat::Millis and no `Z`, which
/// writes a four-digit year for the years 0 to 9999, always three fractional
/// digits, and the offset `+00:00` of UTC.
#[verifier::external_body]
fn expiration_text(ms: i64) -> (r: Option<String>)
    ensures
        r matches Some(s) ==> s@ == rfc3339_millis_utc(ms as int),
        0 <= ms <= LAST_FOUR_DIGIT_YEAR_MILLIS ==> r is Some && rfc3339_millis_shape(r->0@),
        YEAR_2000_MILLIS <= ms < YEAR_2100_MILLIS ==> r is Some && r->0@[0] == '2' && r->0@[1]
            == '0',
{
    match DateTime::from_timestamp_millis(ms) {
        Some(dt) => Some(dt.to_rfc3339_opts(SecondsFormat::Millis, false)),
        None => None,
    }
}

/// Relies on serde_json::to_string on a `str`: written into a `Vec`, which
/// cannot fail, as `"`, the characters escaped by serde_json's table (`"`,
/// `\\`, and U+0000 to U+001F, by `\\b \\t \\n \\f \\r` or `\\u00xx`), then `"`.
#[verifier::external_body]
fn json_string(s: &str) -> (r: Option<String>)
    ensures
        r is Some,
        r is Some ==> r->0@ == json_string_of(s@),
{
    serde_json::to_string(s).ok()
}

/// Why the credentials could not be handed on.
#[derive(PartialEq, Eq, Structural, Clone, Copy, Debug)]
pub enum SinkError {
    /// The expiration lies outside the dates that can be written.
    InvalidExpiration,
    /// A value could not be written as JSON.
    Json,
    /// No command was given to run.
    NoCommand,
}

impl SinkError {
    pub fn message(&self) -> (r: String)
        ensures
            r@ == match *self {
                SinkError::InvalidExpiration => "Unable to built DateTime"@,
                SinkError::Json => "Unable to write the credentials as JSON"@,
                SinkError::NoCommand => "No command to run was given"@,
            },
    {
        match self {
            SinkError::InvalidExpiration => String::from_str("Unable to built DateTime"),
            SinkError::Json => String::from_str("Unable to write the credentials as JSON"),
            SinkError::NoCommand => String::from_str("No command to run was given"),
        }
    }
}

/// The four variables that carry the credentials, in this order.
pub open spec fn credential_env_of(c: TemporaryCredentials, expiration: Seq<char>) -> Seq<
    (Seq<char>, Seq<char>),
> {
    seq![
        ("AWS_ACCESS_KEY_ID"@, c.access_key_id@),
        ("AWS_SECRET_ACCESS_KEY"@, c.secret_access_key@),
        ("AWS_SESSION_TOKEN"@, c.session_token@),
        ("AWS_EXPIRATION"@, expiration),
    ]
}

pub open spec fn env_view(e: Seq<(String, String)>) -> Seq<(Seq<char>, Seq<char>)> {
    e.map_values(|p: (String, String)| (p.0@, p.1@))
}

/// The variables that carry the credentials, the expiration written as
/// RFC 3339 in UTC with milliseconds.
pub fn credential_env(c: &TemporaryCredentials) -> (r: Result<Vec<(String, String)>, SinkError>)
    ensures
        match r {
            Ok(e) => env_view(e@) == credential_env_of(
                *c,
                rfc3339_millis_utc(c.expiration_millis as int),
            ),
            Err(e) => e == SinkError::InvalidExpiration,
        },
        0 <= c.expiration_millis <= LAST_FOUR_DIGIT_YEAR_MILLIS ==> r is Ok,
        0 <= c.expiration_millis <= LAST_FOUR_DIGIT_YEAR_MILLIS ==> rfc3339_millis_shape(
            rfc3339_millis_utc(c.expiration_millis as int),
        ),
        YEAR_2000_MILLIS <= c.expiration_millis < YEAR_2100_MILLIS ==> rfc3339_millis_utc(
            c.expiration_millis as int,
        ).take(2) == "20"@,
{
    proof {
        reveal_strlit("20");
    }
    let exp = match expiration_text(c.expiration_millis) {
        Some(s) => s,
        None => return Err(SinkError::InvalidExpiration),
    };
    if YEAR_2000_MILLIS <= c.expiration_millis && c.expiration_millis < YEAR_2100_MILLIS {
        assert(exp@.take(2) =~= "20"@);
    }
    let mut env: Vec<(String, String)> = Vec::new();
    env.push((String::from_str("AWS_ACCESS_KEY_ID"), c.access_key_id.clone()));
    env.push((String::from_str("AWS_SECRET_ACCESS_KEY"), c.secret_access_key.clone()));
    env.push((String::from_str("AWS_SESSION_TOKEN"), c.session_token.clone()));
    env.push((String::from_str("AWS_EXPIRATION"), exp));
    assert(env_view(env@) =~= credential_env_of(*c, rfc3339_millis_utc(c.expiration_millis as int)));
    Ok(env)
}

/// One variable assignment in the syntax of the shell `f`.
pub open spec fn shell_line(f: Format, k: Seq<char>, v: Seq<char>) -> Seq<char> {
    match f {
        Format::Fish => "set -gx "@ + k + " \""@ + v + "\""@,
        Format::PowerShell => "$env:"@ + k + "=\""@ + v + "\""@,
        _ => "export "@ + k + "=\""@ + v + "\""@,
    }
}

/// `"key":"value"` with both written as JSON strings.
pub open spec fn json_member(k: Seq<char>, v: Seq<char>) -> Seq<char> {
    json_string_of(k) + ":"@ + json_string_of(v)
}

/// The rendering of one variable: a shell line, or a JSON member.
pub open spec fn entry_text(f: Format, k: Seq<char>, v: Seq<char>) -> Seq<char> {
    if f == Format::Json {
        json_member(k, v)
    } else {
        shell_line(f, k, v)
    }
}

/// Between two renderings: a line break for shells, a comma in JSON.
pub open spec fn separator(f: Format) -> Seq<char> {
    if f == Format::Json {
        ","@
    } else {
        "\n"@
    }
}

/// The renderings of the variables, in order, joined by the separator.
pub open spec fn joined_entries(f: Format, e: Seq<(Seq<char>, Seq<char>)>) -> Seq<char>
    decreases e.len(),
{
    if e.len() == 0 {
        Seq::empty()
    } else if e.len() == 1 {
        entry_text(f, e[0].0, e[0].1)
    } else {
        joined_entries(f, e.drop_last()) + separator(f) + entry_text(f, e.last().0, e.last().1)
    }
}

/// The whole rendering: one JSON object on one line, or one shell line per
/// variable.
pub open spec fn rendered(f: Format, e: Seq<(Seq<char>, Seq<char>)>) -> Seq<char> {
    if f == Format::Json {
        "{"@ + joined_entries(f, e) + "}"@
    } else {
        joined_entries(f, e)
    }
}

/// A variable whose name and value need no escaping is written in JSON as
/// `"name":"value"`, both verbatim.
pub proof fn lemma_plain_json_member(k: Seq<char>, v: Seq<char>)
    requires
        json_plain(k),
        json_plain(v),
    ensures
        json_member(k, v) == seq!['"'] + k + seq!['"', ':', '"'] + v + seq!['"'],
{
    lemma_json_plain_verbatim(k);
    lemma_json_plain_verbatim(v);
    reveal_strlit(":");
    assert(json_member(k, v) =~= seq!['"'] + k + seq!['"', ':', '"'] + v + seq!['"']);
}

fn entry(f: Format, k: &str, v: &str) -> (r: Option<String>)
    ensures
        r is Some,
        r matches Some(t) ==> t@ == entry_text(f, k@, v@),
{
    match f {
        Format::Json => {
            let jk = match json_string(k) {
                Some(j) => j,
                None => return None,
            };
            let jv = match json_string(v) {
                Some(j) => j,
                None => return None,
            };
            Some(jk.concat(":").concat(jv.as_str()))
        },
        Format::Fish => Some(
            String::from_str("set -gx ").concat(k).concat(" \"").concat(v).concat("\""),
        ),
        Format::PowerShell => Some(
            String::from_str("$env:").concat(k).concat("=\"").concat(v).concat("\""),
        ),
        _ => Some(String::from_str("export ").concat(k).concat("=\"").concat(v).concat("\"")),
    }
}

/// Renders the variables in the format `f`: JSON (`{"K":"V",...}`), or
/// `export K="V"` (bash, zsh), `set -gx K "V"` (fish), `$env:K="V"`
/// (PowerShell), one per line.
pub fn render(f: Format, env: &Vec<(String, String)>) -> (r: Result<String, SinkError>)
    ensures
        r is Ok,
        r matches Ok(t) ==> t@ == rendered(f, env_view(env@)),
{
    let ghost ev = env_view(env@);
    let mut body = String::new();
    let mut i: usize = 0;
    while i < env.len()
        invariant
            i <= env@.len(),
            ev == env_view(env@),
            body@ == joined_entries(f, ev.subrange(0, i as int)),
        decreases env@.len() - i,
    {
        let t = match entry(f, env[i].0.as_str(), env[i].1.as_str()) {
            Some(t) => t,
            None => return Err(SinkError::Json),
        };
        let ghost pre = ev.subrange(0, i as int);
        let ghost next = ev.subrange(0, i + 1);
        assert(next.drop_last() =~= pre);
        assert(next.last() == ev[i as int]);
        if i == 0 {
            assert(next.len() == 1);
            body = t;
        } else {
            body = if f == Format::Json {
                body.concat(",").concat(t.as_str())
            } else {
                body.concat("\n").concat(t.as_str())
            };
        }
        i = i + 1;
    }
    assert(ev.subrange(0, env@.len() as int) =~= ev);
    if f == Format::Json {
        Ok(String::from_str("{").concat(body.as_str()).concat("}"))
    } else {
        Ok(body)
    }
}

/// `UserId`, `Account` and `Arn` on three aligned lines, a missing value
/// written as empty.
pub open spec fn identity_text(user_id: Seq<char>, account: Seq<char>, arn: Seq<char>) -> Seq<
    char,
> {
    "UserId:  "@ + user_id + "\nAccount: "@ + account + "\nArn:     "@ + arn
}

pub open spec fn or_empty(s: Option<String>) -> Seq<char> {
    match s {
        Some(x) => x@,
        None => Seq::empty(),
    }
}

fn text_or_empty(s: &Option<String>) -> (r: String)
    ensures
        r@ == or_empty(*s),
{
    match s {
        Some(x) => x.clone(),
        None => String::new(),
    }
}

/// The caller's identity as reported in verbose mode.
pub fn identity_report(user_id: &Option<String>, account: &Option<String>, arn: &Option<String>) -> (r:
    String)
    ensures
        r@ == identity_text(or_empty(*user_id), or_empty(*account), or_empty(*arn)),
{
    String::from_str("UserId:  ").concat(text_or_empty(user_id).as_str()).concat(
        "\nAccount: ",
    ).concat(text_or_empty(account).as_str()).concat("\nArn:     ").concat(
        text_or_empty(arn).as_str(),
    )
}

/// The command to run with the credentials: the first argument names the
/// program, the rest are its arguments.
pub fn command_line(args: &Vec<String>) -> (r: Result<(String, Vec<String>), SinkError>)
    ensures
        args@.len() == 0 ==> r == Err::<(String, Vec<String>), SinkError>(SinkError::NoCommand),
        args@.len() > 0 ==> (r matches Ok((p, rest)) && p@ == args@[0]@ && rest@.len() == args@.len()
            - 1 && forall|i: int| 0 <= i < rest@.len() ==> #[trigger] rest@[i]@ == args@[i + 1]@),
{
    if args.len() == 0 {
        return Err(SinkError::NoCommand);
    }
    let program = args[0].clone();
    let mut rest: Vec<String> = Vec::new();
    let mut i: usize = 1;
    while i < args.len()
        invariant
            1 <= i <= args@.len(),
            rest@.len() == i - 1,
            forall|j: int| 0 <= j < rest@.len() ==> #[trigger] rest@[j]@ == args@[j + 1]@,
        decreases args@.len() - i,
    {
        rest.push(args[i].clone());
        i = i + 1;
    }
    Ok((program, rest))
}

} // verus!
