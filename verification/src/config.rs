//! The reader's settings, read from `APP_*` environment values.
use crate::text::{
    chars_of, find_char, first_index, owned, parse_bounded, parse_u64_max, skip_chars, split,
    split_chars, split_once, split_once_chars, starts_with, starts_with_chars, string_of,
    take_chars, trim, trim_chars, views,
};
use vstd::prelude::*;

verus! {

/// The reader's settings. Durations are in whole seconds.
#[derive(Debug, Clone)]
pub struct Config {
    pub host: String,
    pub port: u16,
    pub database_url: String,
    pub database_max_connections: u32,
    pub password: Option<String>,
    pub allow_empty_password: bool,
    pub session_secret: String,
    pub secure_cookies: bool,
    pub pull_interval_seconds: u64,
    pub pull_timeout_seconds: u64,
    pub pull_concurrency: usize,
    pub pull_max_backoff_seconds: u64,
    pub allow_private_feeds: bool,
    pub max_feed_body_bytes: usize,
}

/// The environment values the settings are read from; `None` where a
/// variable is unset (or not valid Unicode).
#[derive(Debug, Clone, Default)]
pub struct EnvVars {
    pub app_password: Option<String>,
    pub app_allow_empty_password: Option<String>,
    pub app_host: Option<String>,
    pub app_port: Option<String>,
    pub database_url: Option<String>,
    pub database_max_connections: Option<String>,
    pub app_session_secret: Option<String>,
    pub app_secure_cookies: Option<String>,
    pub app_pull_interval_seconds: Option<String>,
    pub app_pull_timeout_seconds: Option<String>,
    pub app_pull_concurrency: Option<String>,
    pub app_pull_max_backoff_seconds: Option<String>,
    pub app_allow_private_feeds: Option<String>,
    pub app_max_feed_body_bytes: Option<String>,
}

pub open spec fn opt_chars(o: Option<String>) -> Option<Seq<char>> {
    match o {
        Some(s) => Some(s@),
        None => None,
    }
}

/// The words that switch a flag on.
pub open spec fn is_true_word(s: Seq<char>) -> bool {
    s == "1"@ || s == "true"@ || s == "TRUE"@ || s == "yes"@ || s == "YES"@
}

/// A flag: on for a true word, off for any other value, `default` when unset.
pub open spec fn env_flag(v: Option<Seq<char>>, default: bool) -> bool {
    match v {
        Some(s) => is_true_word(s),
        None => default,
    }
}

/// A number no larger than `max`: the parsed value, else `default`.
pub open spec fn env_number(v: Option<Seq<char>>, max: nat, default: nat) -> nat {
    match v {
        Some(s) => match parse_bounded(s, max) {
            Some(n) => n,
            None => default,
        },
        None => default,
    }
}

/// A text value, `default` when unset.
pub open spec fn env_text(v: Option<Seq<char>>, default: Seq<char>) -> Seq<char> {
    match v {
        Some(s) => s,
        None => default,
    }
}

pub const DEFAULT_HOST: &'static str = "0.0.0.0";
pub const DEFAULT_DATABASE_URL: &'static str = "sqlite:data/readsmith.db";
pub const DEFAULT_SESSION_SECRET: &'static str = "dev-secret-change-me";
pub const DEFAULT_PORT: u16 = 8080;
pub const DEFAULT_DATABASE_MAX_CONNECTIONS: u32 = 5;
pub const DEFAULT_PULL_INTERVAL_SECONDS: u64 = 300;
pub const DEFAULT_PULL_TIMEOUT_SECONDS: u64 = 20;
pub const DEFAULT_PULL_CONCURRENCY: usize = 4;
pub const DEFAULT_PULL_MAX_BACKOFF_SECONDS: u64 = 86_400;
pub const DEFAULT_MAX_FEED_BODY_BYTES: usize = 5_242_880;

/// The message given when no password is configured and empty passwords are not allowed.
pub const MISSING_PASSWORD: &'static str = "APP_PASSWORD must be set unless APP_ALLOW_EMPTY_PASSWORD=true";

fn flag(v: &Option<String>, default: bool) -> (r: bool)
    ensures
        r == env_flag(opt_chars(*v), default),
{
    match v {
        Some(s) => {
            let cs = chars_of(s.as_str());
            let w1 = chars_of("1");
            let w2 = chars_of("true");
            let w3 = chars_of("TRUE");
            let w4 = chars_of("yes");
            let w5 = chars_of("YES");
            crate::text::chars_eq(&cs, &w1) || crate::text::chars_eq(&cs, &w2)
                || crate::text::chars_eq(&cs, &w3) || crate::text::chars_eq(&cs, &w4)
                || crate::text::chars_eq(&cs, &w5)
        },
        None => default,
    }
}

fn number(v: &Option<String>, max: u64, default: u64) -> (r: u64)
    requires
        default <= max,
    ensures
        r as nat == env_number(opt_chars(*v), max as nat, default as nat),
{
    match v {
        Some(s) => {
            let cs = chars_of(s.as_str());
            match parse_u64_max(&cs, max) {
                Some(n) => n,
                None => default,
            }
        },
        None => default,
    }
}

fn text_or(v: &Option<String>, default: &str) -> (r: String)
    ensures
        r@ == env_text(opt_chars(*v), default@),
{
    match v {
        Some(s) => s.clone(),
        None => owned(default),
    }
}

/// The password setting: the value of `APP_PASSWORD` unless it is empty.
pub open spec fn password_setting(v: Option<Seq<char>>) -> Option<Seq<char>> {
    match v {
        Some(s) => if s.len() > 0 {
            Some(s)
        } else {
            None
        },
        None => None,
    }
}

impl Config {
    /// Reads the settings from environment values. Fails exactly when no
    /// non-empty password is set and empty passwords are not allowed.
    pub fn from_vars(vars: &EnvVars) -> (r: Result<Config, String>)
        ensures
            ({
                let password = password_setting(opt_chars(vars.app_password));
                let allow_empty = env_flag(opt_chars(vars.app_allow_empty_password), false);
                match r {
                    Err(m) => password is None && !allow_empty && m@ == MISSING_PASSWORD@,
                    Ok(c) => {
                        &&& !(password is None && !allow_empty)
                        &&& opt_chars(c.password) == password
                        &&& c.allow_empty_password == allow_empty
                        &&& c.host@ == env_text(opt_chars(vars.app_host), DEFAULT_HOST@)
                        &&& c.port as nat == env_number(
                            opt_chars(vars.app_port),
                            u16::MAX as nat,
                            DEFAULT_PORT as nat,
                        )
                        &&& c.database_url@ == env_text(
                            opt_chars(vars.database_url),
                            DEFAULT_DATABASE_URL@,
                        )
                        &&& c.database_max_connections as nat == env_number(
                            opt_chars(vars.database_max_connections),
                            u32::MAX as nat,
                            DEFAULT_DATABASE_MAX_CONNECTIONS as nat,
                        )
                        &&& c.session_secret@ == env_text(
                            opt_chars(vars.app_session_secret),
                            DEFAULT_SESSION_SECRET@,
                        )
                        &&& c.secure_cookies == env_flag(opt_chars(vars.app_secure_cookies), false)
                        &&& c.pull_interval_seconds as nat == env_number(
                            opt_chars(vars.app_pull_interval_seconds),
                            u64::MAX as nat,
                            DEFAULT_PULL_INTERVAL_SECONDS as nat,
                        )
                        &&& c.pull_timeout_seconds as nat == env_number(
                            opt_chars(vars.app_pull_timeout_seconds),
                            u64::MAX as nat,
                            DEFAULT_PULL_TIMEOUT_SECONDS as nat,
                        )
                        &&& c.pull_concurrency as nat == env_number(
                            opt_chars(vars.app_pull_concurrency),
                            usize::MAX as nat,
                            DEFAULT_PULL_CONCURRENCY as nat,
                        )
                        &&& c.pull_max_backoff_seconds as nat == env_number(
                            opt_chars(vars.app_pull_max_backoff_seconds),
                            u64::MAX as nat,
                            DEFAULT_PULL_MAX_BACKOFF_SECONDS as nat,
                        )
                        &&& c.allow_private_feeds == env_flag(
                            opt_chars(vars.app_allow_private_feeds),
                            false,
                        )
                        &&& c.max_feed_body_bytes as nat == env_number(
                            opt_chars(vars.app_max_feed_body_bytes),
                            usize::MAX as nat,
                            DEFAULT_MAX_FEED_BODY_BYTES as nat,
                        )
                    },
                }
            }),
    {
        let password: Option<String> = match &vars.app_password {
            Some(p) => if p.as_str().is_empty() {
                None
            } else {
                Some(p.clone())
            },
            None => None,
        };
        let allow_empty_password = flag(&vars.app_allow_empty_password, false);
        if password.is_none() && !allow_empty_password {
            return Err(owned(MISSING_PASSWORD));
        }
        let port = number(&vars.app_port, 65535, 8080) as u16;
        let database_max_connections = number(&vars.database_max_connections, 4294967295, 5) as u32;
        let pull_concurrency = number(&vars.app_pull_concurrency, usize::MAX as u64, 4) as usize;
        let max_feed_body_bytes = number(
            &vars.app_max_feed_body_bytes,
            usize::MAX as u64,
            5_242_880,
        ) as usize;
        Ok(Config {
            host: text_or(&vars.app_host, DEFAULT_HOST),
            port,
            database_url: text_or(&vars.database_url, DEFAULT_DATABASE_URL),
            database_max_connections,
            password,
            allow_empty_password,
            session_secret: text_or(&vars.app_session_secret, DEFAULT_SESSION_SECRET),
            secure_cookies: flag(&vars.app_secure_cookies, false),
            pull_interval_seconds: number(&vars.app_pull_interval_seconds, u64::MAX, 300),
            pull_timeout_seconds: number(&vars.app_pull_timeout_seconds, u64::MAX, 20),
            pull_concurrency,
            pull_max_backoff_seconds: number(&vars.app_pull_max_backoff_seconds, u64::MAX, 86_400),
            allow_private_feeds: flag(&vars.app_allow_private_feeds, false),
            max_feed_body_bytes,
        })
    }
}

// ---------------------------------------------------------------------------
// SQLite database location
// ---------------------------------------------------------------------------

/// The file path a SQLite database URL names, without its `?` options;
/// `None` for other URLs.
pub open spec fn sqlite_path(url: Seq<char>) -> Option<Seq<char>> {
    let rest = if starts_with(url, "sqlite://"@) {
        Some(url.skip("sqlite://"@.len() as int))
    } else if starts_with(url, "sqlite:"@) {
        Some(url.skip("sqlite:"@.len() as int))
    } else {
        None
    };
    match rest {
        Some(p) => match first_index(p, '?') {
            Some(i) => Some(p.take(i)),
            None => Some(p),
        },
        None => None,
    }
}

/// The position of the last `/` in `s`.
pub open spec fn last_slash(s: Seq<char>) -> Option<int>
    decreases s.len(),
{
    if s.len() == 0 {
        None
    } else if s.last() == '/' {
        Some(s.len() - 1)
    } else {
        last_slash(s.drop_last())
    }
}

/// The directory a SQLite database file lives in, for file databases whose
/// path has a directory part: everything before the last `/` (`/` itself
/// for a file at the root). `None` for in-memory and non-SQLite databases.
pub open spec fn database_parent(url: Seq<char>) -> Option<Seq<char>> {
    match sqlite_path(url) {
        Some(p) => if p.len() == 0 || starts_with(p, ":memory:"@) {
            None
        } else {
            match last_slash(p) {
                Some(k) => if k == 0 {
                    Some("/"@)
                } else {
                    Some(p.take(k))
                },
                None => None,
            }
        },
        None => None,
    }
}

fn last_slash_exec(s: &[char]) -> (r: Option<usize>)
    ensures
        match r {
            Some(k) => last_slash(s@) == Some(k as int) && k < s@.len(),
            None => last_slash(s@) is None,
        },
{
    let mut k: usize = s.len();
    assert(s@.take(k as int) =~= s@);
    while k > 0
        invariant
            k <= s@.len(),
            last_slash(s@) == last_slash(s@.take(k as int)),
        decreases k,
    {
        let ghost t = s@.take(k as int);
        assert(t.last() == s@[k - 1]);
        assert(t.drop_last() =~= s@.take(k - 1));
        if s[k - 1] == '/' {
            return Some(k - 1);
        }
        k = k - 1;
    }
    None
}

/// The directory to create for a SQLite database file; see [`database_parent`].
pub fn sqlite_database_parent(url: &str) -> (r: Option<String>)
    ensures
        match r {
            Some(p) => database_parent(url@) == Some(p@),
            None => database_parent(url@) is None,
        },
{
    let cs = chars_of(url);
    let long_prefix = chars_of("sqlite://");
    let short_prefix = chars_of("sqlite:");
    let rest = if starts_with_chars(&cs, &long_prefix) {
        skip_chars(&cs, long_prefix.len())
    } else if starts_with_chars(&cs, &short_prefix) {
        skip_chars(&cs, short_prefix.len())
    } else {
        return None;
    };
    let path = match find_char(&rest, '?') {
        Some(i) => take_chars(&rest, i),
        None => rest,
    };
    let memory = chars_of(":memory:");
    if path.len() == 0 || starts_with_chars(&path, &memory) {
        return None;
    }
    match last_slash_exec(&path) {
        Some(0) => Some(owned("/")),
        Some(k) => Some(string_of(&take_chars(&path, k))),
        None => None,
    }
}

// ---------------------------------------------------------------------------
// `.env` files
// ---------------------------------------------------------------------------

/// A value without one pair of matching surrounding quotes.
pub open spec fn unquoted(v: Seq<char>) -> Seq<char> {
    if v.len() >= 2 && (v[0] == '"' || v[0] == '\'') && v.last() == v[0] {
        v.subrange(1, v.len() - 1)
    } else {
        v
    }
}

/// The setting one line of a `.env` file makes: `KEY=VALUE` with both sides
/// trimmed and the value unquoted; blank lines, `#` comments, lines without
/// `=` and lines with an empty key make none.
pub open spec fn env_line(line: Seq<char>) -> Option<(Seq<char>, Seq<char>)> {
    let t = trim(line);
    if t.len() == 0 || t[0] == '#' {
        None
    } else {
        match split_once(t, '=') {
            Some((k, v)) => if trim(k).len() == 0 {
                None
            } else {
                Some((trim(k), unquoted(trim(v))))
            },
            None => None,
        }
    }
}

/// The settings of the lines, in order.
pub open spec fn env_entries(lines: Seq<Seq<char>>) -> Seq<(Seq<char>, Seq<char>)>
    decreases lines.len(),
{
    if lines.len() == 0 {
        Seq::empty()
    } else {
        env_entries(lines.drop_last()) + match env_line(lines.last()) {
            Some(e) => seq![e],
            None => Seq::empty(),
        }
    }
}

pub open spec fn entry_view(e: (String, String)) -> (Seq<char>, Seq<char>) {
    (e.0@, e.1@)
}

fn unquote_chars(v: Vec<char>) -> (r: Vec<char>)
    ensures
        r@ == unquoted(v@),
{
    let n = v.len();
    if n >= 2 && (v[0] == '"' || v[0] == '\'') && v[n - 1] == v[0] {
        let mut r: Vec<char> = Vec::new();
        let mut i: usize = 1;
        while i < n - 1
            invariant
                n == v@.len(),
                n >= 2,
                1 <= i <= n - 1,
                r@ == v@.subrange(1, i as int),
            decreases n - 1 - i,
        {
            r.push(v[i]);
            i = i + 1;
            assert(r@ =~= v@.subrange(1, i as int));
        }
        r
    } else {
        v
    }
}

/// Reads the settings of a `.env` file, in order.
pub fn parse_env_file(contents: &str) -> (r: Vec<(String, String)>)
    ensures
        r@.map_values(|e: (String, String)| entry_view(e)) == env_entries(split(contents@, '\n')),
{
    let cs = chars_of(contents);
    let lines = split_chars(&cs, '\n');
    let ghost ls = split(contents@, '\n');
    let mut out: Vec<(String, String)> = Vec::new();
    let mut i: usize = 0;
    assert(ls.take(0) =~= Seq::<Seq<char>>::empty());
    while i < lines.len()
        invariant
            i <= lines@.len(),
            views(lines@) == ls,
            out@.map_values(|e: (String, String)| entry_view(e)) == env_entries(ls.take(i as int)),
        decreases lines@.len() - i,
    {
        let ghost before = out@;
        assert(ls.take(i + 1).drop_last() =~= ls.take(i as int));
        assert(ls.take(i + 1).last() == lines@[i as int]@);
        let t = trim_chars(&lines[i]);
        if t.len() > 0 && t[0] != '#' {
            match split_once_chars(&t, '=') {
                Some((k, v)) => {
                    let key = trim_chars(&k);
                    if key.len() > 0 {
                        let value = unquote_chars(trim_chars(&v));
                        out.push((string_of(&key), string_of(&value)));
                        assert(out@.map_values(|e: (String, String)| entry_view(e)) =~= before.map_values(
                            |e: (String, String)| entry_view(e),
                        ).push(entry_view(out@.last())));
                    }
                },
                None => {},
            }
        }
        i = i + 1;
        assert(out@.map_values(|e: (String, String)| entry_view(e)) =~= env_entries(
            ls.take(i as int),
        ));
    }
    assert(ls.take(lines@.len() as int) =~= ls);
    out
}

/// A set flag is on exactly for the words `1`, `true`, `TRUE`, `yes` and
/// `YES`, whatever its default; an unset flag takes its default. So
/// `APP_ALLOW_EMPTY_PASSWORD=true` allows running without a password.
pub proof fn law_flag_words(s: Seq<char>, default: bool)
    ensures
        env_flag(Some("1"@), default),
        env_flag(Some("true"@), default),
        env_flag(Some("TRUE"@), default),
        env_flag(Some("yes"@), default),
        env_flag(Some("YES"@), default),
        env_flag(Some(s), default) ==> s == "1"@ || s == "true"@ || s == "TRUE"@ || s == "yes"@
            || s == "YES"@,
        env_flag(None, default) == default,
{
}

} // verus!
