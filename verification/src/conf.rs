//! Application configuration: its types and where its files live.
use vstd::prelude::*;

use crate::db::{decimal, push_decimal};
use crate::vars::VarMap;
use crate::text::{chars_of, extend_chars, str_eq, string_from_chars};

verus! {

/// Abstraction over environment variable access for testability.
///
/// An implementation that reads one fixed environment may say so: it
/// defines `env_value` as the value it holds for each variable and
/// `obeys_env_spec` as `true`, and `get` then hands out exactly that value.
/// An implementation that defines neither (such as one reading the process
/// environment, which can change between two reads) promises nothing.
pub trait Env {
    /// Whether `get` hands out `env_value`.
    open spec fn obeys_env_spec(&self) -> bool {
        false
    }

    /// The value of the variable `key` in this environment, if it is set.
    open spec fn env_value(&self, key: Seq<char>) -> Option<Seq<char>> {
        None
    }

    /// The value of the variable `key`, if it is set.
    fn get(&self, key: &str) -> (r: Option<String>)
        ensures
            self.obeys_env_spec() ==> opt_view(r) == self.env_value(key@),
    ;
}

/// An environment given by a fixed set of variables.
pub struct FixedEnv {
    pub vars: VarMap,
}

impl Env for FixedEnv {
    open spec fn obeys_env_spec(&self) -> bool {
        true
    }

    open spec fn env_value(&self, key: Seq<char>) -> Option<Seq<char>> {
        if self.vars@.contains_key(key) {
            Some(self.vars@[key])
        } else {
            None
        }
    }

    fn get(&self, key: &str) -> (r: Option<String>) {
        match self.vars.get(key) {
            Some(v) => Some(v.clone()),
            None => None,
        }
    }
}

/// The configuration file's contents.
#[derive(Debug)]
pub struct AppConfig {
    pub database: Option<DatabaseConfig>,
    pub defaults: Option<DefaultsConfig>,
    pub history: Option<HistoryConfig>,
}

/// Where the database lives.
#[derive(Debug)]
pub struct DatabaseConfig {
    pub path: Option<String>,
}

/// Names used when a command does not give them.
#[derive(Debug)]
pub struct DefaultsConfig {
    pub workspace: Option<String>,
    pub collection: Option<String>,
    pub environment: Option<String>,
}

/// How long request history is kept.
#[derive(Debug)]
pub struct HistoryConfig {
    pub retention_days: Option<u32>,
}

impl Default for AppConfig {
    /// A configuration with no section set.
    fn default() -> (c: AppConfig)
        ensures
            c.database is None,
            c.defaults is None,
            c.history is None,
    {
        AppConfig { database: None, defaults: None, history: None }
    }
}

/// The path `base` extended by the relative component `comp`: a `/` is put
/// between them unless `base` is empty or already ends with one.
pub open spec fn path_join(base: Seq<char>, comp: Seq<char>) -> Seq<char> {
    if base.len() == 0 || base.last() == '/' {
        base + comp
    } else {
        base + seq!['/'] + comp
    }
}

/// Extends the path `base` by the relative component `comp`, as
/// `PathBuf::join` does for such a component.
pub fn join_path(base: &str, comp: &str) -> (r: String)
    ensures
        r@ == path_join(base@, comp@),
{
    let mut out = chars_of(base);
    if out.len() > 0 && out[out.len() - 1] != '/' {
        out.push('/');
    }
    extend_chars(&mut out, &chars_of(comp));
    string_from_chars(&out)
}

/// The configuration file under the directory `base`:
/// `base/yapi/config.toml`.
pub open spec fn config_file_in(base: Seq<char>) -> Seq<char> {
    path_join(path_join(base, "yapi"@), "config.toml"@)
}

/// The database file under the directory `base`: `base/yapi/yapi.db`.
pub open spec fn db_file_in(base: Seq<char>) -> Seq<char> {
    path_join(path_join(base, "yapi"@), "yapi.db"@)
}

/// The path to the global config file, given the values of
/// `XDG_CONFIG_HOME` and `HOME`: `$XDG_CONFIG_HOME/yapi/config.toml` if the
/// first is set, otherwise `$HOME/.config/yapi/config.toml`.
pub fn config_path(xdg_config_home: Option<&str>, home: Option<&str>) -> (r: String)
    requires
        xdg_config_home is Some || home is Some,
    ensures
        r@ == match xdg_config_home {
            Some(x) => config_file_in(x@),
            None => config_file_in(path_join(home->0@, ".config"@)),
        },
{
    let base = match xdg_config_home {
        Some(x) => String::from_str(x),
        None => join_path(home.unwrap(), ".config"),
    };
    let dir = join_path(base.as_str(), "yapi");
    join_path(dir.as_str(), "config.toml")
}

/// The default database path, given the values of `XDG_DATA_HOME` and
/// `HOME`: `$XDG_DATA_HOME/yapi/yapi.db` if the first is set, otherwise
/// `$HOME/.local/share/yapi/yapi.db`.
pub fn default_db_path(xdg_data_home: Option<&str>, home: Option<&str>) -> (r: String)
    requires
        xdg_data_home is Some || home is Some,
    ensures
        r@ == match xdg_data_home {
            Some(x) => db_file_in(x@),
            None => db_file_in(path_join(path_join(home->0@, ".local"@), "share"@)),
        },
{
    let base = match xdg_data_home {
        Some(x) => String::from_str(x),
        None => {
            let local = join_path(home.unwrap(), ".local");
            join_path(local.as_str(), "share")
        },
    };
    let dir = join_path(base.as_str(), "yapi");
    join_path(dir.as_str(), "yapi.db")
}

/// The config path that an environment gives: `config_path` of the values
/// of `XDG_CONFIG_HOME` and `HOME`, or `None` when neither is set.
pub open spec fn env_config_path(xdg_config_home: Option<Seq<char>>, home: Option<Seq<char>>) -> Option<
    Seq<char>,
> {
    match xdg_config_home {
        Some(x) => Some(config_file_in(x)),
        None => match home {
            Some(h) => Some(config_file_in(path_join(h, ".config"@))),
            None => None,
        },
    }
}

/// The default database path that an environment gives: `default_db_path`
/// of the values of `XDG_DATA_HOME` and `HOME`, or `None` when neither is
/// set.
pub open spec fn env_db_path(xdg_data_home: Option<Seq<char>>, home: Option<Seq<char>>) -> Option<
    Seq<char>,
> {
    match xdg_data_home {
        Some(x) => Some(db_file_in(x)),
        None => match home {
            Some(h) => Some(db_file_in(path_join(path_join(h, ".local"@), "share"@))),
            None => None,
        },
    }
}

/// Under a directory written without a trailing `/`, the config file is
/// `dir/yapi/config.toml` and the database `dir/yapi/yapi.db`; with only
/// `HOME` set they go under `$HOME/.config` and `$HOME/.local/share`.
pub proof fn law_paths_under_directory(dir: Seq<char>)
    requires
        dir.len() > 0,
        dir.last() != '/',
    ensures
        config_file_in(dir) == dir + "/yapi/config.toml"@,
        db_file_in(dir) == dir + "/yapi/yapi.db"@,
        env_config_path(None, Some(dir)) == Some(dir + "/.config/yapi/config.toml"@),
        env_db_path(None, Some(dir)) == Some(dir + "/.local/share/yapi/yapi.db"@),
{
    reveal_strlit("yapi");
    reveal_strlit("config.toml");
    reveal_strlit("yapi.db");
    reveal_strlit(".config");
    reveal_strlit(".local");
    reveal_strlit("share");
    reveal_strlit("/yapi/config.toml");
    reveal_strlit("/yapi/yapi.db");
    reveal_strlit("/.config/yapi/config.toml");
    reveal_strlit("/.local/share/yapi/yapi.db");
    let y = dir + seq!['/'] + "yapi"@;
    assert(y.last() == 'i');
    assert(config_file_in(dir) =~= dir + "/yapi/config.toml"@);
    assert(db_file_in(dir) =~= dir + "/yapi/yapi.db"@);
    let c = dir + seq!['/'] + ".config"@;
    assert(c.last() == 'g');
    let cy = c + seq!['/'] + "yapi"@;
    assert(cy.last() == 'i');
    assert(config_file_in(c) =~= dir + "/.config/yapi/config.toml"@);
    let l = dir + seq!['/'] + ".local"@;
    assert(l.last() == 'l');
    let ls = l + seq!['/'] + "share"@;
    assert(ls.last() == 'e');
    let lsy = ls + seq!['/'] + "yapi"@;
    assert(lsy.last() == 'i');
    assert(db_file_in(ls) =~= dir + "/.local/share/yapi/yapi.db"@);
}

/// Returns the config path using the given `Env` for variable lookups:
/// `$XDG_CONFIG_HOME/yapi/config.toml`, else `$HOME/.config/yapi/config.toml`.
/// An environment that states its values must set one of the two; from
/// one that does not, `None` comes back when `get` finds neither.
pub fn config_path_with(env: &dyn Env) -> (r: Option<String>)
    requires
        env.obeys_env_spec() ==> (env.env_value("XDG_CONFIG_HOME"@) is Some || env.env_value(
            "HOME"@,
        ) is Some),
    ensures
        r matches Some(p) ==> exists|base: Seq<char>| #[trigger] config_file_in(base) == p@,
        env.obeys_env_spec() ==> opt_view(r) == env_config_path(
            env.env_value("XDG_CONFIG_HOME"@),
            env.env_value("HOME"@),
        ),
{
    let xdg = env.get("XDG_CONFIG_HOME");
    match xdg {
        Some(x) => Some(config_path(Some(x.as_str()), None)),
        None => match env.get("HOME") {
            Some(h) => {
                let p = config_path(None, Some(h.as_str()));
                Some(p)
            },
            None => None,
        },
    }
}

/// Returns the default database path using the given `Env` for variable
/// lookups: `$XDG_DATA_HOME/yapi/yapi.db`, else
/// `$HOME/.local/share/yapi/yapi.db`. An environment that states its values
/// must set one of the two; from one that does not, `None` comes back when
/// `get` finds neither.
pub fn default_db_path_with(env: &dyn Env) -> (r: Option<String>)
    requires
        env.obeys_env_spec() ==> (env.env_value("XDG_DATA_HOME"@) is Some || env.env_value(
            "HOME"@,
        ) is Some),
    ensures
        r matches Some(p) ==> exists|base: Seq<char>| #[trigger] db_file_in(base) == p@,
        env.obeys_env_spec() ==> opt_view(r) == env_db_path(
            env.env_value("XDG_DATA_HOME"@),
            env.env_value("HOME"@),
        ),
{
    match env.get("XDG_DATA_HOME") {
        Some(x) => Some(default_db_path(Some(x.as_str()), None)),
        None => match env.get("HOME") {
            Some(h) => {
                let p = default_db_path(None, Some(h.as_str()));
                Some(p)
            },
            None => None,
        },
    }
}

/// The configuration that `conf init` writes: the database at `db_path`,
/// the `default` workspace and collection, no default environment and no
/// history retention limit.
pub fn initial_config(db_path: &str) -> (c: AppConfig)
    ensures
        c.database matches Some(d) && d.path matches Some(p) && p@ == db_path@,
        c.defaults matches Some(d) && (d.workspace matches Some(w) && w@ == "default"@) && (
        d.collection matches Some(k) && k@ == "default"@) && d.environment is None,
        c.history matches Some(h) && h.retention_days is None,
{
    AppConfig {
        database: Some(DatabaseConfig { path: Some(String::from_str(db_path)) }),
        defaults: Some(
            DefaultsConfig {
                workspace: Some(String::from_str("default")),
                collection: Some(String::from_str("default")),
                environment: None,
            },
        ),
        history: Some(HistoryConfig { retention_days: None }),
    }
}

// ── Settings by key ─────────────────────────────────────────────────────

/// The settings that `conf get` and `conf set` address by key.
#[derive(Debug, Clone, Copy, PartialEq, Eq, Structural)]
pub enum ConfigKey {
    /// `database.path`
    DatabasePath,
    /// `defaults.workspace`
    DefaultWorkspace,
    /// `defaults.collection`
    DefaultCollection,
    /// `defaults.environment`
    DefaultEnvironment,
    /// `history.retention_days`
    HistoryRetentionDays,
}

/// The setting a key names.
pub open spec fn config_key_spec(key: Seq<char>) -> Option<ConfigKey> {
    if key == "database.path"@ {
        Some(ConfigKey::DatabasePath)
    } else if key == "defaults.workspace"@ {
        Some(ConfigKey::DefaultWorkspace)
    } else if key == "defaults.collection"@ {
        Some(ConfigKey::DefaultCollection)
    } else if key == "defaults.environment"@ {
        Some(ConfigKey::DefaultEnvironment)
    } else if key == "history.retention_days"@ {
        Some(ConfigKey::HistoryRetentionDays)
    } else {
        None
    }
}

/// The setting a key names, if any.
pub fn parse_config_key(key: &str) -> (r: Option<ConfigKey>)
    ensures
        r == config_key_spec(key@),
{
    if str_eq(key, "database.path") {
        Some(ConfigKey::DatabasePath)
    } else if str_eq(key, "defaults.workspace") {
        Some(ConfigKey::DefaultWorkspace)
    } else if str_eq(key, "defaults.collection") {
        Some(ConfigKey::DefaultCollection)
    } else if str_eq(key, "defaults.environment") {
        Some(ConfigKey::DefaultEnvironment)
    } else if str_eq(key, "history.retention_days") {
        Some(ConfigKey::HistoryRetentionDays)
    } else {
        None
    }
}

/// Why a setting could not be read or written.
#[derive(Debug)]
pub enum ConfigValueError {
    /// No setting has this key.
    UnknownKey(String),
    /// `history.retention_days` takes a number of days.
    InvalidNumber(String),
}

pub open spec fn opt_view(o: Option<String>) -> Option<Seq<char>> {
    match o {
        Some(s) => Some(s@),
        None => None,
    }
}

/// Whether the setting is one of the `[defaults]` section.
pub open spec fn is_default_key(k: ConfigKey) -> bool {
    k == ConfigKey::DefaultWorkspace || k == ConfigKey::DefaultCollection || k
        == ConfigKey::DefaultEnvironment
}

/// The text of a setting, if it is set.
pub open spec fn setting(c: AppConfig, k: ConfigKey) -> Option<Seq<char>> {
    match k {
        ConfigKey::DatabasePath => match c.database {
            Some(d) => opt_view(d.path),
            None => None,
        },
        ConfigKey::DefaultWorkspace => match c.defaults {
            Some(d) => opt_view(d.workspace),
            None => None,
        },
        ConfigKey::DefaultCollection => match c.defaults {
            Some(d) => opt_view(d.collection),
            None => None,
        },
        ConfigKey::DefaultEnvironment => match c.defaults {
            Some(d) => opt_view(d.environment),
            None => None,
        },
        ConfigKey::HistoryRetentionDays => match c.history {
            Some(h) => match h.retention_days {
                Some(n) => Some(decimal(n as int)),
                None => None,
            },
            None => None,
        },
    }
}

fn clone_opt(o: &Option<String>) -> (r: Option<String>)
    ensures
        opt_view(r) == opt_view(*o),
{
    match o {
        Some(s) => Some(s.clone()),
        None => None,
    }
}

/// The text of the setting `key`: `None` when it is not set, an error when
/// no setting has that key.
pub fn get_value(config: &AppConfig, key: &str) -> (r: Result<Option<String>, ConfigValueError>)
    ensures
        match config_key_spec(key@) {
            None => r matches Err(ConfigValueError::UnknownKey(k)) && k@ == key@,
            Some(k) => r matches Ok(v) && opt_view(v) == setting(*config, k),
        },
{
    let k = match parse_config_key(key) {
        Some(k) => k,
        None => return Err(ConfigValueError::UnknownKey(String::from_str(key))),
    };
    let v = match k {
        ConfigKey::DatabasePath => match &config.database {
            Some(d) => clone_opt(&d.path),
            None => None,
        },
        ConfigKey::DefaultWorkspace => match &config.defaults {
            Some(d) => clone_opt(&d.workspace),
            None => None,
        },
        ConfigKey::DefaultCollection => match &config.defaults {
            Some(d) => clone_opt(&d.collection),
            None => None,
        },
        ConfigKey::DefaultEnvironment => match &config.defaults {
            Some(d) => clone_opt(&d.environment),
            None => None,
        },
        ConfigKey::HistoryRetentionDays => match &config.history {
            Some(h) => match h.retention_days {
                Some(n) => {
                    let mut out: Vec<char> = Vec::new();
                    push_decimal(&mut out, n as i64);
                    assert(out@ == decimal(n as int));
                    Some(string_from_chars(&out))
                },
                None => None,
            },
            None => None,
        },
    };
    Ok(v)
}

/// The value of a decimal digit character.
pub open spec fn digit_value(c: char) -> int {
    (c as int) - ('0' as int)
}

/// Whether every character is a decimal digit.
pub open spec fn all_digits(s: Seq<char>) -> bool {
    forall|i: int| 0 <= i < s.len() ==> '0' <= #[trigger] s[i] && s[i] <= '9'
}

/// The number that a run of decimal digits writes.
pub open spec fn digits_value(s: Seq<char>) -> int
    decreases s.len(),
{
    if s.len() == 0 {
        0
    } else {
        digits_value(s.drop_last()) * 10 + digit_value(s.last())
    }
}

/// A `u32` written as an optional `+` and one or more decimal digits, as
/// `u32::from_str` reads it.
pub open spec fn parse_u32_spec(s: Seq<char>) -> Option<u32> {
    let d = if s.len() > 0 && s[0] == '+' {
        s.drop_first()
    } else {
        s
    };
    if d.len() > 0 && all_digits(d) && digits_value(d) <= u32::MAX {
        Some(digits_value(d) as u32)
    } else {
        None
    }
}

proof fn lemma_digits_value_nonneg(s: Seq<char>)
    requires
        all_digits(s),
    ensures
        digits_value(s) >= 0,
    decreases s.len(),
{
    if s.len() > 0 {
        assert(all_digits(s.drop_last())) by {
            assert forall|i: int| 0 <= i < s.drop_last().len() implies '0' <= #[trigger] s.drop_last()[i]
                && s.drop_last()[i] <= '9' by {
                assert(s.drop_last()[i] == s[i]);
            }
        }
        lemma_digits_value_nonneg(s.drop_last());
        assert('0' <= s[s.len() - 1]);
    }
}

/// Reads a `u32` written as an optional `+` and decimal digits.
pub fn parse_u32(s: &str) -> (r: Option<u32>)
    ensures
        r == parse_u32_spec(s@),
{
    let cs = chars_of(s);
    let start: usize = if cs.len() > 0 && cs[0] == '+' {
        1
    } else {
        0
    };
    let ghost d = if s@.len() > 0 && s@[0] == '+' {
        s@.drop_first()
    } else {
        s@
    };
    assert(d == cs@.subrange(start as int, cs@.len() as int));
    if start >= cs.len() {
        return None;
    }
    let limit: u64 = 4294967296;
    let mut acc: u64 = 0;
    let mut i = start;
    while i < cs.len()
        invariant
            start <= i <= cs@.len(),
            cs@ == s@,
            d == cs@.subrange(start as int, cs@.len() as int),
            d == (if s@.len() > 0 && s@[0] == '+' {
                s@.drop_first()
            } else {
                s@
            }),
            all_digits(cs@.subrange(start as int, i as int)),
            acc as int == if digits_value(cs@.subrange(start as int, i as int)) < limit {
                digits_value(cs@.subrange(start as int, i as int))
            } else {
                limit as int
            },
            limit == 4294967296,
        decreases cs@.len() - i,
    {
        let c = cs[i];
        if !('0' <= c && c <= '9') {
            assert(d[i - start] == c);
            assert(!all_digits(d));
            return None;
        }
        let ghost p = cs@.subrange(start as int, i as int);
        let ghost q = cs@.subrange(start as int, i + 1);
        assert(q.drop_last() == p);
        assert(q.last() == c);
        assert(all_digits(q)) by {
            assert forall|k: int| 0 <= k < q.len() implies '0' <= #[trigger] q[k] && q[k] <= '9' by {
                if k < p.len() {
                    assert(q[k] == p[k]);
                }
            }
        }
        proof {
            lemma_digits_value_nonneg(p);
        }
        let dv = (c as u32 - '0' as u32) as u64;
        assert(dv as int == digit_value(c));
        let next = acc * 10 + dv;
        acc = if next < limit {
            next
        } else {
            limit
        };
        i = i + 1;
    }
    assert(cs@.subrange(start as int, i as int) == d);
    if acc < limit {
        Some(acc as u32)
    } else {
        None
    }
}

/// Sets the setting `key` to `value`, creating its section when needed.
/// `history.retention_days` takes a number; an unknown key or a value
/// that is not a number changes nothing.
pub fn set_value(config: &mut AppConfig, key: &str, value: &str) -> (r: Result<
    (),
    ConfigValueError,
>)
    ensures
        match config_key_spec(key@) {
            None => (r matches Err(ConfigValueError::UnknownKey(k)) && k@ == key@) && *final(config)
                == *old(config),
            Some(k) => if k == ConfigKey::HistoryRetentionDays && parse_u32_spec(value@) is None {
                (r matches Err(ConfigValueError::InvalidNumber(v)) && v@ == value@) && *final(config)
                    == *old(config)
            } else {
                &&& r is Ok
                &&& setting(*final(config), k) == Some(
                    if k == ConfigKey::HistoryRetentionDays {
                        decimal(parse_u32_spec(value@)->0 as int)
                    } else {
                        value@
                    },
                )
                &&& forall|other: ConfigKey|
                    other != k ==> #[trigger] setting(*final(config), other) == setting(
                        *old(config),
                        other,
                    )
                &&& (final(config).database is Some) == (old(config).database is Some || k
                    == ConfigKey::DatabasePath)
                &&& (final(config).defaults is Some) == (old(config).defaults is Some
                    || is_default_key(k))
                &&& (final(config).history is Some) == (old(config).history is Some || k
                    == ConfigKey::HistoryRetentionDays)
            },
        },
{
    let k = match parse_config_key(key) {
        Some(k) => k,
        None => return Err(ConfigValueError::UnknownKey(String::from_str(key))),
    };
    match k {
        ConfigKey::DatabasePath => {
            config.database = Some(DatabaseConfig { path: Some(String::from_str(value)) });
        },
        ConfigKey::DefaultWorkspace | ConfigKey::DefaultCollection
        | ConfigKey::DefaultEnvironment => {
            let mut d = match &config.defaults {
                Some(d) => DefaultsConfig {
                    workspace: clone_opt(&d.workspace),
                    collection: clone_opt(&d.collection),
                    environment: clone_opt(&d.environment),
                },
                None => DefaultsConfig { workspace: None, collection: None, environment: None },
            };
            match k {
                ConfigKey::DefaultWorkspace => d.workspace = Some(String::from_str(value)),
                ConfigKey::DefaultCollection => d.collection = Some(String::from_str(value)),
                _ => d.environment = Some(String::from_str(value)),
            }
            config.defaults = Some(d);
        },
        ConfigKey::HistoryRetentionDays => {
            let n = match parse_u32(value) {
                Some(n) => n,
                None => return Err(ConfigValueError::InvalidNumber(String::from_str(value))),
            };
            config.history = Some(HistoryConfig { retention_days: Some(n) });
        },
    }
    Ok(())
}

} // verus!
