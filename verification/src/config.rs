//! The settings of the application and the layers they come from.
//!
//! A setting takes its value from the built-in defaults, then from the
//! configuration file, then from the environment, then from the command line:
//! each later layer replaces what the earlier ones gave, where it says
//! anything.

use vstd::prelude::*;
use crate::text::{
    chars_of, or_else, parse_u16, parsed_u16, same_but_for_case, same_text,
    same_text_ignoring_case,
};

verus! {

/// How much the application logs.
#[derive(Clone, Copy, Debug, PartialEq, Eq, Structural)]
pub enum LogLevel {
    Trace,
    Debug,
    Info,
    Warn,
    Error,
}

impl LogLevel {
    /// The name of the level, in small letters.
    pub open spec fn name(self) -> Seq<char> {
        match self {
            LogLevel::Trace => "trace"@,
            LogLevel::Debug => "debug"@,
            LogLevel::Info => "info"@,
            LogLevel::Warn => "warn"@,
            LogLevel::Error => "error"@,
        }
    }

    /// The name of the level, in small letters.
    pub fn as_str(&self) -> (r: &'static str)
        ensures
            r@ == self.name(),
    {
        match self {
            LogLevel::Trace => "trace",
            LogLevel::Debug => "debug",
            LogLevel::Info => "info",
            LogLevel::Warn => "warn",
            LogLevel::Error => "error",
        }
    }
}

/// The settings of the application.
#[derive(Debug)]
pub struct Config {
    pub db_url: String,
    pub port: u16,
    pub log_level: String,
    pub utc: bool,
    pub auth0_domain: String,
    pub auth0_audience: String,
}

/// What the configuration file says. A setting that it leaves out is `None`.
#[derive(Debug)]
pub struct FileConfig {
    pub db_url: Option<String>,
    pub port: Option<u16>,
    pub log_level: Option<String>,
    pub utc: Option<bool>,
    pub auth0_domain: Option<String>,
    pub auth0_audience: Option<String>,
}

/// What the environment says, as the texts of its variables. A variable that
/// is not set is `None`.
#[derive(Debug)]
pub struct EnvConfig {
    pub db_url: Option<String>,
    pub port: Option<String>,
    pub log_level: Option<String>,
    pub utc: Option<String>,
    pub auth0_domain: Option<String>,
    pub auth0_audience: Option<String>,
}

/// What the command line says.
#[derive(Debug)]
pub struct CliConfig {
    pub log_level: Option<LogLevel>,
    pub utc: bool,
    pub db_url: Option<String>,
    pub port: Option<u16>,
}

/// `name` below the directory `base`: the two joined by a slash, unless
/// `base` is empty or ends in one.
pub open spec fn joined(base: Seq<char>, name: Seq<char>) -> Seq<char> {
    if base.len() == 0 || base.last() == '/' {
        base + name
    } else {
        base + seq!['/'] + name
    }
}

/// The configuration directory: `.gtm` below the home directory, or below the
/// current directory where there is no home directory.
pub open spec fn config_dir(home: Option<Seq<char>>) -> Seq<char> {
    match home {
        Some(h) => joined(h, ".gtm"@),
        None => joined("."@, ".gtm"@),
    }
}

/// The configuration file: `config.toml` in the configuration directory.
pub open spec fn config_file(home: Option<Seq<char>>) -> Seq<char> {
    joined(config_dir(home), "config.toml"@)
}

/// `name` below the directory `base`.
pub fn join_path(base: &str, name: &str) -> (r: String)
    ensures
        r@ == joined(base@, name@),
{
    let n = base.unicode_len();
    let mut r = String::from_str(base);
    if n > 0 && base.get_char(n - 1) != '/' {
        proof {
            reveal_strlit("/");
        }
        r.append("/");
        assert(r@ =~= base@ + seq!['/']);
    }
    r.append(name);
    r
}

/// Whether the text of the variable that asks for timestamps in universal
/// time says yes: it does if it is `1`, or `true` in any mix of cases.
pub open spec fn says_yes(text: Seq<char>) -> bool {
    text == "1"@ || same_but_for_case(text, "true"@)
}

impl Config {
    /// The configuration directory, given the home directory.
    pub fn dir(home: Option<&str>) -> (r: String)
        ensures
            r@ == config_dir(chars_of(home)),
    {
        match home {
            Some(h) => join_path(h, ".gtm"),
            None => join_path(".", ".gtm"),
        }
    }

    /// The path of the configuration file, given the home directory.
    pub fn file_path(home: Option<&str>) -> (r: String)
        ensures
            r@ == config_file(chars_of(home)),
    {
        let dir = Config::dir(home);
        join_path(dir.as_str(), "config.toml")
    }

    /// Whether these are the built-in settings.
    pub open spec fn is_default(self) -> bool {
        &&& self.db_url@ == "sqlite:gtm.db"@
        &&& self.port == 3000
        &&& self.log_level@ == "info"@
        &&& !self.utc
        &&& self.auth0_domain@ == "momentlabs.auth0.com"@
        &&& self.auth0_audience@ == "https://gtm-api.momentlabs.io"@
    }

    /// The built-in settings.
    pub fn defaults() -> (config: Config)
        ensures
            config.is_default(),
    {
        Config {
            db_url: String::from_str("sqlite:gtm.db"),
            port: 3000,
            log_level: String::from_str("info"),
            utc: false,
            auth0_domain: String::from_str("momentlabs.auth0.com"),
            auth0_audience: String::from_str("https://gtm-api.momentlabs.io"),
        }
    }

    /// These settings with those of the configuration file laid over them.
    pub open spec fn with_file(self, file: FileConfig) -> Config {
        Config {
            db_url: or_else(file.db_url, self.db_url),
            port: or_else(file.port, self.port),
            log_level: or_else(file.log_level, self.log_level),
            utc: or_else(file.utc, self.utc),
            auth0_domain: or_else(file.auth0_domain, self.auth0_domain),
            auth0_audience: or_else(file.auth0_audience, self.auth0_audience),
        }
    }

    /// Lays the configuration file over these settings.
    pub fn apply_file(&mut self, file: FileConfig)
        ensures
            *final(self) == old(self).with_file(file),
    {
        if let Some(v) = file.db_url {
            self.db_url = v;
        }
        if let Some(v) = file.port {
            self.port = v;
        }
        if let Some(v) = file.log_level {
            self.log_level = v;
        }
        if let Some(v) = file.utc {
            self.utc = v;
        }
        if let Some(v) = file.auth0_domain {
            self.auth0_domain = v;
        }
        if let Some(v) = file.auth0_audience {
            self.auth0_audience = v;
        }
    }

    /// These settings with those of the environment laid over them. A port
    /// that is not a 16-bit number is passed over.
    pub open spec fn with_env(self, env: EnvConfig) -> Config {
        Config {
            db_url: or_else(env.db_url, self.db_url),
            port: match env.port {
                Some(text) => or_else(parsed_u16(text@), self.port),
                None => self.port,
            },
            log_level: or_else(env.log_level, self.log_level),
            utc: match env.utc {
                Some(text) => says_yes(text@),
                None => self.utc,
            },
            auth0_domain: or_else(env.auth0_domain, self.auth0_domain),
            auth0_audience: or_else(env.auth0_audience, self.auth0_audience),
        }
    }

    /// Lays the environment over these settings.
    pub fn apply_env(&mut self, env: EnvConfig)
        ensures
            *final(self) == old(self).with_env(env),
    {
        if let Some(v) = env.db_url {
            self.db_url = v;
        }
        if let Some(v) = env.port {
            if let Some(p) = parse_u16(v.as_str()) {
                self.port = p;
            }
        }
        if let Some(v) = env.log_level {
            self.log_level = v;
        }
        if let Some(v) = env.utc {
            self.utc = same_text(v.as_str(), "1") || same_text_ignoring_case(v.as_str(), "true");
        }
        if let Some(v) = env.auth0_domain {
            self.auth0_domain = v;
        }
        if let Some(v) = env.auth0_audience {
            self.auth0_audience = v;
        }
    }

    /// Whether `after` is what the command line makes of these settings: a
    /// level, an address of the database or a port that it names replaces the
    /// one there is, and its flag can switch universal time on, not off.
    pub open spec fn is_with_cli(self, cli: CliConfig, after: Config) -> bool {
        &&& match cli.log_level {
            Some(level) => after.log_level@ == level.name(),
            None => after.log_level == self.log_level,
        }
        &&& after.utc == (self.utc || cli.utc)
        &&& after.db_url == or_else(cli.db_url, self.db_url)
        &&& after.port == or_else(cli.port, self.port)
        &&& after.auth0_domain == self.auth0_domain
        &&& after.auth0_audience == self.auth0_audience
    }

    /// Lays the command line over these settings.
    pub fn apply_cli(&mut self, cli: CliConfig)
        ensures
            old(self).is_with_cli(cli, *final(self)),
    {
        if let Some(level) = cli.log_level {
            self.log_level = String::from_str(level.as_str());
        }
        if cli.utc {
            self.utc = true;
        }
        if let Some(url) = cli.db_url {
            self.db_url = url;
        }
        if let Some(p) = cli.port {
            self.port = p;
        }
    }

    /// Whether `config` is what the layers below the command line give: the
    /// built-in settings, then the file if there is one, then the environment.
    pub open spec fn is_loaded(config: Config, file: Option<FileConfig>, env: EnvConfig) -> bool {
        exists|base: Config|
            #![trigger base.is_default()]
            base.is_default() && config == (match file {
                Some(f) => base.with_file(f).with_env(env),
                None => base.with_env(env),
            })
    }

    /// The settings that the layers below the command line give.
    pub fn load(file: Option<FileConfig>, env: EnvConfig) -> (config: Config)
        ensures
            Config::is_loaded(config, file, env),
    {
        let mut config = Config::defaults();
        let ghost base = config;
        if let Some(f) = file {
            config.apply_file(f);
        }
        config.apply_env(env);
        assert(base.is_default() && config == (match file {
            Some(f) => base.with_file(f).with_env(env),
            None => base.with_env(env),
        }));
        config
    }
}

/// The database that an address names.
#[derive(Clone, Copy, Debug, PartialEq, Eq, Structural)]
pub enum Backend {
    Sqlite,
    Postgres,
}

impl Backend {
    /// The database that an address names: SQLite where the address starts
    /// with `sqlite:`, PostgreSQL otherwise.
    pub open spec fn named_by(url: Seq<char>) -> Backend {
        if url.len() >= 7 && url.take(7) == "sqlite:"@ {
            Backend::Sqlite
        } else {
            Backend::Postgres
        }
    }

    /// The database that an address names.
    pub fn of_url(url: &str) -> (backend: Backend)
        ensures
            backend == Backend::named_by(url@),
    {
        if url.unicode_len() < 7 {
            return Backend::Postgres;
        }
        let scheme = url.substring_char(0, 7);
        assert(url@.subrange(0, 7) =~= url@.take(7));
        if same_text(scheme, "sqlite:") {
            Backend::Sqlite
        } else {
            Backend::Postgres
        }
    }
}

/// The version of the application and the revision it was built from, as one
/// text: the version, a blank, and the revision in round brackets.
pub fn version_string(version: &str, git_hash: &str) -> (r: String)
    ensures
        r@ == version@ + " ("@ + git_hash@ + ")"@,
{
    let mut r = String::from_str(version);
    r.append(" (");
    r.append(git_hash);
    r.append(")");
    r
}

} // verus!
