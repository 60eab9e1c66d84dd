//! Configuration: compiled-in defaults, the persisted file, and environment
//! overrides, merged into one immutable snapshot.
//!
//! Precedence, lowest to highest: defaults, then the file, then the
//! environment. A file that is present but malformed is an error naming its
//! path — it never falls back to defaults silently. An absent file is not an
//! error.

#![verifier::loop_isolation(false)]

use vstd::prelude::*;
use vstd::string::StringExecFns;
use crate::strutil::{spec_parse_u16, spec_dec, parse_u16, chars_of, fmt_u64, string_from_chars};

verus! {

/// The resolved configuration snapshot.
pub struct Config {
    /// Base URL of the remote service.
    pub api_url: String,
    /// Storage bucket for context files.
    pub gcs_bucket: String,
    /// Default user email, when one is configured.
    pub user_email: Option<String>,
    /// Database host.
    pub db_host: String,
    /// Database port.
    pub db_port: u16,
    /// Database name.
    pub db_name: String,
    /// Database user.
    pub db_user: String,
    /// Database password, when one is configured.
    pub db_password: Option<String>,
    /// Client authentication key, when one is configured.
    pub cli_api_key: Option<String>,
}

/// The mathematical form of a configuration snapshot.
pub struct ConfigV {
    pub api_url: Seq<char>,
    pub gcs_bucket: Seq<char>,
    pub user_email: Option<Seq<char>>,
    pub db_host: Seq<char>,
    pub db_port: u16,
    pub db_name: Seq<char>,
    pub db_user: Seq<char>,
    pub db_password: Option<Seq<char>>,
    pub cli_api_key: Option<Seq<char>>,
}

impl View for Config {
    type V = ConfigV;

    open spec fn view(&self) -> ConfigV {
        ConfigV {
            api_url: self.api_url@,
            gcs_bucket: self.gcs_bucket@,
            user_email: match self.user_email {
                Some(ref s) => Some(s@),
                None => None,
            },
            db_host: self.db_host@,
            db_port: self.db_port,
            db_name: self.db_name@,
            db_user: self.db_user@,
            db_password: match self.db_password {
                Some(ref s) => Some(s@),
                None => None,
            },
            cli_api_key: match self.cli_api_key {
                Some(ref s) => Some(s@),
                None => None,
            },
        }
    }
}

/// What the persisted file contributes: every recognized field, each
/// optional. The port is kept as the raw integer the file held; its range is
/// checked during resolution.
pub struct FileConfig {
    pub api_url: Option<String>,
    pub gcs_bucket: Option<String>,
    pub user_email: Option<String>,
    pub db_port: Option<i64>,
    pub db_host: Option<String>,
    pub db_name: Option<String>,
    pub db_user: Option<String>,
    pub db_password: Option<String>,
    pub cli_api_key: Option<String>,
}

/// The mathematical form of a file's contribution.
pub struct FileConfigV {
    pub api_url: Option<Seq<char>>,
    pub gcs_bucket: Option<Seq<char>>,
    pub user_email: Option<Seq<char>>,
    pub db_port: Option<i64>,
    pub db_host: Option<Seq<char>>,
    pub db_name: Option<Seq<char>>,
    pub db_user: Option<Seq<char>>,
    pub db_password: Option<Seq<char>>,
    pub cli_api_key: Option<Seq<char>>,
}

/// The view of an optional string.
pub open spec fn opt_view(o: Option<String>) -> Option<Seq<char>> {
    match o {
        Some(s) => Some(s@),
        None => None,
    }
}

impl View for FileConfig {
    type V = FileConfigV;

    open spec fn view(&self) -> FileConfigV {
        FileConfigV {
            api_url: opt_view(self.api_url),
            gcs_bucket: opt_view(self.gcs_bucket),
            user_email: opt_view(self.user_email),
            db_port: self.db_port,
            db_host: opt_view(self.db_host),
            db_name: opt_view(self.db_name),
            db_user: opt_view(self.db_user),
            db_password: opt_view(self.db_password),
            cli_api_key: opt_view(self.cli_api_key),
        }
    }
}

/// The environment's contribution: each recognized variable, when set. The
/// port override is kept as raw text; a value that does not parse as a port
/// falls back silently to the value the file or the defaults gave.
pub struct EnvOverrides {
    pub api_url: Option<String>,
    pub gcs_bucket: Option<String>,
    pub user_email: Option<String>,
    pub db_host: Option<String>,
    pub db_port: Option<String>,
    pub db_password: Option<String>,
}

/// The mathematical form of the environment's contribution.
pub struct EnvOverridesV {
    pub api_url: Option<Seq<char>>,
    pub gcs_bucket: Option<Seq<char>>,
    pub user_email: Option<Seq<char>>,
    pub db_host: Option<Seq<char>>,
    pub db_port: Option<Seq<char>>,
    pub db_password: Option<Seq<char>>,
}

impl View for EnvOverrides {
    type V = EnvOverridesV;

    open spec fn view(&self) -> EnvOverridesV {
        EnvOverridesV {
            api_url: opt_view(self.api_url),
            gcs_bucket: opt_view(self.gcs_bucket),
            user_email: opt_view(self.user_email),
            db_host: opt_view(self.db_host),
            db_port: opt_view(self.db_port),
            db_password: opt_view(self.db_password),
        }
    }
}

impl EnvOverrides {
    /// An empty environment: no variable set.
    pub fn none() -> (r: EnvOverrides)
        ensures
            r@ == (EnvOverridesV {
                api_url: None,
                gcs_bucket: None,
                user_email: None,
                db_host: None,
                db_port: None,
                db_password: None,
            }),
    {
        EnvOverrides {
            api_url: None,
            gcs_bucket: None,
            user_email: None,
            db_host: None,
            db_port: None,
            db_password: None,
        }
    }
}

/// What a configuration-file read found: no file, a file that could not be
/// read, or its text.
pub enum FileInput {
    Absent,
    Unreadable,
    Text(String),
}

/// Why a configuration operation failed.
#[derive(Debug)]
pub enum ConfigError {
    /// The file at this path could not be read.
    UnreadableFile { path: String },
    /// The file at this path is not a well-formed configuration.
    MalformedFile { path: String },
    /// No recognized configuration field has this name.
    UnknownKey { key: String },
    /// The value given for this field cannot be parsed as the field's type.
    InvalidValue { key: String },
}

impl ConfigError {
    /// A short description of the error.
    pub fn message(&self) -> (r: String)
        ensures
            match self {
                ConfigError::UnreadableFile { path } => r@ == "failed to read config file: "@
                    + path@,
                ConfigError::MalformedFile { path } => r@ == "failed to parse config file: "@
                    + path@,
                ConfigError::UnknownKey { key } => r@ == "unknown config key: "@ + key@,
                ConfigError::InvalidValue { key } => r@ == "invalid value for config key: "@
                    + key@,
            },
    {
        let mut s = String::new();
        match self {
            ConfigError::UnreadableFile { path } => {
                s.append("failed to read config file: ");
                s.append(path.as_str());
                proof {
                    assert(s@ =~= "failed to read config file: "@ + path@);
                }
            },
            ConfigError::MalformedFile { path } => {
                s.append("failed to parse config file: ");
                s.append(path.as_str());
                proof {
                    assert(s@ =~= "failed to parse config file: "@ + path@);
                }
            },
            ConfigError::UnknownKey { key } => {
                s.append("unknown config key: ");
                s.append(key.as_str());
                proof {
                    assert(s@ =~= "unknown config key: "@ + key@);
                }
            },
            ConfigError::InvalidValue { key } => {
                s.append("invalid value for config key: ");
                s.append(key.as_str());
                proof {
                    assert(s@ =~= "invalid value for config key: "@ + key@);
                }
            },
        }
        s
    }
}

/// The compiled-in default of the service base URL.
pub open spec fn spec_default_api_url() -> Seq<char> {
    "https://pam-production-service-925072200586.us-central1.run.app"@
}

/// The compiled-in default of the context bucket.
pub open spec fn spec_default_gcs_bucket() -> Seq<char> {
    "pam-context-files"@
}

/// The compiled-in default of the database host.
pub open spec fn spec_default_db_host() -> Seq<char> {
    "localhost"@
}

/// The compiled-in default of the database name.
pub open spec fn spec_default_db_name() -> Seq<char> {
    "pam_pm_knowledge"@
}

/// The compiled-in default of the database user.
pub open spec fn spec_default_db_user() -> Seq<char> {
    "postgres"@
}

/// Default service base URL.
pub fn default_api_url() -> (r: String)
    ensures
        r@ == spec_default_api_url(),
{
    "https://pam-production-service-925072200586.us-central1.run.app".to_owned()
}

/// Default context bucket.
pub fn default_gcs_bucket() -> (r: String)
    ensures
        r@ == spec_default_gcs_bucket(),
{
    "pam-context-files".to_owned()
}

/// Default database host.
pub fn default_db_host() -> (r: String)
    ensures
        r@ == spec_default_db_host(),
{
    "localhost".to_owned()
}

/// Default database port.
pub fn default_db_port() -> (r: u16)
    ensures
        r == 5433,
{
    5433
}

/// Default database name.
pub fn default_db_name() -> (r: String)
    ensures
        r@ == spec_default_db_name(),
{
    "pam_pm_knowledge".to_owned()
}

/// Default database user.
pub fn default_db_user() -> (r: String)
    ensures
        r@ == spec_default_db_user(),
{
    "postgres".to_owned()
}

/// The configuration that an absent file and an empty environment yield.
pub open spec fn spec_default_config() -> ConfigV {
    ConfigV {
        api_url: spec_default_api_url(),
        gcs_bucket: spec_default_gcs_bucket(),
        user_email: None,
        db_host: spec_default_db_host(),
        db_port: 5433,
        db_name: spec_default_db_name(),
        db_user: spec_default_db_user(),
        db_password: None,
        cli_api_key: None,
    }
}

impl Default for Config {
    /// The compiled-in defaults alone.
    fn default() -> (c: Config)
        ensures
            c@ == spec_default_config(),
    {
        Config {
            api_url: default_api_url(),
            gcs_bucket: default_gcs_bucket(),
            user_email: None,
            db_host: default_db_host(),
            db_port: default_db_port(),
            db_name: default_db_name(),
            db_user: default_db_user(),
            db_password: None,
            cli_api_key: None,
        }
    }
}

/// One field's resolution: the environment wins over the file, the file over
/// the default.
pub open spec fn pick(
    env: Option<Seq<char>>,
    file: Option<Seq<char>>,
    dflt: Seq<char>,
) -> Seq<char> {
    match env {
        Some(v) => v,
        None => match file {
            Some(v) => v,
            None => dflt,
        },
    }
}

/// One optional field's resolution: the environment wins over the file.
pub open spec fn pick_opt(env: Option<Seq<char>>, file: Option<Seq<char>>) -> Option<Seq<char>> {
    match env {
        Some(v) => Some(v),
        None => file,
    }
}

/// The port's resolution: an environment value that parses as a port wins;
/// one that does not parse falls back silently to the file's value, or to the
/// default.
pub open spec fn pick_port(env: Option<Seq<char>>, file: Option<i64>) -> u16 {
    let base: u16 = match file {
        Some(p) => p as u16,
        None => 5433,
    };
    match env {
        Some(txt) => match spec_parse_u16(txt) {
            Some(p) => p,
            None => base,
        },
        None => base,
    }
}

/// Whether a file's port value, when present, is in range for a port.
pub open spec fn file_port_ok(f: FileConfigV) -> bool {
    match f.db_port {
        Some(p) => 0 <= p <= 0xffff,
        None => true,
    }
}

/// The configuration that a parsed file and the environment resolve to,
/// field by field: environment over file over default.
pub open spec fn spec_resolve(file: Option<FileConfigV>, env: EnvOverridesV) -> ConfigV {
    let f = match file {
        Some(f) => f,
        None => FileConfigV {
            api_url: None,
            gcs_bucket: None,
            user_email: None,
            db_port: None,
            db_host: None,
            db_name: None,
            db_user: None,
            db_password: None,
            cli_api_key: None,
        },
    };
    ConfigV {
        api_url: pick(env.api_url, f.api_url, spec_default_api_url()),
        gcs_bucket: pick(env.gcs_bucket, f.gcs_bucket, spec_default_gcs_bucket()),
        user_email: pick_opt(env.user_email, f.user_email),
        db_host: pick(env.db_host, f.db_host, spec_default_db_host()),
        db_port: pick_port(env.db_port, f.db_port),
        db_name: pick(None, f.db_name, spec_default_db_name()),
        db_user: pick(None, f.db_user, spec_default_db_user()),
        db_password: pick_opt(env.db_password, f.db_password),
        cli_api_key: f.cli_api_key,
    }
}

/// What a configuration-file text means: the fields it contributes, or
/// nothing when the text is not a well-formed configuration.
///
/// This names the outcome of the `toml` crate's parser on the text; the
/// trusted reader below ties the two together.
pub uninterp spec fn file_config_of(text: Seq<char>) -> Option<FileConfigV>;

/// Reads a configuration-file text.
///
/// Relies on toml's parser (`str::parse::<toml::Table>`) and on the
/// `toml::Value` variants: each recognized field is copied out when its value
/// has the field's type; a document that does not parse, or a recognized
/// field of the wrong type, makes the whole file malformed.
#[verifier::external_body]
fn parse_file_config(text: &str) -> (r: Option<FileConfig>)
    ensures
        match r {
            Some(fc) => file_config_of(text@) == Some(fc@),
            None => file_config_of(text@) is None,
        },
{
    let t: toml::Table = text.parse().ok()?;
    let s = |k| match t.get(k) { None => Some(None), Some(toml::Value::String(x)) => Some(Some(x.clone())), Some(_) => None };
    let i = |k| match t.get(k) { None => Some(None), Some(toml::Value::Integer(x)) => Some(Some(*x)), Some(_) => None };
    Some(FileConfig {
        api_url: s("api_url")?,
        gcs_bucket: s("gcs_bucket")?,
        user_email: s("user_email")?,
        db_port: i("db_port")?,
        db_host: s("db_host")?,
        db_name: s("db_name")?,
        db_user: s("db_user")?,
        db_password: s("db_password")?,
        cli_api_key: s("cli_api_key")?,
    })
}

/// Picks one resolved string field.
fn pick_exec(env: Option<String>, file: Option<String>, dflt: String) -> (r: String)
    ensures
        r@ == pick(opt_view(env), opt_view(file), dflt@),
{
    match env {
        Some(v) => v,
        None => match file {
            Some(v) => v,
            None => dflt,
        },
    }
}

/// Picks one resolved optional field.
fn pick_opt_exec(env: Option<String>, file: Option<String>) -> (r: Option<String>)
    ensures
        opt_view(r) == pick_opt(opt_view(env), opt_view(file)),
{
    match env {
        Some(v) => Some(v),
        None => file,
    }
}

impl Config {
    /// Resolves a configuration from what was read at the configuration-file
    /// location and from the environment. An absent file contributes
    /// nothing; a file that could not be read or whose text is malformed —
    /// including a port outside the port range — is an error naming `path`;
    /// otherwise every field resolves by precedence: environment over file
    /// over default.
    pub fn load(file: FileInput, env: EnvOverrides, path: &str) -> (r: Result<Config, ConfigError>)
        ensures
            match file {
                FileInput::Absent => r matches Ok(c) && c@ == spec_resolve(None, env@),
                FileInput::Unreadable => r matches Err(ConfigError::UnreadableFile { path: p })
                    && p@ == path@,
                FileInput::Text(t) => match file_config_of(t@) {
                    None => r matches Err(ConfigError::MalformedFile { path: p }) && p@ == path@,
                    Some(fc) => if file_port_ok(fc) {
                        r matches Ok(c) && c@ == spec_resolve(Some(fc), env@)
                    } else {
                        r matches Err(ConfigError::MalformedFile { path: p }) && p@ == path@
                    },
                },
            },
    {
        let fc: Option<FileConfig> = match file {
            FileInput::Absent => None,
            FileInput::Unreadable => {
                return Err(ConfigError::UnreadableFile { path: path.to_owned() });
            },
            FileInput::Text(t) => {
                match parse_file_config(t.as_str()) {
                    None => {
                        return Err(ConfigError::MalformedFile { path: path.to_owned() });
                    },
                    Some(fc) => {
                        match fc.db_port {
                            Some(p) => {
                                if p < 0 || p > 0xffff {
                                    return Err(
                                        ConfigError::MalformedFile { path: path.to_owned() },
                                    );
                                }
                            },
                            None => {},
                        }
                        Some(fc)
                    },
                }
            },
        };
        let f: FileConfig = match fc {
            Some(f) => f,
            None => FileConfig {
                api_url: None,
                gcs_bucket: None,
                user_email: None,
                db_port: None,
                db_host: None,
                db_name: None,
                db_user: None,
                db_password: None,
                cli_api_key: None,
            },
        };
        let base_port: u16 = match f.db_port {
            Some(p) => p as u16,
            None => default_db_port(),
        };
        let port: u16 = match env.db_port {
            Some(ref txt) => {
                let cs = chars_of(txt.as_str());
                match parse_u16(&cs) {
                    Some(p) => p,
                    None => base_port,
                }
            },
            None => base_port,
        };
        Ok(
            Config {
                api_url: pick_exec(env.api_url, f.api_url, default_api_url()),
                gcs_bucket: pick_exec(env.gcs_bucket, f.gcs_bucket, default_gcs_bucket()),
                user_email: pick_opt_exec(env.user_email, f.user_email),
                db_host: pick_exec(env.db_host, f.db_host, default_db_host()),
                db_port: port,
                db_name: pick_exec(None, f.db_name, default_db_name()),
                db_user: pick_exec(None, f.db_user, default_db_user()),
                db_password: pick_opt_exec(env.db_password, f.db_password),
                cli_api_key: f.cli_api_key,
            },
        )
    }

    /// The connection string of the database the configuration points at.
    /// The password falls back to the environment's, then to empty.
    pub fn db_connection_string(&self, env_password: Option<String>) -> (r: String)
        ensures
            r@ == spec_connection_string(self@, opt_view(env_password)),
    {
        let mut s = String::new();
        s.append("host=");
        s.append(self.db_host.as_str());
        s.append(" port=");
        let digits = fmt_u64(self.db_port as u64);
        let ds = string_from_chars(&digits);
        s.append(ds.as_str());
        s.append(" dbname=");
        s.append(self.db_name.as_str());
        s.append(" user=");
        s.append(self.db_user.as_str());
        s.append(" password=");
        match self.db_password {
            Some(ref p) => s.append(p.as_str()),
            None => match env_password {
                Some(ref p) => s.append(p.as_str()),
                None => {},
            },
        }
        proof {
            assert(s@ =~= spec_connection_string(self@, opt_view(env_password)));
        }
        s
    }

    /// Returns the configuration with exactly one recognized field replaced
    /// by the given value; an unrecognized key, or a port value that does not
    /// parse, is an error.
    pub fn set_field(&self, key: &str, value: &str) -> (r: Result<Config, ConfigError>)
        ensures
            match spec_set_field(self@, key@, value@) {
                Some(c2) => r matches Ok(c) && c@ == c2,
                None => r is Err,
            },
            !is_known_key(key@) ==> (r matches Err(ConfigError::UnknownKey { key: k }) && k@
                == key@),
            is_known_key(key@) && spec_set_field(self@, key@, value@) is None ==> (r matches Err(
                ConfigError::InvalidValue { key: k },
            ) && k@ == key@),
    {
        let mut c = self.clone_config();
        if crate::strutil::str_eq(key, "api_url") {
            c.api_url = value.to_owned();
        } else if crate::strutil::str_eq(key, "gcs_bucket") {
            c.gcs_bucket = value.to_owned();
        } else if crate::strutil::str_eq(key, "user_email") {
            c.user_email = Some(value.to_owned());
        } else if crate::strutil::str_eq(key, "db_host") {
            c.db_host = value.to_owned();
        } else if crate::strutil::str_eq(key, "db_port") {
            let cs = chars_of(value);
            match parse_u16(&cs) {
                Some(p) => {
                    c.db_port = p;
                },
                None => {
                    return Err(ConfigError::InvalidValue { key: key.to_owned() });
                },
            }
        } else if crate::strutil::str_eq(key, "db_name") {
            c.db_name = value.to_owned();
        } else if crate::strutil::str_eq(key, "db_user") {
            c.db_user = value.to_owned();
        } else {
            return Err(ConfigError::UnknownKey { key: key.to_owned() });
        }
        Ok(c)
    }

    /// A field-for-field copy.
    pub fn clone_config(&self) -> (r: Config)
        ensures
            r@ == self@,
    {
        Config {
            api_url: self.api_url.clone(),
            gcs_bucket: self.gcs_bucket.clone(),
            user_email: match self.user_email {
                Some(ref s) => Some(s.clone()),
                None => None,
            },
            db_host: self.db_host.clone(),
            db_port: self.db_port,
            db_name: self.db_name.clone(),
            db_user: self.db_user.clone(),
            db_password: match self.db_password {
                Some(ref s) => Some(s.clone()),
                None => None,
            },
            cli_api_key: match self.cli_api_key {
                Some(ref s) => Some(s.clone()),
                None => None,
            },
        }
    }
}

/// The recognized keys of the `set` operation.
pub open spec fn is_known_key(key: Seq<char>) -> bool {
    ||| key == "api_url"@
    ||| key == "gcs_bucket"@
    ||| key == "user_email"@
    ||| key == "db_host"@
    ||| key == "db_port"@
    ||| key == "db_name"@
    ||| key == "db_user"@
}

/// The configuration after one field is set, or nothing when the key is
/// unrecognized or the value does not fit the field.
pub open spec fn spec_set_field(c: ConfigV, key: Seq<char>, value: Seq<char>) -> Option<ConfigV> {
    if key == "api_url"@ {
        Some(ConfigV { api_url: value, ..c })
    } else if key == "gcs_bucket"@ {
        Some(ConfigV { gcs_bucket: value, ..c })
    } else if key == "user_email"@ {
        Some(ConfigV { user_email: Some(value), ..c })
    } else if key == "db_host"@ {
        Some(ConfigV { db_host: value, ..c })
    } else if key == "db_port"@ {
        match spec_parse_u16(value) {
            Some(p) => Some(ConfigV { db_port: p, ..c }),
            None => None,
        }
    } else if key == "db_name"@ {
        Some(ConfigV { db_name: value, ..c })
    } else if key == "db_user"@ {
        Some(ConfigV { db_user: value, ..c })
    } else {
        None
    }
}

/// Resolution precedence, field by field: for every field the environment's
/// value, when set, is the resolved value; otherwise the file's, when the
/// file sets one; otherwise the compiled-in default. A port override that
/// does not parse falls back to the file's port, or to the default.
pub proof fn lemma_resolution_precedence(f: FileConfigV, env: EnvOverridesV)
    requires
        file_port_ok(f),
    ensures
        spec_resolve(Some(f), env).api_url == pick(env.api_url, f.api_url, spec_default_api_url()),
        env.api_url matches Some(v) ==> spec_resolve(Some(f), env).api_url == v,
        env.api_url is None ==> match f.api_url {
            Some(v) => spec_resolve(Some(f), env).api_url == v,
            None => spec_resolve(Some(f), env).api_url == spec_default_api_url(),
        },
        env.gcs_bucket matches Some(v) ==> spec_resolve(Some(f), env).gcs_bucket == v,
        env.user_email matches Some(v) ==> spec_resolve(Some(f), env).user_email == Some(v),
        env.db_host matches Some(v) ==> spec_resolve(Some(f), env).db_host == v,
        env.db_password matches Some(v) ==> spec_resolve(Some(f), env).db_password == Some(v),
        spec_resolve(Some(f), env).db_name == pick(None, f.db_name, spec_default_db_name()),
        spec_resolve(Some(f), env).db_user == pick(None, f.db_user, spec_default_db_user()),
        spec_resolve(Some(f), env).cli_api_key == f.cli_api_key,
        (match env.db_port {
            Some(txt) => match spec_parse_u16(txt) {
                Some(p) => spec_resolve(Some(f), env).db_port == p,
                None => spec_resolve(Some(f), env).db_port == (match f.db_port {
                    Some(fp) => fp as u16,
                    None => 5433u16,
                }),
            },
            None => spec_resolve(Some(f), env).db_port == (match f.db_port {
                Some(fp) => fp as u16,
                None => 5433u16,
            }),
        }),
{
}

/// With no file and an empty environment, resolution yields exactly the
/// compiled-in defaults.
pub proof fn lemma_defaults_alone(env: EnvOverridesV)
    requires
        env.api_url is None,
        env.gcs_bucket is None,
        env.user_email is None,
        env.db_host is None,
        env.db_port is None,
        env.db_password is None,
    ensures
        spec_resolve(None, env) == spec_default_config(),
{
}

/// With no file and only the service URL set in the environment, resolution
/// yields that URL and every other field at its default.
pub proof fn lemma_env_url_alone(url: Seq<char>, env: EnvOverridesV)
    requires
        env.api_url == Some(url),
        env.gcs_bucket is None,
        env.user_email is None,
        env.db_host is None,
        env.db_port is None,
        env.db_password is None,
    ensures
        spec_resolve(None, env) == (ConfigV { api_url: url, ..spec_default_config() }),
{
}

/// The connection string of a configuration: each database field labeled, in
/// a fixed order; the password falls back to the environment's, then to
/// empty.
pub open spec fn spec_connection_string(c: ConfigV, env_password: Option<Seq<char>>) -> Seq<char> {
    let pw: Seq<char> = match c.db_password {
        Some(p) => p,
        None => match env_password {
            Some(p) => p,
            None => Seq::empty(),
        },
    };
    "host="@ + c.db_host + " port="@ + spec_dec(c.db_port as int) + " dbname="@ + c.db_name
        + " user="@ + c.db_user + " password="@ + pw
}

} // verus!
