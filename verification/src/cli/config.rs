//! Option precedence: command line or environment, then the config file,
//! then the built-in default.

use vstd::prelude::*;

use crate::cli::args::{CliValueSource, GlobalOptionSources, GlobalOptions, OutputFormat};

verus! {

pub const DEFAULT_PORT: u16 = 22;

pub const DEFAULT_USER: &'static str = "root";

pub const DEFAULT_KEY_FILE: &'static str = "~/.ssh/id_rsa";

pub const DEFAULT_DATA_DIR: &'static str = "/home/root/.local/share/remarkable/xochitl";

pub const DEFAULT_TIMEOUT_SECS: u64 = 5;

/// Values read from the config file; every field may be absent.
#[derive(Debug)]
pub struct FileConfig {
    pub host: Option<String>,
    pub port: Option<u16>,
    pub user: Option<String>,
    pub password: Option<String>,
    pub key_file: Option<String>,
    pub format: Option<OutputFormat>,
    pub data_dir: Option<String>,
    pub timeout: Option<u64>,
}

impl Default for FileConfig {
    fn default() -> (c: Self)
        ensures
            c.host is None && c.port is None && c.user is None && c.password is None
                && c.key_file is None && c.format is None && c.data_dir is None && c.timeout is None,
    {
        FileConfig {
            host: None,
            port: None,
            user: None,
            password: None,
            key_file: None,
            format: None,
            data_dir: None,
            timeout: None,
        }
    }
}

/// The effective settings. `timeout_secs` is the connection timeout in
/// whole seconds.
#[derive(Debug, Clone)]
pub struct ResolvedConfig {
    pub host: Option<String>,
    pub port: u16,
    pub user: String,
    pub password: Option<String>,
    pub key_file: String,
    pub format: OutputFormat,
    pub data_dir: String,
    pub timeout_secs: u64,
    pub verbose: bool,
    pub quiet: bool,
}

/// Precedence for one value: an explicit command-line or environment value
/// wins, then the config file, then the default.
pub open spec fn spec_pick<T>(cli_value: T, source: CliValueSource, file_value: Option<T>, default_value: T) -> T {
    if source == CliValueSource::CommandLine || source == CliValueSource::EnvVariable {
        cli_value
    } else {
        match file_value {
            Some(v) => v,
            None => default_value,
        }
    }
}

/// Precedence for an optional value with no default: explicit command-line
/// or environment value (possibly absent), else the config file's.
pub open spec fn spec_pick_opt<T>(cli_value: Option<T>, source: CliValueSource, file_value: Option<T>) -> Option<T> {
    if source == CliValueSource::CommandLine || source == CliValueSource::EnvVariable {
        cli_value
    } else {
        file_value
    }
}

pub open spec fn opt_view(o: Option<String>) -> Option<Seq<char>> {
    match o {
        Some(s) => Some(s@),
        None => None,
    }
}

fn clone_opt_string(o: &Option<String>) -> (r: Option<String>)
    ensures
        opt_view(r) == opt_view(*o),
{
    match o {
        Some(s) => Some(s.clone()),
        None => None,
    }
}

fn resolve_value<T: Clone>(
    cli_value: T,
    source: CliValueSource,
    file_value: Option<T>,
    default_value: T,
) -> (r: T)
    ensures
        r == spec_pick(cli_value, source, file_value, default_value),
{
    if source.is_explicit() {
        cli_value
    } else {
        match file_value {
            Some(v) => v,
            None => default_value,
        }
    }
}

/// Merge command-line options, their sources and the config file into the
/// effective settings.
pub fn resolve(cli: &GlobalOptions, sources: &GlobalOptionSources, file: &FileConfig) -> (r:
    ResolvedConfig)
    ensures
        opt_view(r.host) == spec_pick_opt(opt_view(cli.host), sources.host, opt_view(file.host)),
        r.port == spec_pick(cli.port, sources.port, file.port, DEFAULT_PORT),
        r.user@ == spec_pick(cli.user@, sources.user, opt_view(file.user), DEFAULT_USER@),
        opt_view(r.password) == spec_pick_opt(
            opt_view(cli.password),
            sources.password,
            opt_view(file.password),
        ),
        r.key_file@ == spec_pick(
            cli.key_file@,
            sources.key_file,
            opt_view(file.key_file),
            DEFAULT_KEY_FILE@,
        ),
        r.format == spec_pick(cli.format, sources.format, file.format, OutputFormat::Human),
        r.data_dir@ == spec_pick(
            cli.data_dir@,
            sources.data_dir,
            opt_view(file.data_dir),
            DEFAULT_DATA_DIR@,
        ),
        r.timeout_secs == spec_pick(cli.timeout, sources.timeout, file.timeout, DEFAULT_TIMEOUT_SECS),
        r.verbose == cli.verbose,
        r.quiet == cli.quiet,
{
    let host = if sources.host.is_explicit() {
        clone_opt_string(&cli.host)
    } else {
        clone_opt_string(&file.host)
    };
    let port = resolve_value(cli.port, sources.port, file.port, DEFAULT_PORT);
    let user = if sources.user.is_explicit() {
        cli.user.clone()
    } else {
        match &file.user {
            Some(u) => u.clone(),
            None => String::from_str(DEFAULT_USER),
        }
    };
    let password = if sources.password.is_explicit() {
        clone_opt_string(&cli.password)
    } else {
        clone_opt_string(&file.password)
    };
    let key_file = if sources.key_file.is_explicit() {
        cli.key_file.clone()
    } else {
        match &file.key_file {
            Some(k) => k.clone(),
            None => String::from_str(DEFAULT_KEY_FILE),
        }
    };
    let format = resolve_value(cli.format, sources.format, file.format, OutputFormat::Human);
    let data_dir = if sources.data_dir.is_explicit() {
        cli.data_dir.clone()
    } else {
        match &file.data_dir {
            Some(d) => d.clone(),
            None => String::from_str(DEFAULT_DATA_DIR),
        }
    };
    let timeout_secs = resolve_value(cli.timeout, sources.timeout, file.timeout, DEFAULT_TIMEOUT_SECS);
    ResolvedConfig {
        host,
        port,
        user,
        password,
        key_file,
        format,
        data_dir,
        timeout_secs,
        verbose: cli.verbose,
        quiet: cli.quiet,
    }
}

} // verus!
