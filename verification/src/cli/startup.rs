//! Decisions taken before any command runs.

use vstd::prelude::*;

use crate::cli::args::{CliValueSource, GlobalOptionSources, GlobalOptions, OutputFormat};
use crate::cli::config::{resolve, spec_pick, FileConfig, ResolvedConfig};
use crate::cli::error::{CliError, CliErrorView};

verus! {

/// Format for errors raised while starting up (before the config file is
/// read): the command-line format only when the user gave it explicitly,
/// human-readable otherwise.
pub fn startup_error_format(cli_format: OutputFormat, source: CliValueSource) -> (f: OutputFormat)
    ensures
        f == (if source == CliValueSource::CommandLine || source == CliValueSource::EnvVariable {
            cli_format
        } else {
            OutputFormat::Human
        }),
{
    if source.is_explicit() {
        cli_format
    } else {
        OutputFormat::Human
    }
}

/// What every command runs with: the options as given and the effective
/// settings.
#[derive(Debug, Clone)]
pub struct CommandContext {
    pub global: GlobalOptions,
    pub config: ResolvedConfig,
}

impl CommandContext {
    pub fn format(&self) -> (f: OutputFormat)
        ensures
            f == self.config.format,
    {
        self.config.format
    }

    pub fn data_dir(&self) -> (s: &str)
        ensures
            s@ == self.config.data_dir@,
    {
        self.config.data_dir.as_str()
    }

    pub fn no_restart(&self) -> (b: bool)
        ensures
            b == self.global.no_restart,
    {
        self.global.no_restart
    }
}

/// A failure before any command ran, with the format to report it in.
#[derive(Debug, Clone)]
pub struct StartupError {
    pub error: CliError,
    pub format: OutputFormat,
}

pub open spec fn config_error_message(detail: Seq<char>) -> Seq<char> {
    "config error: "@ + detail
}

fn copy_options(g: &GlobalOptions) -> (r: GlobalOptions)
    ensures
        r.port == g.port,
        r.format == g.format,
        r.timeout == g.timeout,
        r.no_restart == g.no_restart,
        r.verbose == g.verbose,
        r.quiet == g.quiet,
        r.user@ == g.user@,
        r.key_file@ == g.key_file@,
        r.data_dir@ == g.data_dir@,
{
    GlobalOptions {
        host: g.host.clone(),
        port: g.port,
        user: g.user.clone(),
        password: g.password.clone(),
        key_file: g.key_file.clone(),
        format: g.format,
        timeout: g.timeout,
        data_dir: g.data_dir.clone(),
        no_restart: g.no_restart,
        verbose: g.verbose,
        quiet: g.quiet,
    }
}

/// Set up the command context from the options and what reading the config
/// file gave: its values, or why it could not be read.
pub fn build_context(
    global: &GlobalOptions,
    sources: GlobalOptionSources,
    loaded: Result<FileConfig, String>,
) -> (r: Result<CommandContext, StartupError>)
    ensures
        match loaded {
            Err(detail) => r matches Err(e) && e.error@ == CliErrorView::IoError(
                config_error_message(detail@),
            ) && e.format == (if sources.format == CliValueSource::CommandLine || sources.format
                == CliValueSource::EnvVariable {
                global.format
            } else {
                OutputFormat::Human
            }),
            Ok(file) => r matches Ok(c) && c.config.format == spec_pick(
                global.format,
                sources.format,
                file.format,
                OutputFormat::Human,
            ) && c.config.port == spec_pick(
                global.port,
                sources.port,
                file.port,
                crate::cli::config::DEFAULT_PORT,
            ) && c.config.data_dir@ == spec_pick(
                global.data_dir@,
                sources.data_dir,
                crate::cli::config::opt_view(file.data_dir),
                crate::cli::config::DEFAULT_DATA_DIR@,
            ) && c.global.no_restart == global.no_restart,
        },
{
    let preferred = startup_error_format(global.format, sources.format);
    match loaded {
        Err(detail) => {
            let mut m = String::new();
            m.append("config error: ");
            m.append(detail.as_str());
            proof {
                assert(m@ =~= config_error_message(detail@));
            }
            Err(StartupError { error: CliError::IoError(m), format: preferred })
        },
        Ok(file) => {
            let config = resolve(global, &sources, &file);
            Ok(CommandContext { global: copy_options(global), config })
        },
    }
}

} // verus!
