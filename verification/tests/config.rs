use remarkable::cli::args::{CliValueSource, GlobalOptionSources, GlobalOptions, OutputFormat};
use remarkable::cli::config::{
    resolve, FileConfig, DEFAULT_DATA_DIR, DEFAULT_KEY_FILE, DEFAULT_PORT, DEFAULT_TIMEOUT_SECS,
    DEFAULT_USER,
};
use remarkable::cli::error::CliError;
use remarkable::cli::startup::{build_context, startup_error_format};

fn base_cli() -> GlobalOptions {
    GlobalOptions {
        host: None,
        port: DEFAULT_PORT,
        user: DEFAULT_USER.to_string(),
        password: None,
        key_file: DEFAULT_KEY_FILE.to_string(),
        format: OutputFormat::Human,
        timeout: DEFAULT_TIMEOUT_SECS,
        data_dir: DEFAULT_DATA_DIR.to_string(),
        no_restart: false,
        verbose: false,
        quiet: false,
    }
}

fn default_sources() -> GlobalOptionSources {
    GlobalOptionSources {
        host: CliValueSource::Unset,
        ..GlobalOptionSources::default()
    }
}

#[test]
fn cli_host_beats_file_host() {
    let mut cli = base_cli();
    cli.host = Some("from-cli".into());
    let file = FileConfig {
        host: Some("from-file".into()),
        ..Default::default()
    };
    let r = resolve(
        &cli,
        &GlobalOptionSources {
            host: CliValueSource::CommandLine,
            ..default_sources()
        },
        &file,
    );
    assert_eq!(r.host.as_deref(), Some("from-cli"));
}

#[test]
fn file_host_used_when_cli_missing() {
    let cli = base_cli();
    let file = FileConfig {
        host: Some("from-file".into()),
        ..Default::default()
    };
    let r = resolve(&cli, &default_sources(), &file);
    assert_eq!(r.host.as_deref(), Some("from-file"));
}

#[test]
fn password_from_cli_wins() {
    let mut cli = base_cli();
    cli.password = Some("cli-pw".into());
    let file = FileConfig {
        password: Some("file-pw".into()),
        ..Default::default()
    };
    let r = resolve(
        &cli,
        &GlobalOptionSources {
            password: CliValueSource::CommandLine,
            ..default_sources()
        },
        &file,
    );
    assert_eq!(r.password.as_deref(), Some("cli-pw"));
}

#[test]
fn password_from_file_when_cli_missing() {
    let cli = base_cli();
    let file = FileConfig {
        password: Some("file-pw".into()),
        ..Default::default()
    };
    let r = resolve(&cli, &default_sources(), &file);
    assert_eq!(r.password.as_deref(), Some("file-pw"));
}

#[test]
fn default_data_dir_when_nothing_set() {
    let cli = base_cli();
    let file = FileConfig::default();
    let r = resolve(&cli, &default_sources(), &file);
    assert_eq!(r.data_dir, DEFAULT_DATA_DIR);
}

#[test]
fn file_data_dir_overrides_default() {
    let cli = base_cli();
    let file = FileConfig {
        data_dir: Some("/custom/path".into()),
        ..Default::default()
    };
    let r = resolve(&cli, &default_sources(), &file);
    assert_eq!(r.data_dir, "/custom/path");
}

#[test]
fn cli_port_overrides_file() {
    let mut cli = base_cli();
    cli.port = 2222;
    let file = FileConfig {
        port: Some(3333),
        ..Default::default()
    };
    let r = resolve(
        &cli,
        &GlobalOptionSources {
            port: CliValueSource::CommandLine,
            ..default_sources()
        },
        &file,
    );
    assert_eq!(r.port, 2222);
}

#[test]
fn explicit_default_port_beats_file_value() {
    let cli = base_cli();
    let file = FileConfig {
        port: Some(3333),
        ..Default::default()
    };
    let r = resolve(
        &cli,
        &GlobalOptionSources {
            port: CliValueSource::CommandLine,
            ..default_sources()
        },
        &file,
    );
    assert_eq!(r.port, DEFAULT_PORT);
}

#[test]
fn explicit_default_format_beats_file_value() {
    let cli = base_cli();
    let file = FileConfig {
        format: Some(OutputFormat::Json),
        ..Default::default()
    };
    let r = resolve(
        &cli,
        &GlobalOptionSources {
            format: CliValueSource::CommandLine,
            ..default_sources()
        },
        &file,
    );
    assert_eq!(r.format, OutputFormat::Human);
}

#[test]
fn env_value_counts_as_explicit() {
    let mut cli = base_cli();
    cli.user = "from-env".into();
    let file = FileConfig {
        user: Some("from-file".into()),
        timeout: Some(30),
        ..Default::default()
    };
    let r = resolve(
        &cli,
        &GlobalOptionSources {
            user: CliValueSource::EnvVariable,
            ..default_sources()
        },
        &file,
    );
    assert_eq!(r.user, "from-env");
    assert_eq!(r.timeout_secs, 30);
    assert_eq!(r.key_file, DEFAULT_KEY_FILE);
}

#[test]
fn file_format_applies_when_cli_format_is_default() {
    let cli = base_cli();
    let file = FileConfig {
        format: Some(OutputFormat::Json),
        ..Default::default()
    };
    let r = resolve(&cli, &default_sources(), &file);
    assert_eq!(r.format, OutputFormat::Json);
}

#[test]
fn startup_errors_use_explicit_format_only() {
    assert_eq!(
        startup_error_format(OutputFormat::Json, CliValueSource::CommandLine),
        OutputFormat::Json
    );
    assert_eq!(
        startup_error_format(OutputFormat::Json, CliValueSource::DefaultValue),
        OutputFormat::Human
    );
    assert!(CliValueSource::EnvVariable.is_explicit());
    assert!(!CliValueSource::Unset.is_explicit());
}

#[test]
fn config_parse_failure_is_surfaced() {
    let loaded = Err("parse config.toml: invalid table".to_string());
    let err = build_context(&base_cli(), default_sources(), loaded).unwrap_err();
    assert!(matches!(err.error, CliError::IoError(_)));
    assert!(err.error.detail().contains("config error"));
    assert_eq!(err.format, OutputFormat::Human);
}

#[test]
fn config_format_is_applied_to_context() {
    let file = FileConfig {
        format: Some(OutputFormat::Json),
        ..Default::default()
    };
    let ctx = build_context(&base_cli(), default_sources(), Ok(file)).unwrap();
    assert_eq!(ctx.format(), OutputFormat::Json);
    assert_eq!(ctx.data_dir(), DEFAULT_DATA_DIR);
    assert!(!ctx.no_restart());
}
