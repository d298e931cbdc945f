//! Arguments of the command-line interface, as plain data.

use vstd::prelude::*;

use crate::metadata::sort::SortField;
use crate::metadata::page_range::PageSelection;
use crate::metadata::tree::EntryKindFilter;

verus! {

/// How output is rendered: human-readable text or JSON.
#[derive(Debug, Clone, Copy, PartialEq, Eq, Structural)]
pub enum OutputFormat {
    Human,
    Json,
}

pub struct Cli {
    pub global: GlobalOptions,
    pub command: Command,
}

#[derive(Debug, Clone)]
pub struct GlobalOptions {
    /// Tablet IP/hostname; auto-discovered when absent.
    pub host: Option<String>,
    pub port: u16,
    pub user: String,
    pub password: Option<String>,
    /// SSH private key path.
    pub key_file: String,
    pub format: OutputFormat,
    /// SSH connection timeout in seconds.
    pub timeout: u64,
    /// Remote xochitl data directory path.
    pub data_dir: String,
    pub no_restart: bool,
    pub verbose: bool,
    pub quiet: bool,
}

/// Where a global option's value came from.
#[derive(Debug, Clone, Copy, PartialEq, Eq, Structural, Default)]
pub enum CliValueSource {
    CommandLine,
    EnvVariable,
    #[default]
    DefaultValue,
    Unset,
}

impl CliValueSource {
    /// The user gave the value, on the command line or in the environment.
    pub fn is_explicit(self) -> (b: bool)
        ensures
            b == (self == CliValueSource::CommandLine || self == CliValueSource::EnvVariable),
    {
        match self {
            CliValueSource::CommandLine | CliValueSource::EnvVariable => true,
            _ => false,
        }
    }
}

#[derive(Debug, Clone, Copy, Default)]
pub struct GlobalOptionSources {
    pub host: CliValueSource,
    pub port: CliValueSource,
    pub user: CliValueSource,
    pub password: CliValueSource,
    pub key_file: CliValueSource,
    pub format: CliValueSource,
    pub timeout: CliValueSource,
    pub data_dir: CliValueSource,
}

pub enum Command {
    /// Test connectivity and print device info
    Connect,
    /// List folder contents
    Ls(LsArgs),
    /// Show full metadata for a document or folder
    Info(InfoArgs),
    /// Search documents by name pattern
    Find(FindArgs),
    /// Backup tablet data to local directory
    Backup(BackupArgs),
    /// Download a document from the tablet
    Download(DownloadArgs),
    /// Upload PDF or ePub files to tablet
    Upload(UploadArgs),
    /// Move document/folder to a different parent
    Mv(MvArgs),
    /// Create folder(s) on the tablet
    Mkdir(MkdirArgs),
    /// Rename a document or folder
    Rename(RenameArgs),
    /// Delete documents/folders (soft delete by default)
    Rm(RmArgs),
    /// Render notebook pages to PNG
    Render(RenderArgs),
}

pub struct LsArgs {
    pub path_or_uuid: Option<String>,
    pub recursive: bool,
    pub depth: Option<u32>,
    pub include_trashed: bool,
    pub sort: Option<SortField>,
    pub tree: bool,
    pub kind: EntryKindFilter,
}

pub struct InfoArgs {
    pub path_or_uuid: String,
}

pub struct FindArgs {
    pub pattern: String,
    pub item_type: Option<FindTypeFilter>,
    pub case_sensitive: bool,
}

pub struct BackupArgs {
    pub local_dir: String,
    pub incremental: bool,
    pub dry_run: bool,
}

pub struct DownloadArgs {
    pub path_or_uuid: String,
    pub output: Option<String>,
    pub pages: Option<PageSelection>,
}

pub struct UploadArgs {
    pub files: Vec<String>,
    pub parent: Option<String>,
    pub name: Option<String>,
    pub dry_run: bool,
}

pub struct MvArgs {
    pub source: String,
    pub dest_folder: String,
}

pub struct MkdirArgs {
    pub path: String,
    pub parents: bool,
}

pub struct RenameArgs {
    pub path_or_uuid: String,
    pub new_name: String,
}

pub struct RmArgs {
    pub paths: Vec<String>,
    pub permanent: bool,
    pub recursive: bool,
}

pub struct RenderArgs {
    pub path_or_uuid: String,
    /// Output directory (default: the notebook's name).
    pub output: Option<String>,
    pub pages: Option<PageSelection>,
    /// Image width in pixels.
    pub width: u32,
    pub dpi: u32,
    /// Read from a local backup tree instead of the tablet.
    pub from_backup: Option<String>,
}

#[derive(Debug, Clone, Copy, PartialEq, Eq, Structural)]
pub enum FindTypeFilter {
    Document,
    Folder,
    All,
}

} // verus!
