//! Vault-level data types the command layer exchanges, and the default
//! values of the configurable settings.

use vstd::prelude::*;

verus! {

/// Information about an opened vault directory.
#[derive(Debug, Clone)]
pub struct VaultInfo {
    pub path: String,
    pub name: String,
    pub note_count: usize,
    pub has_git: bool,
    pub has_config: bool,
}

/// A file or directory entry of a vault listing.
#[derive(Debug)]
pub struct FileEntry {
    pub name: String,
    pub path: String,
    pub is_directory: bool,
    pub modified: u64,
    pub size: u64,
    pub children: Option<Vec<FileEntry>>,
}

/// Content of a note with its modification time.
#[derive(Debug, Clone)]
pub struct NoteContent {
    pub path: String,
    pub content: String,
    pub modified: u64,
}

/// A change the watcher collaborator reports.
#[derive(Debug, Clone)]
pub struct FileChangeEvent {
    pub path: String,
    pub kind: FileChangeKind,
}

/// The kind of a reported file change.
#[derive(Debug, Clone, Copy, PartialEq, Eq, Structural)]
pub enum FileChangeKind {
    Create,
    Modify,
    Delete,
    Rename,
}

/// Interpreter paths for code execution.
#[derive(Debug, Clone)]
pub struct InterpreterSettings {
    pub shell: Option<String>,
    pub python: Option<String>,
    pub ruby: Option<String>,
    pub node: Option<String>,
}

impl Default for InterpreterSettings {
    /// No interpreter overridden.
    fn default() -> (r: Self)
        ensures
            r.shell is None,
            r.python is None,
            r.ruby is None,
            r.node is None,
    {
        InterpreterSettings { shell: None, python: None, ruby: None, node: None }
    }
}

/// File tree display settings.
#[derive(Debug, Clone)]
pub struct FileTreeSettings {
    pub default_expanded: String,
}

impl Default for FileTreeSettings {
    fn default() -> (r: Self)
        ensures
            r.default_expanded@ == "remember"@,
    {
        FileTreeSettings { default_expanded: default_tree_expanded() }
    }
}

/// Local, unversioned state of a vault.
#[derive(Debug, Clone)]
pub struct LocalState {
    pub expanded_paths: Vec<String>,
    pub last_opened: Option<String>,
}

impl Default for LocalState {
    fn default() -> (r: Self)
        ensures
            r.expanded_paths@.len() == 0,
            r.last_opened is None,
    {
        LocalState { expanded_paths: Vec::new(), last_opened: None }
    }
}

/// Identity of a vault.
#[derive(Debug, Clone)]
pub struct VaultSettings {
    pub name: String,
    pub created: String,
}

/// Version-control settings of a vault.
#[derive(Debug, Clone)]
pub struct GitSettings {
    pub enabled: bool,
    pub auto_commit: bool,
    pub auto_sync_interval: u32,
    pub remote: String,
    pub branch: String,
}

impl Default for GitSettings {
    fn default() -> (r: Self)
        ensures
            !r.enabled,
            !r.auto_commit,
            r.auto_sync_interval == 0,
            r.remote@ == "origin"@,
            r.branch@ == "main"@,
    {
        GitSettings {
            enabled: false,
            auto_commit: false,
            auto_sync_interval: 0,
            remote: default_remote(),
            branch: default_branch(),
        }
    }
}

/// Formatting settings of a vault.
#[derive(Debug, Clone)]
pub struct FormattingSettings {
    pub auto_format_on_paste: String,
    pub default_indent: u32,
}

impl Default for FormattingSettings {
    fn default() -> (r: Self)
        ensures
            r.auto_format_on_paste@ == "ask"@,
            r.default_indent == 2,
    {
        FormattingSettings { auto_format_on_paste: default_auto_format(), default_indent: default_indent() }
    }
}

/// How the vault encrypts, as configured.
#[derive(Debug, Clone, Copy, PartialEq, Eq, Structural)]
pub enum EncryptionMethodConfig {
    Password,
    IdentityFile,
    Recipients,
}

impl Default for EncryptionMethodConfig {
    fn default() -> (r: Self)
        ensures
            r == EncryptionMethodConfig::Password,
    {
        EncryptionMethodConfig::Password
    }
}

/// A recipient for multi-recipient encryption.
#[derive(Debug, Clone)]
pub struct Recipient {
    pub id: String,
    pub name: String,
    pub public_key: String,
    pub identity_file: Option<String>,
    pub added_at: Option<String>,
}

/// Encryption settings of a vault.
#[derive(Debug, Clone)]
pub struct EncryptionSettings {
    pub enabled: bool,
    pub method: EncryptionMethodConfig,
    pub identity_file: Option<String>,
    pub recipients: Vec<Recipient>,
}

impl Default for EncryptionSettings {
    fn default() -> (r: Self)
        ensures
            !r.enabled,
            r.method == EncryptionMethodConfig::Password,
            r.identity_file is None,
            r.recipients@.len() == 0,
    {
        EncryptionSettings {
            enabled: false,
            method: EncryptionMethodConfig::Password,
            identity_file: None,
            recipients: Vec::new(),
        }
    }
}

/// Default file tree expansion mode.
pub fn default_tree_expanded() -> (r: String)
    ensures
        r@ == "remember"@,
{
    String::from_str("remember")
}

/// Default editor font family.
pub fn default_font_family() -> (r: String)
    ensures
        r@ == "JetBrains Mono"@,
{
    String::from_str("JetBrains Mono")
}

/// Default editor font size.
pub fn default_font_size() -> (r: u32)
    ensures
        r == 14,
{
    14
}

/// Default for boolean settings that start enabled.
pub fn default_true() -> (r: bool)
    ensures
        r,
{
    true
}

/// Default git remote name.
pub fn default_remote() -> (r: String)
    ensures
        r@ == "origin"@,
{
    String::from_str("origin")
}

/// Default git branch name.
pub fn default_branch() -> (r: String)
    ensures
        r@ == "main"@,
{
    String::from_str("main")
}

/// Default paste formatting mode.
pub fn default_auto_format() -> (r: String)
    ensures
        r@ == "ask"@,
{
    String::from_str("ask")
}

/// Default indentation width.
pub fn default_indent() -> (r: u32)
    ensures
        r == 2,
{
    2
}

/// Default kanban card density.
pub fn default_card_density() -> (r: String)
    ensures
        r@ == "standard"@,
{
    String::from_str("standard")
}

} // verus!
