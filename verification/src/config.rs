//! Configuration: where the selector and opencode keep their files, and the
//! user's settings.
use vstd::prelude::*;
use crate::text::{chars_of, string_of, concat, seq_contains};

verus! {

/// Optional color theme overrides in `config.toml`.
///
/// Colors may be given as `#RRGGBB` or `#RGB` hex strings. Any field that is
/// omitted uses the terminal-adaptive default.
#[derive(Debug, Clone)]
pub struct ThemeConfig {
    pub background: Option<String>,
    pub foreground: Option<String>,
    pub accent: Option<String>,
    pub accent_dim: Option<String>,
    pub border: Option<String>,
    pub highlight: Option<String>,
    pub highlight_dim: Option<String>,
    pub error: Option<String>,
    pub warning: Option<String>,
    pub success: Option<String>,
    pub muted: Option<String>,
}

impl Default for ThemeConfig {
    fn default() -> (r: ThemeConfig)
        ensures
            r.background is None && r.foreground is None && r.accent is None && r.accent_dim is None
                && r.border is None && r.highlight is None && r.highlight_dim is None
                && r.error is None && r.warning is None && r.success is None && r.muted is None,
    {
        ThemeConfig {
            background: None,
            foreground: None,
            accent: None,
            accent_dim: None,
            border: None,
            highlight: None,
            highlight_dim: None,
            error: None,
            warning: None,
            success: None,
            muted: None,
        }
    }
}

/// User-facing configuration loaded from `~/.config/opencode-selector/config.toml`.
#[derive(Debug, Clone)]
pub struct ConfigFile {
    /// Whether the folder system is enabled in the TUI.
    pub folders_enabled: bool,
    /// Optional color overrides. When unset the app falls back to the
    /// terminal's default 16-color palette.
    pub theme: Option<ThemeConfig>,
}

impl Default for ConfigFile {
    fn default() -> (r: ConfigFile)
        ensures
            !r.folders_enabled,
            r.theme is None,
    {
        ConfigFile { folders_enabled: false, theme: None }
    }
}

/// `rel` appended to `base` as a path component, as `Path::join` does on
/// Unix: an absolute `rel` replaces `base`, and a separator is put between
/// them unless `base` is empty or already ends in one.
pub open spec fn join_path(base: Seq<char>, rel: Seq<char>) -> Seq<char> {
    if rel.len() > 0 && rel[0] == '/' {
        rel
    } else if base.len() == 0 || base.last() == '/' {
        base + rel
    } else {
        base + seq!['/'] + rel
    }
}

/// Joins two path strings, as `Path::join` on Unix.
pub fn join_path_str(base: &str, rel: &str) -> (r: String)
    ensures
        r@ == join_path(base@, rel@),
{
    let b = chars_of(base);
    let rc = chars_of(rel);
    if rc.len() > 0 && rc[0] == '/' {
        return string_of(&rc);
    }
    if b.len() == 0 || b[b.len() - 1] == '/' {
        return concat(base, rel);
    }
    let with_sep = concat(base, "/");
    proof {
        assert(b@.last() == base@.last());
    }
    let r = concat(with_sep.as_str(), rel);
    proof {
        reveal_strlit("/");
    }
    r
}

/// The paths and settings a `Config` holds.
pub struct ConfigView {
    pub selector_config_dir: Seq<char>,
    pub selector_data_dir: Seq<char>,
    pub opencode_db_path: Seq<char>,
    pub opencode_config_dir: Seq<char>,
    pub folders_path: Seq<char>,
    pub config_file_path: Seq<char>,
    pub folders_enabled: bool,
}

/// Why the standard directories could not be determined.
#[derive(Debug, Clone, Copy, PartialEq, Eq)]
pub enum ConfigError {
    /// No home directory is known, so the selector's own directories are not.
    NoProjectDirs,
    /// No home directory is known.
    NoHomeDir,
}

impl ConfigError {
    /// The error's message.
    pub fn message(&self) -> (r: String)
        ensures
            r@ == match self {
                ConfigError::NoProjectDirs => "failed to determine opencode-selector project directories"@,
                ConfigError::NoHomeDir => "failed to determine user home directory"@,
            },
    {
        match self {
            ConfigError::NoProjectDirs => "failed to determine opencode-selector project directories".to_owned(),
            ConfigError::NoHomeDir => "failed to determine user home directory".to_owned(),
        }
    }
}

#[verifier::external_type_specification]
#[verifier::external_body]
/// `directories::UserDirs`, carried through opaquely.
pub struct ExUserDirs(directories::UserDirs);

/// An application name that every platform's directory scheme keeps as it
/// is: not empty, and made of ASCII small letters, digits and `-` only (so
/// there is nothing to lowercase, trim or replace).
pub open spec fn plain_app_name(s: Seq<char>) -> bool {
    s.len() > 0 && forall|i: int|
        0 <= i < s.len() ==> {
            let u = #[trigger] s[i] as u32;
            (0x61 <= u <= 0x7a) || (0x30 <= u <= 0x39) || u == 0x2d
        }
}

/// Calls `directories::ProjectDirs::from("", "", application)` and, when it
/// gives directories, their `config_dir` and `data_dir`, rendered as text
/// (lossily, as `Path::to_string_lossy` does).
///
/// Whether there are directories, and where they lie, depends on the
/// environment (`$HOME`, the XDG variables) and the platform, so neither is
/// stated. What the crate's source shows on every platform is stated: for a
/// plain application name, both paths hold the name (Linux puts it as the
/// last component after the XDG or home base, macOS as the bundle id,
/// Windows as the folder above `config` and `data`).
#[verifier::external_body]
fn project_dirs(application: &str) -> (r: Option<(String, String)>)
    ensures
        plain_app_name(application@) ==> (r matches Some(p) ==> seq_contains(p.0@, application@)
            && seq_contains(p.1@, application@)),
{
    match directories::ProjectDirs::from("", "", application) {
        Some(d) => Some((
            d.config_dir().to_string_lossy().into_owned(),
            d.data_dir().to_string_lossy().into_owned(),
        )),
        None => None,
    }
}

/// Calls `directories::UserDirs::new`, which depends on the environment;
/// nothing is stated of the result.
#[verifier::external_body]
fn user_dirs_new() -> Option<directories::UserDirs> {
    directories::UserDirs::new()
}

/// Calls `UserDirs::home_dir` and renders the path as text. Nothing is stated
/// of the result.
#[verifier::external_body]
fn user_home_dir(dirs: &directories::UserDirs) -> String {
    dirs.home_dir().to_string_lossy().into_owned()
}

/// Application configuration and path resolution.
#[derive(Debug, Clone)]
pub struct Config {
    selector_config_dir: String,
    selector_data_dir: String,
    opencode_db_path: String,
    opencode_config_dir: String,
    folders_path: String,
    config_file_path: String,
    config_file: ConfigFile,
}

impl View for Config {
    type V = ConfigView;

    closed spec fn view(&self) -> ConfigView {
        ConfigView {
            selector_config_dir: self.selector_config_dir@,
            selector_data_dir: self.selector_data_dir@,
            opencode_db_path: self.opencode_db_path@,
            opencode_config_dir: self.opencode_config_dir@,
            folders_path: self.folders_path@,
            config_file_path: self.config_file_path@,
            folders_enabled: self.config_file.folders_enabled,
        }
    }
}

/// The configuration that the selector's config and data directories and the
/// user's home directory determine, before the config file is read.
pub open spec fn config_from_dirs(config_dir: Seq<char>, data_dir: Seq<char>, home: Seq<char>) -> ConfigView {
    ConfigView {
        selector_config_dir: config_dir,
        selector_data_dir: data_dir,
        opencode_db_path: join_path(join_path(home, ".local/share/opencode"@), "opencode.db"@),
        opencode_config_dir: join_path(home, ".config/opencode"@),
        folders_path: join_path(config_dir, "folders.toml"@),
        config_file_path: join_path(config_dir, "config.toml"@),
        folders_enabled: false,
    }
}

proof fn lemma_selector_name_plain()
    ensures
        plain_app_name("opencode-selector"@),
{
    reveal_strlit("opencode-selector");
    let s = "opencode-selector"@;
    assert forall|i: int| 0 <= i < s.len() implies {
        let u = #[trigger] s[i] as u32;
        (0x61 <= u <= 0x7a) || (0x30 <= u <= 0x39) || u == 0x2d
    } by {
        assert(s == seq!['o', 'p', 'e', 'n', 'c', 'o', 'd', 'e', '-', 's', 'e', 'l', 'e', 'c', 't', 'o', 'r']);
    }
}

impl Config {
    /// The configuration for the given directories, with the default
    /// settings.
    pub fn from_dirs(config_dir: String, data_dir: String, home: String) -> (r: Config)
        ensures
            r@ == config_from_dirs(config_dir@, data_dir@, home@),
            r.theme_spec() is None,
    {
        let opencode_data_dir = join_path_str(home.as_str(), ".local/share/opencode");
        let opencode_config_dir = join_path_str(home.as_str(), ".config/opencode");
        let opencode_db_path = join_path_str(opencode_data_dir.as_str(), "opencode.db");
        let folders_path = join_path_str(config_dir.as_str(), "folders.toml");
        let config_file_path = join_path_str(config_dir.as_str(), "config.toml");
        Config {
            selector_config_dir: config_dir,
            selector_data_dir: data_dir,
            opencode_db_path,
            opencode_config_dir,
            folders_path,
            config_file_path,
            config_file: ConfigFile::default(),
        }
    }

    /// Build the default configuration using standard directories.
    ///
    /// The settings are the defaults; the caller reads the config file at
    /// `config_file_path` and installs it with `set_config_file`.
    pub fn new() -> (r: Result<Config, ConfigError>)
        ensures
            r matches Ok(c) ==> exists|cd: Seq<char>, dd: Seq<char>, h: Seq<char>|
                c@ == config_from_dirs(cd, dd, h),
            r matches Ok(c) ==> c.theme_spec() is None,
            r matches Ok(c) ==> seq_contains(c@.selector_config_dir, "opencode-selector"@)
                && seq_contains(c@.selector_data_dir, "opencode-selector"@),
    {
        proof {
            lemma_selector_name_plain();
        }
        let (config_dir, data_dir) = match project_dirs("opencode-selector") {
            Some(d) => d,
            None => return Err(ConfigError::NoProjectDirs),
        };
        let user = match user_dirs_new() {
            Some(u) => u,
            None => return Err(ConfigError::NoHomeDir),
        };
        let home = user_home_dir(&user);
        let c = Config::from_dirs(config_dir, data_dir, home);
        Ok(c)
    }

    /// Override the opencode database path.
    pub fn with_opencode_db_path(self, path: &str) -> (r: Config)
        ensures
            r@ == (ConfigView { opencode_db_path: path@, ..self@ }),
            r.theme_spec() == self.theme_spec(),
    {
        Config { opencode_db_path: path.to_owned(), ..self }
    }

    /// Override the folders sidecar path.
    pub fn with_folders_path(self, path: &str) -> (r: Config)
        ensures
            r@ == (ConfigView { folders_path: path@, ..self@ }),
            r.theme_spec() == self.theme_spec(),
    {
        Config { folders_path: path.to_owned(), ..self }
    }

    /// Override the config file path; `loaded` is what the caller read from
    /// that file.
    pub fn with_config_file_path(self, path: &str, loaded: ConfigFile) -> (r: Config)
        ensures
            r@ == (ConfigView {
                config_file_path: path@,
                folders_enabled: loaded.folders_enabled,
                ..self@
            }),
            r.theme_spec() == loaded.theme,
    {
        Config { config_file_path: path.to_owned(), config_file: loaded, ..self }
    }

    /// Install the settings read from the config file.
    pub fn set_config_file(&mut self, loaded: ConfigFile)
        ensures
            final(self)@ == (ConfigView { folders_enabled: loaded.folders_enabled, ..old(self)@ }),
            final(self).theme_spec() == loaded.theme,
    {
        self.config_file = loaded;
    }

    /// The settings, as they would be written back to the config file.
    pub fn config_file(&self) -> (r: &ConfigFile)
        ensures
            r.folders_enabled == self@.folders_enabled,
            r.theme == self.theme_spec(),
    {
        &self.config_file
    }

    /// The colour overrides.
    pub closed spec fn theme_spec(&self) -> Option<ThemeConfig> {
        self.config_file.theme
    }

    /// The selector's configuration directory.
    pub fn selector_config_dir(&self) -> (r: &str)
        ensures
            r@ == self@.selector_config_dir,
    {
        self.selector_config_dir.as_str()
    }

    /// The selector's data directory.
    pub fn selector_data_dir(&self) -> (r: &str)
        ensures
            r@ == self@.selector_data_dir,
    {
        self.selector_data_dir.as_str()
    }

    /// Where opencode's database is.
    pub fn opencode_db_path(&self) -> (r: &str)
        ensures
            r@ == self@.opencode_db_path,
    {
        self.opencode_db_path.as_str()
    }

    /// opencode's configuration directory.
    pub fn opencode_config_dir(&self) -> (r: &str)
        ensures
            r@ == self@.opencode_config_dir,
    {
        self.opencode_config_dir.as_str()
    }

    /// Where the folder store is.
    pub fn folders_path(&self) -> (r: &str)
        ensures
            r@ == self@.folders_path,
    {
        self.folders_path.as_str()
    }

    /// Where the config file is.
    pub fn config_file_path(&self) -> (r: &str)
        ensures
            r@ == self@.config_file_path,
    {
        self.config_file_path.as_str()
    }

    /// Whether the folder panel is on.
    pub fn folders_enabled(&self) -> (r: bool)
        ensures
            r == self@.folders_enabled,
    {
        self.config_file.folders_enabled
    }

    /// The user's colour overrides, if any.
    pub fn theme(&self) -> (r: Option<&ThemeConfig>)
        ensures
            r matches Some(t) ==> self.theme_spec() == Some(*t),
            r is None ==> self.theme_spec() is None,
    {
        self.config_file.theme.as_ref()
    }

    /// Enable or disable folders in memory.
    pub fn set_folders_enabled(&mut self, enabled: bool)
        ensures
            final(self)@ == (ConfigView { folders_enabled: enabled, ..old(self)@ }),
            final(self).theme_spec() == old(self).theme_spec(),
    {
        self.config_file.folders_enabled = enabled;
    }
}

} // verus!
