//! Configuration of the runtime: where it is looked for, how the sections of the file are
//! laid over the defaults, and how the working directory follows from it.

use vstd::prelude::*;
use vstd::string::*;

use crate::path;
use crate::path::{join_path, PathStyle};
use crate::text;
use crate::text::copy_text;

verus! {

broadcast use vstd::string::group_string_axioms;

/// The configuration that the runtime works with.
#[derive(Debug, Clone, PartialEq)]
pub struct Config {
    /// Address of the GitHub repository to sync.
    pub repo_url: String,
    /// Branch to sync.
    pub branch: String,
    /// Version of the Node.js runtime to provide.
    pub node_version: String,
    /// Working directory; a relative one is taken from the directory of the executable.
    pub workspace_root: String,
    /// Name of the build script.
    pub build_script: String,
    /// Further arguments of the install command.
    pub install_args: Vec<String>,
    /// Address under which the Node.js distributions are found.
    pub node_mirror: String,
    /// Version of pnpm to provide; none leaves the choice to corepack.
    pub pnpm_version: Option<String>,
    /// Port of the host; 0 lets the system choose.
    pub host_port: u16,
    /// How many seconds the host may take to become ready.
    pub read_timeout: u64,
}

/// A configuration as plain texts.
pub ghost struct ConfigView {
    pub repo_url: Seq<char>,
    pub branch: Seq<char>,
    pub node_version: Seq<char>,
    pub workspace_root: Seq<char>,
    pub build_script: Seq<char>,
    pub install_args: Seq<Seq<char>>,
    pub node_mirror: Seq<char>,
    pub pnpm_version: Option<Seq<char>>,
    pub host_port: u16,
    pub read_timeout: u64,
}

impl View for Config {
    type V = ConfigView;

    open spec fn view(&self) -> ConfigView {
        ConfigView {
            repo_url: self.repo_url@,
            branch: self.branch@,
            node_version: self.node_version@,
            workspace_root: self.workspace_root@,
            build_script: self.build_script@,
            install_args: text::texts(self.install_args@),
            node_mirror: self.node_mirror@,
            pnpm_version: text::opt_text(self.pnpm_version),
            host_port: self.host_port,
            read_timeout: self.read_timeout,
        }
    }
}

/// The configuration that holds where nothing is configured.
pub open spec fn default_config() -> ConfigView {
    ConfigView {
        repo_url: "https://github.com/deepseek-ai/deepseek-harness.git"@,
        branch: "master"@,
        node_version: "24.19.0"@,
        workspace_root: ".runtime"@,
        build_script: "build"@,
        install_args: Seq::empty(),
        node_mirror: "https://nodejs.org/dist"@,
        pnpm_version: None,
        host_port: 0,
        read_timeout: 180,
    }
}

impl Default for Config {
    fn default() -> (r: Self)
        ensures
            r@ == default_config(),
    {
        let r = Config {
            repo_url: copy_text("https://github.com/deepseek-ai/deepseek-harness.git"),
            branch: copy_text("master"),
            node_version: copy_text("24.19.0"),
            workspace_root: copy_text(".runtime"),
            build_script: copy_text("build"),
            install_args: Vec::new(),
            node_mirror: copy_text("https://nodejs.org/dist"),
            pnpm_version: None,
            host_port: 0,
            read_timeout: 180,
        };
        assert(text::texts(r.install_args@) =~= Seq::<Seq<char>>::empty());
        r
    }
}

/// The section `[app]` of the file.
#[derive(Debug, Clone, PartialEq)]
pub struct RawApp {
    pub repo_url: Option<String>,
    pub branch: Option<String>,
}

/// The section `[repo]` of the file, which says the same as `[app]` in shorter keys.
#[derive(Debug, Clone, PartialEq)]
pub struct RawRepo {
    pub url: Option<String>,
    pub branch: Option<String>,
}

/// The section `[node]` of the file.
#[derive(Debug, Clone, PartialEq)]
pub struct RawNode {
    pub version: Option<String>,
    pub mirror: Option<String>,
    pub pnpm_version: Option<String>,
}

/// The section `[workspace]` of the file.
#[derive(Debug, Clone, PartialEq)]
pub struct RawWorkspace {
    pub root: Option<String>,
}

/// The section `[build]` of the file.
#[derive(Debug, Clone, PartialEq)]
pub struct RawBuild {
    pub script: Option<String>,
    pub install_args: Option<Vec<String>>,
}

/// The section `[host]` of the file.
#[derive(Debug, Clone, PartialEq)]
pub struct RawHost {
    pub port: Option<u16>,
    pub read_timeout: Option<u64>,
}

/// The configuration file, section by section, with only the keys that it holds.
#[derive(Debug, Clone, PartialEq)]
pub struct RawConfig {
    pub app: RawApp,
    pub repo: RawRepo,
    pub node: RawNode,
    pub workspace: RawWorkspace,
    pub build: RawBuild,
    pub host: RawHost,
}

/// The text of a key, or `otherwise` where the file does not hold the key.
pub open spec fn key_or(key: Option<String>, otherwise: Seq<char>) -> Seq<char> {
    match key {
        Some(v) => v@,
        None => otherwise,
    }
}

fn take_key(key: Option<String>, otherwise: String) -> (r: String)
    ensures
        r@ == key_or(key, otherwise@),
{
    match key {
        Some(v) => v,
        None => otherwise,
    }
}

impl RawConfig {
    /// The file laid over the defaults: every key that is there counts, every other keeps
    /// its default. A key of `[app]` goes before its namesake of `[repo]`.
    pub open spec fn flattened(self) -> ConfigView {
        let d = default_config();
        ConfigView {
            repo_url: key_or(self.app.repo_url, key_or(self.repo.url, d.repo_url)),
            branch: key_or(self.app.branch, key_or(self.repo.branch, d.branch)),
            node_version: key_or(self.node.version, d.node_version),
            workspace_root: key_or(self.workspace.root, d.workspace_root),
            build_script: key_or(self.build.script, d.build_script),
            install_args: match self.build.install_args {
                Some(v) => text::texts(v@),
                None => d.install_args,
            },
            node_mirror: key_or(self.node.mirror, d.node_mirror),
            pnpm_version: match self.node.pnpm_version {
                Some(v) => Some(v@),
                None => d.pnpm_version,
            },
            host_port: match self.host.port {
                Some(v) => v,
                None => d.host_port,
            },
            read_timeout: match self.host.read_timeout {
                Some(v) => v,
                None => d.read_timeout,
            },
        }
    }

    /// Lays the file over the defaults.
    pub fn into_config(self) -> (r: Config)
        ensures
            r@ == self.flattened(),
    {
        let d = Config::default();
        Config {
            repo_url: take_key(self.app.repo_url, take_key(self.repo.url, d.repo_url)),
            branch: take_key(self.app.branch, take_key(self.repo.branch, d.branch)),
            node_version: take_key(self.node.version, d.node_version),
            workspace_root: take_key(self.workspace.root, d.workspace_root),
            build_script: take_key(self.build.script, d.build_script),
            install_args: match self.build.install_args {
                Some(v) => v,
                None => d.install_args,
            },
            node_mirror: take_key(self.node.mirror, d.node_mirror),
            pnpm_version: match self.node.pnpm_version {
                Some(v) => Some(v),
                None => d.pnpm_version,
            },
            host_port: match self.host.port {
                Some(v) => v,
                None => d.host_port,
            },
            read_timeout: match self.host.read_timeout {
                Some(v) => v,
                None => d.read_timeout,
            },
        }
    }
}

/// The file that the configuration is read from.
#[derive(Clone, Copy, PartialEq, Eq, Structural, Debug)]
pub enum ConfigSource {
    /// The file that the caller named.
    Named,
    /// `config.toml` beside the executable.
    BesideExecutable,
    /// `config.toml` in the current directory.
    CurrentDirectory,
    /// No file: the defaults hold.
    Defaults,
}

/// Which file counts: the one that the caller named, if it exists, and no other; without
/// such a name, the one beside the executable before the one in the current directory.
pub open spec fn source_of(
    named: Option<bool>,
    beside_executable: bool,
    in_current_directory: bool,
) -> ConfigSource {
    match named {
        Some(exists) => if exists {
            ConfigSource::Named
        } else {
            ConfigSource::Defaults
        },
        None => if beside_executable {
            ConfigSource::BesideExecutable
        } else if in_current_directory {
            ConfigSource::CurrentDirectory
        } else {
            ConfigSource::Defaults
        },
    }
}

/// What came of reading the file that counts.
#[derive(Debug, PartialEq)]
pub enum ConfigRead {
    /// There is no file.
    Absent,
    /// The file could not be read.
    Unreadable { path: String, error: String },
    /// The file is not valid TOML, or a key has the wrong type.
    Malformed { path: String, error: String },
    /// The file was parsed.
    Parsed(RawConfig),
}

/// What loading amounts to: the defaults without a file, the flattened file if there is
/// one, and a message that names the file if it is unusable.
pub open spec fn loaded(read: ConfigRead) -> Result<ConfigView, Seq<char>> {
    match read {
        ConfigRead::Absent => Ok(default_config()),
        ConfigRead::Unreadable { path, error } => Err(
            "读取配置文件 "@ + path@ + " 失败: "@ + error@,
        ),
        ConfigRead::Malformed { path, error } => Err(
            "解析配置文件 "@ + path@ + " 失败: "@ + error@,
        ),
        ConfigRead::Parsed(raw) => Ok(raw.flattened()),
    }
}

impl Config {
    /// Chooses the file to read. `named` says whether the file that the caller named
    /// exists; the two flags say whether there is a `config.toml` in the two default
    /// places.
    pub fn choose_source(
        named: Option<bool>,
        beside_executable: bool,
        in_current_directory: bool,
    ) -> (r: ConfigSource)
        ensures
            r == source_of(named, beside_executable, in_current_directory),
    {
        match named {
            Some(exists) => if exists {
                ConfigSource::Named
            } else {
                ConfigSource::Defaults
            },
            None => if beside_executable {
                ConfigSource::BesideExecutable
            } else if in_current_directory {
                ConfigSource::CurrentDirectory
            } else {
                ConfigSource::Defaults
            },
        }
    }

    /// The configuration that follows from what came of reading the file.
    pub fn load(read: ConfigRead) -> (r: Result<Config, String>)
        ensures
            match r {
                Ok(c) => loaded(read) == Ok::<ConfigView, Seq<char>>(c@),
                Err(e) => loaded(read) == Err::<ConfigView, Seq<char>>(e@),
            },
    {
        match read {
            ConfigRead::Absent => Ok(Config::default()),
            ConfigRead::Unreadable { path, error } => {
                let mut out = copy_text("读取配置文件 ");
                out.append(path.as_str());
                out.append(" 失败: ");
                out.append(error.as_str());
                Err(out)
            },
            ConfigRead::Malformed { path, error } => {
                let mut out = copy_text("解析配置文件 ");
                out.append(path.as_str());
                out.append(" 失败: ");
                out.append(error.as_str());
                Err(out)
            },
            ConfigRead::Parsed(raw) => Ok(raw.into_config()),
        }
    }
}

/// The directory that relative working directories are taken from: that of the
/// executable, else the current one, else `.`.
pub open spec fn base_dir(
    executable_dir: Option<Seq<char>>,
    current_dir: Option<Seq<char>>,
) -> Seq<char> {
    match executable_dir {
        Some(d) => d,
        None => match current_dir {
            Some(d) => d,
            None => "."@,
        },
    }
}

/// Chooses the directory that relative working directories are taken from, of the
/// directories that could be determined.
pub fn exe_base_dir(executable_dir: Option<String>, current_dir: Option<String>) -> (r: String)
    ensures
        r@ == base_dir(text::opt_text(executable_dir), text::opt_text(current_dir)),
{
    match executable_dir {
        Some(d) => d,
        None => match current_dir {
            Some(d) => d,
            None => copy_text("."),
        },
    }
}

/// The working directory: the configured one if it is absolute, else the one of that name
/// under `base`.
pub open spec fn workspace_dir(
    style: PathStyle,
    base: Seq<char>,
    configured: Seq<char>,
) -> Seq<char> {
    if path::is_absolute(style, configured) {
        configured
    } else {
        path::join(style, base, configured)
    }
}

/// Determines the working directory.
pub fn resolve_workspace(style: PathStyle, base: &str, configured: &str) -> (r: String)
    ensures
        r@ == workspace_dir(style, base@, configured@),
{
    join_path(style, base, configured)
}

// ---------------------------------------------------------------------------
// Laws
// ---------------------------------------------------------------------------

/// A file without any key gives the defaults, as no file does.
pub proof fn lemma_empty_file_is_no_file(raw: RawConfig)
    requires
        raw.app.repo_url is None,
        raw.app.branch is None,
        raw.repo.url is None,
        raw.repo.branch is None,
        raw.node.version is None,
        raw.node.mirror is None,
        raw.node.pnpm_version is None,
        raw.workspace.root is None,
        raw.build.script is None,
        raw.build.install_args is None,
        raw.host.port is None,
        raw.host.read_timeout is None,
    ensures
        loaded(ConfigRead::Parsed(raw)) == loaded(ConfigRead::Absent),
{
}

/// Each key counts by itself: one that the file does not hold has its default, whatever the
/// other keys say, and one that it holds counts as it stands.
pub proof fn lemma_each_key_by_itself(raw: RawConfig)
    ensures
        ({
            let c = raw.flattened();
            let d = default_config();
            &&& raw.app.repo_url is None && raw.repo.url is None ==> c.repo_url == d.repo_url
            &&& raw.app.repo_url matches Some(v) ==> c.repo_url == v@
            &&& raw.app.repo_url is None ==> (raw.repo.url matches Some(v) ==> c.repo_url == v@)
            &&& raw.app.branch is None && raw.repo.branch is None ==> c.branch == d.branch
            &&& raw.app.branch matches Some(v) ==> c.branch == v@
            &&& raw.app.branch is None ==> (raw.repo.branch matches Some(v) ==> c.branch == v@)
            &&& raw.node.version is None ==> c.node_version == d.node_version
            &&& raw.node.version matches Some(v) ==> c.node_version == v@
            &&& raw.node.mirror is None ==> c.node_mirror == d.node_mirror
            &&& raw.node.mirror matches Some(v) ==> c.node_mirror == v@
            &&& raw.node.pnpm_version is None ==> c.pnpm_version == d.pnpm_version
            &&& raw.node.pnpm_version matches Some(v) ==> c.pnpm_version == Some(v@)
            &&& raw.workspace.root is None ==> c.workspace_root == d.workspace_root
            &&& raw.workspace.root matches Some(v) ==> c.workspace_root == v@
            &&& raw.build.script is None ==> c.build_script == d.build_script
            &&& raw.build.script matches Some(v) ==> c.build_script == v@
            &&& raw.build.install_args is None ==> c.install_args == d.install_args
            &&& raw.build.install_args matches Some(v) ==> c.install_args == text::texts(v@)
            &&& raw.host.port is None ==> c.host_port == d.host_port
            &&& raw.host.port matches Some(v) ==> c.host_port == v
            &&& raw.host.read_timeout is None ==> c.read_timeout == d.read_timeout
            &&& raw.host.read_timeout matches Some(v) ==> c.read_timeout == v
        }),
{
}

/// An unusable file is an error; the defaults never stand in for it.
pub proof fn lemma_unusable_file_is_error(read: ConfigRead)
    ensures
        loaded(read) is Err <==> (read is Unreadable || read is Malformed),
{
}

/// A base directory is never empty, if the directories that could be determined are not.
pub proof fn lemma_base_dir_not_empty(
    executable_dir: Option<Seq<char>>,
    current_dir: Option<Seq<char>>,
)
    requires
        executable_dir matches Some(d) ==> d.len() > 0,
        current_dir matches Some(d) ==> d.len() > 0,
    ensures
        base_dir(executable_dir, current_dir).len() > 0,
{
    reveal_strlit(".");
}

/// The working directory is where one gets from the base directory by the configured names,
/// unless the configured one says where it starts by itself: by a separator in front or, on
/// Windows, by a drive. It lies below the base directory if the configured names never lead
/// above their start.
pub proof fn lemma_workspace_under_base(style: PathStyle, base: Seq<char>, configured: Seq<char>)
    requires
        path::is_settled(style, base),
        !path::starts_with_separator(style, configured),
        !path::has_drive(style, configured),
        path::is_verbatim(style, base) ==> configured.len() > 0,
    ensures
        ({
            let dir = workspace_dir(style, base, configured);
            let steps = path::names(style, configured);
            &&& path::prefix(style, dir) == path::prefix(style, base)
            &&& path::is_absolute(style, dir) == path::is_absolute(style, base)
            &&& path::names(style, dir) == if path::is_verbatim(style, base) {
                path::walked(path::names(style, base), steps)
            } else {
                path::names(style, base) + steps
            }
            &&& path::goes_down(steps) ==> path::is_below(style, base, steps, dir)
            &&& path::stays_below(steps) ==> path::reached(style, dir) == path::reached(
                style,
                base,
            ) + path::reached(style, configured)
        }),
{
    path::lemma_no_prefix(style, configured);
    path::lemma_join_names(style, base, configured);
    if path::stays_below(path::names(style, configured)) {
        path::lemma_join_stays_below(style, base, configured);
    }
}

/// Which file counts: one that the caller named, if it is there, and else none; without such a
/// name the one beside the executable, and only where there is none the one in the current
/// directory.
pub proof fn lemma_which_file_counts(beside: bool, here: bool)
    ensures
        source_of(Some(true), beside, here) == ConfigSource::Named,
        source_of(Some(false), beside, here) == ConfigSource::Defaults,
        source_of(None, true, here) == ConfigSource::BesideExecutable,
        source_of(None, false, true) == ConfigSource::CurrentDirectory,
        source_of(None, false, false) == ConfigSource::Defaults,
{
}

/// A file that cannot be used is told with its path and the reason; none means the defaults.
pub proof fn lemma_file_is_told(path: String, error: String)
    ensures
        loaded(ConfigRead::Absent) == Ok::<ConfigView, Seq<char>>(default_config()),
        loaded(ConfigRead::Unreadable { path, error }) == Err::<ConfigView, Seq<char>>(
            "读取配置文件 "@ + path@ + " 失败: "@ + error@,
        ),
        loaded(ConfigRead::Malformed { path, error }) == Err::<ConfigView, Seq<char>>(
            "解析配置文件 "@ + path@ + " 失败: "@ + error@,
        ),
{
}

/// Relative working directories are taken from the directory of the executable, else from the
/// current one, else from where the program stands; an absolute one is taken as it is.
pub proof fn lemma_base_and_workspace(
    style: PathStyle,
    exe: Seq<char>,
    cur: Option<Seq<char>>,
    dir: Seq<char>,
    configured: Seq<char>,
)
    ensures
        base_dir(Some(exe), cur) == exe,
        base_dir(None, Some(dir)) == dir,
        base_dir(None, None) == "."@,
        path::is_absolute(style, configured) ==> workspace_dir(style, dir, configured)
            == configured,
        !path::is_absolute(style, configured) ==> workspace_dir(style, dir, configured)
            == path::join(style, dir, configured),
{
}

} // verus!
