//! Installing and building: which package manager the repository wants, the commands that it
//! is given, where the built pages are found, and the order of it all.

use vstd::prelude::*;
use vstd::string::*;

use crate::command;
use crate::command::{
    call_log_line, run_tool_command, runtime_env_vars, tool_command, Command, CommandView,
    ToolEnd, ToolEndOf, ToolEndView,
};
use crate::json;
use crate::json::text_field;
use crate::node_manager::{copy_paths, NodePaths, NodePathsOf};
use crate::path;
use crate::path::{join_path, join_path2, PathStyle};
use crate::text;
use crate::text::{
    borrow_opt, cat2, cat3, comes_first, copy_text, extend_texts, has_part, same,
};

verus! {

broadcast use vstd::string::group_string_axioms;

// ---------------------------------------------------------------------------
// The package manager
// ---------------------------------------------------------------------------

/// The package manager of a repository.
#[derive(Debug, Clone, Copy, PartialEq, Eq, Structural)]
pub enum PackageManager {
    /// npm.
    Npm,
    /// pnpm.
    Pnpm,
}

/// The package manager that a repository wants: pnpm if it has one of pnpm's files, or if
/// the field `packageManager` of its `package.json` names pnpm.
pub open spec fn manager_of(
    has_lock: bool,
    has_workspace: bool,
    field: Option<Seq<char>>,
) -> PackageManager {
    if has_lock || has_workspace || (field matches Some(f) && text::contains(f, "pnpm"@)) {
        PackageManager::Pnpm
    } else {
        PackageManager::Npm
    }
}

/// The field `packageManager` of a `package.json` that could be read.
pub open spec fn manager_field(package_json: Option<Seq<char>>) -> Option<Seq<char>> {
    match package_json {
        Some(t) => json::json_field(t, "packageManager"@),
        None => None,
    }
}

/// The package manager that a repository wants, given what its field `packageManager`
/// holds.
pub fn manager_for(has_lock: bool, has_workspace: bool, field: Option<&str>) -> (r: PackageManager)
    ensures
        r == manager_of(has_lock, has_workspace, text::opt_str(field)),
{
    if has_lock || has_workspace {
        return PackageManager::Pnpm;
    }
    match field {
        Some(f) => {
            if has_part(f, "pnpm") {
                PackageManager::Pnpm
            } else {
                PackageManager::Npm
            }
        },
        None => PackageManager::Npm,
    }
}

/// The package manager that a repository wants, given whether it has `pnpm-lock.yaml` and
/// `pnpm-workspace.yaml`, and the text of its `package.json` if that could be read.
pub fn detect_package_manager(
    has_lock: bool,
    has_workspace: bool,
    package_json: Option<&str>,
) -> (r: PackageManager)
    ensures
        r == manager_of(has_lock, has_workspace, manager_field(text::opt_str(package_json))),
{
    match package_json {
        Some(t) => match text_field(t, "packageManager") {
            Some(f) => manager_for(has_lock, has_workspace, Some(f.as_str())),
            None => manager_for(has_lock, has_workspace, None),
        },
        None => manager_for(has_lock, has_workspace, None),
    }
}

// ---------------------------------------------------------------------------
// Commands
// ---------------------------------------------------------------------------

/// How the arguments start: with pnpm's entry script if pnpm is provided, with the word
/// `pnpm` if corepack stands in for it, with nothing for npm.
pub open spec fn argv_prefix(
    pm: PackageManager,
    pnpm_cmd: Option<Seq<char>>,
) -> Seq<Seq<char>> {
    match pm {
        PackageManager::Pnpm => match pnpm_cmd {
            Some(cmd) => seq![cmd],
            None => seq!["pnpm"@],
        },
        PackageManager::Npm => Seq::empty(),
    }
}

/// The arguments that install what the repository needs. pnpm keeps its store in the
/// working directory; the configured arguments come last.
pub open spec fn install_argv(
    style: PathStyle,
    pm: PackageManager,
    pnpm_cmd: Option<Seq<char>>,
    install_args: Seq<Seq<char>>,
    workspace_root: Seq<char>,
) -> Seq<Seq<char>> {
    argv_prefix(pm, pnpm_cmd) + (match pm {
        PackageManager::Pnpm => seq![
            "install"@,
            "--config.store-dir="@ + path::join(style, workspace_root, "pnpm-store"@),
        ],
        PackageManager::Npm => seq!["install"@],
    }) + install_args
}

/// The arguments that run a script of the repository.
pub open spec fn build_argv(
    pm: PackageManager,
    pnpm_cmd: Option<Seq<char>>,
    script: Seq<char>,
) -> Seq<Seq<char>> {
    argv_prefix(pm, pnpm_cmd) + seq!["run"@, script]
}

/// The tool that takes these arguments: `node` for a provided pnpm, else corepack for pnpm,
/// and npm for npm.
pub open spec fn tool_path(
    style: PathStyle,
    pm: PackageManager,
    pnpm_cmd: Option<Seq<char>>,
    node: NodePathsOf<Seq<char>>,
) -> Seq<char> {
    match pm {
        PackageManager::Pnpm => if pnpm_cmd is Some {
            node.node
        } else {
            path::join(style, node.bin_dir, match style {
                PathStyle::Windows => "corepack.cmd"@,
                PathStyle::Unix => "corepack"@,
            })
        },
        PackageManager::Npm => node.npm,
    }
}

/// How the arguments start.
pub fn prefix_argv_for(pm: PackageManager, pnpm_cmd: Option<&str>) -> (r: Vec<String>)
    ensures
        text::texts(r@) == argv_prefix(pm, text::opt_str(pnpm_cmd)),
{
    let mut out: Vec<String> = Vec::new();
    match pm {
        PackageManager::Pnpm => {
            match pnpm_cmd {
                Some(cmd) => out.push(copy_text(cmd)),
                None => out.push(copy_text("pnpm")),
            }
        },
        PackageManager::Npm => {},
    }
    assert(text::texts(out@) =~= argv_prefix(pm, text::opt_str(pnpm_cmd)));
    out
}

/// The arguments that install what the repository needs.
pub fn install_args_for(
    style: PathStyle,
    pm: PackageManager,
    pnpm_cmd: Option<&str>,
    install_args: &[String],
    workspace_root: &str,
) -> (r: Vec<String>)
    ensures
        text::texts(r@) == install_argv(
            style,
            pm,
            text::opt_str(pnpm_cmd),
            text::texts(install_args@),
            workspace_root@,
        ),
{
    let mut out = prefix_argv_for(pm, pnpm_cmd);
    let ghost prefix = text::texts(out@);
    out.push(copy_text("install"));
    match pm {
        PackageManager::Pnpm => {
            let store = join_path(style, workspace_root, "pnpm-store");
            out.push(cat2("--config.store-dir=", store.as_str()));
            assert(text::texts(out@) =~= prefix + seq![
                "install"@,
                "--config.store-dir="@ + path::join(style, workspace_root@, "pnpm-store"@),
            ]);
        },
        PackageManager::Npm => {
            assert(text::texts(out@) =~= prefix + seq!["install"@]);
        },
    }
    extend_texts(&mut out, install_args);
    out
}

/// The arguments that run a script of the repository.
pub fn build_args_for(pm: PackageManager, pnpm_cmd: Option<&str>, script: &str) -> (r: Vec<String>)
    ensures
        text::texts(r@) == build_argv(pm, text::opt_str(pnpm_cmd), script@),
{
    let mut out = prefix_argv_for(pm, pnpm_cmd);
    let ghost prefix = text::texts(out@);
    out.push(copy_text("run"));
    out.push(copy_text(script));
    assert(text::texts(out@) =~= prefix + seq!["run"@, script@]);
    out
}

/// The tool that takes these arguments.
pub fn tool_for(
    style: PathStyle,
    pm: PackageManager,
    pnpm_cmd: Option<&str>,
    node_paths: &NodePaths,
) -> (r: String)
    ensures
        r@ == tool_path(style, pm, text::opt_str(pnpm_cmd), node_paths@),
{
    match pm {
        PackageManager::Pnpm => match pnpm_cmd {
            Some(_) => copy_text(node_paths.node.as_str()),
            None => match style {
                PathStyle::Windows => join_path(
                    style,
                    node_paths.bin_dir.as_str(),
                    "corepack.cmd",
                ),
                PathStyle::Unix => join_path(style, node_paths.bin_dir.as_str(), "corepack"),
            },
        },
        PackageManager::Npm => copy_text(node_paths.npm.as_str()),
    }
}

// ---------------------------------------------------------------------------
// The user configuration of npm
// ---------------------------------------------------------------------------

/// What npm's user configuration holds where there is none yet: nothing but a remark.
pub open spec fn npmrc_text() -> Seq<char> {
    "# rustc-deepseek-harness 运行时隔离配置：屏蔽系统全局 ~/.npmrc\n"@
}

/// The path of npm's user configuration, and its content if it has to be written, which is
/// so exactly if it does not exist.
pub fn ensure_isolated_npmrc(style: PathStyle, workspace_root: &str, exists: bool) -> (r: (
    String,
    Option<String>,
))
    ensures
        r.0@ == path::join(style, workspace_root@, "npmrc"@),
        text::opt_text(r.1) == (if exists {
            None
        } else {
            Some(npmrc_text())
        }),
{
    (
        join_path(style, workspace_root, "npmrc"),
        if exists {
            None
        } else {
            Some(
                copy_text(
                    "# rustc-deepseek-harness 运行时隔离配置：屏蔽系统全局 ~/.npmrc\n",
                ),
            )
        },
    )
}

// ---------------------------------------------------------------------------
// The built pages
// ---------------------------------------------------------------------------

/// An entry of the directory `apps`: its name, and whether its `dist` holds `index.html`.
#[derive(Debug, Clone, PartialEq)]
pub struct AppEntry {
    pub name: String,
    pub has_index: bool,
}

/// The texts of a list of entries.
pub open spec fn entries(list: Seq<AppEntry>) -> Seq<(Seq<char>, bool)> {
    list.map_values(|a: AppEntry| (a.name@, a.has_index))
}

/// The path where `index.html` of a single package is looked for.
pub open spec fn root_index(style: PathStyle, repo_dir: Seq<char>) -> Seq<char> {
    path::join2(style, repo_dir, "dist"@, "index.html"@)
}

/// The directory `dist` of an entry of `apps`.
pub open spec fn app_dist(style: PathStyle, repo_dir: Seq<char>, name: Seq<char>) -> Seq<char> {
    path::join(style, path::join2(style, repo_dir, "apps"@, name), "dist"@)
}

/// The path where `index.html` of an entry of `apps` is looked for.
pub open spec fn app_index(style: PathStyle, repo_dir: Seq<char>, name: Seq<char>) -> Seq<char> {
    path::join(style, app_dist(style, repo_dir, name), "index.html"@)
}

/// The path where `index.html` of a single package is looked for.
pub fn root_index_path(style: PathStyle, repo_dir: &str) -> (r: String)
    ensures
        r@ == root_index(style, repo_dir@),
{
    join_path2(style, repo_dir, "dist", "index.html")
}

/// The path where `index.html` of an entry of `apps` is looked for.
pub fn app_index_path(style: PathStyle, repo_dir: &str, name: &str) -> (r: String)
    ensures
        r@ == app_index(style, repo_dir@, name@),
{
    let app = join_path2(style, repo_dir, "apps", name);
    join_path2(style, app.as_str(), "dist", "index.html")
}

/// Whether an entry of `apps` has built pages; what lies in `node_modules` does not count.
pub open spec fn is_candidate(e: (Seq<char>, bool)) -> bool {
    e.1 && e.0 != "node_modules"@
}

/// The names of the entries of `apps` with built pages.
pub open spec fn candidates(apps: Seq<(Seq<char>, bool)>) -> Seq<Seq<char>>
    decreases apps.len(),
{
    if apps.len() == 0 {
        Seq::empty()
    } else if is_candidate(apps.last()) {
        candidates(apps.drop_last()).push(apps.last().0)
    } else {
        candidates(apps.drop_last())
    }
}

/// The first of some names in the order of texts.
pub open spec fn earliest(names: Seq<Seq<char>>) -> Seq<char>
    decreases names.len(),
{
    if names.len() <= 1 {
        names[0]
    } else {
        let m = earliest(names.drop_last());
        if text::not_after(m, names.last()) {
            m
        } else {
            names.last()
        }
    }
}

/// Where the built pages are: in the repository's own `dist`, else in that of the first
/// entry of `apps` that has some, else nowhere, which is an error.
pub open spec fn dist_of(
    style: PathStyle,
    repo_dir: Seq<char>,
    root_has_index: bool,
    apps: Seq<(Seq<char>, bool)>,
) -> Result<Seq<char>, Seq<char>> {
    if root_has_index {
        Ok(path::join(style, repo_dir, "dist"@))
    } else if candidates(apps).len() > 0 {
        Ok(app_dist(style, repo_dir, earliest(candidates(apps))))
    } else {
        Err(
            "构建命令执行成功但未找到含 index.html 的产物目录（已检查 "@ + path::join(
                style,
                repo_dir,
                "dist"@,
            ) + " 与 apps/*/dist）"@,
        )
    }
}

/// Finds the built pages, given whether `index.html` is in the repository's own `dist`, and
/// what there is in `apps`.
pub fn locate_dist_dir(
    style: PathStyle,
    repo_dir: &str,
    root_has_index: bool,
    apps: &[AppEntry],
) -> (r: Result<String, String>)
    ensures
        match r {
            Ok(p) => dist_of(style, repo_dir@, root_has_index, entries(apps@)) == Ok::<
                Seq<char>,
                Seq<char>,
            >(p@),
            Err(e) => dist_of(style, repo_dir@, root_has_index, entries(apps@)) == Err::<
                Seq<char>,
                Seq<char>,
            >(e@),
        },
{
    let root_dist = join_path(style, repo_dir, "dist");
    if root_has_index {
        return Ok(root_dist);
    }
    let mut best: Option<String> = None;
    let mut i: usize = 0;
    let ghost all = entries(apps@);
    assert(candidates(all.take(0)) =~= Seq::<Seq<char>>::empty());
    while i < apps.len()
        invariant
            i <= apps@.len(),
            all == entries(apps@),
            best is None <==> candidates(all.take(i as int)).len() == 0,
            best matches Some(b) ==> b@ == earliest(candidates(all.take(i as int))),
        decreases apps@.len() - i,
    {
        let name = apps[i].name.as_str();
        proof {
            let now = all.take(i + 1);
            assert(now.last() == all[i as int]);
            assert(now.drop_last() =~= all.take(i as int));
            if is_candidate(now.last()) {
                let before = candidates(all.take(i as int));
                assert(before.push(name@).drop_last() =~= before);
            }
        }
        if apps[i].has_index && !same(name, "node_modules") {
            let take = match &best {
                Some(b) => !comes_first(b.as_str(), name),
                None => true,
            };
            if take {
                best = Some(copy_text(name));
            }
        }
        i += 1;
    }
    assert(all.take(all.len() as int) =~= all);
    match best {
        Some(name) => Ok(
            join_path(
                style,
                join_path2(style, repo_dir, "apps", name.as_str()).as_str(),
                "dist",
            ),
        ),
        None => Err(
            cat3(
                "构建命令执行成功但未找到含 index.html 的产物目录（已检查 ",
                root_dist.as_str(),
                " 与 apps/*/dist）",
            ),
        ),
    }
}

// ---------------------------------------------------------------------------
// The build
// ---------------------------------------------------------------------------

/// The two stages of a build, as the user sees them.
#[derive(Clone, Copy, PartialEq, Eq, Structural, Debug)]
pub enum BuildStage {
    /// What the repository needs is installed.
    Install,
    /// The repository is built.
    Build,
}

/// Where a build stands.
#[derive(Clone, Copy, PartialEq, Eq, Structural, Debug)]
pub enum BuildPhase {
    /// npm's user configuration is looked for.
    LookNpmrc,
    /// It is missing and is written.
    WriteNpmrc,
    /// The repository is looked at, for its package manager.
    LookRepo,
    /// What the repository needs is installed.
    Install,
    /// The repository is built.
    Build,
    /// The built pages are looked for.
    Locate,
    /// Over: they are there.
    Done,
    /// Over, with an error.
    Failed,
}

/// A build on its way; `T` and `L` are `String` and `Vec<String>` in the program, and
/// `Seq<char>` and `Seq<Seq<char>>` in contracts.
#[derive(Debug, PartialEq)]
pub struct BuildRunOf<T, L> {
    /// The notation of paths.
    pub style: PathStyle,
    /// The programs of Node.js.
    pub node: NodePathsOf<T>,
    /// The repository.
    pub repo_dir: T,
    /// The script that builds it.
    pub script: T,
    /// Further arguments of the install command.
    pub install_args: L,
    /// The working directory.
    pub workspace_root: T,
    /// pnpm's entry script, if pnpm is provided.
    pub pnpm_cmd: Option<T>,
    /// The commit that the repository stands at, if it is known.
    pub commit: Option<T>,
    /// Where programs are looked for outside.
    pub inherited_path: T,
    /// The package manager.
    pub manager: PackageManager,
    /// The stage, as the user sees it.
    pub stage: BuildStage,
    /// The built pages.
    pub dist: T,
    /// What went wrong.
    pub error: T,
    /// Where the build stands.
    pub phase: BuildPhase,
}

/// A build on its way.
pub type BuildRun = BuildRunOf<String, Vec<String>>;

/// A build on its way, as plain texts.
pub type BuildRunView = BuildRunOf<Seq<char>, Seq<Seq<char>>>;

/// What an operation of a build came to; `E` and `A` are `ToolEnd` and `Vec<AppEntry>` in
/// the program, and their texts in contracts.
#[derive(Debug, PartialEq)]
pub enum BuildEventOf<T, E, A> {
    /// Whether the file is there.
    Present { file: bool },
    /// Whether the repository has pnpm's files, and its `package.json` if it can be read.
    Repo { has_lock: bool, has_workspace: bool, package_json: Option<T> },
    /// How the tool ended.
    Ended { end: E },
    /// Whether `index.html` is in the repository's own `dist`, and what there is in `apps`.
    Pages { root_has_index: bool, apps: A },
    /// The operation succeeded.
    Done,
    /// The operation failed.
    Failed(T),
}

/// What an operation of a build came to.
pub type BuildEvent = BuildEventOf<String, ToolEnd, Vec<AppEntry>>;

/// What an operation of a build came to, as plain texts.
pub type BuildEventView = BuildEventOf<Seq<char>, ToolEndView, Seq<(Seq<char>, bool)>>;

/// What a build wants done next; `C` is `Command` in the program.
#[derive(Debug, PartialEq)]
pub enum BuildOpOf<T, C> {
    /// Look whether `path` exists.
    Look { path: T },
    /// Write `content` to the file `path`.
    Write { path: T, content: T },
    /// Look whether `lock` and `workspace` exist, and read `package_json`.
    LookRepo { lock: T, workspace: T, package_json: T },
    /// Log the line `log` and run `command`.
    Run { log: T, command: C },
    /// Look for built pages: for the file `root_index`, and in the directory `apps`.
    LookPages { root_index: T, apps: T },
    /// Nothing more: these are the built pages.
    Finish { dist: T },
    /// Nothing more: the build failed.
    Fail { error: T },
}

/// What a build wants done next.
pub type BuildOp = BuildOpOf<String, Command>;

/// What a build wants done next, as plain texts.
pub type BuildOpView = BuildOpOf<Seq<char>, CommandView>;

impl View for BuildRunOf<String, Vec<String>> {
    type V = BuildRunOf<Seq<char>, Seq<Seq<char>>>;

    open spec fn view(&self) -> BuildRunOf<Seq<char>, Seq<Seq<char>>> {
        BuildRunOf {
            style: self.style,
            node: self.node@,
            repo_dir: self.repo_dir@,
            script: self.script@,
            install_args: text::texts(self.install_args@),
            workspace_root: self.workspace_root@,
            pnpm_cmd: text::opt_text(self.pnpm_cmd),
            commit: text::opt_text(self.commit),
            inherited_path: self.inherited_path@,
            manager: self.manager,
            stage: self.stage,
            dist: self.dist@,
            error: self.error@,
            phase: self.phase,
        }
    }
}

impl View for BuildEventOf<String, ToolEnd, Vec<AppEntry>> {
    type V = BuildEventOf<Seq<char>, ToolEndView, Seq<(Seq<char>, bool)>>;

    open spec fn view(&self) -> BuildEventOf<Seq<char>, ToolEndView, Seq<(Seq<char>, bool)>> {
        match *self {
            BuildEventOf::Present { file } => BuildEventOf::Present { file },
            BuildEventOf::Repo { has_lock, has_workspace, package_json } => BuildEventOf::Repo {
                has_lock,
                has_workspace,
                package_json: text::opt_text(package_json),
            },
            BuildEventOf::Ended { end } => BuildEventOf::Ended { end: end@ },
            BuildEventOf::Pages { root_has_index, apps } => BuildEventOf::Pages {
                root_has_index,
                apps: entries(apps@),
            },
            BuildEventOf::Done => BuildEventOf::Done,
            BuildEventOf::Failed(x) => BuildEventOf::Failed(x@),
        }
    }
}

impl View for BuildOpOf<String, Command> {
    type V = BuildOpOf<Seq<char>, CommandView>;

    open spec fn view(&self) -> BuildOpOf<Seq<char>, CommandView> {
        match *self {
            BuildOpOf::Look { path } => BuildOpOf::Look { path: path@ },
            BuildOpOf::Write { path, content } => BuildOpOf::Write {
                path: path@,
                content: content@,
            },
            BuildOpOf::LookRepo { lock, workspace, package_json } => BuildOpOf::LookRepo {
                lock: lock@,
                workspace: workspace@,
                package_json: package_json@,
            },
            BuildOpOf::Run { log, command } => BuildOpOf::Run { log: log@, command: command@ },
            BuildOpOf::LookPages { root_index, apps } => BuildOpOf::LookPages {
                root_index: root_index@,
                apps: apps@,
            },
            BuildOpOf::Finish { dist } => BuildOpOf::Finish { dist: dist@ },
            BuildOpOf::Fail { error } => BuildOpOf::Fail { error: error@ },
        }
    }
}

impl BuildRunOf<Seq<char>, Seq<Seq<char>>> {
    /// On to another phase.
    pub open spec fn to(self, phase: BuildPhase) -> Self {
        BuildRunOf { phase, ..self }
    }

    /// The build failed.
    pub open spec fn fail(self, error: Seq<char>) -> Self {
        BuildRunOf { error, phase: BuildPhase::Failed, ..self }
    }

    /// The tool that installs and builds.
    pub open spec fn tool(self) -> Seq<char> {
        tool_path(self.style, self.manager, self.pnpm_cmd, self.node)
    }

    /// Its arguments in the phase that the build is in.
    pub open spec fn tool_args(self) -> Seq<Seq<char>> {
        if self.phase == BuildPhase::Build {
            build_argv(self.manager, self.pnpm_cmd, self.script)
        } else {
            install_argv(
                self.style,
                self.manager,
                self.pnpm_cmd,
                self.install_args,
                self.workspace_root,
            )
        }
    }

    /// What the tool has in its environment beyond the usual: in the build, the commit that
    /// the repository stands at.
    pub open spec fn tool_env(self) -> Option<(Seq<char>, Seq<char>)> {
        match self.commit {
            Some(sha) => if self.phase == BuildPhase::Build {
                Some(("DSH_CLIENT_COMMIT_HASH"@, sha))
            } else {
                None
            },
            None => None,
        }
    }

    /// The tool as it is started.
    pub open spec fn call(self) -> CommandView {
        command::tool_call(
            self.style,
            self.tool(),
            self.tool_args(),
            self.repo_dir,
            command::runtime_env(
                self.style,
                self.node.bin_dir,
                self.workspace_root,
                self.inherited_path,
            ),
            self.tool_env(),
        )
    }

    /// The tool ended.
    pub open spec fn ended(self, end: ToolEndView) -> Self {
        match command::tool_failure(self.tool(), self.tool_args(), end) {
            Some(e) => self.fail(e),
            None => if self.phase == BuildPhase::Install {
                BuildRunOf { stage: BuildStage::Build, phase: BuildPhase::Build, ..self }
            } else {
                self.to(BuildPhase::Locate)
            },
        }
    }

    /// The build after an event. An event that does not answer what was wanted changes
    /// nothing.
    pub open spec fn after(self, e: BuildEventView) -> Self {
        match (self.phase, e) {
            (BuildPhase::LookNpmrc, BuildEventOf::Present { file }) => self.to(
                if file {
                    BuildPhase::LookRepo
                } else {
                    BuildPhase::WriteNpmrc
                },
            ),
            (BuildPhase::WriteNpmrc, BuildEventOf::Done) => self.to(BuildPhase::LookRepo),
            (BuildPhase::WriteNpmrc, BuildEventOf::Failed(x)) => self.fail(
                "创建隔离 npmrc 失败: "@ + x,
            ),
            (
                BuildPhase::LookRepo,
                BuildEventOf::Repo { has_lock, has_workspace, package_json },
            ) => BuildRunOf {
                manager: manager_of(has_lock, has_workspace, manager_field(package_json)),
                phase: BuildPhase::Install,
                ..self
            },
            (BuildPhase::Install, BuildEventOf::Ended { end }) => self.ended(end),
            (BuildPhase::Build, BuildEventOf::Ended { end }) => self.ended(end),
            (BuildPhase::Locate, BuildEventOf::Pages { root_has_index, apps }) => match dist_of(
                self.style,
                self.repo_dir,
                root_has_index,
                apps,
            ) {
                Ok(dist) => BuildRunOf { dist, phase: BuildPhase::Done, ..self },
                Err(e) => self.fail(e),
            },
            _ => self,
        }
    }

    /// What is wanted next.
    pub open spec fn wanted(self) -> BuildOpView {
        match self.phase {
            BuildPhase::LookNpmrc => BuildOpOf::Look {
                path: path::join(self.style, self.workspace_root, "npmrc"@),
            },
            BuildPhase::WriteNpmrc => BuildOpOf::Write {
                path: path::join(self.style, self.workspace_root, "npmrc"@),
                content: npmrc_text(),
            },
            BuildPhase::LookRepo => BuildOpOf::LookRepo {
                lock: path::join(self.style, self.repo_dir, "pnpm-lock.yaml"@),
                workspace: path::join(self.style, self.repo_dir, "pnpm-workspace.yaml"@),
                package_json: path::join(self.style, self.repo_dir, "package.json"@),
            },
            BuildPhase::Install | BuildPhase::Build => BuildOpOf::Run {
                log: command::call_line(self.style, self.tool(), self.tool_args()),
                command: self.call(),
            },
            BuildPhase::Locate => BuildOpOf::LookPages {
                root_index: root_index(self.style, self.repo_dir),
                apps: path::join(self.style, self.repo_dir, "apps"@),
            },
            BuildPhase::Done => BuildOpOf::Finish { dist: self.dist },
            BuildPhase::Failed => BuildOpOf::Fail { error: self.error },
        }
    }
}

/// A build at its start.
pub open spec fn build_start(
    style: PathStyle,
    node: NodePathsOf<Seq<char>>,
    repo_dir: Seq<char>,
    script: Seq<char>,
    install_args: Seq<Seq<char>>,
    workspace_root: Seq<char>,
    pnpm_cmd: Option<Seq<char>>,
    commit: Option<Seq<char>>,
    inherited_path: Seq<char>,
) -> BuildRunView {
    BuildRunOf {
        style,
        node,
        repo_dir,
        script,
        install_args,
        workspace_root,
        pnpm_cmd,
        commit,
        inherited_path,
        manager: PackageManager::Npm,
        stage: BuildStage::Install,
        dist: Seq::empty(),
        error: Seq::empty(),
        phase: BuildPhase::LookNpmrc,
    }
}

/// Starts to build the repository in `repo_dir`.
pub fn run_build(
    style: PathStyle,
    node_paths: &NodePaths,
    repo_dir: &str,
    script: &str,
    install_args: &[String],
    workspace_root: &str,
    pnpm_cmd: Option<String>,
    commit: Option<String>,
    inherited_path: &str,
) -> (r: BuildRun)
    ensures
        r@ == build_start(
            style,
            node_paths@,
            repo_dir@,
            script@,
            text::texts(install_args@),
            workspace_root@,
            text::opt_text(pnpm_cmd),
            text::opt_text(commit),
            inherited_path@,
        ),
{
    let mut extra: Vec<String> = Vec::new();
    extend_texts(&mut extra, install_args);
    assert(text::texts(extra@) =~= text::texts(install_args@));
    BuildRunOf {
        style,
        node: copy_paths(node_paths),
        repo_dir: copy_text(repo_dir),
        script: copy_text(script),
        install_args: extra,
        workspace_root: copy_text(workspace_root),
        pnpm_cmd,
        commit,
        inherited_path: copy_text(inherited_path),
        manager: PackageManager::Npm,
        stage: BuildStage::Install,
        dist: String::new(),
        error: String::new(),
        phase: BuildPhase::LookNpmrc,
    }
}

impl BuildRunOf<String, Vec<String>> {
    fn tool_of(&self) -> (r: String)
        ensures
            r@ == self@.tool(),
    {
        tool_for(self.style, self.manager, borrow_opt(&self.pnpm_cmd), &self.node)
    }

    fn args_of(&self) -> (r: Vec<String>)
        ensures
            text::texts(r@) == self@.tool_args(),
    {
        if self.phase == BuildPhase::Build {
            build_args_for(self.manager, borrow_opt(&self.pnpm_cmd), self.script.as_str())
        } else {
            install_args_for(
                self.style,
                self.manager,
                borrow_opt(&self.pnpm_cmd),
                self.install_args.as_slice(),
                self.workspace_root.as_str(),
            )
        }
    }

    fn call_of(&self) -> (r: BuildOp)
        requires
            self.phase == BuildPhase::Install || self.phase == BuildPhase::Build,
        ensures
            r@ == self@.wanted(),
    {
        let tool = self.tool_of();
        let args = self.args_of();
        let env = runtime_env_vars(
            self.style,
            &self.node,
            self.workspace_root.as_str(),
            self.inherited_path.as_str(),
        );
        let extra: Option<(String, String)> = match &self.commit {
            Some(sha) => {
                if self.phase == BuildPhase::Build {
                    Some((copy_text("DSH_CLIENT_COMMIT_HASH"), copy_text(sha.as_str())))
                } else {
                    None
                }
            },
            None => None,
        };
        BuildOpOf::Run {
            log: call_log_line(self.style, tool.as_str(), args.as_slice()),
            command: tool_command(
                self.style,
                tool.as_str(),
                args.as_slice(),
                self.repo_dir.as_str(),
                env,
                extra,
            ),
        }
    }

    /// What is wanted next.
    pub fn action(&self) -> (r: BuildOp)
        ensures
            r@ == self@.wanted(),
    {
        match self.phase {
            BuildPhase::LookNpmrc => BuildOpOf::Look {
                path: join_path(self.style, self.workspace_root.as_str(), "npmrc"),
            },
            BuildPhase::WriteNpmrc => {
                let (path, content) = ensure_isolated_npmrc(
                    self.style,
                    self.workspace_root.as_str(),
                    false,
                );
                BuildOpOf::Write {
                    path,
                    content: match content {
                        Some(t) => t,
                        None => String::new(),
                    },
                }
            },
            BuildPhase::LookRepo => BuildOpOf::LookRepo {
                lock: join_path(self.style, self.repo_dir.as_str(), "pnpm-lock.yaml"),
                workspace: join_path(self.style, self.repo_dir.as_str(), "pnpm-workspace.yaml"),
                package_json: join_path(self.style, self.repo_dir.as_str(), "package.json"),
            },
            BuildPhase::Install | BuildPhase::Build => self.call_of(),
            BuildPhase::Locate => BuildOpOf::LookPages {
                root_index: root_index_path(self.style, self.repo_dir.as_str()),
                apps: join_path(self.style, self.repo_dir.as_str(), "apps"),
            },
            BuildPhase::Done => BuildOpOf::Finish { dist: copy_text(self.dist.as_str()) },
            BuildPhase::Failed => BuildOpOf::Fail { error: copy_text(self.error.as_str()) },
        }
    }

    fn set_failed(&mut self, error: String)
        ensures
            final(self)@ == old(self)@.fail(error@),
    {
        self.error = error;
        self.phase = BuildPhase::Failed;
    }

    fn set_ended(&mut self, end: ToolEnd)
        ensures
            final(self)@ == old(self)@.ended(end@),
    {
        let tool = self.tool_of();
        let args = self.args_of();
        match run_tool_command(tool.as_str(), args.as_slice(), end) {
            Err(e) => self.set_failed(e),
            Ok(_) => {
                if self.phase == BuildPhase::Install {
                    self.stage = BuildStage::Build;
                    self.phase = BuildPhase::Build;
                } else {
                    self.phase = BuildPhase::Locate;
                }
            },
        }
    }

    /// Takes note of what the wanted operation came to.
    pub fn advance(&mut self, e: BuildEvent)
        ensures
            final(self)@ == old(self)@.after(e@),
    {
        match (self.phase, e) {
            (BuildPhase::LookNpmrc, BuildEventOf::Present { file }) => {
                self.phase = if file {
                    BuildPhase::LookRepo
                } else {
                    BuildPhase::WriteNpmrc
                };
            },
            (BuildPhase::WriteNpmrc, BuildEventOf::Done) => {
                self.phase = BuildPhase::LookRepo;
            },
            (BuildPhase::WriteNpmrc, BuildEventOf::Failed(x)) => {
                self.set_failed(cat2("创建隔离 npmrc 失败: ", x.as_str()));
            },
            (
                BuildPhase::LookRepo,
                BuildEventOf::Repo { has_lock, has_workspace, package_json },
            ) => {
                self.manager = detect_package_manager(
                    has_lock,
                    has_workspace,
                    borrow_opt(&package_json),
                );
                self.phase = BuildPhase::Install;
            },
            (BuildPhase::Install, BuildEventOf::Ended { end }) => self.set_ended(end),
            (BuildPhase::Build, BuildEventOf::Ended { end }) => self.set_ended(end),
            (BuildPhase::Locate, BuildEventOf::Pages { root_has_index, apps }) => {
                match locate_dist_dir(
                    self.style,
                    self.repo_dir.as_str(),
                    root_has_index,
                    apps.as_slice(),
                ) {
                    Ok(dist) => {
                        self.dist = dist;
                        self.phase = BuildPhase::Done;
                    },
                    Err(e) => self.set_failed(e),
                }
            },
            _ => {},
        }
    }
}

// ---------------------------------------------------------------------------
// Laws
// ---------------------------------------------------------------------------

/// The first name is one of the names, and none comes before it.
pub proof fn lemma_earliest(names: Seq<Seq<char>>)
    requires
        names.len() > 0,
    ensures
        names.contains(earliest(names)),
        forall|i: int|
            0 <= i < names.len() ==> text::not_after(earliest(names), #[trigger] names[i]),
    decreases names.len(),
{
    if names.len() == 1 {
        text::lemma_order_total(names[0], names[0]);
        assert(names.contains(names[0]));
    } else {
        let front = names.drop_last();
        lemma_earliest(front);
        let m = earliest(front);
        let l = names.last();
        assert(names[names.len() - 1] == l);
        let k = choose|k: int| 0 <= k < front.len() && front[k] == m;
        assert(names[k] == m);
        text::lemma_order_total(m, l);
        text::lemma_order_total(l, l);
        assert forall|i: int| 0 <= i < names.len() implies text::not_after(
            earliest(names),
            #[trigger] names[i],
        ) by {
            if i < front.len() {
                assert(front[i] == names[i]);
                if !text::not_after(m, l) {
                    text::lemma_order_transitive(l, m, names[i]);
                }
            }
        }
    }
}

/// The candidates are the names of the entries with built pages, and no others.
pub proof fn lemma_candidates(apps: Seq<(Seq<char>, bool)>, name: Seq<char>)
    ensures
        candidates(apps).contains(name) <==> name != "node_modules"@ && apps.contains((name, true)),
    decreases apps.len(),
{
    if apps.len() > 0 {
        let front = apps.drop_last();
        let l = apps.last();
        lemma_candidates(front, name);
        assert(apps =~= front.push(l));
        assert(apps.contains((name, true)) <==> front.contains((name, true)) || l == (name, true)) by {
            if front.contains((name, true)) {
                let k = choose|k: int| 0 <= k < front.len() && front[k] == (name, true);
                assert(apps[k] == (name, true));
            }
            if l == (name, true) {
                assert(apps[apps.len() - 1] == (name, true));
            }
            if apps.contains((name, true)) && l != (name, true) {
                let k = choose|k: int| 0 <= k < apps.len() && apps[k] == (name, true);
                assert(front[k] == (name, true));
            }
        }
        let c = candidates(front);
        assert(c.push(l.0).contains(name) <==> c.contains(name) || l.0 == name) by {
            if c.contains(name) {
                let k = choose|k: int| 0 <= k < c.len() && c[k] == name;
                assert(c.push(l.0)[k] == name);
            }
            assert(c.push(l.0)[c.len() as int] == l.0);
            if c.push(l.0).contains(name) && l.0 != name {
                let k = choose|k: int| 0 <= k < c.push(l.0).len() && c.push(l.0)[k] == name;
                assert(c[k] == name);
            }
        }
    }
}

/// Built pages are found exactly if there are some. The repository's own go first; else they
/// are those of an entry of `apps` that has some, is not `node_modules`, and comes before
/// every other such entry.
pub proof fn lemma_pages_found(
    style: PathStyle,
    repo_dir: Seq<char>,
    root_has_index: bool,
    apps: Seq<(Seq<char>, bool)>,
)
    ensures
        root_has_index ==> dist_of(style, repo_dir, root_has_index, apps) == Ok::<
            Seq<char>,
            Seq<char>,
        >(path::join(style, repo_dir, "dist"@)),
        dist_of(style, repo_dir, root_has_index, apps) is Ok <==> root_has_index || exists|i: int|
            0 <= i < apps.len() && is_candidate(#[trigger] apps[i]),
        !root_has_index && dist_of(style, repo_dir, root_has_index, apps) is Ok ==> {
            let n = earliest(candidates(apps));
            &&& dist_of(style, repo_dir, root_has_index, apps) == Ok::<Seq<char>, Seq<char>>(
                app_dist(style, repo_dir, n),
            )
            &&& n != "node_modules"@
            &&& apps.contains((n, true))
            &&& forall|i: int|
                0 <= i < apps.len() && is_candidate(apps[i]) ==> text::not_after(
                    n,
                    (#[trigger] apps[i]).0,
                )
        },
{
    let c = candidates(apps);
    if c.len() > 0 {
        lemma_earliest(c);
        lemma_candidates(apps, earliest(c));
        let k = choose|k: int| 0 <= k < apps.len() && apps[k] == (earliest(c), true);
        assert(is_candidate(apps[k]));
    }
    assert forall|i: int| 0 <= i < apps.len() && is_candidate(apps[i]) implies c.len() > 0
        && text::not_after(earliest(c), (#[trigger] apps[i]).0) by {
        lemma_candidates(apps, apps[i].0);
        assert(apps[i] == (apps[i].0, true));
        let j = choose|j: int| 0 <= j < c.len() && c[j] == apps[i].0;
        assert(c[j] == apps[i].0);
    }
}

/// What the user has written into npm's configuration stays: it is written only where it
/// was found missing.
pub proof fn lemma_npmrc_is_not_overwritten(run: BuildRunView, e: BuildEventView)
    requires
        run.phase != BuildPhase::WriteNpmrc,
        run.after(e).wanted() is Write,
    ensures
        run.phase == BuildPhase::LookNpmrc,
        e == (BuildEventView::Present { file: false }),
{
}

/// The configured arguments reach the install command as they are, behind all others.
pub proof fn lemma_install_args_come_last(
    style: PathStyle,
    pm: PackageManager,
    pnpm_cmd: Option<Seq<char>>,
    install_args: Seq<Seq<char>>,
    workspace_root: Seq<char>,
)
    ensures
        install_args.is_suffix_of(
            install_argv(style, pm, pnpm_cmd, install_args, workspace_root),
        ),
{
    let all = install_argv(style, pm, pnpm_cmd, install_args, workspace_root);
    assert(install_args =~= all.subrange(all.len() - install_args.len(), all.len() as int));
}

/// Everything that a build can learn from outside.
pub ghost struct BuildWorld {
    pub npmrc_exists: bool,
    pub write_npmrc: Result<(), Seq<char>>,
    pub has_lock: bool,
    pub has_workspace: bool,
    pub package_json: Option<Seq<char>>,
    pub install: ToolEndView,
    pub build: ToolEndView,
    pub root_has_index: bool,
    pub apps: Seq<(Seq<char>, bool)>,
}

impl BuildWorld {
    /// The event that answers the operation of a phase.
    pub open spec fn answer(self, phase: BuildPhase) -> BuildEventView {
        match phase {
            BuildPhase::LookNpmrc => BuildEventOf::Present { file: self.npmrc_exists },
            BuildPhase::WriteNpmrc => match self.write_npmrc {
                Ok(_) => BuildEventOf::Done,
                Err(e) => BuildEventOf::Failed(e),
            },
            BuildPhase::LookRepo => BuildEventOf::Repo {
                has_lock: self.has_lock,
                has_workspace: self.has_workspace,
                package_json: self.package_json,
            },
            BuildPhase::Install => BuildEventOf::Ended { end: self.install },
            BuildPhase::Build => BuildEventOf::Ended { end: self.build },
            BuildPhase::Locate => BuildEventOf::Pages {
                root_has_index: self.root_has_index,
                apps: self.apps,
            },
            _ => BuildEventOf::Done,
        }
    }

    /// Whether the configuration of npm is there in the end.
    pub open spec fn npmrc_ready(self) -> bool {
        self.npmrc_exists || self.write_npmrc is Ok
    }

    /// Whether a tool ended well.
    pub open spec fn went_well(end: ToolEndView) -> bool {
        end matches ToolEndOf::Exited { code, .. } && code == Some(0i32)
    }
}

/// A build after `n` operations.
pub open spec fn build_after(run: BuildRunView, w: BuildWorld, n: nat) -> BuildRunView
    decreases n,
{
    if n == 0 {
        run
    } else {
        let before = build_after(run, w, (n - 1) as nat);
        before.after(w.answer(before.phase))
    }
}

/// What a build comes to: it succeeds exactly if the configuration of npm is there, both
/// commands end with code 0, and built pages are found, which are then its result. One that
/// fails does so in the stage of the operation that failed; in particular nothing is built
/// where the installation failed.
#[verifier::rlimit(40)]
pub proof fn lemma_build_outcome(run: BuildRunView, w: BuildWorld)
    requires
        run.phase == BuildPhase::LookNpmrc,
        run.stage == BuildStage::Install,
    ensures
        ({
            let end = build_after(run, w, 6);
            let pages = dist_of(run.style, run.repo_dir, w.root_has_index, w.apps);
            let installed = w.npmrc_ready() && BuildWorld::went_well(w.install);
            let built = installed && BuildWorld::went_well(w.build);
            &&& end.phase == (if built && pages is Ok {
                BuildPhase::Done
            } else {
                BuildPhase::Failed
            })
            &&& end.phase == BuildPhase::Done ==> end.wanted() == (BuildOpView::Finish {
                dist: pages->Ok_0,
            })
            &&& end.stage == (if installed {
                BuildStage::Build
            } else {
                BuildStage::Install
            })
            &&& w.npmrc_ready() ==> end.manager == manager_of(
                w.has_lock,
                w.has_workspace,
                manager_field(w.package_json),
            )
        }),
{
    reveal_with_fuel(build_after, 7);
}

/// A repository is handled with pnpm exactly if it has one of pnpm's files or its
/// `package.json` names pnpm.
pub proof fn lemma_pnpm_or_npm(has_lock: bool, has_workspace: bool, field: Option<Seq<char>>)
    ensures
        manager_of(has_lock, has_workspace, field) == PackageManager::Pnpm <==> has_lock
            || has_workspace || (field matches Some(f) && text::contains(f, "pnpm"@)),
{
}

/// What is run to install and to build, whichever package manager it is. pnpm is run by `node`
/// with its entry script, or by corepack where none is provided; it keeps its store in the
/// working directory. Both are run in the repository, and in an environment that keeps them in
/// the working directory; the build alone is told the commit.
pub proof fn lemma_build_commands(run: BuildRunView)
    ensures
        run.phase == BuildPhase::Install || run.phase == BuildPhase::Build ==> (run.wanted()
            matches BuildOpOf::Run { log, command: c } && {
            let pnpm = run.manager == PackageManager::Pnpm;
            let lead: Seq<Seq<char>> = if !pnpm {
                Seq::empty()
            } else {
                match run.pnpm_cmd {
                    Some(entry) => seq![entry],
                    None => seq!["pnpm"@],
                }
            };
            let tool = if !pnpm {
                run.node.npm
            } else if run.pnpm_cmd is Some {
                run.node.node
            } else if run.style == PathStyle::Windows {
                path::join(run.style, run.node.bin_dir, "corepack.cmd"@)
            } else {
                path::join(run.style, run.node.bin_dir, "corepack"@)
            };
            let store = "--config.store-dir="@ + path::join(
                run.style,
                run.workspace_root,
                "pnpm-store"@,
            );
            let args = if run.phase == BuildPhase::Build {
                lead + seq!["run"@, run.script]
            } else if pnpm {
                lead + seq!["install"@, store] + run.install_args
            } else {
                seq!["install"@] + run.install_args
            };
            let env = seq![
                (
                    "PATH"@,
                    run.node.bin_dir + (if run.style == PathStyle::Windows {
                        ";"@
                    } else {
                        ":"@
                    }) + run.inherited_path,
                ),
                (
                    "NPM_CONFIG_USERCONFIG"@,
                    path::join(run.style, run.workspace_root, "npmrc"@),
                ),
                ("npm_config_cache"@, path::join(run.style, run.workspace_root, "npm-cache"@)),
                ("COREPACK_HOME"@, path::join(run.style, run.workspace_root, "corepack"@)),
            ];
            &&& c.dir == run.repo_dir
            &&& run.style == PathStyle::Unix ==> c.program == tool && c.args == args
            &&& run.style == PathStyle::Windows ==> c.program == "cmd"@ && c.args == seq![
                "/c"@,
                tool,
            ] + args
            &&& c.env == (match run.commit {
                Some(sha) => if run.phase == BuildPhase::Build {
                    env.push(("DSH_CLIENT_COMMIT_HASH"@, sha))
                } else {
                    env
                },
                None => env,
            })
            &&& log == "$ "@ + (match path::file_name(run.style, tool) {
                Some(n) => n,
                None => Seq::empty(),
            }) + " "@ + text::joined(args, " "@)
        }),
{
    if run.phase == BuildPhase::Install && run.manager == PackageManager::Npm {
        assert(run.tool_args() =~= seq!["install"@] + run.install_args);
    }
}

/// How a build goes, step by step. npm's user configuration in the working directory is looked
/// for, and written where it is missing; the repository is looked at for its package manager;
/// what it needs is installed, and its script is run; then its built pages are looked for. The
/// tool that failed is told by its arguments, and every failure is the end.
#[verifier::rlimit(80)]
pub proof fn lemma_build_steps(
    style: PathStyle,
    node: NodePathsOf<Seq<char>>,
    repo_dir: Seq<char>,
    script: Seq<char>,
    install_args: Seq<Seq<char>>,
    workspace_root: Seq<char>,
    pnpm_cmd: Option<Seq<char>>,
    commit: Option<Seq<char>>,
    inherited_path: Seq<char>,
    w: BuildWorld,
)
    ensures
        ({
            let run = build_start(
                style,
                node,
                repo_dir,
                script,
                install_args,
                workspace_root,
                pnpm_cmd,
                commit,
                inherited_path,
            );
            let npmrc = path::join(style, workspace_root, "npmrc"@);
            let k: nat = if w.npmrc_exists {
                1
            } else {
                2
            };
            let look = build_after(run, w, k);
            let install = build_after(run, w, k + 1);
            let build = build_after(run, w, k + 2);
            let pages = build_after(run, w, k + 3);
            let end = build_after(run, w, k + 4);
            &&& run.wanted() == (BuildOpView::Look { path: npmrc })
            &&& !w.npmrc_exists ==> build_after(run, w, 1).wanted() == (BuildOpView::Write {
                path: npmrc,
                content: "# rustc-deepseek-harness 运行时隔离配置：屏蔽系统全局 ~/.npmrc\n"@,
            })
            &&& !w.npmrc_exists ==> (w.write_npmrc matches Err(e) ==> look.wanted() == (
            BuildOpView::Fail { error: "创建隔离 npmrc 失败: "@ + e }))
            &&& w.npmrc_exists || w.write_npmrc is Ok ==> {
                &&& look.wanted() == (BuildOpView::LookRepo {
                    lock: path::join(style, repo_dir, "pnpm-lock.yaml"@),
                    workspace: path::join(style, repo_dir, "pnpm-workspace.yaml"@),
                    package_json: path::join(style, repo_dir, "package.json"@),
                })
                &&& is_as_started(
                    install,
                    style,
                    node,
                    repo_dir,
                    script,
                    install_args,
                    workspace_root,
                    pnpm_cmd,
                    commit,
                    inherited_path,
                )
                &&& install.phase == BuildPhase::Install
                &&& install.manager == PackageManager::Pnpm <==> w.has_lock || w.has_workspace || (
                w.package_json matches Some(t) && json::json_field(t, "packageManager"@) matches
                    Some(f) && text::contains(f, "pnpm"@))
                &&& BuildWorld::went_well(w.install) ==> {
                    &&& build == (BuildRunOf {
                        stage: BuildStage::Build,
                        phase: BuildPhase::Build,
                        ..install
                    })
                    &&& BuildWorld::went_well(w.build) ==> {
                        &&& pages.wanted() == (BuildOpView::LookPages {
                            root_index: path::join(
                                style,
                                path::join(style, repo_dir, "dist"@),
                                "index.html"@,
                            ),
                            apps: path::join(style, repo_dir, "apps"@),
                        })
                        &&& w.root_has_index ==> end.wanted() == (BuildOpView::Finish {
                            dist: path::join(style, repo_dir, "dist"@),
                        })
                        &&& !w.root_has_index && (forall|i: int|
                            0 <= i < w.apps.len() ==> !(#[trigger] w.apps[i]).1) ==> end.wanted()
                            == (BuildOpView::Fail {
                            error: "构建命令执行成功但未找到含 index.html 的产物目录（已检查 "@
                                + path::join(style, repo_dir, "dist"@) + " 与 apps/*/dist）"@,
                        })
                    }
                    &&& !BuildWorld::went_well(w.build) ==> pages.wanted() == (BuildOpView::Fail {
                        error: command::tool_failure(build.tool(), build.tool_args(), w.build)->0,
                    })
                }
                &&& !BuildWorld::went_well(w.install) ==> build.wanted() == (BuildOpView::Fail {
                    error: command::tool_failure(install.tool(), install.tool_args(), w.install)->0,
                })
            }
        }),
{
    let run = build_start(
        style,
        node,
        repo_dir,
        script,
        install_args,
        workspace_root,
        pnpm_cmd,
        commit,
        inherited_path,
    );
    let k: nat = if w.npmrc_exists {
        1
    } else {
        2
    };
    let s0 = build_after(run, w, 0);
    let s1 = build_after(run, w, 1);
    let look = build_after(run, w, k);
    let install = build_after(run, w, k + 1);
    let build = build_after(run, w, k + 2);
    let pages = build_after(run, w, k + 3);
    let end = build_after(run, w, k + 4);
    assert(s0 == run);
    assert(s1 == s0.after(w.answer(s0.phase)));
    if !w.npmrc_exists {
        assert(look == s1.after(w.answer(s1.phase)));
    }
    assert(install == look.after(w.answer(look.phase)));
    assert(build == install.after(w.answer(install.phase)));
    assert(pages == build.after(w.answer(build.phase)));
    assert(end == pages.after(w.answer(pages.phase)));
    lemma_pages_found(style, repo_dir, w.root_has_index, w.apps);
}

/// Whether a build still has everything that it was started with.
pub open spec fn is_as_started(
    run: BuildRunView,
    style: PathStyle,
    node: NodePathsOf<Seq<char>>,
    repo_dir: Seq<char>,
    script: Seq<char>,
    install_args: Seq<Seq<char>>,
    workspace_root: Seq<char>,
    pnpm_cmd: Option<Seq<char>>,
    commit: Option<Seq<char>>,
    inherited_path: Seq<char>,
) -> bool {
    &&& run.style == style
    &&& run.node == node
    &&& run.repo_dir == repo_dir
    &&& run.script == script
    &&& run.install_args == install_args
    &&& run.workspace_root == workspace_root
    &&& run.pnpm_cmd == pnpm_cmd
    &&& run.commit == commit
    &&& run.inherited_path == inherited_path
}

/// Where the pages of an entry of `apps` lie: in `dist` of the directory of that name, which is
/// also where its entry page is looked for.
pub proof fn lemma_pages_of_an_app(style: PathStyle, repo_dir: Seq<char>, name: Seq<char>)
    ensures
        ({
            let app = path::join(style, path::join(style, repo_dir, "apps"@), name);
            let dist = path::join(style, app, "dist"@);
            &&& app_dist(style, repo_dir, name) == dist
            &&& app_index(style, repo_dir, name) == path::join(style, dist, "index.html"@)
            &&& root_index(style, repo_dir) == path::join(
                style,
                path::join(style, repo_dir, "dist"@),
                "index.html"@,
            )
        }),
{
}

/// Pages in an entry of `apps` are found where the repository has none of its own: in the first
/// of those entries in the order of their names, packages aside.
pub proof fn lemma_first_app_is_shown(
    style: PathStyle,
    repo_dir: Seq<char>,
    apps: Seq<(Seq<char>, bool)>,
    i: int,
)
    requires
        0 <= i < apps.len(),
        apps[i].1,
        apps[i].0 != "node_modules"@,
        forall|j: int|
            0 <= j < apps.len() && (#[trigger] apps[j]).1 && apps[j].0 != "node_modules"@
                ==> text::not_after(apps[i].0, apps[j].0),
    ensures
        dist_of(style, repo_dir, false, apps) == Ok::<Seq<char>, Seq<char>>(
            path::join(
                style,
                path::join(style, path::join(style, repo_dir, "apps"@), apps[i].0),
                "dist"@,
            ),
        ),
{
    lemma_pages_found(style, repo_dir, false, apps);
    assert(is_candidate(apps[i]));
    let n = earliest(candidates(apps));
    let k = choose|k: int| 0 <= k < apps.len() && apps[k] == (n, true);
    assert(text::not_after(apps[i].0, apps[k].0));
    text::lemma_order_antisymmetric(n, apps[i].0);
}

} // verus!
