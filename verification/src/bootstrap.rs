//! The start of the runtime, stage by stage: Node.js and pnpm, the repository, the build, the
//! host; what follows what, what the window is told, and where a failure ends it.

use vstd::prelude::*;
use vstd::string::*;

use crate::builder;
use crate::builder::{
    locate_dist_dir, root_index_path, run_build, AppEntry, BuildRun, BuildRunView, BuildStage,
};
use crate::config::{Config, ConfigView, RawConfig};
use crate::host_runner;
use crate::host_runner::{spawn_web_host, HostRun, HostRunOf};
use crate::i18n;
use crate::i18n::{Lang, Phrase};
use crate::json;
use crate::node_manager;
use crate::node_manager::{
    ensure_node, ensure_pnpm, NodePaths, NodePathsOf, NodeRun, NodeRunOf, PnpmRun,
    PnpmRunOf,
};
use crate::path;
use crate::path::{join_path, PathStyle};
use crate::repo_manager;
use crate::repo_manager::{sync_repo, SyncResult, SyncResultView, SyncRun, SyncRunOf};
use crate::text;
use crate::text::{borrow_opt, cat2, cat4, copy_opt, copy_text};
use crate::ui;
use crate::ui::{
    build_stage, build_version_label, can_be_shown, can_be_titled, fill, status_event,
    sync_result_detail, Stage, StageState, UserEvent, UserEventOf, UserEventView,
};
use crate::watcher;
use crate::watcher::{follow_sources, SourceEventView, SourceOpOf, SourceRun, SourceRunOf};

verus! {

broadcast use vstd::string::group_string_axioms;

/// Where the start of the runtime stands.
#[derive(Clone, Copy, PartialEq, Eq, Structural, Debug)]
pub enum BootPhase {
    /// The working directory is made.
    MakeWorkspace,
    /// Node.js is provided.
    Node,
    /// pnpm is provided, if it is asked for.
    Pnpm,
    /// The repository is synced.
    Sync,
    /// The repository has not changed: built pages are looked for.
    LookPages,
    /// The repository is built.
    Build,
    /// The host is started.
    Host,
    /// It is noted that the host has become ready.
    Mark,
    /// The version of the repository is read.
    ReadVersion,
    /// Over: the window can go to the host.
    Done,
    /// Over, with an error.
    Failed,
}

/// The start of the runtime.
#[derive(Debug, PartialEq)]
pub struct BootRun {
    /// The notation of paths.
    pub style: PathStyle,
    /// The language of the user.
    pub lang: Lang,
    /// The operating system.
    pub os: String,
    /// The processor architecture.
    pub arch: String,
    /// Where programs are looked for outside.
    pub inherited_path: String,
    /// The working directory.
    pub workspace_root: String,
    /// The configuration.
    pub cfg: Config,
    /// The programs of Node.js.
    pub node: NodePaths,
    /// pnpm's entry script, if pnpm is provided.
    pub pnpm_cmd: Option<String>,
    /// What the sync amounted to.
    pub sync: SyncResult,
    /// The address of the host.
    pub url: String,
    /// What went wrong.
    pub error: String,
    /// Where the start stands.
    pub phase: BootPhase,
}

/// The start of the runtime, as plain texts.
pub ghost struct BootView {
    pub style: PathStyle,
    pub lang: Lang,
    pub os: Seq<char>,
    pub arch: Seq<char>,
    pub inherited_path: Seq<char>,
    pub workspace_root: Seq<char>,
    pub cfg: ConfigView,
    pub node: NodePathsOf<Seq<char>>,
    pub pnpm_cmd: Option<Seq<char>>,
    pub sync: SyncResultView,
    pub url: Seq<char>,
    pub error: Seq<char>,
    pub phase: BootPhase,
}

impl View for BootRun {
    type V = BootView;

    open spec fn view(&self) -> BootView {
        BootView {
            style: self.style,
            lang: self.lang,
            os: self.os@,
            arch: self.arch@,
            inherited_path: self.inherited_path@,
            workspace_root: self.workspace_root@,
            cfg: self.cfg@,
            node: self.node@,
            pnpm_cmd: text::opt_text(self.pnpm_cmd),
            sync: self.sync@,
            url: self.url@,
            error: self.error@,
            phase: self.phase,
        }
    }
}

/// What an operation of the start came to.
#[derive(Debug, PartialEq)]
pub enum BootEvent {
    /// Node.js is provided.
    NodeReady { paths: NodePaths },
    /// pnpm is provided, if it is asked for.
    PnpmReady { entry: Option<String> },
    /// The repository is synced.
    Synced { sync: SyncResult },
    /// Whether `index.html` is in the repository's own `dist`, and what there is in `apps`.
    Pages { root_has_index: bool, apps: Vec<AppEntry> },
    /// The repository is built.
    Built { dist: String },
    /// The build failed in a stage.
    NotBuilt { stage: BuildStage, error: String },
    /// The host is ready.
    HostReady { url: String },
    /// The text of `package.json`, if it could be read.
    Package { json: Option<String> },
    /// The operation succeeded.
    Done,
    /// The operation failed.
    Failed { error: String },
}

/// What an operation of the start came to, as plain texts.
pub ghost enum BootEventView {
    NodeReady { paths: NodePathsOf<Seq<char>> },
    PnpmReady { entry: Option<Seq<char>> },
    Synced { sync: SyncResultView },
    Pages { root_has_index: bool, apps: Seq<(Seq<char>, bool)> },
    Built { dist: Seq<char> },
    NotBuilt { stage: BuildStage, error: Seq<char> },
    HostReady { url: Seq<char> },
    Package { json: Option<Seq<char>> },
    Done,
    Failed { error: Seq<char> },
}

impl View for BootEvent {
    type V = BootEventView;

    open spec fn view(&self) -> BootEventView {
        match *self {
            BootEvent::NodeReady { paths } => BootEventView::NodeReady { paths: paths@ },
            BootEvent::PnpmReady { entry } => BootEventView::PnpmReady {
                entry: text::opt_text(entry),
            },
            BootEvent::Synced { sync } => BootEventView::Synced { sync: sync@ },
            BootEvent::Pages { root_has_index, apps } => BootEventView::Pages {
                root_has_index,
                apps: builder::entries(apps@),
            },
            BootEvent::Built { dist } => BootEventView::Built { dist: dist@ },
            BootEvent::NotBuilt { stage, error } => BootEventView::NotBuilt {
                stage,
                error: error@,
            },
            BootEvent::HostReady { url } => BootEventView::HostReady { url: url@ },
            BootEvent::Package { json } => BootEventView::Package { json: text::opt_text(json) },
            BootEvent::Done => BootEventView::Done,
            BootEvent::Failed { error } => BootEventView::Failed { error: error@ },
        }
    }
}

/// What the start wants done next.
#[derive(Debug, PartialEq)]
pub enum BootOp {
    /// Make the directory `dir` and those that it lies in, as far as they are missing.
    MakeDir { dir: String },
    /// Go through with providing Node.js.
    Node { run: NodeRun },
    /// Go through with providing pnpm.
    Pnpm { run: PnpmRun },
    /// Go through with the sync.
    Sync { run: SyncRun },
    /// Look for built pages: for the file `root_index`, and in the directory `apps`.
    LookPages { root_index: String, apps: String },
    /// Go through with the build.
    Build { run: BuildRun },
    /// Go through with the start of the host.
    Host { run: HostRun },
    /// Note in the remembered state that the host has become ready.
    Mark,
    /// Read the file `path`.
    ReadPackage { path: String },
    /// Nothing more: the runtime has started. From now on the sources are watched by
    /// `sources`, and each build that it wants is gone through with as `build` is.
    Finish { sources: SourceRun, build: BuildRun },
    /// Nothing more: the start failed.
    Fail { error: String },
}

/// What the start wants done next, as plain texts.
pub ghost enum BootOpView {
    MakeDir { dir: Seq<char> },
    Node { run: NodeRunOf<Seq<char>> },
    Pnpm { run: PnpmRunOf<Seq<char>> },
    Sync { run: SyncRunOf<Seq<char>> },
    LookPages { root_index: Seq<char>, apps: Seq<char> },
    Build { run: BuildRunView },
    Host { run: HostRunOf<Seq<char>> },
    Mark,
    ReadPackage { path: Seq<char> },
    Finish { sources: SourceRunOf<Seq<char>>, build: BuildRunView },
    Fail { error: Seq<char> },
}

impl View for BootOp {
    type V = BootOpView;

    open spec fn view(&self) -> BootOpView {
        match *self {
            BootOp::MakeDir { dir } => BootOpView::MakeDir { dir: dir@ },
            BootOp::Node { run } => BootOpView::Node { run: run@ },
            BootOp::Pnpm { run } => BootOpView::Pnpm { run: run@ },
            BootOp::Sync { run } => BootOpView::Sync { run: run@ },
            BootOp::LookPages { root_index, apps } => BootOpView::LookPages {
                root_index: root_index@,
                apps: apps@,
            },
            BootOp::Build { run } => BootOpView::Build { run: run@ },
            BootOp::Host { run } => BootOpView::Host { run: run@ },
            BootOp::Mark => BootOpView::Mark,
            BootOp::ReadPackage { path } => BootOpView::ReadPackage { path: path@ },
            BootOp::Finish { sources, build } => BootOpView::Finish {
                sources: sources@,
                build: build@,
            },
            BootOp::Fail { error } => BootOpView::Fail { error: error@ },
        }
    }
}

/// What an event leads to: where the start then stands, and what the window is told.
pub ghost struct BootStep {
    pub run: BootView,
    pub news: Seq<UserEventView>,
}

/// What the window is told of a failure at last.
pub open spec fn failure_line(error: Seq<char>) -> UserEventView {
    UserEventOf::Log("[错误] "@ + error)
}

impl BootView {
    /// On to another phase, with these news.
    pub open spec fn to(self, phase: BootPhase, news: Seq<UserEventView>) -> BootStep {
        BootStep { run: BootView { phase, ..self }, news }
    }

    /// A stage failed, which is the end.
    pub open spec fn fail_in(self, stage: Stage, error: Seq<char>) -> BootStep {
        BootView { error, ..self }.to(
            BootPhase::Failed,
            seq![ui::status(stage, StageState::Failed, error), failure_line(error)],
        )
    }

    /// The installation and the build of the repository.
    pub open spec fn build(self) -> BuildRunView {
        builder::build_start(
            self.style,
            self.node,
            self.sync.repo_dir,
            self.cfg.build_script,
            self.cfg.install_args,
            self.workspace_root,
            self.pnpm_cmd,
            self.sync.commit,
            self.inherited_path,
        )
    }

    /// What the window is told when the repository is about to be built.
    pub open spec fn installing(self) -> UserEventView {
        ui::status(
            Stage::Install,
            StageState::Running,
            i18n::phrase(self.lang, Phrase::DetailInstalling),
        )
    }

    /// What the window is told when the host is about to be started.
    pub open spec fn starting_host(self) -> UserEventView {
        ui::status(
            Stage::Host,
            StageState::Running,
            i18n::phrase(self.lang, Phrase::DetailStartingHost),
        )
    }

    /// The repository is synced: if it has not changed, built pages may be there already;
    /// else it is built.
    pub open spec fn synced(self, sync: SyncResultView) -> BootStep {
        let done = ui::status(Stage::Repo, StageState::Done, ui::sync_detail(self.lang, sync));
        let next = BootView { sync, ..self };
        if sync.updated {
            next.to(BootPhase::Build, seq![done, self.installing()])
        } else {
            next.to(BootPhase::LookPages, seq![done])
        }
    }

    /// Built pages were looked for: if there are some, they are used and nothing is
    /// installed or built; else the repository is built.
    pub open spec fn looked(self, root_has_index: bool, apps: Seq<(Seq<char>, bool)>) -> BootStep {
        match builder::dist_of(self.style, self.sync.repo_dir, root_has_index, apps) {
            Ok(dist) => self.to(
                BootPhase::Host,
                seq![
                    ui::status(
                        Stage::Install,
                        StageState::Done,
                        i18n::phrase(self.lang, Phrase::DetailInstallDone),
                    ),
                    ui::status(
                        Stage::Build,
                        StageState::Done,
                        i18n::phrase(self.lang, Phrase::DetailBuildCached),
                    ),
                    UserEventOf::Ready(dist),
                    self.starting_host(),
                ],
            ),
            Err(_) => self.to(BootPhase::Build, seq![self.installing()]),
        }
    }

    /// What an event leads to. An event that does not answer what was wanted changes nothing.
    pub open spec fn step(self, e: BootEventView) -> BootStep {
        match (self.phase, e) {
            (BootPhase::MakeWorkspace, BootEventView::Done) => self.to(
                BootPhase::Node,
                seq![
                    ui::status(
                        Stage::Node,
                        StageState::Running,
                        ui::filled(self.lang, Phrase::DetailPrepareNode, self.cfg.node_version),
                    ),
                ],
            ),
            (BootPhase::MakeWorkspace, BootEventView::Failed { error }) => {
                let e = "创建工作目录 "@ + self.workspace_root + " 失败: "@ + error;
                BootView { error: e, ..self }.to(BootPhase::Failed, seq![failure_line(e)])
            },
            (BootPhase::Node, BootEventView::NodeReady { paths }) => BootView {
                node: paths,
                ..self
            }.to(
                BootPhase::Pnpm,
                seq![
                    ui::status(
                        Stage::Node,
                        StageState::Done,
                        ui::filled(self.lang, Phrase::DetailNodeReady, self.cfg.node_version),
                    ),
                ],
            ),
            (BootPhase::Node, BootEventView::Failed { error }) => self.fail_in(
                Stage::Node,
                error,
            ),
            (BootPhase::Pnpm, BootEventView::PnpmReady { entry }) => BootView {
                pnpm_cmd: entry,
                ..self
            }.to(
                BootPhase::Sync,
                seq![
                    ui::status(
                        Stage::Repo,
                        StageState::Running,
                        i18n::phrase(self.lang, Phrase::DetailCheckRemote),
                    ),
                ],
            ),
            (BootPhase::Pnpm, BootEventView::Failed { error }) => self.fail_in(
                Stage::Node,
                error,
            ),
            (BootPhase::Sync, BootEventView::Synced { sync }) => self.synced(sync),
            (BootPhase::Sync, BootEventView::Failed { error }) => self.fail_in(
                Stage::Repo,
                error,
            ),
            (BootPhase::LookPages, BootEventView::Pages { root_has_index, apps }) => self.looked(
                root_has_index,
                apps,
            ),
            (BootPhase::Build, BootEventView::Built { dist }) => self.to(
                BootPhase::Host,
                seq![
                    ui::status(
                        Stage::Build,
                        StageState::Done,
                        i18n::phrase(self.lang, Phrase::DetailBuildDone),
                    ),
                    UserEventOf::Ready(dist),
                    self.starting_host(),
                ],
            ),
            (BootPhase::Build, BootEventView::NotBuilt { stage, error }) => self.fail_in(
                ui::stage_of_build(stage),
                error,
            ),
            (BootPhase::Host, BootEventView::HostReady { url }) => BootView { url, ..self }.to(
                BootPhase::Mark,
                seq![
                    ui::status(
                        Stage::Host,
                        StageState::Done,
                        ui::filled(self.lang, Phrase::DetailHostReady, url),
                    ),
                ],
            ),
            (BootPhase::Host, BootEventView::Failed { error }) => self.fail_in(
                Stage::Host,
                error,
            ),
            (BootPhase::Mark, BootEventView::Done) => self.to(
                BootPhase::ReadVersion,
                Seq::empty(),
            ),
            (BootPhase::Mark, BootEventView::Failed { .. }) => self.to(
                BootPhase::ReadVersion,
                Seq::empty(),
            ),
            (BootPhase::ReadVersion, BootEventView::Package { json }) => self.to(
                BootPhase::Done,
                seq![
                    UserEventOf::HostReady {
                        url: self.url,
                        version_label: ui::label(self.sync.commit, ui::dsh_version(json)),
                    },
                ],
            ),
            _ => BootStep { run: self, news: Seq::empty() },
        }
    }

    /// What is wanted next.
    pub open spec fn wanted(self) -> BootOpView {
        match self.phase {
            BootPhase::MakeWorkspace => BootOpView::MakeDir { dir: self.workspace_root },
            BootPhase::Node => BootOpView::Node {
                run: node_manager::node_start(
                    self.style,
                    self.workspace_root,
                    self.cfg.node_mirror,
                    self.cfg.node_version,
                    self.os,
                    self.arch,
                ),
            },
            BootPhase::Pnpm => BootOpView::Pnpm {
                run: node_manager::pnpm_start(
                    self.style,
                    self.workspace_root,
                    self.cfg.pnpm_version,
                ),
            },
            BootPhase::Sync => BootOpView::Sync {
                run: repo_manager::sync_start(
                    self.style,
                    self.workspace_root,
                    self.cfg.repo_url,
                    self.cfg.branch,
                    self.cfg.node_version,
                ),
            },
            BootPhase::LookPages => BootOpView::LookPages {
                root_index: builder::root_index(self.style, self.sync.repo_dir),
                apps: path::join(self.style, self.sync.repo_dir, "apps"@),
            },
            BootPhase::Build => BootOpView::Build { run: self.build() },
            BootPhase::Host => BootOpView::Host {
                run: host_runner::host_start(
                    self.style,
                    self.node,
                    self.sync.repo_dir,
                    self.workspace_root,
                    self.inherited_path,
                    self.cfg.host_port,
                    self.cfg.read_timeout,
                ),
            },
            BootPhase::Mark => BootOpView::Mark,
            BootPhase::ReadVersion => BootOpView::ReadPackage {
                path: path::join(self.style, self.sync.repo_dir, "package.json"@),
            },
            BootPhase::Done => BootOpView::Finish {
                sources: watcher::source_start(self.style, self.sync.repo_dir),
                build: self.build(),
            },
            BootPhase::Failed => BootOpView::Fail { error: self.error },
        }
    }

    /// Whether what the window is to be told of `e` can be put together.
    pub open spec fn can_tell(self, e: BootEventView) -> bool {
        match (self.phase, e) {
            (BootPhase::Sync, BootEventView::Synced { sync }) => ui::is_shown(sync),
            (BootPhase::ReadVersion, BootEventView::Package { .. }) => ui::is_titled(
                self.sync.commit,
            ),
            _ => true,
        }
    }
}

/// How the start of the runtime begins.
pub open spec fn boot_start(
    style: PathStyle,
    lang: Lang,
    os: Seq<char>,
    arch: Seq<char>,
    inherited_path: Seq<char>,
    workspace_root: Seq<char>,
    cfg: ConfigView,
) -> BootView {
    BootView {
        style,
        lang,
        os,
        arch,
        inherited_path,
        workspace_root,
        cfg,
        node: NodePathsOf { node: Seq::empty(), npm: Seq::empty(), bin_dir: Seq::empty() },
        pnpm_cmd: None,
        sync: SyncResultView { updated: false, commit: None, repo_dir: Seq::empty() },
        url: Seq::empty(),
        error: Seq::empty(),
        phase: BootPhase::MakeWorkspace,
    }
}

/// Begins to start the runtime in `workspace_root`.
pub fn run_bootstrap(
    style: PathStyle,
    lang: Lang,
    os: &str,
    arch: &str,
    inherited_path: &str,
    workspace_root: &str,
    cfg: Config,
) -> (r: BootRun)
    ensures
        r@ == boot_start(style, lang, os@, arch@, inherited_path@, workspace_root@, cfg@),
{
    BootRun {
        style,
        lang,
        os: copy_text(os),
        arch: copy_text(arch),
        inherited_path: copy_text(inherited_path),
        workspace_root: copy_text(workspace_root),
        cfg,
        node: NodePathsOf { node: String::new(), npm: String::new(), bin_dir: String::new() },
        pnpm_cmd: None,
        sync: SyncResult { updated: false, commit: None, repo_dir: String::new() },
        url: String::new(),
        error: String::new(),
        phase: BootPhase::MakeWorkspace,
    }
}

/// A list of one event.
fn one(e: UserEvent) -> (r: Vec<UserEvent>)
    ensures
        ui::events(r@) == seq![e@],
{
    let mut out: Vec<UserEvent> = Vec::new();
    out.push(e);
    assert(ui::events(out@) =~= seq![e@]);
    out
}

impl BootRun {
    /// What is wanted next.
    pub fn action(&self) -> (r: BootOp)
        ensures
            r@ == self@.wanted(),
    {
        match self.phase {
            BootPhase::MakeWorkspace => BootOp::MakeDir {
                dir: copy_text(self.workspace_root.as_str()),
            },
            BootPhase::Node => BootOp::Node {
                run: ensure_node(
                    self.style,
                    self.workspace_root.as_str(),
                    self.cfg.node_mirror.as_str(),
                    self.cfg.node_version.as_str(),
                    self.os.as_str(),
                    self.arch.as_str(),
                ),
            },
            BootPhase::Pnpm => BootOp::Pnpm {
                run: ensure_pnpm(
                    self.style,
                    self.workspace_root.as_str(),
                    borrow_opt(&self.cfg.pnpm_version),
                ),
            },
            BootPhase::Sync => BootOp::Sync {
                run: sync_repo(
                    self.style,
                    self.workspace_root.as_str(),
                    self.cfg.repo_url.as_str(),
                    self.cfg.branch.as_str(),
                    self.cfg.node_version.as_str(),
                ),
            },
            BootPhase::LookPages => BootOp::LookPages {
                root_index: root_index_path(self.style, self.sync.repo_dir.as_str()),
                apps: join_path(self.style, self.sync.repo_dir.as_str(), "apps"),
            },
            BootPhase::Build => BootOp::Build { run: self.build_run() },
            BootPhase::Host => BootOp::Host {
                run: spawn_web_host(
                    self.style,
                    &self.node,
                    self.sync.repo_dir.as_str(),
                    self.workspace_root.as_str(),
                    self.inherited_path.as_str(),
                    self.cfg.host_port,
                    self.cfg.read_timeout,
                ),
            },
            BootPhase::Mark => BootOp::Mark,
            BootPhase::ReadVersion => BootOp::ReadPackage {
                path: join_path(self.style, self.sync.repo_dir.as_str(), "package.json"),
            },
            BootPhase::Done => BootOp::Finish {
                sources: follow_sources(self.style, self.sync.repo_dir.as_str()),
                build: self.build_run(),
            },
            BootPhase::Failed => BootOp::Fail { error: copy_text(self.error.as_str()) },
        }
    }

    fn set_failed_in(&mut self, stage: Stage, error: String) -> (r: Vec<UserEvent>)
        ensures
            (BootStep { run: final(self)@, news: ui::events(r@) }) == old(self)@.fail_in(
                stage,
                error@,
            ),
    {
        let mut news = one(
            status_event(stage, StageState::Failed, copy_text(error.as_str())),
        );
        let ghost before = news@;
        news.push(UserEventOf::Log(cat2("[错误] ", error.as_str())));
        assert(ui::events(news@) =~= ui::events(before).push(failure_line(error@)));
        assert(ui::events(news@) =~= seq![
            ui::status(stage, StageState::Failed, error@),
            failure_line(error@),
        ]);
        self.error = error;
        self.phase = BootPhase::Failed;
        news
    }

    fn build_run(&self) -> (r: BuildRun)
        ensures
            r@ == self@.build(),
    {
        run_build(
            self.style,
            &self.node,
            self.sync.repo_dir.as_str(),
            self.cfg.build_script.as_str(),
            self.cfg.install_args.as_slice(),
            self.workspace_root.as_str(),
            copy_opt(&self.pnpm_cmd),
            copy_opt(&self.sync.commit),
            self.inherited_path.as_str(),
        )
    }

    fn installing_event(&self) -> (r: UserEvent)
        ensures
            r@ == self@.installing(),
    {
        status_event(
            Stage::Install,
            StageState::Running,
            copy_text(self.lang.detail_installing()),
        )
    }

    fn starting_host_event(&self) -> (r: UserEvent)
        ensures
            r@ == self@.starting_host(),
    {
        status_event(
            Stage::Host,
            StageState::Running,
            copy_text(self.lang.detail_starting_host()),
        )
    }

    fn set_synced(&mut self, sync: SyncResult) -> (r: Vec<UserEvent>)
        requires
            ui::is_shown(sync@),
        ensures
            (BootStep { run: final(self)@, news: ui::events(r@) }) == old(self)@.synced(sync@),
    {
        let detail = sync_result_detail(&sync, self.lang);
        let mut news = one(status_event(Stage::Repo, StageState::Done, detail));
        let ghost before = news@;
        if sync.updated {
            let e = self.installing_event();
            news.push(e);
            assert(ui::events(news@) =~= ui::events(before).push(e@));
            assert(ui::events(news@) =~= self@.synced(sync@).news);
            self.phase = BootPhase::Build;
        } else {
            self.phase = BootPhase::LookPages;
        }
        self.sync = sync;
        news
    }

    fn set_looked(&mut self, root_has_index: bool, apps: Vec<AppEntry>) -> (r: Vec<UserEvent>)
        ensures
            (BootStep { run: final(self)@, news: ui::events(r@) }) == old(self)@.looked(
                root_has_index,
                builder::entries(apps@),
            ),
    {
        match locate_dist_dir(
            self.style,
            self.sync.repo_dir.as_str(),
            root_has_index,
            apps.as_slice(),
        ) {
            Ok(dist) => {
                let mut news: Vec<UserEvent> = Vec::new();
                news.push(
                    status_event(
                        Stage::Install,
                        StageState::Done,
                        copy_text(self.lang.detail_install_done()),
                    ),
                );
                news.push(
                    status_event(
                        Stage::Build,
                        StageState::Done,
                        copy_text(self.lang.detail_build_cached()),
                    ),
                );
                news.push(UserEventOf::Ready(dist));
                news.push(self.starting_host_event());
                assert(ui::events(news@) =~= self@.looked(
                    root_has_index,
                    builder::entries(apps@),
                ).news);
                self.phase = BootPhase::Host;
                news
            },
            Err(_) => {
                let news = one(self.installing_event());
                self.phase = BootPhase::Build;
                news
            },
        }
    }

    fn set_built(&mut self, dist: String) -> (r: Vec<UserEvent>)
        requires
            old(self)@.phase == BootPhase::Build,
        ensures
            (BootStep { run: final(self)@, news: ui::events(r@) }) == old(self)@.step(
                BootEventView::Built { dist: dist@ },
            ),
    {
        let mut news: Vec<UserEvent> = Vec::new();
        news.push(
            status_event(
                Stage::Build,
                StageState::Done,
                copy_text(self.lang.detail_build_done()),
            ),
        );
        news.push(UserEventOf::Ready(copy_text(dist.as_str())));
        news.push(self.starting_host_event());
        assert(ui::events(news@) =~= self@.step(BootEventView::Built { dist: dist@ }).news);
        self.phase = BootPhase::Host;
        news
    }

    /// Tests whether what the window is to be told of `e` can be put together.
    pub fn tells(&self, e: &BootEvent) -> (r: bool)
        ensures
            r == self@.can_tell(e@),
    {
        match (self.phase, e) {
            (BootPhase::Sync, BootEvent::Synced { sync }) => can_be_shown(sync),
            (BootPhase::ReadVersion, BootEvent::Package { .. }) => can_be_titled(
                borrow_opt(&self.sync.commit),
            ),
            _ => true,
        }
    }

    /// Takes note of what the wanted operation came to, and says what the window is to be
    /// told.
    pub fn advance(&mut self, e: BootEvent) -> (r: Vec<UserEvent>)
        requires
            old(self)@.can_tell(e@),
        ensures
            (BootStep { run: final(self)@, news: ui::events(r@) }) == old(self)@.step(e@),
    {
        match (self.phase, e) {
            (BootPhase::MakeWorkspace, BootEvent::Done) => {
                let detail = fill(
                    self.lang.detail_prepare_node(),
                    self.cfg.node_version.as_str(),
                );
                self.phase = BootPhase::Node;
                one(status_event(Stage::Node, StageState::Running, detail))
            },
            (BootPhase::MakeWorkspace, BootEvent::Failed { error }) => {
                let m = cat4(
                    "创建工作目录 ",
                    self.workspace_root.as_str(),
                    " 失败: ",
                    error.as_str(),
                );
                let news = one(UserEventOf::Log(cat2("[错误] ", m.as_str())));
                self.error = m;
                self.phase = BootPhase::Failed;
                news
            },
            (BootPhase::Node, BootEvent::NodeReady { paths }) => {
                let detail = fill(self.lang.detail_node_ready(), self.cfg.node_version.as_str());
                self.node = paths;
                self.phase = BootPhase::Pnpm;
                one(status_event(Stage::Node, StageState::Done, detail))
            },
            (BootPhase::Node, BootEvent::Failed { error }) => self.set_failed_in(
                Stage::Node,
                error,
            ),
            (BootPhase::Pnpm, BootEvent::PnpmReady { entry }) => {
                self.pnpm_cmd = entry;
                self.phase = BootPhase::Sync;
                one(
                    status_event(
                        Stage::Repo,
                        StageState::Running,
                        copy_text(self.lang.detail_check_remote()),
                    ),
                )
            },
            (BootPhase::Pnpm, BootEvent::Failed { error }) => self.set_failed_in(
                Stage::Node,
                error,
            ),
            (BootPhase::Sync, BootEvent::Synced { sync }) => self.set_synced(sync),
            (BootPhase::Sync, BootEvent::Failed { error }) => self.set_failed_in(
                Stage::Repo,
                error,
            ),
            (BootPhase::LookPages, BootEvent::Pages { root_has_index, apps }) => self.set_looked(
                root_has_index,
                apps,
            ),
            (BootPhase::Build, BootEvent::Built { dist }) => self.set_built(dist),
            (BootPhase::Build, BootEvent::NotBuilt { stage, error }) => self.set_failed_in(
                build_stage(stage),
                error,
            ),
            (BootPhase::Host, BootEvent::HostReady { url }) => {
                let detail = fill(self.lang.detail_host_ready(), url.as_str());
                self.url = url;
                self.phase = BootPhase::Mark;
                one(status_event(Stage::Host, StageState::Done, detail))
            },
            (BootPhase::Host, BootEvent::Failed { error }) => self.set_failed_in(
                Stage::Host,
                error,
            ),
            (BootPhase::Mark, BootEvent::Done) => self.set_marked(),
            (BootPhase::Mark, BootEvent::Failed { .. }) => self.set_marked(),
            (BootPhase::ReadVersion, BootEvent::Package { json }) => {
                let label = build_version_label(&self.sync, borrow_opt(&json));
                let url = copy_text(self.url.as_str());
                self.phase = BootPhase::Done;
                one(UserEventOf::HostReady { url, version_label: label })
            },
            _ => {
                let news: Vec<UserEvent> = Vec::new();
                assert(ui::events(news@) =~= Seq::<UserEventView>::empty());
                news
            },
        }
    }

    fn set_marked(&mut self) -> (r: Vec<UserEvent>)
        ensures
            (BootStep { run: final(self)@, news: ui::events(r@) }) == old(self)@.to(
                BootPhase::ReadVersion,
                Seq::empty(),
            ),
    {
        self.phase = BootPhase::ReadVersion;
        let news: Vec<UserEvent> = Vec::new();
        assert(ui::events(news@) =~= Seq::<UserEventView>::empty());
        news
    }
}

// ---------------------------------------------------------------------------
// Laws
// ---------------------------------------------------------------------------

/// How far a phase is from the start.
pub open spec fn rank(phase: BootPhase) -> nat {
    match phase {
        BootPhase::MakeWorkspace => 0,
        BootPhase::Node => 1,
        BootPhase::Pnpm => 2,
        BootPhase::Sync => 3,
        BootPhase::LookPages => 4,
        BootPhase::Build => 5,
        BootPhase::Host => 6,
        BootPhase::Mark => 7,
        BootPhase::ReadVersion => 8,
        BootPhase::Done => 9,
        BootPhase::Failed => 9,
    }
}

/// The start never goes back: an event leaves everything as it is and says nothing, or leads
/// on.
pub proof fn lemma_start_goes_on(run: BootView, e: BootEventView)
    ensures
        ({
            let s = run.step(e);
            (s.run == run && s.news == Seq::<UserEventView>::empty()) || rank(run.phase) < rank(
                s.run.phase,
            )
        }),
{
}

/// Any failure but that of noting that the host is ready is the end: the stage in which it
/// came is marked as failed, with the reason, and the reason is logged. Making the working
/// directory belongs to no stage, so there it is only logged.
pub proof fn lemma_failing_stage_is_marked(run: BootView, e: BootEventView)
    requires
        run.phase != BootPhase::Failed,
        run.step(e).run.phase == BootPhase::Failed,
    ensures
        ({
            let s = run.step(e);
            &&& s.run.wanted() == (BootOpView::Fail { error: s.run.error })
            &&& s.news.last() == failure_line(s.run.error)
            &&& run.phase == BootPhase::MakeWorkspace ==> s.news.len() == 1
            &&& run.phase != BootPhase::MakeWorkspace ==> s.news.len() == 2 && s.news[0]
                == ui::status(
                match run.phase {
                    BootPhase::Node | BootPhase::Pnpm => Stage::Node,
                    BootPhase::Sync => Stage::Repo,
                    BootPhase::Build => ui::stage_of_build(e->stage),
                    _ => Stage::Host,
                },
                StageState::Failed,
                s.run.error,
            )
        }),
{
}

/// The window is sent to the host exactly when the start is over, and this is the last that
/// it is told.
pub proof fn lemma_host_comes_last(run: BootView, e: BootEventView)
    ensures
        (run.phase != BootPhase::Done && run.step(e).run.phase == BootPhase::Done) <==> (exists|
            i: int,
        |
            0 <= i < run.step(e).news.len() && (#[trigger] run.step(e).news[i]) is HostReady),
        run.phase != BootPhase::Done && run.step(e).run.phase == BootPhase::Done
            ==> run.step(e).news.len() == 1 && run.step(e).news[0] == (UserEventView::HostReady {
            url: run.url,
            version_label: ui::label(run.sync.commit, ui::dsh_version(e->json)),
        }),
{
    if run.phase != BootPhase::Done && run.step(e).run.phase == BootPhase::Done {
        assert(run.step(e).news[0] is HostReady);
    }
}

/// Everything that the start can learn from outside.
pub ghost struct BootWorld {
    pub make: Result<(), Seq<char>>,
    pub node: Result<NodePathsOf<Seq<char>>, Seq<char>>,
    pub pnpm: Result<Option<Seq<char>>, Seq<char>>,
    pub sync: Result<SyncResultView, Seq<char>>,
    pub root_has_index: bool,
    pub apps: Seq<(Seq<char>, bool)>,
    pub build: Result<Seq<char>, Seq<char>>,
    pub build_stage: BuildStage,
    pub host: Result<Seq<char>, Seq<char>>,
    pub mark: Result<(), Seq<char>>,
    pub package_json: Option<Seq<char>>,
}

impl BootWorld {
    /// The event that answers the operation of a phase.
    pub open spec fn answer(self, phase: BootPhase) -> BootEventView {
        match phase {
            BootPhase::MakeWorkspace => match self.make {
                Ok(_) => BootEventView::Done,
                Err(error) => BootEventView::Failed { error },
            },
            BootPhase::Node => match self.node {
                Ok(paths) => BootEventView::NodeReady { paths },
                Err(error) => BootEventView::Failed { error },
            },
            BootPhase::Pnpm => match self.pnpm {
                Ok(entry) => BootEventView::PnpmReady { entry },
                Err(error) => BootEventView::Failed { error },
            },
            BootPhase::Sync => match self.sync {
                Ok(sync) => BootEventView::Synced { sync },
                Err(error) => BootEventView::Failed { error },
            },
            BootPhase::LookPages => BootEventView::Pages {
                root_has_index: self.root_has_index,
                apps: self.apps,
            },
            BootPhase::Build => match self.build {
                Ok(dist) => BootEventView::Built { dist },
                Err(error) => BootEventView::NotBuilt { stage: self.build_stage, error },
            },
            BootPhase::Host => match self.host {
                Ok(url) => BootEventView::HostReady { url },
                Err(error) => BootEventView::Failed { error },
            },
            BootPhase::Mark => match self.mark {
                Ok(_) => BootEventView::Done,
                Err(error) => BootEventView::Failed { error },
            },
            BootPhase::ReadVersion => BootEventView::Package { json: self.package_json },
            _ => BootEventView::Done,
        }
    }

    /// Whether the built pages that are there are used: the repository has not changed, and
    /// there are some.
    pub open spec fn short_way(self, style: PathStyle) -> bool {
        self.sync matches Ok(sync) && !sync.updated && builder::dist_of(
            style,
            sync.repo_dir,
            self.root_has_index,
            self.apps,
        ) is Ok
    }
}

/// Where the start stands after `n` operations, and everything that the window was told.
pub open spec fn boot_after(run: BootView, w: BootWorld, n: nat) -> BootStep
    decreases n,
{
    if n == 0 {
        BootStep { run, news: Seq::empty() }
    } else {
        let before = boot_after(run, w, (n - 1) as nat);
        let s = before.run.step(w.answer(before.run.phase));
        BootStep { run: s.run, news: before.news + s.news }
    }
}

/// The first four operations: everything up to the sync.
proof fn lemma_boot_until_sync(run: BootView, w: BootWorld)
    requires
        run.phase == BootPhase::MakeWorkspace,
    ensures
        ({
            let s = boot_after(run, w, 4).run;
            &&& s.style == run.style
            &&& s.lang == run.lang
            &&& (w.make is Ok && w.node is Ok && w.pnpm is Ok && w.sync is Ok) ==> {
                &&& s.phase == (if w.sync->Ok_0.updated {
                    BootPhase::Build
                } else {
                    BootPhase::LookPages
                })
                &&& s.sync == w.sync->Ok_0
            }
            &&& !(w.make is Ok && w.node is Ok && w.pnpm is Ok && w.sync is Ok) ==> s.phase
                == BootPhase::Failed
        }),
{
    reveal_with_fuel(boot_after, 5);
}

/// One more operation, of a start that is over, changes nothing.
proof fn lemma_boot_stays(run: BootView, w: BootWorld, n: nat)
    requires
        boot_after(run, w, n).run.phase == BootPhase::Done || boot_after(run, w, n).run.phase
            == BootPhase::Failed,
    ensures
        boot_after(run, w, n + 1) == boot_after(run, w, n),
{
    let s = boot_after(run, w, n);
    assert(s.news + Seq::<UserEventView>::empty() =~= s.news);
}

/// The last that the window is told, if the start succeeds.
pub open spec fn last_news(w: BootWorld) -> UserEventView {
    UserEventOf::HostReady {
        url: w.host->Ok_0,
        version_label: ui::label(w.sync->Ok_0.commit, ui::dsh_version(w.package_json)),
    }
}

/// The last three operations: everything from the host on.
proof fn lemma_boot_from_host(run: BootView, w: BootWorld, n: nat)
    requires
        boot_after(run, w, n).run.phase == BootPhase::Host,
        w.sync is Ok,
        boot_after(run, w, n).run.sync == w.sync->Ok_0,
    ensures
        ({
            let end = boot_after(run, w, n + 3);
            &&& end.run.phase == (if w.host is Ok {
                BootPhase::Done
            } else {
                BootPhase::Failed
            })
            &&& end.run.phase == BootPhase::Done ==> end.news.last() == last_news(w)
        }),
{
    let s0 = boot_after(run, w, n);
    let s1 = boot_after(run, w, n + 1);
    let s2 = boot_after(run, w, n + 2);
    let s3 = boot_after(run, w, n + 3);
    assert(s1.run == s0.run.step(w.answer(BootPhase::Host)).run);
    if w.host is Ok {
        assert(s1.run.phase == BootPhase::Mark);
        assert(s2.run == s1.run.step(w.answer(BootPhase::Mark)).run);
        assert(s2.run.phase == BootPhase::ReadVersion);
        assert(s3.news =~= s2.news + seq![last_news(w)]);
    } else {
        lemma_boot_stays(run, w, n + 1);
        lemma_boot_stays(run, w, n + 2);
    }
}

/// The operation that follows the look for built pages, or that took its place.
proof fn lemma_boot_from_build(run: BootView, w: BootWorld, n: nat)
    requires
        boot_after(run, w, n).run.phase == BootPhase::Build,
        w.sync is Ok,
        boot_after(run, w, n).run.sync == w.sync->Ok_0,
    ensures
        ({
            let end = boot_after(run, w, n + 4);
            &&& end.run.phase == (if w.build is Ok && w.host is Ok {
                BootPhase::Done
            } else {
                BootPhase::Failed
            })
            &&& end.run.phase == BootPhase::Done ==> end.news.last() == last_news(w)
        }),
{
    let s0 = boot_after(run, w, n);
    let s1 = boot_after(run, w, n + 1);
    assert(s1.run == s0.run.step(w.answer(BootPhase::Build)).run);
    if w.build is Ok {
        lemma_boot_from_host(run, w, n + 1);
    } else {
        lemma_boot_stays(run, w, n + 1);
        lemma_boot_stays(run, w, n + 2);
        lemma_boot_stays(run, w, n + 3);
    }
}

/// The last five operations: everything behind the sync.
proof fn lemma_boot_from_sync(run: BootView, w: BootWorld, n: nat)
    requires
        boot_after(run, w, n).run.phase == (if w.sync->Ok_0.updated {
            BootPhase::Build
        } else {
            BootPhase::LookPages
        }),
        w.sync is Ok,
        boot_after(run, w, n).run.sync == w.sync->Ok_0,
    ensures
        ({
            let m = boot_after(run, w, n).run;
            let end = boot_after(run, w, n + 5);
            &&& end.run.phase == (if (w.short_way(m.style) || w.build is Ok) && w.host is Ok {
                BootPhase::Done
            } else {
                BootPhase::Failed
            })
            &&& end.run.phase == BootPhase::Done ==> end.news.last() == last_news(w)
        }),
{
    let s0 = boot_after(run, w, n);
    let s1 = boot_after(run, w, n + 1);
    if w.sync->Ok_0.updated {
        lemma_boot_from_build(run, w, n);
        lemma_boot_stays(run, w, n + 4);
    } else {
        assert(s1.run == s0.run.step(w.answer(BootPhase::LookPages)).run);
        if w.short_way(s0.run.style) {
            lemma_boot_from_host(run, w, n + 1);
            lemma_boot_stays(run, w, n + 4);
        } else {
            lemma_boot_from_build(run, w, n + 1);
        }
    }
}

/// What the start comes to, whatever the outside answers: it is over after at most nine
/// operations, and it succeeds exactly if the working directory, Node.js, pnpm, the sync, the
/// built pages and the host do; built pages that are there already spare the build, and that
/// the host's readiness cannot be noted is no failure. The last that the window is told is
/// then the address of the host and the version.
pub proof fn lemma_boot_outcome(run: BootView, w: BootWorld)
    requires
        run.phase == BootPhase::MakeWorkspace,
    ensures
        ({
            let end = boot_after(run, w, 9);
            let ready = w.make is Ok && w.node is Ok && w.pnpm is Ok && w.sync is Ok;
            &&& end.run.phase == (if ready && (w.short_way(run.style) || w.build is Ok)
                && w.host is Ok {
                BootPhase::Done
            } else {
                BootPhase::Failed
            })
            &&& end.run.phase == BootPhase::Done ==> end.news.last() == last_news(w)
        }),
{
    lemma_boot_until_sync(run, w);
    if w.make is Ok && w.node is Ok && w.pnpm is Ok && w.sync is Ok {
        lemma_boot_from_sync(run, w, 4);
    } else {
        lemma_boot_stays(run, w, 4);
        lemma_boot_stays(run, w, 5);
        lemma_boot_stays(run, w, 6);
        lemma_boot_stays(run, w, 7);
        lemma_boot_stays(run, w, 8);
    }
}

/// A repository that has not changed and has built pages is neither installed nor built
/// again: the start goes from the look for the pages right to the host, and the window is
/// told that both stages are done and where the pages are.
pub proof fn lemma_unchanged_repository_is_not_built(
    run: BootView,
    root_has_index: bool,
    apps: Seq<(Seq<char>, bool)>,
    dist: Seq<char>,
)
    requires
        run.phase == BootPhase::LookPages,
        builder::dist_of(run.style, run.sync.repo_dir, root_has_index, apps) == Ok::<
            Seq<char>,
            Seq<char>,
        >(dist),
    ensures
        ({
            let s = run.step(BootEventView::Pages { root_has_index, apps });
            &&& s.run.phase == BootPhase::Host
            &&& s.news[0] == ui::status(
                Stage::Install,
                StageState::Done,
                i18n::phrase(run.lang, Phrase::DetailInstallDone),
            )
            &&& s.news[1] == ui::status(
                Stage::Build,
                StageState::Done,
                i18n::phrase(run.lang, Phrase::DetailBuildCached),
            )
            &&& s.news[2] == UserEventView::Ready(dist)
        }),
{
}

/// The built pages are announced before the host is started, and only then.
pub proof fn lemma_pages_before_host(run: BootView, e: BootEventView)
    ensures
        (run.phase != BootPhase::Host && run.step(e).run.phase == BootPhase::Host) <==> (exists|
            i: int,
        |
            0 <= i < run.step(e).news.len() && (#[trigger] run.step(e).news[i]) is Ready),
{
    if run.phase != BootPhase::Host && run.step(e).run.phase == BootPhase::Host {
        if run.phase == BootPhase::LookPages {
            assert(run.step(e).news[2] is Ready);
        } else {
            assert(run.step(e).news[1] is Ready);
        }
    }
}

/// A runtime that has started watches the sources of its repository: changes of them lead,
/// once they have settled, to the build that the start itself goes through with, and, if that
/// succeeds, to a reload.
pub proof fn lemma_changed_sources_are_built(
    run: BootView,
    burst: Seq<SourceEventView>,
    i: int,
    j: int,
)
    requires
        run.phase == BootPhase::Done,
        forall|k: int| 0 <= k < burst.len() ==> watcher::is_change(#[trigger] burst[k]),
        0 <= i < burst.len(),
        burst[i] matches SourceEventView::Changed { paths } && 0 <= j < paths.len()
            && watcher::is_source(run.style, run.sync.repo_dir, paths[j]),
    ensures
        run.wanted() matches BootOpView::Finish { sources, build } && {
            let settled = burst.push(SourceEventView::Silence);
            let built = settled.push(SourceEventView::Built);
            &&& build == run.build()
            &&& BootView { phase: BootPhase::Build, ..run }.wanted() == (BootOpView::Build {
                run: build,
            })
            &&& watcher::source_fed(sources, settled).wanted() == SourceOpOf::<Seq<char>>::Build
            &&& watcher::source_fed(sources, built).wanted() == SourceOpOf::<Seq<char>>::Reload
        },
{
    let sources = watcher::source_start(run.style, run.sync.repo_dir);
    let paths = burst[i]->paths;
    assert(watcher::is_source(run.style, run.sync.repo_dir, paths[j]));
    assert(sources.concerns(burst[i]));
    watcher::lemma_one_build_per_burst(sources, burst, Ok(()));
}

/// Without settings for the host, whatever else the file holds, the host is started on a port
/// that the system chooses, without a browser, and may take three minutes.
pub proof fn lemma_host_without_settings(run: BootView, raw: RawConfig)
    requires
        run.phase == BootPhase::Host,
        run.cfg == raw.flattened(),
        raw.host.port is None,
        raw.host.read_timeout is None,
    ensures
        run.wanted() matches BootOpView::Host { run: host } && {
            &&& host.call().program == run.node.node
            &&& host.call().args == seq![host.entry(), "web"@, "--port"@, "0"@, "--no-open"@]
            &&& host.call().dir == run.sync.repo_dir
            &&& host.log_line() == "$ node apps/cli/lib/bin.js web --port "@ + "0"@
                + " --no-open  (DSH_HOME="@ + host.home() + ")"@
            &&& host.limit() == 180 * (host_runner::SECOND as nat)
        },
{
    reveal_strlit("0");
    assert(text::decimal(0) =~= "0"@);
}

/// How a start that came from its beginning can stand, whatever the outside answered: with
/// everything that it was begun with, and with what the stages behind it came to.
spec fn boot_stands(s: BootView, start: BootView, w: BootWorld) -> bool {
    let p = s.phase;
    let early = p == BootPhase::MakeWorkspace || p == BootPhase::Node;
    let unsynced = early || p == BootPhase::Pnpm || p == BootPhase::Sync;
    let late = p == BootPhase::Mark || p == BootPhase::ReadVersion || p == BootPhase::Done;
    &&& s.style == start.style
    &&& s.lang == start.lang
    &&& s.os == start.os
    &&& s.arch == start.arch
    &&& s.inherited_path == start.inherited_path
    &&& s.workspace_root == start.workspace_root
    &&& s.cfg == start.cfg
    &&& p != BootPhase::Failed ==> {
        &&& !early ==> w.node == Ok::<NodePathsOf<Seq<char>>, Seq<char>>(s.node)
        &&& !early && p != BootPhase::Pnpm ==> w.pnpm == Ok::<Option<Seq<char>>, Seq<char>>(
            s.pnpm_cmd,
        )
        &&& !unsynced ==> w.sync == Ok::<SyncResultView, Seq<char>>(s.sync)
        &&& late ==> w.host == Ok::<Seq<char>, Seq<char>>(s.url)
        &&& p == BootPhase::LookPages ==> !s.sync.updated
    }
}

proof fn lemma_boot_stands(start: BootView, w: BootWorld, n: nat)
    requires
        start.phase == BootPhase::MakeWorkspace,
    ensures
        boot_stands(boot_after(start, w, n).run, start, w),
    decreases n,
{
    if n > 0 {
        lemma_boot_stands(start, w, (n - 1) as nat);
    }
}

/// Every stage is started with what the configuration says and with what the stages before it
/// came to, however far the start has got and whatever the outside answers: Node.js in the
/// configured version, from the configured mirror, for this machine; pnpm in the configured
/// version; the sync of the configured branch of the configured repository; the build of what
/// was synced, with the provided programs, the configured script and arguments, and the commit;
/// the host on the configured port, for the configured time. All of it is kept in the working
/// directory that the start was given.
#[verifier::rlimit(40)]
pub proof fn lemma_boot_wants(
    style: PathStyle,
    lang: Lang,
    os: Seq<char>,
    arch: Seq<char>,
    inherited_path: Seq<char>,
    root: Seq<char>,
    cfg: ConfigView,
    w: BootWorld,
    n: nat,
)
    ensures
        ({
            let start = boot_start(style, lang, os, arch, inherited_path, root, cfg);
            let s = boot_after(start, w, n).run;
            let node = w.node->Ok_0;
            let sync = w.sync->Ok_0;
            let built = builder::build_start(
                style,
                node,
                sync.repo_dir,
                cfg.build_script,
                cfg.install_args,
                root,
                w.pnpm->Ok_0,
                sync.commit,
                inherited_path,
            );
            match s.wanted() {
                BootOpView::MakeDir { dir } => dir == root,
                BootOpView::Node { run } => run == node_manager::node_start(
                    style,
                    root,
                    cfg.node_mirror,
                    cfg.node_version,
                    os,
                    arch,
                ),
                BootOpView::Pnpm { run } => run == node_manager::pnpm_start(
                    style,
                    root,
                    cfg.pnpm_version,
                ),
                BootOpView::Sync { run } => {
                    &&& run == repo_manager::sync_start(
                        style,
                        root,
                        cfg.repo_url,
                        cfg.branch,
                        cfg.node_version,
                    )
                    &&& run.branch == cfg.branch
                    &&& run.node_version == cfg.node_version
                },
                BootOpView::LookPages { root_index, apps } => {
                    &&& root_index == path::join(
                        style,
                        path::join(style, sync.repo_dir, "dist"@),
                        "index.html"@,
                    )
                    &&& apps == path::join(style, sync.repo_dir, "apps"@)
                    &&& !sync.updated
                },
                BootOpView::Build { run } => {
                    &&& run == built
                    &&& run.script == cfg.build_script
                    &&& run.install_args == cfg.install_args
                    &&& run.repo_dir == sync.repo_dir
                    &&& run.commit == sync.commit
                },
                BootOpView::Host { run } => {
                    &&& run == host_runner::host_start(
                        style,
                        node,
                        sync.repo_dir,
                        root,
                        inherited_path,
                        cfg.host_port,
                        cfg.read_timeout,
                    )
                    &&& run.port == cfg.host_port
                    &&& run.timeout == cfg.read_timeout
                },
                BootOpView::Mark => w.host is Ok,
                BootOpView::ReadPackage { path } => path == path::join(
                    style,
                    sync.repo_dir,
                    "package.json"@,
                ),
                BootOpView::Finish { sources, build } => {
                    &&& build == built
                    &&& sources == watcher::source_start(style, sync.repo_dir)
                    &&& w.host is Ok
                },
                BootOpView::Fail { error } => error == s.error,
            }
        }),
{
    let start = boot_start(style, lang, os, arch, inherited_path, root, cfg);
    lemma_boot_stands(start, w, n);
}

/// The order of the stages: the working directory, Node.js, pnpm, the sync; then the build if
/// something was fetched, else a look for built pages, and the build if there are none; then
/// the host, the note that it was ready, and the version.
pub proof fn lemma_boot_order(run: BootView, e: BootEventView)
    ensures
        ({
            let next = run.step(e).run.phase;
            next == run.phase || next == BootPhase::Failed || match run.phase {
                BootPhase::MakeWorkspace => next == BootPhase::Node && e is Done,
                BootPhase::Node => next == BootPhase::Pnpm && e is NodeReady,
                BootPhase::Pnpm => next == BootPhase::Sync && e is PnpmReady,
                BootPhase::Sync => e matches BootEventView::Synced { sync } && next == (
                if sync.updated {
                    BootPhase::Build
                } else {
                    BootPhase::LookPages
                }),
                BootPhase::LookPages => e matches BootEventView::Pages { root_has_index, apps }
                    && next == (if builder::dist_of(
                    run.style,
                    run.sync.repo_dir,
                    root_has_index,
                    apps,
                ) is Ok {
                    BootPhase::Host
                } else {
                    BootPhase::Build
                }),
                BootPhase::Build => next == BootPhase::Host && e is Built,
                BootPhase::Host => next == BootPhase::Mark && e is HostReady,
                BootPhase::Mark => next == BootPhase::ReadVersion && (e is Done || e is Failed),
                BootPhase::ReadVersion => next == BootPhase::Done && e is Package,
                _ => false,
            }
        }),
        run.step(e).run.phase == BootPhase::Failed && run.phase != BootPhase::Failed ==> {
            &&& e is Failed || e is NotBuilt
            &&& run.phase != BootPhase::Mark
        },
{
}

/// What the window is told on the way: each stage that is begun as running, each that is done
/// as done, with what came of it; the version of Node.js, the address of the host, and the
/// version of what is shown in full.
#[verifier::rlimit(60)]
pub proof fn lemma_boot_tells(
    run: BootView,
    paths: NodePathsOf<Seq<char>>,
    entry: Option<Seq<char>>,
    sync: SyncResultView,
    x: Seq<char>,
    package: Option<Seq<char>>,
)
    ensures
        run.phase == BootPhase::MakeWorkspace ==> run.step(BootEventView::Done).news == seq![
            UserEventView::Status {
                stage: Stage::Node,
                state: StageState::Running,
                detail: ui::filled(run.lang, Phrase::DetailPrepareNode, run.cfg.node_version),
            },
        ],
        run.phase == BootPhase::Node ==> run.step(BootEventView::NodeReady { paths }).news == seq![
            UserEventView::Status {
                stage: Stage::Node,
                state: StageState::Done,
                detail: ui::filled(run.lang, Phrase::DetailNodeReady, run.cfg.node_version),
            },
        ],
        run.phase == BootPhase::Pnpm ==> run.step(BootEventView::PnpmReady { entry }).news == seq![
            UserEventView::Status {
                stage: Stage::Repo,
                state: StageState::Running,
                detail: i18n::phrase(run.lang, Phrase::DetailCheckRemote),
            },
        ],
        run.phase == BootPhase::Sync ==> {
            let news = run.step(BootEventView::Synced { sync }).news;
            &&& news.len() == if sync.updated {
                2nat
            } else {
                1nat
            }
            &&& news[0] == (UserEventView::Status {
                stage: Stage::Repo,
                state: StageState::Done,
                detail: ui::sync_detail(run.lang, sync),
            })
            &&& sync.updated ==> news[1] == (UserEventView::Status {
                stage: Stage::Install,
                state: StageState::Running,
                detail: i18n::phrase(run.lang, Phrase::DetailInstalling),
            })
        },
        run.phase == BootPhase::Build ==> run.step(BootEventView::Built { dist: x }).news == seq![
            UserEventView::Status {
                stage: Stage::Build,
                state: StageState::Done,
                detail: i18n::phrase(run.lang, Phrase::DetailBuildDone),
            },
            UserEventView::Ready(x),
            UserEventView::Status {
                stage: Stage::Host,
                state: StageState::Running,
                detail: i18n::phrase(run.lang, Phrase::DetailStartingHost),
            },
        ],
        run.phase == BootPhase::Host ==> run.step(BootEventView::HostReady { url: x }).news
            == seq![
            UserEventView::Status {
                stage: Stage::Host,
                state: StageState::Done,
                detail: ui::filled(run.lang, Phrase::DetailHostReady, x),
            },
        ],
        run.phase == BootPhase::ReadVersion ==> run.step(
            BootEventView::Package { json: package },
        ).news == seq![
            UserEventView::HostReady {
                url: run.url,
                version_label: ui::label(run.sync.commit, match package {
                    Some(t) => json::json_field(t, "version"@),
                    None => None,
                }),
            },
        ],
        run.phase == BootPhase::Mark ==> run.step(BootEventView::Done).news.len() == 0,
        run.phase == BootPhase::Mark ==> run.step(BootEventView::Failed { error: x }).news.len()
            == 0,
{
}

/// What the window is told of built pages that are there already: that both stages are done,
/// where the pages are, and that the host is about to be started. Where there are none, that
/// the installation runs.
pub proof fn lemma_looking_for_pages_is_told(
    run: BootView,
    root_has_index: bool,
    apps: Seq<(Seq<char>, bool)>,
)
    requires
        run.phase == BootPhase::LookPages,
    ensures
        ({
            let s = run.step(BootEventView::Pages { root_has_index, apps });
            match builder::dist_of(run.style, run.sync.repo_dir, root_has_index, apps) {
                Ok(dist) => s.news == seq![
                    UserEventView::Status {
                        stage: Stage::Install,
                        state: StageState::Done,
                        detail: i18n::phrase(run.lang, Phrase::DetailInstallDone),
                    },
                    UserEventView::Status {
                        stage: Stage::Build,
                        state: StageState::Done,
                        detail: i18n::phrase(run.lang, Phrase::DetailBuildCached),
                    },
                    UserEventView::Ready(dist),
                    UserEventView::Status {
                        stage: Stage::Host,
                        state: StageState::Running,
                        detail: i18n::phrase(run.lang, Phrase::DetailStartingHost),
                    },
                ],
                Err(_) => s.news == seq![
                    UserEventView::Status {
                        stage: Stage::Install,
                        state: StageState::Running,
                        detail: i18n::phrase(run.lang, Phrase::DetailInstalling),
                    },
                ],
            }
        }),
{
}

/// A stage that fails is the end: the window is told which one and why, and the reason is
/// logged and reported as it is. That the working directory cannot be made is told with its
/// path.
pub proof fn lemma_failure_ends_the_start(run: BootView, x: Seq<char>, stage: BuildStage)
    ensures
        ({
            let s = run.step(BootEventView::Failed { error: x });
            let failed = match run.phase {
                BootPhase::Node | BootPhase::Pnpm => Some(Stage::Node),
                BootPhase::Sync => Some(Stage::Repo),
                BootPhase::Host => Some(Stage::Host),
                _ => None,
            };
            &&& failed matches Some(st) ==> {
                &&& s.run.wanted() == (BootOpView::Fail { error: x })
                &&& s.news == seq![
                    UserEventView::Status { stage: st, state: StageState::Failed, detail: x },
                    UserEventView::Log("[错误] "@ + x),
                ]
            }
            &&& run.phase == BootPhase::MakeWorkspace ==> {
                let e = "创建工作目录 "@ + run.workspace_root + " 失败: "@ + x;
                &&& s.run.wanted() == (BootOpView::Fail { error: e })
                &&& s.news == seq![UserEventView::Log("[错误] "@ + e)]
            }
        }),
        run.phase == BootPhase::Build ==> {
            let s = run.step(BootEventView::NotBuilt { stage, error: x });
            &&& s.run.wanted() == (BootOpView::Fail { error: x })
            &&& s.news == seq![
                UserEventView::Status {
                    stage: if stage == BuildStage::Install {
                        Stage::Install
                    } else {
                        Stage::Build
                    },
                    state: StageState::Failed,
                    detail: x,
                },
                UserEventView::Log("[错误] "@ + x),
            ]
        },
{
}

} // verus!
