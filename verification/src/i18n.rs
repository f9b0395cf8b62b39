//! Language of the user interface: how it is detected and what is shown in it.

use vstd::prelude::*;
use vstd::string::*;

use crate::text;
use crate::text::{copy_text, decimal_text, lower_of};

verus! {

broadcast use vstd::string::group_string_axioms;

/// Language of the user interface.
#[derive(Clone, Copy, PartialEq, Eq, Structural, Debug)]
pub enum Lang {
    /// Chinese.
    Zh,
    /// English.
    En,
}

/// The fixed texts of the user interface.
pub enum Phrase {
    /// The value of the `lang` attribute of the status page.
    LangAttr,
    /// What a stage shows before it has started.
    PendingDetail,
    /// Name of the stage that provides the Node runtime.
    StageNode,
    /// Name of the stage that syncs the repository.
    StageRepo,
    /// Name of the stage that installs dependencies.
    StageInstall,
    /// Name of the stage that builds the artifacts.
    StageBuild,
    /// Name of the stage that starts the host.
    StageHost,
    /// Title of the status page.
    Title,
    /// Heading of the status page.
    Heading,
    /// The Node runtime is being prepared; `{}` stands for its version.
    DetailPrepareNode,
    /// The Node runtime is ready; `{}` stands for its version.
    DetailNodeReady,
    /// The remote repository is being asked for updates.
    DetailCheckRemote,
    /// Dependencies are being installed.
    DetailInstalling,
    /// Dependencies are installed.
    DetailInstallDone,
    /// The build script is running.
    DetailBuilding,
    /// The build is complete.
    DetailBuildDone,
    /// The host is being started.
    DetailStartingHost,
    /// The host is ready; `{}` stands for its URL.
    DetailHostReady,
    /// The local repository is up to date and is used as it is.
    DetailSyncCached,
    /// The repository was updated; `{}` stands for the commit.
    DetailSyncUpdatedSha,
    /// The repository was synced again because the remote could not be asked.
    DetailSyncUpdatedFallback,
    /// The artifacts that are there are used as they are.
    DetailBuildCached,
    /// The sync starts.
    ProgressSyncStart,
    /// The repository is being extracted.
    ProgressExtracting,
    /// The sync is complete.
    ProgressSyncDone,
    /// The installation is complete.
    ProgressInstallDone,
    /// The build is complete.
    ProgressBuildDone,
}

/// The text of a phrase in a language.
pub open spec fn phrase(lang: Lang, p: Phrase) -> Seq<char> {
    match lang {
        Lang::Zh => match p {
            Phrase::LangAttr => "zh-CN"@,
            Phrase::PendingDetail => "等待开始"@,
            Phrase::StageNode => "Node 运行时"@,
            Phrase::StageRepo => "同步仓库"@,
            Phrase::StageInstall => "安装依赖"@,
            Phrase::StageBuild => "构建产物"@,
            Phrase::StageHost => "启动宿主"@,
            Phrase::Title => "DeepSeek Harness Runtime - 启动中"@,
            Phrase::Heading => "DeepSeek Harness Runtime · 正在准备应用…"@,
            Phrase::DetailPrepareNode => "准备 Node v{}"@,
            Phrase::DetailNodeReady => "Node v{} 就绪"@,
            Phrase::DetailCheckRemote => "检查远端更新"@,
            Phrase::DetailInstalling => "安装依赖"@,
            Phrase::DetailInstallDone => "依赖安装完成"@,
            Phrase::DetailBuilding => "执行构建脚本"@,
            Phrase::DetailBuildDone => "构建完成"@,
            Phrase::DetailStartingHost => "启动 dsh web 宿主"@,
            Phrase::DetailHostReady => "宿主就绪 {}"@,
            Phrase::DetailSyncCached => "版本一致，复用本地启动宿主"@,
            Phrase::DetailSyncUpdatedSha => "已更新至 {}"@,
            Phrase::DetailSyncUpdatedFallback => "已重新同步（API 回退）"@,
            Phrase::DetailBuildCached => "版本一致，复用已有构建产物，跳过构建"@,
            Phrase::ProgressSyncStart => "开始同步..."@,
            Phrase::ProgressExtracting => "正在解压仓库..."@,
            Phrase::ProgressSyncDone => "仓库同步完成"@,
            Phrase::ProgressInstallDone => "依赖安装完成"@,
            Phrase::ProgressBuildDone => "构建完成"@,
        },
        Lang::En => match p {
            Phrase::LangAttr => "en"@,
            Phrase::PendingDetail => "Pending"@,
            Phrase::StageNode => "Node Runtime"@,
            Phrase::StageRepo => "Sync Repo"@,
            Phrase::StageInstall => "Install Dependencies"@,
            Phrase::StageBuild => "Build Artifacts"@,
            Phrase::StageHost => "Start Host"@,
            Phrase::Title => "DeepSeek Harness Runtime - Starting"@,
            Phrase::Heading => "DeepSeek Harness Runtime · Preparing application…"@,
            Phrase::DetailPrepareNode => "Preparing Node v{}"@,
            Phrase::DetailNodeReady => "Node v{} ready"@,
            Phrase::DetailCheckRemote => "Checking remote updates"@,
            Phrase::DetailInstalling => "Installing dependencies"@,
            Phrase::DetailInstallDone => "Dependencies installed"@,
            Phrase::DetailBuilding => "Running build script"@,
            Phrase::DetailBuildDone => "Build complete"@,
            Phrase::DetailStartingHost => "Starting dsh web host"@,
            Phrase::DetailHostReady => "Host ready {}"@,
            Phrase::DetailSyncCached => "Version matches, reusing local to start host"@,
            Phrase::DetailSyncUpdatedSha => "Updated to {}"@,
            Phrase::DetailSyncUpdatedFallback => "Re-synced (API fallback)"@,
            Phrase::DetailBuildCached => "Version matches, reusing existing build, skipping build"@,
            Phrase::ProgressSyncStart => "Starting sync..."@,
            Phrase::ProgressExtracting => "Extracting repository..."@,
            Phrase::ProgressSyncDone => "Repository synced"@,
            Phrase::ProgressInstallDone => "Dependencies installed"@,
            Phrase::ProgressBuildDone => "Build complete"@,
        },
    }
}

/// The language that a locale stands for: Chinese if it starts with `zh`, in capitals or
/// not; English otherwise.
pub open spec fn lang_of(locale: Seq<char>) -> Lang {
    if locale.len() >= 2 && text::lower(locale.take(2)) == "zh"@ {
        Lang::Zh
    } else {
        Lang::En
    }
}

/// The language for what the system answered when asked for its locale: English if it
/// gave none.
pub open spec fn lang_of_answer(answer: Option<Seq<char>>) -> Lang {
    match answer {
        Some(locale) => lang_of(locale),
        None => Lang::En,
    }
}

/// The text for a download of known size.
pub open spec fn download_pct_text(
    lang: Lang,
    pct: nat,
    done_mb: Seq<char>,
    total_mb: Seq<char>,
) -> Seq<char> {
    match lang {
        Lang::Zh => "下载中 "@ + text::decimal(pct) + "% （"@ + done_mb + " MB / "@ + total_mb
            + " MB）"@,
        Lang::En => "Downloading "@ + text::decimal(pct) + "% ("@ + done_mb + " MB / "@ + total_mb
            + " MB)"@,
    }
}

/// The text for a download of unknown size.
pub open spec fn download_mb_text(lang: Lang, done_mb: Seq<char>) -> Seq<char> {
    match lang {
        Lang::Zh => "下载中 "@ + done_mb + " MB ..."@,
        Lang::En => "Downloading "@ + done_mb + " MB ..."@,
    }
}

/// The text for a command that has written `n` lines so far.
pub open spec fn lines_text(lang: Lang, n: nat) -> Seq<char> {
    match lang {
        Lang::Zh => "（已输出 "@ + text::decimal(n) + " 行）"@,
        Lang::En => "("@ + text::decimal(n) + " lines output)"@,
    }
}

/// Asks the system for its locale, by `sys_locale::get_locale`. The answer depends on the
/// machine and its settings, so nothing is promised of it.
#[verifier::external_body]
fn system_locale() -> (r: Option<String>)
{
    sys_locale::get_locale()
}

impl Lang {
    /// Detects the language from the locale of the system. The answer of the system is
    /// handed to [`Lang::from_answer`], which decides.
    pub fn detect() -> (r: Lang)
        ensures
            exists|answer: Option<Seq<char>>| r == #[trigger] lang_of_answer(answer),
    {
        let answer = system_locale();
        let ghost seen = text::opt_text(answer);
        match answer {
            Some(locale) => {
                let r = Lang::from_answer(Some(locale.as_str()));
                assert(r == lang_of_answer(seen));
                r
            },
            None => {
                let r = Lang::from_answer(None);
                assert(r == lang_of_answer(seen));
                r
            },
        }
    }

    /// The language for what the system answered when asked for its locale.
    pub fn from_answer(answer: Option<&str>) -> (r: Lang)
        ensures
            r == lang_of_answer(text::opt_str(answer)),
    {
        match answer {
            Some(locale) => Lang::from_locale(locale),
            None => Lang::En,
        }
    }

    /// The language that a locale such as `zh-CN` or `en-US` stands for.
    pub fn from_locale(locale: &str) -> (r: Lang)
        ensures
            r == lang_of(locale@),
    {
        proof {
            reveal_strlit("zh");
        }
        if locale.unicode_len() < 2 {
            return Lang::En;
        }
        let ghost head = text::lower(locale@.take(2));
        assert(head.len() == 2);
        assert(head[0] == text::lower_char(locale@[0]));
        assert(head[1] == text::lower_char(locale@[1]));
        if lower_of(locale.get_char(0)) == 'z' && lower_of(locale.get_char(1)) == 'h' {
            assert(head =~= "zh"@);
            Lang::Zh
        } else {
            Lang::En
        }
    }

    /// The value of the `lang` attribute of the status page.
    pub fn lang_attr(self) -> (r: &'static str)
        ensures
            r@ == phrase(self, Phrase::LangAttr),
    {
        match self {
            Lang::Zh => "zh-CN",
            Lang::En => "en",
        }
    }

    /// What a stage shows before it has started.
    pub fn pending_detail(self) -> (r: &'static str)
        ensures
            r@ == phrase(self, Phrase::PendingDetail),
    {
        match self {
            Lang::Zh => "等待开始",
            Lang::En => "Pending",
        }
    }

    /// Name of the stage that provides the Node runtime.
    pub fn stage_node(self) -> (r: &'static str)
        ensures
            r@ == phrase(self, Phrase::StageNode),
    {
        match self {
            Lang::Zh => "Node 运行时",
            Lang::En => "Node Runtime",
        }
    }

    /// Name of the stage that syncs the repository.
    pub fn stage_repo(self) -> (r: &'static str)
        ensures
            r@ == phrase(self, Phrase::StageRepo),
    {
        match self {
            Lang::Zh => "同步仓库",
            Lang::En => "Sync Repo",
        }
    }

    /// Name of the stage that installs dependencies.
    pub fn stage_install(self) -> (r: &'static str)
        ensures
            r@ == phrase(self, Phrase::StageInstall),
    {
        match self {
            Lang::Zh => "安装依赖",
            Lang::En => "Install Dependencies",
        }
    }

    /// Name of the stage that builds the artifacts.
    pub fn stage_build(self) -> (r: &'static str)
        ensures
            r@ == phrase(self, Phrase::StageBuild),
    {
        match self {
            Lang::Zh => "构建产物",
            Lang::En => "Build Artifacts",
        }
    }

    /// Name of the stage that starts the host.
    pub fn stage_host(self) -> (r: &'static str)
        ensures
            r@ == phrase(self, Phrase::StageHost),
    {
        match self {
            Lang::Zh => "启动宿主",
            Lang::En => "Start Host",
        }
    }

    /// Title of the status page.
    pub fn title(self) -> (r: &'static str)
        ensures
            r@ == phrase(self, Phrase::Title),
    {
        match self {
            Lang::Zh => "DeepSeek Harness Runtime - 启动中",
            Lang::En => "DeepSeek Harness Runtime - Starting",
        }
    }

    /// Heading of the status page.
    pub fn heading(self) -> (r: &'static str)
        ensures
            r@ == phrase(self, Phrase::Heading),
    {
        match self {
            Lang::Zh => "DeepSeek Harness Runtime · 正在准备应用…",
            Lang::En => "DeepSeek Harness Runtime · Preparing application…",
        }
    }

    /// The Node runtime is being prepared; `{}` stands for its version.
    pub fn detail_prepare_node(self) -> (r: &'static str)
        ensures
            r@ == phrase(self, Phrase::DetailPrepareNode),
    {
        match self {
            Lang::Zh => "准备 Node v{}",
            Lang::En => "Preparing Node v{}",
        }
    }

    /// The Node runtime is ready; `{}` stands for its version.
    pub fn detail_node_ready(self) -> (r: &'static str)
        ensures
            r@ == phrase(self, Phrase::DetailNodeReady),
    {
        match self {
            Lang::Zh => "Node v{} 就绪",
            Lang::En => "Node v{} ready",
        }
    }

    /// The remote repository is being asked for updates.
    pub fn detail_check_remote(self) -> (r: &'static str)
        ensures
            r@ == phrase(self, Phrase::DetailCheckRemote),
    {
        match self {
            Lang::Zh => "检查远端更新",
            Lang::En => "Checking remote updates",
        }
    }

    /// Dependencies are being installed.
    pub fn detail_installing(self) -> (r: &'static str)
        ensures
            r@ == phrase(self, Phrase::DetailInstalling),
    {
        match self {
            Lang::Zh => "安装依赖",
            Lang::En => "Installing dependencies",
        }
    }

    /// Dependencies are installed.
    pub fn detail_install_done(self) -> (r: &'static str)
        ensures
            r@ == phrase(self, Phrase::DetailInstallDone),
    {
        match self {
            Lang::Zh => "依赖安装完成",
            Lang::En => "Dependencies installed",
        }
    }

    /// The build script is running.
    pub fn detail_building(self) -> (r: &'static str)
        ensures
            r@ == phrase(self, Phrase::DetailBuilding),
    {
        match self {
            Lang::Zh => "执行构建脚本",
            Lang::En => "Running build script",
        }
    }

    /// The build is complete.
    pub fn detail_build_done(self) -> (r: &'static str)
        ensures
            r@ == phrase(self, Phrase::DetailBuildDone),
    {
        match self {
            Lang::Zh => "构建完成",
            Lang::En => "Build complete",
        }
    }

    /// The host is being started.
    pub fn detail_starting_host(self) -> (r: &'static str)
        ensures
            r@ == phrase(self, Phrase::DetailStartingHost),
    {
        match self {
            Lang::Zh => "启动 dsh web 宿主",
            Lang::En => "Starting dsh web host",
        }
    }

    /// The host is ready; `{}` stands for its URL.
    pub fn detail_host_ready(self) -> (r: &'static str)
        ensures
            r@ == phrase(self, Phrase::DetailHostReady),
    {
        match self {
            Lang::Zh => "宿主就绪 {}",
            Lang::En => "Host ready {}",
        }
    }

    /// The local repository is up to date and is used as it is.
    pub fn detail_sync_cached(self) -> (r: &'static str)
        ensures
            r@ == phrase(self, Phrase::DetailSyncCached),
    {
        match self {
            Lang::Zh => "版本一致，复用本地启动宿主",
            Lang::En => "Version matches, reusing local to start host",
        }
    }

    /// The repository was updated; `{}` stands for the commit.
    pub fn detail_sync_updated_sha(self) -> (r: &'static str)
        ensures
            r@ == phrase(self, Phrase::DetailSyncUpdatedSha),
    {
        match self {
            Lang::Zh => "已更新至 {}",
            Lang::En => "Updated to {}",
        }
    }

    /// The repository was synced again because the remote could not be asked.
    pub fn detail_sync_updated_fallback(self) -> (r: &'static str)
        ensures
            r@ == phrase(self, Phrase::DetailSyncUpdatedFallback),
    {
        match self {
            Lang::Zh => "已重新同步（API 回退）",
            Lang::En => "Re-synced (API fallback)",
        }
    }

    /// The artifacts that are there are used as they are.
    pub fn detail_build_cached(self) -> (r: &'static str)
        ensures
            r@ == phrase(self, Phrase::DetailBuildCached),
    {
        match self {
            Lang::Zh => "版本一致，复用已有构建产物，跳过构建",
            Lang::En => "Version matches, reusing existing build, skipping build",
        }
    }

    /// The sync starts.
    pub fn progress_sync_start(self) -> (r: &'static str)
        ensures
            r@ == phrase(self, Phrase::ProgressSyncStart),
    {
        match self {
            Lang::Zh => "开始同步...",
            Lang::En => "Starting sync...",
        }
    }

    /// The repository is being extracted.
    pub fn progress_extracting(self) -> (r: &'static str)
        ensures
            r@ == phrase(self, Phrase::ProgressExtracting),
    {
        match self {
            Lang::Zh => "正在解压仓库...",
            Lang::En => "Extracting repository...",
        }
    }

    /// The sync is complete.
    pub fn progress_sync_done(self) -> (r: &'static str)
        ensures
            r@ == phrase(self, Phrase::ProgressSyncDone),
    {
        match self {
            Lang::Zh => "仓库同步完成",
            Lang::En => "Repository synced",
        }
    }

    /// The installation is complete.
    pub fn progress_install_done(self) -> (r: &'static str)
        ensures
            r@ == phrase(self, Phrase::ProgressInstallDone),
    {
        match self {
            Lang::Zh => "依赖安装完成",
            Lang::En => "Dependencies installed",
        }
    }

    /// The build is complete.
    pub fn progress_build_done(self) -> (r: &'static str)
        ensures
            r@ == phrase(self, Phrase::ProgressBuildDone),
    {
        match self {
            Lang::Zh => "构建完成",
            Lang::En => "Build complete",
        }
    }

    /// A download of known size: the share in per cent, and the two sizes in megabytes as
    /// they are to be shown.
    pub fn progress_download_pct(self, pct: u64, done_mb: &str, total_mb: &str) -> (r: String)
        ensures
            r@ == download_pct_text(self, pct as nat, done_mb@, total_mb@),
    {
        match self {
            Lang::Zh => {
                let mut out = copy_text("下载中 ");
                out.append(decimal_text(pct).as_str());
                out.append("% （");
                out.append(done_mb);
                out.append(" MB / ");
                out.append(total_mb);
                out.append(" MB）");
                out
            },
            Lang::En => {
                let mut out = copy_text("Downloading ");
                out.append(decimal_text(pct).as_str());
                out.append("% (");
                out.append(done_mb);
                out.append(" MB / ");
                out.append(total_mb);
                out.append(" MB)");
                out
            },
        }
    }

    /// A download of unknown size: how many megabytes are there.
    pub fn progress_download_mb(self, done_mb: &str) -> (r: String)
        ensures
            r@ == download_mb_text(self, done_mb@),
    {
        let mut out = match self {
            Lang::Zh => copy_text("下载中 "),
            Lang::En => copy_text("Downloading "),
        };
        out.append(done_mb);
        out.append(" MB ...");
        out
    }

    /// How many lines a command has written.
    pub fn progress_lines(self, n: u64) -> (r: String)
        ensures
            r@ == lines_text(self, n as nat),
    {
        match self {
            Lang::Zh => {
                let mut out = copy_text("（已输出 ");
                out.append(decimal_text(n).as_str());
                out.append(" 行）");
                out
            },
            Lang::En => {
                let mut out = copy_text("(");
                out.append(decimal_text(n).as_str());
                out.append(" lines output)");
                out
            },
        }
    }
}

/// Every phrase differs between the two languages.
pub proof fn lemma_phrases_differ(p: Phrase)
    ensures
        phrase(Lang::Zh, p) != phrase(Lang::En, p),
{
    reveal_strlit("zh-CN");
    reveal_strlit("en");
    reveal_strlit("等待开始");
    reveal_strlit("Pending");
    reveal_strlit("Node 运行时");
    reveal_strlit("Node Runtime");
    reveal_strlit("同步仓库");
    reveal_strlit("Sync Repo");
    reveal_strlit("安装依赖");
    reveal_strlit("Install Dependencies");
    reveal_strlit("构建产物");
    reveal_strlit("Build Artifacts");
    reveal_strlit("启动宿主");
    reveal_strlit("Start Host");
    reveal_strlit("DeepSeek Harness Runtime - 启动中");
    reveal_strlit("DeepSeek Harness Runtime - Starting");
    reveal_strlit("DeepSeek Harness Runtime · 正在准备应用…");
    reveal_strlit("DeepSeek Harness Runtime · Preparing application…");
    reveal_strlit("准备 Node v{}");
    reveal_strlit("Preparing Node v{}");
    reveal_strlit("Node v{} 就绪");
    reveal_strlit("Node v{} ready");
    reveal_strlit("检查远端更新");
    reveal_strlit("Checking remote updates");
    reveal_strlit("安装依赖");
    reveal_strlit("Installing dependencies");
    reveal_strlit("依赖安装完成");
    reveal_strlit("Dependencies installed");
    reveal_strlit("执行构建脚本");
    reveal_strlit("Running build script");
    reveal_strlit("构建完成");
    reveal_strlit("Build complete");
    reveal_strlit("启动 dsh web 宿主");
    reveal_strlit("Starting dsh web host");
    reveal_strlit("宿主就绪 {}");
    reveal_strlit("Host ready {}");
    reveal_strlit("版本一致，复用本地启动宿主");
    reveal_strlit("Version matches, reusing local to start host");
    reveal_strlit("已更新至 {}");
    reveal_strlit("Updated to {}");
    reveal_strlit("已重新同步（API 回退）");
    reveal_strlit("Re-synced (API fallback)");
    reveal_strlit("版本一致，复用已有构建产物，跳过构建");
    reveal_strlit("Version matches, reusing existing build, skipping build");
    reveal_strlit("开始同步...");
    reveal_strlit("Starting sync...");
    reveal_strlit("正在解压仓库...");
    reveal_strlit("Extracting repository...");
    reveal_strlit("仓库同步完成");
    reveal_strlit("Repository synced");
    reveal_strlit("依赖安装完成");
    reveal_strlit("Dependencies installed");
    reveal_strlit("构建完成");
    reveal_strlit("Build complete");
    let zh = phrase(Lang::Zh, p);
    let en = phrase(Lang::En, p);
    assert(zh.len() != en.len() || zh[0] != en[0]);
}

/// The texts about progress of the two languages differ too, whatever they are about.
pub proof fn lemma_progress_texts_differ(
    pct: nat,
    done_mb: Seq<char>,
    total_mb: Seq<char>,
    n: nat,
)
    ensures
        download_pct_text(Lang::Zh, pct, done_mb, total_mb) != download_pct_text(
            Lang::En,
            pct,
            done_mb,
            total_mb,
        ),
        download_mb_text(Lang::Zh, done_mb) != download_mb_text(Lang::En, done_mb),
        lines_text(Lang::Zh, n) != lines_text(Lang::En, n),
{
    reveal_strlit("下载中 ");
    reveal_strlit("Downloading ");
    reveal_strlit("（已输出 ");
    reveal_strlit("(");
    assert(download_pct_text(Lang::Zh, pct, done_mb, total_mb)[0] == '下');
    assert(download_pct_text(Lang::En, pct, done_mb, total_mb)[0] == 'D');
    assert(download_mb_text(Lang::Zh, done_mb)[0] == '下');
    assert(download_mb_text(Lang::En, done_mb)[0] == 'D');
    assert(lines_text(Lang::Zh, n)[0] == '（');
    assert(lines_text(Lang::En, n)[0] == '(');
}

/// Only the start of a locale counts.
pub proof fn lemma_locale_start_decides(locale: Seq<char>, more: Seq<char>)
    requires
        locale.len() >= 2,
    ensures
        lang_of(locale + more) == lang_of(locale),
{
    assert((locale + more).take(2) =~= locale.take(2));
}

/// A locale means Chinese exactly if its first two letters are `z` and `h`, in capitals or not;
/// no locale means English.
pub proof fn lemma_language_of_locale(locale: Seq<char>)
    ensures
        lang_of_answer(Some(locale)) == Lang::Zh <==> locale.len() >= 2 && (locale[0] == 'z'
            || locale[0] == 'Z') && (locale[1] == 'h' || locale[1] == 'H'),
        lang_of_answer(None) == Lang::En,
{
    reveal_strlit("zh");
    if locale.len() >= 2 {
        let head = text::lower(locale.take(2));
        assert(head.len() == 2);
        assert(head[0] == text::lower_char(locale[0]));
        assert(head[1] == text::lower_char(locale[1]));
        if head[0] == 'z' && head[1] == 'h' {
            assert(head =~= "zh"@);
        }
    }
}

/// What is shown of a download or a running command says how much there is of it: the whole per
/// cent and the two sizes, the one size that is known, or the number of lines.
pub proof fn lemma_progress_is_told(pct: nat, done: Seq<char>, all: Seq<char>, n: nat)
    ensures
        download_pct_text(Lang::Zh, pct, done, all) == "下载中 "@ + text::decimal(pct) + "% （"@
            + done + " MB / "@ + all + " MB）"@,
        download_pct_text(Lang::En, pct, done, all) == "Downloading "@ + text::decimal(pct)
            + "% ("@ + done + " MB / "@ + all + " MB)"@,
        download_mb_text(Lang::Zh, done) == "下载中 "@ + done + " MB ..."@,
        download_mb_text(Lang::En, done) == "Downloading "@ + done + " MB ..."@,
        lines_text(Lang::Zh, n) == "（已输出 "@ + text::decimal(n) + " 行）"@,
        lines_text(Lang::En, n) == "("@ + text::decimal(n) + " lines output)"@,
{
}

} // verus!
