//! What the start of the runtime tells the window, and what the window makes of it.

use vstd::prelude::*;
use vstd::string::*;

use crate::builder::{BuildPhase, BuildStage};
use crate::i18n;
use crate::i18n::{Lang, Phrase};
use crate::json;
use crate::json::text_field;
use crate::repo_manager::{SyncResult, SyncResultView};
use crate::text;
use crate::text::{
    borrow_opt, bytes_in, cat2, cat3, cat4, cat6, copy_text, cut_bytes, decimal_text, replace,
};
use crate::webview_app;
use crate::webview_app::{eval_log, eval_set_stage};

verus! {

broadcast use vstd::string::group_string_axioms;

// ---------------------------------------------------------------------------
// Stages
// ---------------------------------------------------------------------------

/// The stages of the start, as the user sees them.
#[derive(Clone, Copy, PartialEq, Eq, Structural, Debug)]
pub enum Stage {
    Node,
    Repo,
    Install,
    Build,
    Host,
}

/// The state of a stage.
#[derive(Clone, Copy, PartialEq, Eq, Structural, Debug)]
pub enum StageState {
    Running,
    Done,
    Failed,
}

impl Stage {
    /// The name of the stage in the page.
    pub open spec fn name(self) -> Seq<char> {
        match self {
            Stage::Node => "node"@,
            Stage::Repo => "repo"@,
            Stage::Install => "install"@,
            Stage::Build => "build"@,
            Stage::Host => "host"@,
        }
    }

    /// The name of the stage in the page.
    pub fn id(self) -> (r: &'static str)
        ensures
            r@ == self.name(),
    {
        match self {
            Stage::Node => "node",
            Stage::Repo => "repo",
            Stage::Install => "install",
            Stage::Build => "build",
            Stage::Host => "host",
        }
    }
}

impl StageState {
    /// The name of the state in the page.
    pub open spec fn name(self) -> Seq<char> {
        match self {
            StageState::Running => "running"@,
            StageState::Done => "done"@,
            StageState::Failed => "failed"@,
        }
    }

    /// The name of the state in the page.
    pub fn id(self) -> (r: &'static str)
        ensures
            r@ == self.name(),
    {
        match self {
            StageState::Running => "running",
            StageState::Done => "done",
            StageState::Failed => "failed",
        }
    }
}

/// The stage in which a build stands.
pub open spec fn stage_of_build(stage: BuildStage) -> Stage {
    match stage {
        BuildStage::Install => Stage::Install,
        BuildStage::Build => Stage::Build,
    }
}

/// The stage in which a build stands.
pub fn build_stage(stage: BuildStage) -> (r: Stage)
    ensures
        r == stage_of_build(stage),
{
    match stage {
        BuildStage::Install => Stage::Install,
        BuildStage::Build => Stage::Build,
    }
}

// ---------------------------------------------------------------------------
// Events
// ---------------------------------------------------------------------------

/// A progress: so much is done of so much. It is whole if everything is done.
#[derive(Clone, Copy, PartialEq, Eq, Structural, Debug)]
pub struct Fraction {
    pub done: u64,
    pub total: u64,
}

impl Fraction {
    /// Whether it is a number between 0 and 1.
    pub open spec fn in_range(self) -> bool {
        self.total > 0 && self.done <= self.total
    }
}

/// What the start tells the window; `T` is `String` in the program and `Seq<char>` in
/// contracts.
#[derive(Debug, PartialEq)]
pub enum UserEventOf<T> {
    /// A stage has come to another state.
    Status { stage: Stage, state: StageState, detail: T },
    /// A stage has made progress, of unknown extent if there is no fraction.
    Progress { stage: Stage, progress: Option<Fraction>, detail: Option<T> },
    /// A line of the log.
    Log(T),
    /// The built pages are in this directory.
    Ready(T),
    /// The host is ready at this address.
    HostReady { url: T, version_label: T },
    /// The built pages have changed.
    Reload,
}

/// What the start tells the window.
pub type UserEvent = UserEventOf<String>;

/// What the start tells the window, as plain text.
pub type UserEventView = UserEventOf<Seq<char>>;

impl View for UserEventOf<String> {
    type V = UserEventOf<Seq<char>>;

    open spec fn view(&self) -> UserEventOf<Seq<char>> {
        match *self {
            UserEventOf::Status { stage, state, detail } => UserEventOf::Status {
                stage,
                state,
                detail: detail@,
            },
            UserEventOf::Progress { stage, progress, detail } => UserEventOf::Progress {
                stage,
                progress,
                detail: text::opt_text(detail),
            },
            UserEventOf::Log(x) => UserEventOf::Log(x@),
            UserEventOf::Ready(x) => UserEventOf::Ready(x@),
            UserEventOf::HostReady { url, version_label } => UserEventOf::HostReady {
                url: url@,
                version_label: version_label@,
            },
            UserEventOf::Reload => UserEventOf::Reload,
        }
    }
}

/// The texts of a list of events.
pub open spec fn events(list: Seq<UserEvent>) -> Seq<UserEventView> {
    list.map_values(|e: UserEvent| e@)
}

/// A stage has come to another state.
pub open spec fn status(stage: Stage, state: StageState, detail: Seq<char>) -> UserEventView {
    UserEventOf::Status { stage, state, detail }
}

/// A stage has come to another state.
pub fn status_event(stage: Stage, state: StageState, detail: String) -> (r: UserEvent)
    ensures
        r@ == status(stage, state, detail@),
{
    UserEventOf::Status { stage, state, detail }
}

/// A phrase with `value` at its mark.
pub open spec fn filled(lang: Lang, p: Phrase, value: Seq<char>) -> Seq<char> {
    text::replaced(i18n::phrase(lang, p), "{}"@, value)
}

/// Puts `value` at the mark of a phrase.
pub fn fill(phrase: &str, value: &str) -> (r: String)
    ensures
        r@ == text::replaced(phrase@, "{}"@, value@),
{
    proof {
        reveal_strlit("{}");
    }
    replace(phrase, "{}", value)
}

// ---------------------------------------------------------------------------
// Progress
// ---------------------------------------------------------------------------

/// The number of bytes in a megabyte.
pub const MEGABYTE: u128 = 1_048_576;

/// How many tenths of a megabyte come nearest to a number of bytes; of two that are equally
/// near, the even one.
pub open spec fn megabyte_tenths(bytes: nat) -> nat {
    let whole = (bytes * 10) / (MEGABYTE as nat);
    let rest = (bytes * 10) % (MEGABYTE as nat);
    if 2 * rest > MEGABYTE || (2 * rest == MEGABYTE && whole % 2 == 1) {
        whole + 1
    } else {
        whole
    }
}

/// A number of bytes in megabytes, with one decimal.
pub open spec fn megabytes(bytes: nat) -> Seq<char> {
    text::decimal(megabyte_tenths(bytes) / 10) + "."@ + text::decimal(megabyte_tenths(bytes) % 10)
}

/// Writes a number of bytes in megabytes, with one decimal.
pub fn mb_text(bytes: u64) -> (r: String)
    ensures
        r@ == megabytes(bytes as nat),
{
    let scaled: u128 = (bytes as u128) * 10;
    let whole: u128 = scaled / MEGABYTE;
    let rest: u128 = scaled % MEGABYTE;
    let tenths: u128 = if 2 * rest > MEGABYTE || (2 * rest == MEGABYTE && whole % 2 == 1) {
        whole + 1
    } else {
        whole
    };
    assert(tenths <= u64::MAX as int);
    cat3(
        decimal_text((tenths / 10) as u64).as_str(),
        ".",
        decimal_text((tenths % 10) as u64).as_str(),
    )
}

/// The progress of a download: exact where the size is known and not zero.
pub open spec fn download_fraction(written: u64, total: Option<u64>) -> Option<Fraction> {
    match total {
        Some(t) => if t > 0 {
            Some(Fraction { done: if written <= t { written } else { t }, total: t })
        } else {
            None
        },
        None => None,
    }
}

/// What is shown of a download: how much of it is there, in per cent where the size is known
/// and not zero.
pub open spec fn download_text(lang: Lang, written: u64, total: Option<u64>) -> Seq<char> {
    match total {
        Some(t) => if t > 0 {
            i18n::download_pct_text(
                lang,
                (written as nat) * 100 / (t as nat),
                megabytes(written as nat),
                megabytes(t as nat),
            )
        } else {
            i18n::download_mb_text(lang, megabytes(written as nat))
        },
        None => i18n::download_mb_text(lang, megabytes(written as nat)),
    }
}

/// Whether the percentage of a download, if one is shown, can be worked out.
pub open spec fn is_counted(written: u64, total: Option<u64>) -> bool {
    total matches Some(t) ==> t > 0 ==> written * 100 <= u64::MAX
}

/// Tests whether the percentage of a download, if one is shown, can be worked out.
pub fn can_be_counted(written: u64, total: Option<u64>) -> (r: bool)
    ensures
        r == is_counted(written, total),
{
    match total {
        Some(t) => t == 0 || written <= u64::MAX / 100,
        None => true,
    }
}

/// The progress of a download, and what is shown of it.
pub fn download_progress_detail(lang: Lang, written: u64, total: Option<u64>) -> (r: (
    Option<Fraction>,
    String,
))
    requires
        is_counted(written, total),
    ensures
        r.0 == download_fraction(written, total),
        r.1@ == download_text(lang, written, total),
{
    let done_mb = mb_text(written);
    match total {
        Some(t) => {
            if t > 0 {
                let done: u64 = if written <= t {
                    written
                } else {
                    t
                };
                let pct: u64 = written * 100 / t;
                (
                    Some(Fraction { done, total: t }),
                    lang.progress_download_pct(pct, done_mb.as_str(), mb_text(t).as_str()),
                )
            } else {
                (None, lang.progress_download_mb(done_mb.as_str()))
            }
        },
        None => (None, lang.progress_download_mb(done_mb.as_str())),
    }
}

/// What the window is told of a download in a stage.
pub fn download_event(lang: Lang, stage: Stage, written: u64, total: Option<u64>) -> (r: UserEvent)
    requires
        is_counted(written, total),
    ensures
        r@ == (UserEventView::Progress {
            stage,
            progress: download_fraction(written, total),
            detail: Some(download_text(lang, written, total)),
        }),
{
    let (progress, detail) = download_progress_detail(lang, written, total);
    UserEventOf::Progress { stage, progress, detail: Some(detail) }
}

/// What the window is told when a tool has written a line: that it is alive.
pub fn activity_event(stage: Stage, detail: String) -> (r: UserEvent)
    ensures
        r@ == (UserEventView::Progress { stage, progress: None, detail: Some(detail@) }),
{
    UserEventOf::Progress { stage, progress: None, detail: Some(detail) }
}

/// What the window is told when a build goes on from one phase to another: once what the
/// repository needs is installed, that this stage is done and the next one runs; once the
/// build script has ended, that its progress is whole.
pub open spec fn build_news(lang: Lang, before: BuildPhase, after: BuildPhase) -> Seq<UserEventView> {
    if before == BuildPhase::Install && after == BuildPhase::Build {
        seq![
            UserEventOf::Progress {
                stage: Stage::Install,
                progress: Some(Fraction { done: 1, total: 1 }),
                detail: Some(i18n::phrase(lang, Phrase::ProgressInstallDone)),
            },
            status(
                Stage::Install,
                StageState::Done,
                i18n::phrase(lang, Phrase::DetailInstallDone),
            ),
            status(Stage::Build, StageState::Running, i18n::phrase(lang, Phrase::DetailBuilding)),
        ]
    } else if before == BuildPhase::Build && after == BuildPhase::Locate {
        seq![
            UserEventOf::Progress {
                stage: Stage::Build,
                progress: Some(Fraction { done: 1, total: 1 }),
                detail: Some(i18n::phrase(lang, Phrase::ProgressBuildDone)),
            },
        ]
    } else {
        Seq::empty()
    }
}

/// What the window is told when a build goes on from one phase to another.
pub fn build_step_news(lang: Lang, before: BuildPhase, after: BuildPhase) -> (r: Vec<UserEvent>)
    ensures
        events(r@) == build_news(lang, before, after),
{
    let mut out: Vec<UserEvent> = Vec::new();
    if before == BuildPhase::Install && after == BuildPhase::Build {
        out.push(
            UserEventOf::Progress {
                stage: Stage::Install,
                progress: Some(Fraction { done: 1, total: 1 }),
                detail: Some(copy_text(lang.progress_install_done())),
            },
        );
        out.push(
            status_event(Stage::Install, StageState::Done, copy_text(lang.detail_install_done())),
        );
        out.push(
            status_event(Stage::Build, StageState::Running, copy_text(lang.detail_building())),
        );
    } else if before == BuildPhase::Build && after == BuildPhase::Locate {
        out.push(
            UserEventOf::Progress {
                stage: Stage::Build,
                progress: Some(Fraction { done: 1, total: 1 }),
                detail: Some(copy_text(lang.progress_build_done())),
            },
        );
    }
    assert(events(out@) =~= build_news(lang, before, after));
    out
}

// ---------------------------------------------------------------------------
// What is shown of a sync
// ---------------------------------------------------------------------------

/// How many bytes of a commit are shown.
pub open spec fn shown_len(sha: Seq<char>) -> nat {
    if text::byte_len(sha) <= 7 {
        text::byte_len(sha)
    } else {
        7
    }
}

/// Whether what is shown of a sync can be put together: the commit that the local copy was
/// updated to, if there is one, can be cut where what is shown of it ends.
pub open spec fn is_shown(sync: SyncResultView) -> bool {
    sync.updated ==> (sync.commit matches Some(sha) ==> text::can_cut(sha, shown_len(sha) as int))
}

/// Whether a commit, if there is one, can stand in the title of the window: it can be cut
/// behind its first six bytes, unless it is shorter.
pub open spec fn is_titled(commit: Option<Seq<char>>) -> bool {
    commit matches Some(sha) ==> text::byte_len(sha) >= 6 ==> text::can_cut(sha, 6)
}

/// Tests whether what is shown of a sync can be put together.
pub fn can_be_shown(sync: &SyncResult) -> (r: bool)
    ensures
        r == is_shown(sync@),
{
    match &sync.commit {
        Some(sha) => {
            let sha: &str = sha.as_str();
            let n: usize = bytes_in(sha);
            let end: usize = if n <= 7 {
                n
            } else {
                7
            };
            !sync.updated || sha.is_char_boundary(end)
        },
        None => true,
    }
}

/// Tests whether a commit can stand in the title of the window.
pub fn can_be_titled(commit: Option<&str>) -> (r: bool)
    ensures
        r == is_titled(text::opt_str(commit)),
{
    match commit {
        Some(sha) => bytes_in(sha) < 6 || sha.is_char_boundary(6),
        None => true,
    }
}

/// What is shown of a sync: that the local copy is used as it is, or to which commit it was
/// updated, or that it was fetched again without GitHub's answer.
pub open spec fn sync_detail(lang: Lang, sync: SyncResultView) -> Seq<char> {
    if !sync.updated {
        i18n::phrase(lang, Phrase::DetailSyncCached)
    } else {
        match sync.commit {
            Some(sha) => filled(
                lang,
                Phrase::DetailSyncUpdatedSha,
                text::byte_prefix(sha, shown_len(sha) as int),
            ),
            None => i18n::phrase(lang, Phrase::DetailSyncUpdatedFallback),
        }
    }
}

/// What is shown of a sync.
pub fn sync_result_detail(sync: &SyncResult, lang: Lang) -> (r: String)
    requires
        is_shown(sync@),
    ensures
        r@ == sync_detail(lang, sync@),
{
    if !sync.updated {
        return copy_text(lang.detail_sync_cached());
    }
    match &sync.commit {
        Some(sha) => {
            let sha: &str = sha.as_str();
            let n: usize = bytes_in(sha);
            let end: usize = if n <= 7 {
                n
            } else {
                7
            };
            fill(lang.detail_sync_updated_sha(), cut_bytes(sha, end))
        },
        None => copy_text(lang.detail_sync_updated_fallback()),
    }
}

/// The version that a `package.json` names, if it could be read and names one.
pub open spec fn dsh_version(package_json: Option<Seq<char>>) -> Option<Seq<char>> {
    match package_json {
        Some(t) => json::json_field(t, "version"@),
        None => None,
    }
}

/// Reads the version that a `package.json` names.
pub fn read_dsh_version(package_json: Option<&str>) -> (r: Option<String>)
    ensures
        text::opt_text(r) == dsh_version(text::opt_str(package_json)),
{
    match package_json {
        Some(t) => text_field(t, "version"),
        None => None,
    }
}

/// What the title of the window says of the version: the start of the commit, or `unknown`,
/// and the version, or a question mark.
pub open spec fn label(commit: Option<Seq<char>>, version: Option<Seq<char>>) -> Seq<char> {
    (match commit {
        Some(sha) => if text::byte_len(sha) >= 6 {
            text::byte_prefix(sha, 6)
        } else {
            "unknown"@
        },
        None => "unknown"@,
    }) + "("@ + (match version {
        Some(v) => v,
        None => "?"@,
    }) + ")"@
}

/// What the title of the window says of a version.
pub fn version_label(commit: Option<&str>, version: Option<&str>) -> (r: String)
    requires
        is_titled(text::opt_str(commit)),
    ensures
        r@ == label(text::opt_str(commit), text::opt_str(version)),
{
    let short: &str = match commit {
        Some(sha) => {
            if bytes_in(sha) >= 6 {
                cut_bytes(sha, 6)
            } else {
                "unknown"
            }
        },
        None => "unknown",
    };
    let shown: &str = match version {
        Some(v) => v,
        None => "?",
    };
    cat4(short, "(", shown, ")")
}

/// What the title of the window says of the version, given what the sync amounted to and the
/// text of `package.json` if that could be read.
pub fn build_version_label(sync: &SyncResult, package_json: Option<&str>) -> (r: String)
    requires
        is_titled(sync@.commit),
    ensures
        r@ == label(sync@.commit, dsh_version(text::opt_str(package_json))),
{
    let commit = borrow_opt(&sync.commit);
    match read_dsh_version(package_json) {
        Some(v) => version_label(commit, Some(v.as_str())),
        None => version_label(commit, None),
    }
}

// ---------------------------------------------------------------------------
// What the window makes of it
// ---------------------------------------------------------------------------

/// What the window does.
#[derive(Debug, PartialEq)]
pub enum UiCommandOf<T> {
    /// Print a line.
    Print(T),
    /// Run a script in the page.
    Eval(T),
    /// Show a progress in the page.
    ShowProgress { stage: T, progress: Option<Fraction>, detail: Option<T> },
    /// Serve the built pages from this directory.
    Serve(T),
    /// Watch this directory.
    Watch(T),
    /// Give the window a title.
    SetTitle(T),
    /// Go to an address.
    LoadUrl(T),
    /// Load the page again.
    Reload,
}

/// What the window does.
pub type UiCommand = UiCommandOf<String>;

/// What the window does, as plain text.
pub type UiCommandView = UiCommandOf<Seq<char>>;

impl View for UiCommandOf<String> {
    type V = UiCommandOf<Seq<char>>;

    open spec fn view(&self) -> UiCommandOf<Seq<char>> {
        match *self {
            UiCommandOf::Print(x) => UiCommandOf::Print(x@),
            UiCommandOf::Eval(x) => UiCommandOf::Eval(x@),
            UiCommandOf::ShowProgress { stage, progress, detail } => UiCommandOf::ShowProgress {
                stage: stage@,
                progress,
                detail: text::opt_text(detail),
            },
            UiCommandOf::Serve(x) => UiCommandOf::Serve(x@),
            UiCommandOf::Watch(x) => UiCommandOf::Watch(x@),
            UiCommandOf::SetTitle(x) => UiCommandOf::SetTitle(x@),
            UiCommandOf::LoadUrl(x) => UiCommandOf::LoadUrl(x@),
            UiCommandOf::Reload => UiCommandOf::Reload,
        }
    }
}

/// The texts of a list of things that the window does.
pub open spec fn commands(list: Seq<UiCommand>) -> Seq<UiCommandView> {
    list.map_values(|c: UiCommand| c@)
}

/// What the window does about an event, in this order.
pub open spec fn reaction(e: UserEventView) -> Seq<UiCommandView> {
    match e {
        UserEventOf::Status { stage, state, detail } => seq![
            UiCommandOf::Print("["@ + stage.name() + "] "@ + state.name() + ": "@ + detail),
            UiCommandOf::Eval(webview_app::set_stage_script(stage.name(), state.name(), detail)),
        ],
        UserEventOf::Progress { stage, progress, detail } => seq![
            UiCommandOf::ShowProgress { stage: stage.name(), progress, detail },
        ],
        UserEventOf::Log(line) => seq![
            UiCommandOf::Print(line),
            UiCommandOf::Eval(webview_app::log_script(line)),
        ],
        UserEventOf::Ready(dist) => seq![
            UiCommandOf::Print("构建就绪: "@ + dist),
            UiCommandOf::Serve(dist),
            UiCommandOf::Watch(dist),
        ],
        UserEventOf::HostReady { url, version_label } => seq![
            UiCommandOf::Print("dsh web 宿主就绪: "@ + url),
            UiCommandOf::SetTitle("DeepSeek Harness Runtime - "@ + version_label),
            UiCommandOf::LoadUrl(url),
        ],
        UserEventOf::Reload => seq![
            UiCommandOf::Print("检测到产物更新，刷新 webview"@),
            UiCommandOf::Reload,
        ],
    }
}

/// What the window does about an event.
pub fn handle_user_event(e: UserEvent) -> (r: Vec<UiCommand>)
    ensures
        commands(r@) == reaction(e@),
{
    let ghost seen = e@;
    let mut out: Vec<UiCommand> = Vec::new();
    match e {
        UserEventOf::Status { stage, state, detail } => {
            out.push(
                UiCommandOf::Print(
                    cat6("[", stage.id(), "] ", state.id(), ": ", detail.as_str()),
                ),
            );
            out.push(UiCommandOf::Eval(eval_set_stage(stage.id(), state.id(), detail.as_str())));
        },
        UserEventOf::Progress { stage, progress, detail } => {
            out.push(
                UiCommandOf::ShowProgress { stage: copy_text(stage.id()), progress, detail },
            );
        },
        UserEventOf::Log(line) => {
            let script = eval_log(line.as_str());
            out.push(UiCommandOf::Print(line));
            out.push(UiCommandOf::Eval(script));
        },
        UserEventOf::Ready(dist) => {
            out.push(UiCommandOf::Print(cat2("构建就绪: ", dist.as_str())));
            out.push(UiCommandOf::Serve(copy_text(dist.as_str())));
            out.push(UiCommandOf::Watch(dist));
        },
        UserEventOf::HostReady { url, version_label } => {
            out.push(UiCommandOf::Print(cat2("dsh web 宿主就绪: ", url.as_str())));
            out.push(
                UiCommandOf::SetTitle(
                    cat2("DeepSeek Harness Runtime - ", version_label.as_str()),
                ),
            );
            out.push(UiCommandOf::LoadUrl(url));
        },
        UserEventOf::Reload => {
            out.push(UiCommandOf::Print(copy_text("检测到产物更新，刷新 webview")));
            out.push(UiCommandOf::Reload);
        },
    }
    assert(commands(out@) =~= reaction(seen));
    out
}

// ---------------------------------------------------------------------------
// Laws
// ---------------------------------------------------------------------------

/// A progress that is shown is a number between 0 and 1, and it is whole exactly if
/// everything is there.
pub proof fn lemma_progress_in_range(written: u64, total: Option<u64>)
    ensures
        download_fraction(written, total) matches Some(f) ==> f.in_range() && (f.done == f.total
            <==> (total matches Some(t) && written >= t)),
        download_fraction(written, total) is None <==> (total is None || total == Some(0u64)),
{
}

/// A download that goes on never shows less progress.
pub proof fn lemma_progress_grows(a: u64, b: u64, total: Option<u64>)
    requires
        a <= b,
    ensures
        match (download_fraction(a, total), download_fraction(b, total)) {
            (Some(f), Some(g)) => f.done <= g.done && f.total == g.total,
            (None, None) => true,
            _ => false,
        },
{
}

/// The nearest tenth is near: it is off by no more than half of one.
pub proof fn lemma_megabyte_tenths(bytes: nat)
    ensures
        2 * (megabyte_tenths(bytes) * MEGABYTE - bytes * 10) <= MEGABYTE,
        2 * (bytes * 10 - megabyte_tenths(bytes) * MEGABYTE) <= MEGABYTE,
{
    let m = MEGABYTE as nat;
    let whole = (bytes * 10) / m;
    let rest = (bytes * 10) % m;
    assert(bytes * 10 == whole * m + rest && rest < m) by {
        vstd::arithmetic::div_mod::lemma_fundamental_div_mod((bytes * 10) as int, m as int);
        assert(m * whole == whole * m) by (nonlinear_arith);
    }
    assert((whole + 1) * m == whole * m + m) by (nonlinear_arith);
}

/// A commit that is plain ASCII can be shown, and what is shown of it is its start.
pub proof fn lemma_ascii_commit_is_shown(sha: Seq<char>)
    requires
        vstd::utf8::is_ascii_chars(sha),
    ensures
        forall|sync: SyncResultView| sync.commit == Some(sha) ==> #[trigger] is_shown(sync),
        is_titled(Some(sha)),
        sha.len() >= 7 ==> text::byte_prefix(sha, shown_len(sha) as int) == sha.take(7),
        sha.len() >= 6 ==> text::byte_prefix(sha, 6) == sha.take(6),
{
    let n = if sha.len() <= 7 {
        sha.len() as int
    } else {
        7
    };
    text::lemma_ascii_cut(sha, n);
    if sha.len() >= 6 {
        text::lemma_ascii_cut(sha, 6);
    }
}

/// A line of the log reaches the page as it is, on the way through a script.
pub proof fn lemma_log_reaches_page(line: Seq<char>)
    ensures
        reaction(UserEventOf::Log(line))[1] == UiCommandView::Eval(webview_app::log_script(line)),
        json::read_string(
            webview_app::log_script(line).skip("window.dshLog && dshLog("@.len() as int + 1),
        ).0 == line,
{
    webview_app::lemma_log_script_is_safe(line);
}

/// The stages and their states have names that tell them apart, and the states are called as
/// the page styles them: what runs `running`, what is done `done`, what failed `failed`.
pub proof fn lemma_names_tell_apart(a: Stage, b: Stage, s: StageState, u: StageState)
    ensures
        a.name() == b.name() ==> a == b,
        s.name() == u.name() ==> s == u,
        Stage::Node.name() == "node"@,
        Stage::Repo.name() == "repo"@,
        Stage::Install.name() == "install"@,
        Stage::Build.name() == "build"@,
        Stage::Host.name() == "host"@,
        StageState::Running.name() == "running"@,
        StageState::Done.name() == "done"@,
        StageState::Failed.name() == "failed"@,
        text::contains(webview_app::PAGE_STYLE@, ".stage."@ + s.name()),
{
    reveal_strlit("node");
    reveal_strlit("repo");
    reveal_strlit("install");
    reveal_strlit("build");
    reveal_strlit("host");
    reveal_strlit("running");
    reveal_strlit("done");
    reveal_strlit("failed");
    assert("node"@[0] == 'n' && "repo"@[0] == 'r' && "install"@[0] == 'i');
    assert("build"@[0] == 'b' && "host"@[0] == 'h');
    assert("running"@[0] == 'r' && "done"@[0] == 'd' && "failed"@[0] == 'f');
    webview_app::lemma_states_are_styled();
}

/// What the window does about the state of a stage: it prints a line, and has the page show
/// the stage in that state, with the detail as it is. A stage that failed is shown as one that
/// failed, and no other as that.
pub proof fn lemma_status_is_shown(stage: Stage, state: StageState, detail: Seq<char>)
    ensures
        ({
            let id = match stage {
                Stage::Node => "node"@,
                Stage::Repo => "repo"@,
                Stage::Install => "install"@,
                Stage::Build => "build"@,
                Stage::Host => "host"@,
            };
            let class = match state {
                StageState::Running => "running"@,
                StageState::Done => "done"@,
                StageState::Failed => "failed"@,
            };
            let r = reaction(UserEventOf::Status { stage, state, detail });
            let call = "window.dshSetStage && dshSetStage("@;
            &&& r.len() == 2
            &&& r[0] == UiCommandView::Print("["@ + id + "] "@ + class + ": "@ + detail)
            &&& r[1] matches UiCommandView::Eval(script) && {
                let (x, r1) = json::read_string(script.skip(call.len() as int + 1));
                let (y, r2) = json::read_string(r1.skip(3));
                let (z, r3) = json::read_string(r2.skip(3));
                &&& call.is_prefix_of(script)
                &&& x == id
                &&& y == class
                &&& z == detail
                &&& r3 == ");"@
            }
        }),
{
    let call = "window.dshSetStage && dshSetStage("@;
    let script = webview_app::set_stage_script(stage.name(), state.name(), detail);
    webview_app::lemma_stage_script_is_safe(stage.name(), state.name(), detail);
    assert(call =~= script.subrange(0, call.len() as int));
}

/// What the window does about everything else, in this order. A line of the log is printed and
/// shown. Built pages are served and watched. A host that is ready gives the window its title,
/// and its address is gone to. Changed pages are loaded again. A progress is shown with its
/// stage.
pub proof fn lemma_reactions(
    stage: Stage,
    progress: Option<Fraction>,
    detail: Option<Seq<char>>,
    x: Seq<char>,
    version: Seq<char>,
)
    ensures
        reaction(UserEventOf::Log(x)) == seq![
            UiCommandView::Print(x),
            UiCommandView::Eval("window.dshLog && dshLog("@ + json::json_string(x) + ");"@),
        ],
        reaction(UserEventOf::Ready(x)) == seq![
            UiCommandView::Print("构建就绪: "@ + x),
            UiCommandView::Serve(x),
            UiCommandView::Watch(x),
        ],
        reaction(UserEventOf::HostReady { url: x, version_label: version }) == seq![
            UiCommandView::Print("dsh web 宿主就绪: "@ + x),
            UiCommandView::SetTitle("DeepSeek Harness Runtime - "@ + version),
            UiCommandView::LoadUrl(x),
        ],
        reaction(UserEventOf::Reload) == seq![
            UiCommandView::Print("检测到产物更新，刷新 webview"@),
            UiCommandView::Reload,
        ],
        reaction(UserEventOf::Progress { stage, progress, detail }) == seq![
            UiCommandView::ShowProgress { stage: stage.name(), progress, detail },
        ],
{
}

/// What is put into a phrase is found in it, where the phrase wants it.
pub proof fn lemma_filled(value: Seq<char>)
    ensures
        filled(Lang::Zh, Phrase::DetailPrepareNode, value) == "准备 Node v"@ + value,
        filled(Lang::En, Phrase::DetailPrepareNode, value) == "Preparing Node v"@ + value,
        filled(Lang::Zh, Phrase::DetailNodeReady, value) == "Node v"@ + value + " 就绪"@,
        filled(Lang::En, Phrase::DetailNodeReady, value) == "Node v"@ + value + " ready"@,
        filled(Lang::Zh, Phrase::DetailHostReady, value) == "宿主就绪 "@ + value,
        filled(Lang::En, Phrase::DetailHostReady, value) == "Host ready "@ + value,
        filled(Lang::Zh, Phrase::DetailSyncUpdatedSha, value) == "已更新至 "@ + value,
        filled(Lang::En, Phrase::DetailSyncUpdatedSha, value) == "Updated to "@ + value,
{
    assert(filled(Lang::Zh, Phrase::DetailPrepareNode, value) == "准备 Node v"@ + value) by {
        reveal_strlit("准备 Node v{}");
        reveal_strlit("准备 Node v");
        reveal_strlit("");
        reveal_strlit("{}");
        assert("准备 Node v{}"@ =~= "准备 Node v"@ + "{}"@ + ""@);
        text::lemma_replaced_once("准备 Node v"@, "{}"@, ""@, value);
        assert("准备 Node v"@ + value + ""@ =~= "准备 Node v"@ + value);
    }
    assert(filled(Lang::En, Phrase::DetailPrepareNode, value) == "Preparing Node v"@ + value) by {
        reveal_strlit("Preparing Node v{}");
        reveal_strlit("Preparing Node v");
        reveal_strlit("");
        reveal_strlit("{}");
        assert("Preparing Node v{}"@ =~= "Preparing Node v"@ + "{}"@ + ""@);
        text::lemma_replaced_once("Preparing Node v"@, "{}"@, ""@, value);
        assert("Preparing Node v"@ + value + ""@ =~= "Preparing Node v"@ + value);
    }
    assert(filled(Lang::Zh, Phrase::DetailNodeReady, value) == "Node v"@ + value + " 就绪"@) by {
        reveal_strlit("Node v{} 就绪");
        reveal_strlit("Node v");
        reveal_strlit(" 就绪");
        reveal_strlit("{}");
        assert("Node v{} 就绪"@ =~= "Node v"@ + "{}"@ + " 就绪"@);
        text::lemma_replaced_once("Node v"@, "{}"@, " 就绪"@, value);
    }
    assert(filled(Lang::En, Phrase::DetailNodeReady, value) == "Node v"@ + value + " ready"@) by {
        reveal_strlit("Node v{} ready");
        reveal_strlit("Node v");
        reveal_strlit(" ready");
        reveal_strlit("{}");
        assert("Node v{} ready"@ =~= "Node v"@ + "{}"@ + " ready"@);
        text::lemma_replaced_once("Node v"@, "{}"@, " ready"@, value);
    }
    assert(filled(Lang::Zh, Phrase::DetailHostReady, value) == "宿主就绪 "@ + value) by {
        reveal_strlit("宿主就绪 {}");
        reveal_strlit("宿主就绪 ");
        reveal_strlit("");
        reveal_strlit("{}");
        assert("宿主就绪 {}"@ =~= "宿主就绪 "@ + "{}"@ + ""@);
        text::lemma_replaced_once("宿主就绪 "@, "{}"@, ""@, value);
        assert("宿主就绪 "@ + value + ""@ =~= "宿主就绪 "@ + value);
    }
    assert(filled(Lang::En, Phrase::DetailHostReady, value) == "Host ready "@ + value) by {
        reveal_strlit("Host ready {}");
        reveal_strlit("Host ready ");
        reveal_strlit("");
        reveal_strlit("{}");
        assert("Host ready {}"@ =~= "Host ready "@ + "{}"@ + ""@);
        text::lemma_replaced_once("Host ready "@, "{}"@, ""@, value);
        assert("Host ready "@ + value + ""@ =~= "Host ready "@ + value);
    }
    assert(filled(Lang::Zh, Phrase::DetailSyncUpdatedSha, value) == "已更新至 "@ + value) by {
        reveal_strlit("已更新至 {}");
        reveal_strlit("已更新至 ");
        reveal_strlit("");
        reveal_strlit("{}");
        assert("已更新至 {}"@ =~= "已更新至 "@ + "{}"@ + ""@);
        text::lemma_replaced_once("已更新至 "@, "{}"@, ""@, value);
        assert("已更新至 "@ + value + ""@ =~= "已更新至 "@ + value);
    }
    assert(filled(Lang::En, Phrase::DetailSyncUpdatedSha, value) == "Updated to "@ + value) by {
        reveal_strlit("Updated to {}");
        reveal_strlit("Updated to ");
        reveal_strlit("");
        reveal_strlit("{}");
        assert("Updated to {}"@ =~= "Updated to "@ + "{}"@ + ""@);
        text::lemma_replaced_once("Updated to "@, "{}"@, ""@, value);
        assert("Updated to "@ + value + ""@ =~= "Updated to "@ + value);
    }
}

/// What is shown of a sync: where nothing was fetched, that the local copy is used; else the
/// first seven bytes of the commit, or that it was fetched without one.
pub proof fn lemma_sync_is_shown(lang: Lang, sync: SyncResultView)
    ensures
        !sync.updated ==> sync_detail(lang, sync) == i18n::phrase(lang, Phrase::DetailSyncCached),
        sync.updated && sync.commit is None ==> sync_detail(lang, sync) == i18n::phrase(
            lang,
            Phrase::DetailSyncUpdatedFallback,
        ),
        sync.updated ==> (sync.commit matches Some(sha) ==> {
            let shown = text::byte_prefix(
                sha,
                if text::byte_len(sha) < 7 {
                    text::byte_len(sha) as int
                } else {
                    7
                },
            );
            &&& lang == Lang::Zh ==> sync_detail(lang, sync) == "已更新至 "@ + shown
            &&& lang == Lang::En ==> sync_detail(lang, sync) == "Updated to "@ + shown
        }),
{
    if sync.updated && sync.commit is Some {
        lemma_filled(text::byte_prefix(sync.commit->0, shown_len(sync.commit->0) as int));
    }
}

/// What the title says of a version: the first six bytes of the commit, or that it is unknown
/// where there is none or it is shorter; and the version in parentheses, or a question mark.
pub proof fn lemma_title(sha: Seq<char>, v: Seq<char>)
    ensures
        text::byte_len(sha) >= 6 ==> label(Some(sha), Some(v)) == text::byte_prefix(sha, 6) + "("@
            + v + ")"@,
        text::byte_len(sha) >= 6 ==> label(Some(sha), None) == text::byte_prefix(sha, 6) + "("@
            + "?"@ + ")"@,
        text::byte_len(sha) < 6 ==> label(Some(sha), Some(v)) == "unknown"@ + "("@ + v + ")"@,
        label(None, Some(v)) == "unknown"@ + "("@ + v + ")"@,
        label(None, None) == "unknown"@ + "("@ + "?"@ + ")"@,
        dsh_version(Some(v)) == json::json_field(v, "version"@),
        dsh_version(None) is None,
{
}

/// What is shown of a download: the whole per cent of its size and both sizes where the size is
/// known and not zero, else what is there. The progress is what is there of the whole, and no
/// more than that.
pub proof fn lemma_download_is_shown(lang: Lang, written: u64, total: u64)
    ensures
        total > 0 ==> {
            let pct = (written as nat) * 100 / (total as nat);
            &&& download_fraction(written, Some(total)) == Some(
                Fraction { done: if written < total { written } else { total }, total },
            )
            &&& download_text(lang, written, Some(total)) == i18n::download_pct_text(
                lang,
                pct,
                megabytes(written as nat),
                megabytes(total as nat),
            )
        },
        download_fraction(written, Some(0)) is None,
        download_fraction(written, None) is None,
        download_text(lang, written, Some(0)) == i18n::download_mb_text(
            lang,
            megabytes(written as nat),
        ),
        download_text(lang, written, None) == i18n::download_mb_text(
            lang,
            megabytes(written as nat),
        ),
{
}

/// A size is told as a whole number of megabytes and one decimal: what stands before and behind
/// the point makes up the nearest tenth.
pub proof fn lemma_megabytes(bytes: nat)
    ensures
        ({
            let tenths = megabyte_tenths(bytes);
            &&& megabytes(bytes) == text::decimal(tenths / 10) + "."@ + text::decimal(tenths % 10)
            &&& text::number(text::decimal(tenths / 10)) * 10 + text::number(
                text::decimal(tenths % 10),
            ) == tenths
            &&& text::decimal(tenths % 10).len() == 1
            &&& MEGABYTE == 1024 * 1024
        }),
{
    let tenths = megabyte_tenths(bytes);
    text::lemma_decimal(tenths / 10);
    text::lemma_decimal(tenths % 10);
}

/// What the window is told when a build goes on: when the installation has ended, that it is
/// whole, that its stage is done and that the build runs; when the build script has ended, that
/// the build is whole; and nothing otherwise.
pub proof fn lemma_build_is_told(lang: Lang, before: BuildPhase, after: BuildPhase)
    ensures
        ({
            let news = build_news(lang, before, after);
            let installed = before == BuildPhase::Install && after == BuildPhase::Build;
            let built = before == BuildPhase::Build && after == BuildPhase::Locate;
            &&& installed ==> news == seq![
                UserEventView::Progress {
                    stage: Stage::Install,
                    progress: Some(Fraction { done: 1, total: 1 }),
                    detail: Some(i18n::phrase(lang, Phrase::ProgressInstallDone)),
                },
                UserEventView::Status {
                    stage: Stage::Install,
                    state: StageState::Done,
                    detail: i18n::phrase(lang, Phrase::DetailInstallDone),
                },
                UserEventView::Status {
                    stage: Stage::Build,
                    state: StageState::Running,
                    detail: i18n::phrase(lang, Phrase::DetailBuilding),
                },
            ]
            &&& built ==> news == seq![
                UserEventView::Progress {
                    stage: Stage::Build,
                    progress: Some(Fraction { done: 1, total: 1 }),
                    detail: Some(i18n::phrase(lang, Phrase::ProgressBuildDone)),
                },
            ]
            &&& !installed && !built ==> news.len() == 0
        }),
        stage_of_build(BuildStage::Install) == Stage::Install,
        stage_of_build(BuildStage::Build) == Stage::Build,
{
}

} // verus!
