//! Starting the web host and waiting for it: how it is started, which of its lines says that
//! it is ready, and when waiting is given up.

use vstd::prelude::*;
use vstd::string::*;

use crate::command;
use crate::command::{code_text, runtime_env_vars, Command, CommandView};
use crate::node_manager::{copy_paths, NodePaths, NodePathsOf};
use crate::path;
use crate::path::{join_path, join_path2, PathStyle};
use crate::text;
use crate::text::{
    cat2, cat3, cat5, copy_text, decimal_text, split_words, starts_with, tail, Separator,
};

verus! {

broadcast use vstd::string::group_string_axioms;

/// How the line starts by which the host says that it is ready.
pub const READY_PREFIX: &'static str = "dsh web: ";

/// How long the next line is waited for at most, in nanoseconds.
pub const POLL_INTERVAL: u64 = 500_000_000;

/// The address in a line of the host: the first word behind the prefix, if the line has the
/// prefix and that word is an `http` address.
pub open spec fn ready_url(line: Seq<char>) -> Option<Seq<char>> {
    let words = text::words(line.skip(READY_PREFIX@.len() as int), Separator::Space);
    if READY_PREFIX@.is_prefix_of(line) && words.len() > 0 && "http://"@.is_prefix_of(words[0]) {
        Some(words[0])
    } else {
        None
    }
}

/// Finds the address in a line of the host.
pub fn extract_url(line: &str) -> (r: Option<String>)
    ensures
        text::opt_text(r) == ready_url(line@),
{
    if !starts_with(line, READY_PREFIX) {
        return None;
    }
    let n: usize = READY_PREFIX.unicode_len();
    let words = split_words(tail(line, n), Separator::Space);
    let ghost ws = text::texts(words@);
    if words.len() == 0 {
        return None;
    }
    assert(ws[0] == words@[0]@);
    if starts_with(words[0].as_str(), "http://") {
        Some(copy_text(words[0].as_str()))
    } else {
        None
    }
}

// ---------------------------------------------------------------------------
// The start of the host
// ---------------------------------------------------------------------------

/// Where the start of the host stands.
#[derive(Clone, Copy, PartialEq, Eq, Structural, Debug)]
pub enum HostPhase {
    /// The entry script of the host is looked for.
    LookEntry,
    /// The home directory of the host is made.
    MakeHome,
    /// The host is started.
    Spawn,
    /// The host and the clock are looked at.
    Poll,
    /// The next line is waited for.
    Receive,
    /// The host took too long and is killed.
    Kill,
    /// Over: the host is ready.
    Ready,
    /// Over, with an error.
    Failed,
}

/// The start of the host; `T` is `String` in the program and `Seq<char>` in contracts.
#[derive(Debug, PartialEq)]
pub struct HostRunOf<T> {
    /// The notation of paths.
    pub style: PathStyle,
    /// The programs of Node.js.
    pub node: NodePathsOf<T>,
    /// The repository.
    pub repo_dir: T,
    /// The working directory.
    pub workspace_root: T,
    /// Where programs are looked for outside.
    pub inherited_path: T,
    /// The port that the host is asked to use; 0 lets the system choose.
    pub port: u16,
    /// How many seconds the host may take.
    pub timeout: u64,
    /// How long the next line is waited for, in nanoseconds.
    pub wait: u64,
    /// The address of the host.
    pub url: T,
    /// What went wrong.
    pub error: T,
    /// Where it stands.
    pub phase: HostPhase,
}

/// The start of the host.
pub type HostRun = HostRunOf<String>;

/// What an operation came to.
#[derive(Debug, PartialEq)]
pub enum HostEventOf<T> {
    /// Whether the file is there.
    Present { file: bool },
    /// The host runs, and so many nanoseconds have passed since it was started.
    Running { elapsed: u128 },
    /// The host has ended, with this code unless it was killed.
    Exited { code: Option<i32> },
    /// The host wrote this line.
    Line(T),
    /// The host wrote nothing in time.
    Silence,
    /// The host closed its output.
    Closed,
    /// The operation succeeded.
    Done,
    /// The operation failed.
    Failed(T),
}

/// What an operation came to.
pub type HostEvent = HostEventOf<String>;

/// What is wanted next; `C` is `Command` in the program.
#[derive(Debug, PartialEq)]
pub enum HostOpOf<T, C> {
    /// Look whether `path` is a file.
    Look { path: T },
    /// Make the directory `dir` and those that it lies in, as far as they are missing.
    MakeDir { dir: T },
    /// Log the line `log` and start `command`.
    Spawn { log: T, command: C },
    /// Look whether the host runs, and how long it has.
    Poll,
    /// Wait for the next line of the host, for so many nanoseconds at most.
    Receive { wait: u64 },
    /// Kill the host, whether or not that succeeds.
    Kill,
    /// Nothing more: the host is ready at `url`.
    Finish { url: T },
    /// Nothing more: the host is not ready.
    Fail { error: T },
}

/// What is wanted next.
pub type HostOp = HostOpOf<String, Command>;

/// What is wanted next, as plain texts.
pub type HostOpView = HostOpOf<Seq<char>, CommandView>;

impl View for HostRunOf<String> {
    type V = HostRunOf<Seq<char>>;

    open spec fn view(&self) -> HostRunOf<Seq<char>> {
        HostRunOf {
            style: self.style,
            node: self.node@,
            repo_dir: self.repo_dir@,
            workspace_root: self.workspace_root@,
            inherited_path: self.inherited_path@,
            port: self.port,
            timeout: self.timeout,
            wait: self.wait,
            url: self.url@,
            error: self.error@,
            phase: self.phase,
        }
    }
}

impl View for HostEventOf<String> {
    type V = HostEventOf<Seq<char>>;

    open spec fn view(&self) -> HostEventOf<Seq<char>> {
        match *self {
            HostEventOf::Present { file } => HostEventOf::Present { file },
            HostEventOf::Running { elapsed } => HostEventOf::Running { elapsed },
            HostEventOf::Exited { code } => HostEventOf::Exited { code },
            HostEventOf::Line(x) => HostEventOf::Line(x@),
            HostEventOf::Silence => HostEventOf::Silence,
            HostEventOf::Closed => HostEventOf::Closed,
            HostEventOf::Done => HostEventOf::Done,
            HostEventOf::Failed(x) => HostEventOf::Failed(x@),
        }
    }
}

impl View for HostOpOf<String, Command> {
    type V = HostOpOf<Seq<char>, CommandView>;

    open spec fn view(&self) -> HostOpOf<Seq<char>, CommandView> {
        match *self {
            HostOpOf::Look { path } => HostOpOf::Look { path: path@ },
            HostOpOf::MakeDir { dir } => HostOpOf::MakeDir { dir: dir@ },
            HostOpOf::Spawn { log, command } => HostOpOf::Spawn { log: log@, command: command@ },
            HostOpOf::Poll => HostOpOf::Poll,
            HostOpOf::Receive { wait } => HostOpOf::Receive { wait },
            HostOpOf::Kill => HostOpOf::Kill,
            HostOpOf::Finish { url } => HostOpOf::Finish { url: url@ },
            HostOpOf::Fail { error } => HostOpOf::Fail { error: error@ },
        }
    }
}

/// The number of nanoseconds in a second.
pub const SECOND: u128 = 1_000_000_000;

impl HostRunOf<Seq<char>> {
    /// On to another phase.
    pub open spec fn to(self, phase: HostPhase) -> Self {
        HostRunOf { phase, ..self }
    }

    /// It failed.
    pub open spec fn fail(self, error: Seq<char>) -> Self {
        HostRunOf { error, phase: HostPhase::Failed, ..self }
    }

    /// The entry script of the host.
    pub open spec fn entry(self) -> Seq<char> {
        path::join2(
            self.style,
            path::join2(self.style, self.repo_dir, "apps"@, "cli"@),
            "lib"@,
            "bin.js"@,
        )
    }

    /// The home directory of the host.
    pub open spec fn home(self) -> Seq<char> {
        path::join(self.style, self.workspace_root, "dsh-home"@)
    }

    /// The host as it is started.
    pub open spec fn call(self) -> CommandView {
        CommandView {
            program: self.node.node,
            args: seq![
                self.entry(),
                "web"@,
                "--port"@,
                text::decimal(self.port as nat),
                "--no-open"@,
            ],
            dir: self.repo_dir,
            env: seq![("DSH_HOME"@, self.home())] + command::runtime_env(
                self.style,
                self.node.bin_dir,
                self.workspace_root,
                self.inherited_path,
            ),
        }
    }

    /// What is logged about it.
    pub open spec fn log_line(self) -> Seq<char> {
        "$ node apps/cli/lib/bin.js web --port "@ + text::decimal(self.port as nat)
            + " --no-open  (DSH_HOME="@ + self.home() + ")"@
    }

    /// How many nanoseconds the host may take.
    pub open spec fn limit(self) -> nat {
        (self.timeout as nat) * (SECOND as nat)
    }

    /// The host runs and has taken `elapsed` nanoseconds: it is killed if that is all it
    /// may take; else the next line is waited for, a while at most and not beyond the limit.
    pub open spec fn running(self, elapsed: nat) -> Self {
        if elapsed >= self.limit() {
            self.to(HostPhase::Kill)
        } else {
            let remaining = self.limit() - elapsed;
            HostRunOf {
                wait: if remaining < POLL_INTERVAL {
                    remaining as u64
                } else {
                    POLL_INTERVAL
                },
                phase: HostPhase::Receive,
                ..self
            }
        }
    }

    /// What follows an event. An event that does not answer what was wanted changes
    /// nothing.
    pub open spec fn after(self, e: HostEventOf<Seq<char>>) -> Self {
        match (self.phase, e) {
            (HostPhase::LookEntry, HostEventOf::Present { file }) => if file {
                self.to(HostPhase::MakeHome)
            } else {
                self.fail(
                    "dsh CLI 入口不存在: "@ + self.entry() + "（请确认构建流程已完成）"@,
                )
            },
            (HostPhase::MakeHome, HostEventOf::Done) => self.to(HostPhase::Spawn),
            (HostPhase::MakeHome, HostEventOf::Failed(x)) => self.fail(
                "创建 dsh-home 失败: "@ + x,
            ),
            (HostPhase::Spawn, HostEventOf::Done) => self.to(HostPhase::Poll),
            (HostPhase::Spawn, HostEventOf::Failed(x)) => self.fail(
                "启动 dsh web 宿主失败: "@ + x,
            ),
            (HostPhase::Poll, HostEventOf::Running { elapsed }) => self.running(elapsed as nat),
            (HostPhase::Poll, HostEventOf::Exited { code }) => self.fail(
                "dsh web 宿主启动即退出（exit="@ + command::shown_code(code) + "），详见日志"@,
            ),
            (HostPhase::Poll, HostEventOf::Failed(x)) => self.fail(
                "检查宿主进程状态失败: "@ + x,
            ),
            (HostPhase::Receive, HostEventOf::Line(line)) => match ready_url(line) {
                Some(url) => HostRunOf { url, phase: HostPhase::Ready, ..self },
                None => self.to(HostPhase::Poll),
            },
            (HostPhase::Receive, HostEventOf::Silence) => self.to(HostPhase::Poll),
            (HostPhase::Receive, HostEventOf::Closed) => self.fail(
                "dsh web 宿主输出流提前关闭（未输出就绪行），详见日志"@,
            ),
            (HostPhase::Kill, _) => self.fail(
                "等待 dsh web 就绪超时（"@ + text::decimal(self.timeout as nat)
                    + "s），已终止宿主进程"@,
            ),
            _ => self,
        }
    }

    /// What is wanted next.
    pub open spec fn wanted(self) -> HostOpView {
        match self.phase {
            HostPhase::LookEntry => HostOpOf::Look { path: self.entry() },
            HostPhase::MakeHome => HostOpOf::MakeDir { dir: self.home() },
            HostPhase::Spawn => HostOpOf::Spawn { log: self.log_line(), command: self.call() },
            HostPhase::Poll => HostOpOf::Poll,
            HostPhase::Receive => HostOpOf::Receive { wait: self.wait },
            HostPhase::Kill => HostOpOf::Kill,
            HostPhase::Ready => HostOpOf::Finish { url: self.url },
            HostPhase::Failed => HostOpOf::Fail { error: self.error },
        }
    }
}

/// How the start of the host begins.
pub open spec fn host_start(
    style: PathStyle,
    node: NodePathsOf<Seq<char>>,
    repo_dir: Seq<char>,
    workspace_root: Seq<char>,
    inherited_path: Seq<char>,
    port: u16,
    timeout: u64,
) -> HostRunOf<Seq<char>> {
    HostRunOf {
        style,
        node,
        repo_dir,
        workspace_root,
        inherited_path,
        port,
        timeout,
        wait: 0,
        url: Seq::empty(),
        error: Seq::empty(),
        phase: HostPhase::LookEntry,
    }
}

/// Begins to start the host from the repository in `repo_dir`.
pub fn spawn_web_host(
    style: PathStyle,
    node_paths: &NodePaths,
    repo_dir: &str,
    workspace_root: &str,
    inherited_path: &str,
    port: u16,
    timeout: u64,
) -> (r: HostRun)
    ensures
        r@ == host_start(
            style,
            node_paths@,
            repo_dir@,
            workspace_root@,
            inherited_path@,
            port,
            timeout,
        ),
{
    HostRunOf {
        style,
        node: copy_paths(node_paths),
        repo_dir: copy_text(repo_dir),
        workspace_root: copy_text(workspace_root),
        inherited_path: copy_text(inherited_path),
        port,
        timeout,
        wait: 0,
        url: String::new(),
        error: String::new(),
        phase: HostPhase::LookEntry,
    }
}

impl HostRunOf<String> {
    fn entry_of(&self) -> (r: String)
        ensures
            r@ == self@.entry(),
    {
        let cli = join_path2(self.style, self.repo_dir.as_str(), "apps", "cli");
        join_path2(self.style, cli.as_str(), "lib", "bin.js")
    }

    fn home_of(&self) -> (r: String)
        ensures
            r@ == self@.home(),
    {
        join_path(self.style, self.workspace_root.as_str(), "dsh-home")
    }

    fn call_of(&self) -> (r: Command)
        ensures
            r@ == self@.call(),
    {
        let mut args: Vec<String> = Vec::new();
        args.push(self.entry_of());
        args.push(copy_text("web"));
        args.push(copy_text("--port"));
        args.push(decimal_text(self.port as u64));
        args.push(copy_text("--no-open"));
        assert(text::texts(args@) =~= self@.call().args);
        let mut env: Vec<(String, String)> = Vec::new();
        env.push((copy_text("DSH_HOME"), self.home_of()));
        let mut more = runtime_env_vars(
            self.style,
            &self.node,
            self.workspace_root.as_str(),
            self.inherited_path.as_str(),
        );
        let ghost a = env@;
        let ghost b = more@;
        env.append(&mut more);
        assert(command::pairs(env@) =~= command::pairs(a) + command::pairs(b));
        assert(command::pairs(a) =~= seq![("DSH_HOME"@, self@.home())]);
        Command {
            program: copy_text(self.node.node.as_str()),
            args,
            dir: copy_text(self.repo_dir.as_str()),
            env,
        }
    }

    /// What is wanted next.
    pub fn action(&self) -> (r: HostOp)
        ensures
            r@ == self@.wanted(),
    {
        match self.phase {
            HostPhase::LookEntry => HostOpOf::Look { path: self.entry_of() },
            HostPhase::MakeHome => HostOpOf::MakeDir { dir: self.home_of() },
            HostPhase::Spawn => HostOpOf::Spawn {
                log: cat5(
                    "$ node apps/cli/lib/bin.js web --port ",
                    decimal_text(self.port as u64).as_str(),
                    " --no-open  (DSH_HOME=",
                    self.home_of().as_str(),
                    ")",
                ),
                command: self.call_of(),
            },
            HostPhase::Poll => HostOpOf::Poll,
            HostPhase::Receive => HostOpOf::Receive { wait: self.wait },
            HostPhase::Kill => HostOpOf::Kill,
            HostPhase::Ready => HostOpOf::Finish { url: copy_text(self.url.as_str()) },
            HostPhase::Failed => HostOpOf::Fail { error: copy_text(self.error.as_str()) },
        }
    }

    fn set_failed(&mut self, error: String)
        ensures
            final(self)@ == old(self)@.fail(error@),
    {
        self.error = error;
        self.phase = HostPhase::Failed;
    }

    fn set_running(&mut self, elapsed: u128)
        ensures
            final(self)@ == old(self)@.running(elapsed as nat),
    {
        let limit: u128 = (self.timeout as u128) * SECOND;
        if elapsed >= limit {
            self.phase = HostPhase::Kill;
        } else {
            let remaining: u128 = limit - elapsed;
            self.wait = if remaining < POLL_INTERVAL as u128 {
                remaining as u64
            } else {
                POLL_INTERVAL
            };
            self.phase = HostPhase::Receive;
        }
    }

    /// Takes note of what the wanted operation came to.
    pub fn advance(&mut self, e: HostEvent)
        ensures
            final(self)@ == old(self)@.after(e@),
    {
        match (self.phase, e) {
            (HostPhase::LookEntry, HostEventOf::Present { file }) => {
                if file {
                    self.phase = HostPhase::MakeHome;
                } else {
                    let m = cat3(
                        "dsh CLI 入口不存在: ",
                        self.entry_of().as_str(),
                        "（请确认构建流程已完成）",
                    );
                    self.set_failed(m);
                }
            },
            (HostPhase::MakeHome, HostEventOf::Done) => {
                self.phase = HostPhase::Spawn;
            },
            (HostPhase::MakeHome, HostEventOf::Failed(x)) => {
                self.set_failed(cat2("创建 dsh-home 失败: ", x.as_str()));
            },
            (HostPhase::Spawn, HostEventOf::Done) => {
                self.phase = HostPhase::Poll;
            },
            (HostPhase::Spawn, HostEventOf::Failed(x)) => {
                self.set_failed(cat2("启动 dsh web 宿主失败: ", x.as_str()));
            },
            (HostPhase::Poll, HostEventOf::Running { elapsed }) => self.set_running(elapsed),
            (HostPhase::Poll, HostEventOf::Exited { code }) => {
                let m = cat3(
                    "dsh web 宿主启动即退出（exit=",
                    code_text(code).as_str(),
                    "），详见日志",
                );
                self.set_failed(m);
            },
            (HostPhase::Poll, HostEventOf::Failed(x)) => {
                self.set_failed(cat2("检查宿主进程状态失败: ", x.as_str()));
            },
            (HostPhase::Receive, HostEventOf::Line(line)) => {
                match extract_url(line.as_str()) {
                    Some(url) => {
                        self.url = url;
                        self.phase = HostPhase::Ready;
                    },
                    None => {
                        self.phase = HostPhase::Poll;
                    },
                }
            },
            (HostPhase::Receive, HostEventOf::Silence) => {
                self.phase = HostPhase::Poll;
            },
            (HostPhase::Receive, HostEventOf::Closed) => {
                self.set_failed(
                    copy_text("dsh web 宿主输出流提前关闭（未输出就绪行），详见日志"),
                );
            },
            (HostPhase::Kill, _) => {
                let m = cat3(
                    "等待 dsh web 就绪超时（",
                    decimal_text(self.timeout).as_str(),
                    "s），已终止宿主进程",
                );
                self.set_failed(m);
            },
            _ => {},
        }
    }
}

// ---------------------------------------------------------------------------
// Laws
// ---------------------------------------------------------------------------

/// An address that is found is an `http` address and a single word.
pub proof fn lemma_url_is_a_word(line: Seq<char>)
    ensures
        ready_url(line) matches Some(url) ==> {
            &&& "http://"@.is_prefix_of(url)
            &&& forall|i: int| 0 <= i < url.len() ==> !text::is_space(#[trigger] url[i])
        },
{
    let rest = line.skip(READY_PREFIX@.len() as int);
    text::lemma_words_are_words(rest, Separator::Space);
    if ready_url(line) is Some {
        let url = text::words(rest, Separator::Space)[0];
        assert forall|i: int| 0 <= i < url.len() implies !text::is_space(#[trigger] url[i]) by {
            assert(!Separator::Space.has(url[i]));
        }
    }
}

/// The host's own line is understood: the prefix, an `http` address, and either nothing more
/// or a space and whatever follows.
pub proof fn lemma_ready_line_is_understood(url: Seq<char>, more: Seq<char>)
    requires
        "http://"@.is_prefix_of(url),
        forall|i: int| 0 <= i < url.len() ==> !text::is_space(#[trigger] url[i]),
        more.len() == 0 || text::is_space(more[0]),
    ensures
        ready_url(READY_PREFIX@ + url + more) == Some(url),
{
    reveal_strlit("http://");
    let line = READY_PREFIX@ + url + more;
    assert(READY_PREFIX@ =~= line.subrange(0, READY_PREFIX@.len() as int));
    assert(line.skip(READY_PREFIX@.len() as int) =~= url + more);
    assert(url.len() > 0);
    assert forall|i: int| 0 <= i < url.len() implies !Separator::Space.has(#[trigger] url[i]) by {
        assert(!text::is_space(url[i]));
    }
    text::lemma_first_word(url, more, Separator::Space);
}

/// The host is taken for ready only because of a line that says so.
pub proof fn lemma_ready_by_line(run: HostRunOf<Seq<char>>, e: HostEventOf<Seq<char>>)
    requires
        run.phase != HostPhase::Ready,
        run.after(e).phase == HostPhase::Ready,
    ensures
        run.phase == HostPhase::Receive,
        e matches HostEventOf::Line(line) && ready_url(line) == Some(run.after(e).url),
{
}

/// Waiting has an end: while the host may still take its time, a line is waited for, not
/// longer than half a second and not beyond the limit; once the limit is reached the host is
/// killed, and the start fails.
pub proof fn lemma_waiting_is_bounded(
    run: HostRunOf<Seq<char>>,
    elapsed: u128,
    e: HostEventOf<Seq<char>>,
)
    requires
        run.phase == HostPhase::Poll,
    ensures
        ({
            let next = run.after(HostEventOf::Running { elapsed });
            &&& elapsed < run.limit() ==> next.phase == HostPhase::Receive && 0 < next.wait
                <= POLL_INTERVAL && elapsed + next.wait <= run.limit()
            &&& elapsed >= run.limit() ==> next.wanted() == HostOpView::Kill && next.after(
                e,
            ).wanted() is Fail
        }),
{
}

/// A host whose lines are looked at, one after the other, each at its time.
pub open spec fn host_fed(
    run: HostRunOf<Seq<char>>,
    lines: Seq<(u128, Seq<char>)>,
) -> HostRunOf<Seq<char>>
    decreases lines.len(),
{
    if lines.len() == 0 {
        run
    } else {
        let (elapsed, line) = lines.last();
        host_fed(run, lines.drop_last()).after(HostEventOf::Running { elapsed }).after(
            HostEventOf::Line(line),
        )
    }
}

/// Of several lines that come in time the first that says that the host is ready counts: the
/// ones before it change nothing, and the ones after it neither.
pub proof fn lemma_first_ready_line_counts(
    run: HostRunOf<Seq<char>>,
    lines: Seq<(u128, Seq<char>)>,
    k: int,
)
    requires
        run.phase == HostPhase::Poll,
        0 <= k < lines.len(),
        ready_url(lines[k].1) is Some,
        forall|i: int| 0 <= i < k ==> ready_url((#[trigger] lines[i]).1) is None,
        forall|i: int| 0 <= i <= k ==> (#[trigger] lines[i]).0 < run.limit(),
    ensures
        host_fed(run, lines).wanted() == (HostOpView::Finish { url: ready_url(lines[k].1)->0 }),
    decreases lines.len(),
{
    let front = lines.drop_last();
    assert(forall|i: int| 0 <= i < front.len() ==> #[trigger] front[i] == lines[i]);
    if k < lines.len() - 1 {
        lemma_first_ready_line_counts(run, front, k);
    } else {
        lemma_other_lines_change_nothing(run, front);
        assert(lines.last() == lines[k]);
    }
}

proof fn lemma_other_lines_change_nothing(
    run: HostRunOf<Seq<char>>,
    lines: Seq<(u128, Seq<char>)>,
)
    requires
        run.phase == HostPhase::Poll,
        forall|i: int| 0 <= i < lines.len() ==> ready_url((#[trigger] lines[i]).1) is None,
        forall|i: int| 0 <= i < lines.len() ==> (#[trigger] lines[i]).0 < run.limit(),
    ensures
        host_fed(run, lines).phase == HostPhase::Poll,
        host_fed(run, lines).timeout == run.timeout,
    decreases lines.len(),
{
    if lines.len() > 0 {
        let front = lines.drop_last();
        assert(forall|i: int| 0 <= i < front.len() ==> #[trigger] front[i] == lines[i]);
        lemma_other_lines_change_nothing(run, front);
        assert(lines.last() == lines[lines.len() - 1]);
    }
}

/// The host keeps what it stores in the working directory, and its environment is that of
/// every other tool beyond that.
pub proof fn lemma_host_is_isolated(run: HostRunOf<Seq<char>>)
    requires
        path::is_settled(run.style, run.workspace_root),
    ensures
        path::is_below(run.style, run.workspace_root, seq!["dsh-home"@], run.home()),
        run.call().env[0] == ("DSH_HOME"@, run.home()),
        run.call().env.skip(1) == command::runtime_env(
            run.style,
            run.node.bin_dir,
            run.workspace_root,
            run.inherited_path,
        ),
{
    reveal_strlit("dsh-home");
    reveal_strlit(".");
    reveal_strlit("..");
    path::lemma_join_plain(run.style, run.workspace_root, "dsh-home"@);
}

/// How the start of the host goes until it runs: the script that starts it is looked for in the
/// repository, its home is made in the working directory, and it is started there with `node`,
/// on the port that was asked for and without a browser. Whatever fails is the end, and says
/// so.
pub proof fn lemma_host_steps(
    style: PathStyle,
    node: NodePathsOf<Seq<char>>,
    repo_dir: Seq<char>,
    workspace_root: Seq<char>,
    inherited_path: Seq<char>,
    port: u16,
    timeout: u64,
    x: Seq<char>,
)
    ensures
        ({
            let run = host_start(
                style,
                node,
                repo_dir,
                workspace_root,
                inherited_path,
                port,
                timeout,
            );
            let apps = path::join(style, repo_dir, "apps"@);
            let lib = path::join(style, path::join(style, apps, "cli"@), "lib"@);
            let entry = path::join(style, lib, "bin.js"@);
            let home = path::join(style, workspace_root, "dsh-home"@);
            let number = text::decimal(port as nat);
            let found = run.after(HostEventOf::Present { file: true });
            let made = found.after(HostEventOf::Done);
            let runs = made.after(HostEventOf::Done);
            &&& run.wanted() == (HostOpView::Look { path: entry })
            &&& run.after(HostEventOf::Present { file: false }).wanted() == (HostOpView::Fail {
                error: "dsh CLI 入口不存在: "@ + entry + "（请确认构建流程已完成）"@,
            })
            &&& found.wanted() == (HostOpView::MakeDir { dir: home })
            &&& found.after(HostEventOf::Failed(x)).wanted() == (HostOpView::Fail {
                error: "创建 dsh-home 失败: "@ + x,
            })
            &&& made.wanted() matches HostOpOf::Spawn { log, command: c } && {
                &&& log == "$ node apps/cli/lib/bin.js web --port "@ + number
                    + " --no-open  (DSH_HOME="@ + home + ")"@
                &&& c.program == node.node
                &&& c.args == seq![entry, "web"@, "--port"@, number, "--no-open"@]
                &&& c.dir == repo_dir
                &&& c.env.len() == 5
                &&& c.env[0] == ("DSH_HOME"@, home)
                &&& c.env[1].0 == "PATH"@
                &&& c.env[1].1 == node.bin_dir + (if style == PathStyle::Windows {
                    ";"@
                } else {
                    ":"@
                }) + inherited_path
                &&& c.env[2] == (
                    "NPM_CONFIG_USERCONFIG"@,
                    path::join(style, workspace_root, "npmrc"@),
                )
                &&& c.env[3] == (
                    "npm_config_cache"@,
                    path::join(style, workspace_root, "npm-cache"@),
                )
                &&& c.env[4] == ("COREPACK_HOME"@, path::join(style, workspace_root, "corepack"@))
            }
            &&& made.after(HostEventOf::Failed(x)).wanted() == (HostOpView::Fail {
                error: "启动 dsh web 宿主失败: "@ + x,
            })
            &&& runs.wanted() == HostOpView::Poll
            &&& runs.timeout == timeout
        }),
{
}

/// How the host is waited for. It is looked after, and a line of it is waited for, in turn: for
/// half a second at most, and not beyond the seconds that it was given. A host that has ended,
/// cannot be looked after, has closed its output, or has used up its time is the end, and which
/// of these it was is told. A line that names an address behind `dsh web: ` is the end too, and
/// the address is what comes out.
pub proof fn lemma_host_is_waited_for(
    run: HostRunOf<Seq<char>>,
    elapsed: u128,
    code: Option<i32>,
    x: Seq<char>,
)
    ensures
        run.phase == HostPhase::Poll ==> {
            let limit = (run.timeout as nat) * 1_000_000_000;
            let left = limit - elapsed;
            let next = run.after(HostEventOf::Running { elapsed });
            let number = match code {
                Some(n) => if n < 0 {
                    "Some("@ + ("-"@ + text::decimal((-n) as nat)) + ")"@
                } else {
                    "Some("@ + text::decimal(n as nat) + ")"@
                },
                None => "None"@,
            };
            &&& run.wanted() == HostOpView::Poll
            &&& left > 0 ==> next.wanted() == (HostOpView::Receive {
                wait: if left < 500_000_000 {
                    left as u64
                } else {
                    500_000_000
                },
            })
            &&& left <= 0 ==> next.wanted() == HostOpView::Kill
            &&& left <= 0 ==> next.after(HostEventOf::Done).wanted() == (HostOpView::Fail {
                error: "等待 dsh web 就绪超时（"@ + text::decimal(run.timeout as nat)
                    + "s），已终止宿主进程"@,
            })
            &&& run.after(HostEventOf::Exited { code }).wanted() == (HostOpView::Fail {
                error: "dsh web 宿主启动即退出（exit="@ + number + "），详见日志"@,
            })
            &&& run.after(HostEventOf::Failed(x)).wanted() == (HostOpView::Fail {
                error: "检查宿主进程状态失败: "@ + x,
            })
        },
        run.phase == HostPhase::Receive ==> {
            let read = run.after(HostEventOf::Line(x));
            &&& run.after(HostEventOf::Silence).wanted() == HostOpView::Poll
            &&& run.after(HostEventOf::Closed).wanted() == (HostOpView::Fail {
                error: "dsh web 宿主输出流提前关闭（未输出就绪行），详见日志"@,
            })
            &&& ready_url(x) is None ==> read.wanted() == HostOpView::Poll
            &&& ready_url(x) matches Some(url) ==> read.wanted() == (HostOpView::Finish { url })
        },
{
}

/// A line that does not start with `dsh web: ` says nothing of an address, whatever it holds.
pub proof fn lemma_other_lines_name_no_address(line: Seq<char>)
    ensures
        !"dsh web: "@.is_prefix_of(line) ==> ready_url(line) is None,
        ready_url(line) is Some ==> "dsh web: "@.is_prefix_of(line),
        ready_url("dsh web: "@) is None,
{
    let none = Seq::<char>::empty();
    let p = "dsh web: "@;
    assert(p.skip(p.len() as int) =~= none);
    assert(text::words(none, Separator::Space) =~= Seq::<Seq<char>>::empty());
}

/// The line by which the host names its address: `dsh web: `, the address, and whatever follows
/// behind a space.
pub proof fn lemma_address_is_found(url: Seq<char>, more: Seq<char>)
    requires
        "http://"@.is_prefix_of(url),
        forall|i: int| 0 <= i < url.len() ==> !text::is_space(#[trigger] url[i]),
        more.len() == 0 || text::is_space(more[0]),
    ensures
        ready_url("dsh web: "@ + url + more) == Some(url),
{
    lemma_ready_line_is_understood(url, more);
}

} // verus!
