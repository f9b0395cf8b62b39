//! Watching the built pages and the sources: a burst of changes of the pages leads to one
//! reload, and one of the sources to one build and a reload, once it is over.

use vstd::prelude::*;
use vstd::string::*;

use crate::path;
use crate::path::{path_names, PathStyle};
use crate::text;
use crate::text::{cat2, cat4, copy_text, same};

verus! {

broadcast use vstd::string::group_string_axioms;

/// How long the pages must be left alone before they are loaded again, in nanoseconds.
pub const DEBOUNCE: u64 = 300_000_000;

// ---------------------------------------------------------------------------
// Setting up
// ---------------------------------------------------------------------------

/// What came of setting up the watch.
#[derive(Debug, PartialEq)]
pub enum WatchSetup {
    /// There is no watcher.
    NoWatcher { error: String },
    /// The directory cannot be watched.
    NotWatched { error: String },
    /// There is no thread to watch in.
    NoThread { error: String },
    /// The directory is watched.
    Watching,
}

/// The error that setting up the watch of `dir` amounts to; none if it succeeded.
pub open spec fn setup_failure(dir: Seq<char>, setup: WatchSetup) -> Option<Seq<char>> {
    match setup {
        WatchSetup::NoWatcher { error } => Some("创建文件监听器失败: "@ + error@),
        WatchSetup::NotWatched { error } => Some("注册监听目录 "@ + dir + " 失败: "@ + error@),
        WatchSetup::NoThread { error } => Some("启动监听线程失败: "@ + error@),
        WatchSetup::Watching => None,
    }
}

/// Reports what came of setting up the watch of `dir`.
pub fn spawn_watcher(dir: &str, setup: WatchSetup) -> (r: Result<(), String>)
    ensures
        match r {
            Ok(_) => setup_failure(dir@, setup) is None,
            Err(e) => setup_failure(dir@, setup) == Some(e@),
        },
{
    match setup {
        WatchSetup::NoWatcher { error } => Err(cat2("创建文件监听器失败: ", error.as_str())),
        WatchSetup::NotWatched { error } => Err(
            cat4("注册监听目录 ", dir, " 失败: ", error.as_str()),
        ),
        WatchSetup::NoThread { error } => Err(cat2("启动监听线程失败: ", error.as_str())),
        WatchSetup::Watching => Ok(()),
    }
}

// ---------------------------------------------------------------------------
// Watching
// ---------------------------------------------------------------------------

/// What the watch came to know.
#[derive(Clone, Copy, PartialEq, Eq, Structural, Debug)]
pub enum WatchEvent {
    /// Something changed, or the watcher reports that it may have missed a change.
    Signal,
    /// Nothing changed in time.
    Silence,
    /// There will be no more changes to know of.
    Closed,
    /// The reload was asked for.
    Done,
    /// Nobody is there to be asked for a reload.
    Failed,
}

/// What the watch wants done next.
#[derive(Clone, Copy, PartialEq, Eq, Structural, Debug)]
pub enum WatchOp {
    /// Wait for a change, however long it takes.
    Receive,
    /// Wait for a change, for so many nanoseconds at most.
    ReceiveWithin { wait: u64 },
    /// Ask for a reload.
    Reload,
    /// Nothing more.
    Stop,
}

/// A watch of the built pages.
#[derive(Clone, Copy, PartialEq, Eq, Structural, Debug)]
pub enum WatchRun {
    /// Nothing has changed since the last reload.
    Idle,
    /// Something has; more may follow.
    Settling,
    /// A burst of changes is over.
    Settled,
    /// Over.
    Stopped,
}

impl WatchRun {
    /// The watch after an event. Every change starts the wait for silence anew. An event that
    /// does not answer what was wanted changes nothing.
    pub open spec fn after(self, e: WatchEvent) -> Self {
        match (self, e) {
            (WatchRun::Idle, WatchEvent::Signal) => WatchRun::Settling,
            (WatchRun::Idle, WatchEvent::Closed) => WatchRun::Stopped,
            (WatchRun::Settling, WatchEvent::Silence) => WatchRun::Settled,
            (WatchRun::Settling, WatchEvent::Closed) => WatchRun::Stopped,
            (WatchRun::Settled, WatchEvent::Done) => WatchRun::Idle,
            (WatchRun::Settled, WatchEvent::Failed) => WatchRun::Stopped,
            _ => self,
        }
    }

    /// What is wanted next.
    pub open spec fn wanted(self) -> WatchOp {
        match self {
            WatchRun::Idle => WatchOp::Receive,
            WatchRun::Settling => WatchOp::ReceiveWithin { wait: DEBOUNCE },
            WatchRun::Settled => WatchOp::Reload,
            WatchRun::Stopped => WatchOp::Stop,
        }
    }

    /// What is wanted next.
    pub fn action(self) -> (r: WatchOp)
        ensures
            r == self.wanted(),
    {
        match self {
            WatchRun::Idle => WatchOp::Receive,
            WatchRun::Settling => WatchOp::ReceiveWithin { wait: DEBOUNCE },
            WatchRun::Settled => WatchOp::Reload,
            WatchRun::Stopped => WatchOp::Stop,
        }
    }

    /// Takes note of what the wanted operation came to.
    pub fn advance(self, e: WatchEvent) -> (r: WatchRun)
        ensures
            r == self.after(e),
    {
        match (self, e) {
            (WatchRun::Idle, WatchEvent::Signal) => WatchRun::Settling,
            (WatchRun::Idle, WatchEvent::Closed) => WatchRun::Stopped,
            (WatchRun::Settling, WatchEvent::Silence) => WatchRun::Settled,
            (WatchRun::Settling, WatchEvent::Closed) => WatchRun::Stopped,
            (WatchRun::Settled, WatchEvent::Done) => WatchRun::Idle,
            (WatchRun::Settled, WatchEvent::Failed) => WatchRun::Stopped,
            _ => self,
        }
    }
}

/// Starts to watch.
pub fn debounce_loop() -> (r: WatchRun)
    ensures
        r == WatchRun::Idle,
{
    WatchRun::Idle
}

// ---------------------------------------------------------------------------
// Watching the sources
// ---------------------------------------------------------------------------

/// Whether a name stands for what a build or an installation makes: the built pages, or the
/// packages.
pub open spec fn is_made(name: Seq<char>) -> bool {
    name == "dist"@ || name == "node_modules"@
}

/// Whether `p` is one of the sources in `repo_dir`: it lies below that directory, and neither
/// in built pages nor in packages.
pub open spec fn is_source(style: PathStyle, repo_dir: Seq<char>, p: Seq<char>) -> bool {
    let top = path::names(style, repo_dir);
    let all = path::names(style, p);
    &&& top.len() < all.len()
    &&& all.take(top.len() as int) == top
    &&& forall|i: int| top.len() <= i < all.len() ==> !is_made(#[trigger] all[i])
}

/// Tests whether `p` is one of the sources in `repo_dir`.
pub fn source_path(style: PathStyle, repo_dir: &str, p: &str) -> (r: bool)
    ensures
        r == is_source(style, repo_dir@, p@),
{
    let top = path_names(style, repo_dir);
    let all = path_names(style, p);
    let ghost ts = text::texts(top@);
    let ghost ns = text::texts(all@);
    if top.len() >= all.len() {
        return false;
    }
    let mut i: usize = 0;
    while i < all.len()
        invariant
            i <= all@.len(),
            top@.len() < all@.len(),
            ts == text::texts(top@),
            ns == text::texts(all@),
            ts == path::names(style, repo_dir@),
            ns == path::names(style, p@),
            forall|j: int| 0 <= j < i && j < ts.len() ==> #[trigger] ns[j] == ts[j],
            forall|j: int| ts.len() <= j < i ==> !is_made(#[trigger] ns[j]),
        decreases all@.len() - i,
    {
        let name = all[i].as_str();
        assert(ns[i as int] == name@);
        if i < top.len() {
            assert(ts[i as int] == top@[i as int]@);
            if !same(name, top[i].as_str()) {
                assert(ns.take(ts.len() as int)[i as int] != ts[i as int]);
                return false;
            }
        } else if same(name, "dist") || same(name, "node_modules") {
            assert(is_made(ns[i as int]));
            return false;
        }
        i += 1;
    }
    assert(ns.take(ts.len() as int) =~= ts);
    true
}

/// Whether one of these paths is one of the sources in `repo_dir`.
pub open spec fn touches_sources(
    style: PathStyle,
    repo_dir: Seq<char>,
    paths: Seq<Seq<char>>,
) -> bool {
    exists|i: int| 0 <= i < paths.len() && is_source(style, repo_dir, #[trigger] paths[i])
}

/// Tests whether one of these paths is one of the sources in `repo_dir`.
fn touch_sources(style: PathStyle, repo_dir: &str, paths: &Vec<String>) -> (r: bool)
    ensures
        r == touches_sources(style, repo_dir@, text::texts(paths@)),
{
    let ghost ps = text::texts(paths@);
    let mut i: usize = 0;
    while i < paths.len()
        invariant
            i <= paths@.len(),
            ps == text::texts(paths@),
            forall|j: int| 0 <= j < i ==> !is_source(style, repo_dir@, #[trigger] ps[j]),
        decreases paths@.len() - i,
    {
        assert(ps[i as int] == paths@[i as int]@);
        if source_path(style, repo_dir, paths[i].as_str()) {
            return true;
        }
        i += 1;
    }
    false
}

/// What the watch of the sources came to know.
#[derive(Debug, PartialEq)]
pub enum SourceEvent {
    /// Something changed at these paths.
    Changed { paths: Vec<String> },
    /// The watcher reports that it may have missed a change.
    Missed,
    /// Nothing changed in time.
    Silence,
    /// There will be no more changes to know of.
    Closed,
    /// The repository was built.
    Built,
    /// The repository could not be built.
    NotBuilt { error: String },
    /// It is done.
    Done,
}

/// What the watch of the sources came to know, as plain texts.
pub ghost enum SourceEventView {
    Changed { paths: Seq<Seq<char>> },
    Missed,
    Silence,
    Closed,
    Built,
    NotBuilt { error: Seq<char> },
    Done,
}

impl View for SourceEvent {
    type V = SourceEventView;

    open spec fn view(&self) -> SourceEventView {
        match *self {
            SourceEvent::Changed { paths } => SourceEventView::Changed {
                paths: text::texts(paths@),
            },
            SourceEvent::Missed => SourceEventView::Missed,
            SourceEvent::Silence => SourceEventView::Silence,
            SourceEvent::Closed => SourceEventView::Closed,
            SourceEvent::Built => SourceEventView::Built,
            SourceEvent::NotBuilt { error } => SourceEventView::NotBuilt { error: error@ },
            SourceEvent::Done => SourceEventView::Done,
        }
    }
}

/// What the watch of the sources wants done next; `T` is `String` in the program, and
/// `Seq<char>` in contracts.
#[derive(Debug, PartialEq)]
pub enum SourceOpOf<T> {
    /// Wait for a change, however long it takes.
    Receive,
    /// Wait for a change, for so many nanoseconds at most.
    ReceiveWithin { wait: u64 },
    /// Build the repository.
    Build,
    /// Ask for a reload.
    Reload,
    /// Log this line.
    Log { line: T },
    /// Forget the changes that came meanwhile.
    Forget,
    /// Nothing more.
    Stop,
}

/// What the watch of the sources wants done next.
pub type SourceOp = SourceOpOf<String>;

impl View for SourceOpOf<String> {
    type V = SourceOpOf<Seq<char>>;

    open spec fn view(&self) -> SourceOpOf<Seq<char>> {
        match *self {
            SourceOpOf::Receive => SourceOpOf::Receive,
            SourceOpOf::ReceiveWithin { wait } => SourceOpOf::ReceiveWithin { wait },
            SourceOpOf::Build => SourceOpOf::Build,
            SourceOpOf::Reload => SourceOpOf::Reload,
            SourceOpOf::Log { line } => SourceOpOf::Log { line: line@ },
            SourceOpOf::Forget => SourceOpOf::Forget,
            SourceOpOf::Stop => SourceOpOf::Stop,
        }
    }
}

/// Where the watch of the sources stands.
#[derive(Clone, Copy, PartialEq, Eq, Structural, Debug)]
pub enum SourcePhase {
    /// No source has changed since the last build.
    Idle,
    /// One has; more may follow.
    Settling,
    /// A burst of changes is over; the repository is built.
    Building,
    /// The build succeeded; a reload is asked for.
    Reloading,
    /// The build failed; that is logged.
    Reporting,
    /// What the build itself changed is forgotten.
    Forgetting,
    /// Over.
    Stopped,
}

/// A watch of the sources; `T` is `String` in the program, and `Seq<char>` in contracts.
#[derive(Debug, PartialEq)]
pub struct SourceRunOf<T> {
    /// The notation of paths.
    pub style: PathStyle,
    /// Directory of the local copy of the repository.
    pub repo_dir: T,
    /// Why the last build failed.
    pub error: T,
    /// Where the watch stands.
    pub phase: SourcePhase,
}

/// A watch of the sources.
pub type SourceRun = SourceRunOf<String>;

impl View for SourceRunOf<String> {
    type V = SourceRunOf<Seq<char>>;

    open spec fn view(&self) -> SourceRunOf<Seq<char>> {
        SourceRunOf {
            style: self.style,
            repo_dir: self.repo_dir@,
            error: self.error@,
            phase: self.phase,
        }
    }
}

impl SourceRunOf<Seq<char>> {
    /// On to another phase.
    pub open spec fn to(self, phase: SourcePhase) -> Self {
        SourceRunOf { phase, ..self }
    }

    /// Whether an event tells of a change of the sources, or may hide one.
    pub open spec fn concerns(self, e: SourceEventView) -> bool {
        match e {
            SourceEventView::Changed { paths } => touches_sources(
                self.style,
                self.repo_dir,
                paths,
            ),
            SourceEventView::Missed => true,
            _ => false,
        }
    }

    /// The watch after an event. A change of the sources starts the wait for silence, and
    /// every change in the repository starts it anew; silence leads to a build, a build that
    /// succeeds to a reload, and one that fails to a line in the log. An event that does not
    /// answer what was wanted changes nothing.
    pub open spec fn after(self, e: SourceEventView) -> Self {
        match (self.phase, e) {
            (SourcePhase::Idle, SourceEventView::Closed) => self.to(SourcePhase::Stopped),
            (SourcePhase::Idle, _) => if self.concerns(e) {
                self.to(SourcePhase::Settling)
            } else {
                self
            },
            (SourcePhase::Settling, SourceEventView::Silence) => self.to(SourcePhase::Building),
            (SourcePhase::Settling, SourceEventView::Closed) => self.to(SourcePhase::Stopped),
            (SourcePhase::Building, SourceEventView::Built) => self.to(SourcePhase::Reloading),
            (SourcePhase::Building, SourceEventView::NotBuilt { error }) => SourceRunOf {
                error,
                ..self.to(SourcePhase::Reporting)
            },
            (SourcePhase::Reloading, SourceEventView::Done) => self.to(SourcePhase::Forgetting),
            (SourcePhase::Reporting, SourceEventView::Done) => self.to(SourcePhase::Forgetting),
            (SourcePhase::Forgetting, SourceEventView::Done) => self.to(SourcePhase::Idle),
            (SourcePhase::Forgetting, SourceEventView::Closed) => self.to(SourcePhase::Stopped),
            _ => self,
        }
    }

    /// What is wanted next.
    pub open spec fn wanted(self) -> SourceOpOf<Seq<char>> {
        match self.phase {
            SourcePhase::Idle => SourceOpOf::Receive,
            SourcePhase::Settling => SourceOpOf::ReceiveWithin { wait: DEBOUNCE },
            SourcePhase::Building => SourceOpOf::Build,
            SourcePhase::Reloading => SourceOpOf::Reload,
            SourcePhase::Reporting => SourceOpOf::Log {
                line: "[错误] 源码变更后重新构建失败: "@ + self.error,
            },
            SourcePhase::Forgetting => SourceOpOf::Forget,
            SourcePhase::Stopped => SourceOpOf::Stop,
        }
    }
}

/// A watch of the sources at its start.
pub open spec fn source_start(style: PathStyle, repo_dir: Seq<char>) -> SourceRunOf<Seq<char>> {
    SourceRunOf { style, repo_dir, error: Seq::empty(), phase: SourcePhase::Idle }
}

/// Starts to watch the sources in `repo_dir`.
pub fn follow_sources(style: PathStyle, repo_dir: &str) -> (r: SourceRun)
    ensures
        r@ == source_start(style, repo_dir@),
{
    SourceRunOf {
        style,
        repo_dir: copy_text(repo_dir),
        error: String::new(),
        phase: SourcePhase::Idle,
    }
}

impl SourceRunOf<String> {
    /// What is wanted next.
    pub fn action(&self) -> (r: SourceOp)
        ensures
            r@ == self@.wanted(),
    {
        match self.phase {
            SourcePhase::Idle => SourceOpOf::Receive,
            SourcePhase::Settling => SourceOpOf::ReceiveWithin { wait: DEBOUNCE },
            SourcePhase::Building => SourceOpOf::Build,
            SourcePhase::Reloading => SourceOpOf::Reload,
            SourcePhase::Reporting => SourceOpOf::Log {
                line: cat2("[错误] 源码变更后重新构建失败: ", self.error.as_str()),
            },
            SourcePhase::Forgetting => SourceOpOf::Forget,
            SourcePhase::Stopped => SourceOpOf::Stop,
        }
    }

    /// Takes note of what the wanted operation came to.
    pub fn advance(&mut self, e: SourceEvent)
        ensures
            final(self)@ == old(self)@.after(e@),
    {
        match (self.phase, e) {
            (SourcePhase::Idle, SourceEvent::Changed { paths }) => {
                if touch_sources(self.style, self.repo_dir.as_str(), &paths) {
                    self.phase = SourcePhase::Settling;
                }
            },
            (SourcePhase::Idle, SourceEvent::Missed) => {
                self.phase = SourcePhase::Settling;
            },
            (SourcePhase::Idle, SourceEvent::Closed) => {
                self.phase = SourcePhase::Stopped;
            },
            (SourcePhase::Settling, SourceEvent::Silence) => {
                self.phase = SourcePhase::Building;
            },
            (SourcePhase::Settling, SourceEvent::Closed) => {
                self.phase = SourcePhase::Stopped;
            },
            (SourcePhase::Building, SourceEvent::Built) => {
                self.phase = SourcePhase::Reloading;
            },
            (SourcePhase::Building, SourceEvent::NotBuilt { error }) => {
                self.error = error;
                self.phase = SourcePhase::Reporting;
            },
            (SourcePhase::Reloading, SourceEvent::Done) => {
                self.phase = SourcePhase::Forgetting;
            },
            (SourcePhase::Reporting, SourceEvent::Done) => {
                self.phase = SourcePhase::Forgetting;
            },
            (SourcePhase::Forgetting, SourceEvent::Done) => {
                self.phase = SourcePhase::Idle;
            },
            (SourcePhase::Forgetting, SourceEvent::Closed) => {
                self.phase = SourcePhase::Stopped;
            },
            _ => {},
        }
    }
}

// ---------------------------------------------------------------------------
// Laws
// ---------------------------------------------------------------------------

/// A watch on a clock: how it stands, when the last change came, and when reloads were asked
/// for.
pub ghost struct Watched {
    pub run: WatchRun,
    pub last: nat,
    pub reloads: Seq<nat>,
}

impl Watched {
    /// A watch at its start.
    pub open spec fn start() -> Watched {
        Watched { run: WatchRun::Idle, last: 0, reloads: Seq::empty() }
    }

    /// Time goes on until `now`, without a change: a wait that ends before `now` ends in
    /// silence, and the reload is asked for.
    pub open spec fn until(self, now: nat) -> Watched {
        match self.run.wanted() {
            WatchOp::ReceiveWithin { wait } => if self.last + wait <= now {
                let settled = self.run.after(WatchEvent::Silence);
                Watched {
                    run: settled.after(WatchEvent::Done),
                    reloads: if settled.wanted() == WatchOp::Reload {
                        self.reloads.push(self.last + wait as nat)
                    } else {
                        self.reloads
                    },
                    ..self
                }
            } else {
                self
            },
            _ => self,
        }
    }

    /// Something changes at the time `now`.
    pub open spec fn change(self, now: nat) -> Watched {
        let waiting = self.until(now);
        Watched { run: waiting.run.after(WatchEvent::Signal), last: now, ..waiting }
    }

    /// Something changes at each of these times.
    pub open spec fn changes(times: Seq<nat>) -> Watched
        decreases times.len(),
    {
        if times.len() == 0 {
            Watched::start()
        } else {
            Watched::changes(times.drop_last()).change(times.last())
        }
    }
}

/// Whether the change number `i` is the last of its burst: the next one, if there is one,
/// comes after the pages were left alone long enough.
pub open spec fn ends_burst(times: Seq<nat>, i: int) -> bool {
    i + 1 < times.len() ==> times[i] + DEBOUNCE <= times[i + 1]
}

/// When reloads are due: for each burst, once the pages were left alone long enough after
/// its last change.
pub open spec fn due(times: Seq<nat>, n: nat) -> Seq<nat>
    decreases n,
{
    if n == 0 {
        Seq::empty()
    } else if ends_burst(times, n - 1) {
        due(times, (n - 1) as nat).push(times[n - 1] + DEBOUNCE as nat)
    } else {
        due(times, (n - 1) as nat)
    }
}

proof fn lemma_due_of_prefix(times: Seq<nat>, n: nat)
    requires
        n < times.len(),
    ensures
        n < times.len() - 1 ==> due(times.drop_last(), n) == due(times, n),
    decreases n,
{
    let front = times.drop_last();
    if n > 0 && n < times.len() - 1 {
        lemma_due_of_prefix(times, (n - 1) as nat);
        assert(front[n - 1] == times[n - 1]);
        assert(front[n as int] == times[n as int]);
        assert(ends_burst(front, n - 1) == ends_burst(times, n - 1));
    }
}

/// How a watch stands after some changes.
proof fn lemma_watched(times: Seq<nat>)
    requires
        times.len() > 0,
    ensures
        Watched::changes(times).run == WatchRun::Settling,
        Watched::changes(times).last == times.last(),
        Watched::changes(times).reloads == due(times, (times.len() - 1) as nat),
    decreases times.len(),
{
    let front = times.drop_last();
    if times.len() == 1 {
        assert(Watched::changes(front) == Watched::start());
        assert(Watched::changes(times) == Watched::start().change(times.last()));
    } else {
        lemma_watched(front);
        let n = (times.len() - 2) as nat;
        lemma_due_of_prefix(times, n);
        assert(front.last() == times[n as int]);
        assert(times.last() == times[n as int + 1]);
        assert(due(front, (front.len() - 1) as nat) == due(times, n));
    }
}

/// A burst of changes leads to one reload, when the pages have been left alone for the whole
/// of the silent time, and to none before: whenever changes come, once time has gone on
/// long enough after the last of them, the reloads that were asked for are exactly one for
/// each change that no other follows within that time, and that much later.
pub proof fn lemma_one_reload_per_burst(times: Seq<nat>, now: nat)
    requires
        times.len() > 0,
        times.last() + DEBOUNCE <= now,
    ensures
        Watched::changes(times).until(now).reloads == due(times, times.len()),
        Watched::changes(times).until(now).run == WatchRun::Idle,
{
    lemma_watched(times);
    assert(ends_burst(times, times.len() - 1));
}

/// A reload is asked for only when a whole silent time has passed without a change.
pub proof fn lemma_reload_after_silence(run: WatchRun, e: WatchEvent)
    requires
        run.wanted() != WatchOp::Reload,
        run.after(e).wanted() == WatchOp::Reload,
    ensures
        run.wanted() == (WatchOp::ReceiveWithin { wait: DEBOUNCE }),
        e == WatchEvent::Silence,
{
}

/// The watch of the sources after these events, one after the other.
pub open spec fn source_fed(
    run: SourceRunOf<Seq<char>>,
    events: Seq<SourceEventView>,
) -> SourceRunOf<Seq<char>>
    decreases events.len(),
{
    if events.len() == 0 {
        run
    } else {
        source_fed(run, events.drop_last()).after(events.last())
    }
}

/// How often these events, one after the other, make the watch of the sources go on to want
/// `op`.
pub open spec fn times_wanted(
    run: SourceRunOf<Seq<char>>,
    events: Seq<SourceEventView>,
    op: SourceOpOf<Seq<char>>,
) -> nat
    decreases events.len(),
{
    if events.len() == 0 {
        0
    } else {
        let front = events.drop_last();
        let before = source_fed(run, front).wanted();
        let now = source_fed(run, events).wanted();
        times_wanted(run, front, op) + if before != op && now == op {
            1nat
        } else {
            0nat
        }
    }
}

/// Whether an event is a change in the repository, or may hide one.
pub open spec fn is_change(e: SourceEventView) -> bool {
    e is Changed || e is Missed
}

/// What a build came to: its success, or why it failed.
pub open spec fn build_event(outcome: Result<(), Seq<char>>) -> SourceEventView {
    match outcome {
        Ok(_) => SourceEventView::Built,
        Err(error) => SourceEventView::NotBuilt { error },
    }
}

/// While changes follow one another nothing is built or loaded again, and the wait for
/// silence goes on once a source was among them.
pub proof fn lemma_burst_is_waited_for(
    run: SourceRunOf<Seq<char>>,
    burst: Seq<SourceEventView>,
)
    requires
        run.phase == SourcePhase::Idle,
        forall|i: int| 0 <= i < burst.len() ==> is_change(#[trigger] burst[i]),
    ensures
        ({
            let concerned = exists|i: int|
                0 <= i < burst.len() && run.concerns(#[trigger] burst[i]);
            &&& source_fed(run, burst) == run.to(
                if concerned {
                    SourcePhase::Settling
                } else {
                    SourcePhase::Idle
                },
            )
            &&& times_wanted(run, burst, SourceOpOf::Build) == 0
            &&& times_wanted(run, burst, SourceOpOf::Reload) == 0
        }),
    decreases burst.len(),
{
    if burst.len() > 0 {
        let front = burst.drop_last();
        let last = burst[burst.len() - 1];
        assert forall|i: int| 0 <= i < front.len() implies is_change(#[trigger] front[i]) by {
            assert(front[i] == burst[i]);
        }
        lemma_burst_is_waited_for(run, front);
        assert(is_change(last));
        let at = source_fed(run, front);
        assert(at.concerns(last) == run.concerns(last));
        if exists|i: int| 0 <= i < front.len() && run.concerns(#[trigger] front[i]) {
            let i = choose|i: int| 0 <= i < front.len() && run.concerns(#[trigger] front[i]);
            assert(run.concerns(burst[i]));
        } else if exists|i: int| 0 <= i < burst.len() && run.concerns(#[trigger] burst[i]) {
            let i = choose|i: int| 0 <= i < burst.len() && run.concerns(#[trigger] burst[i]);
            if i < front.len() {
                assert(run.concerns(front[i]));
            }
        }
    }
}

/// A burst of changes of the sources leads, once it is over, to one build: to one reload if
/// that succeeds, and to none, and a line in the log, if it fails. What came in during the
/// build is forgotten, and the next change is waited for.
pub proof fn lemma_one_build_per_burst(
    run: SourceRunOf<Seq<char>>,
    burst: Seq<SourceEventView>,
    outcome: Result<(), Seq<char>>,
)
    requires
        run.phase == SourcePhase::Idle,
        forall|i: int| 0 <= i < burst.len() ==> is_change(#[trigger] burst[i]),
        exists|i: int| 0 <= i < burst.len() && run.concerns(#[trigger] burst[i]),
    ensures
        ({
            let settled = burst.push(SourceEventView::Silence);
            let built = settled.push(build_event(outcome));
            let told = built.push(SourceEventView::Done);
            let over = told.push(SourceEventView::Done);
            &&& source_fed(run, burst).wanted() == (SourceOpOf::<Seq<char>>::ReceiveWithin {
                wait: DEBOUNCE,
            })
            &&& source_fed(run, settled).wanted() == SourceOpOf::<Seq<char>>::Build
            &&& source_fed(run, built).wanted() == (match outcome {
                Ok(_) => SourceOpOf::Reload,
                Err(error) => SourceOpOf::Log {
                    line: "[错误] 源码变更后重新构建失败: "@ + error,
                },
            })
            &&& source_fed(run, told).wanted() == SourceOpOf::<Seq<char>>::Forget
            &&& source_fed(run, over).wanted() == SourceOpOf::<Seq<char>>::Receive
            &&& times_wanted(run, over, SourceOpOf::Build) == 1
            &&& times_wanted(run, over, SourceOpOf::Reload) == if outcome is Ok {
                1nat
            } else {
                0nat
            }
        }),
{
    lemma_burst_is_waited_for(run, burst);
    let settled = burst.push(SourceEventView::Silence);
    let built = settled.push(build_event(outcome));
    let told = built.push(SourceEventView::Done);
    let over = told.push(SourceEventView::Done);
    let reloads: nat = if outcome is Ok {
        1
    } else {
        0
    };
    assert(settled.drop_last() =~= burst);
    assert(source_fed(run, settled).phase == SourcePhase::Building);
    assert(times_wanted(run, settled, SourceOpOf::Build) == 1);
    assert(times_wanted(run, settled, SourceOpOf::Reload) == 0);
    assert(built.drop_last() =~= settled);
    assert(times_wanted(run, built, SourceOpOf::Build) == 1);
    assert(times_wanted(run, built, SourceOpOf::Reload) == reloads);
    assert(told.drop_last() =~= built);
    assert(source_fed(run, told).phase == SourcePhase::Forgetting);
    assert(times_wanted(run, told, SourceOpOf::Build) == 1);
    assert(times_wanted(run, told, SourceOpOf::Reload) == reloads);
    assert(over.drop_last() =~= told);
}

/// Whatever comes in, in whatever order: there are never more reloads than builds, nor more
/// builds than silences.
pub proof fn lemma_no_reload_without_build(
    run: SourceRunOf<Seq<char>>,
    events: Seq<SourceEventView>,
)
    requires
        run.phase == SourcePhase::Idle,
    ensures
        times_wanted(run, events, SourceOpOf::Reload) <= times_wanted(
            run,
            events,
            SourceOpOf::Build,
        ),
        times_wanted(run, events, SourceOpOf::Build) <= events.filter(
            |e: SourceEventView| e is Silence,
        ).len(),
{
    lemma_builds_before_reloads(run, events);
}

/// While a build is going on, there have been more builds than reloads.
proof fn lemma_builds_before_reloads(
    run: SourceRunOf<Seq<char>>,
    events: Seq<SourceEventView>,
)
    requires
        run.phase == SourcePhase::Idle,
    ensures
        times_wanted(run, events, SourceOpOf::Reload) + (if source_fed(run, events).phase
            == SourcePhase::Building {
            1nat
        } else {
            0nat
        }) <= times_wanted(run, events, SourceOpOf::Build),
        times_wanted(run, events, SourceOpOf::Build) <= events.filter(
            |e: SourceEventView| e is Silence,
        ).len(),
    decreases events.len(),
{
    reveal(Seq::filter);
    if events.len() > 0 {
        lemma_builds_before_reloads(run, events.drop_last());
    }
}

/// A build is wanted only when a whole silent time has passed without a change.
pub proof fn lemma_build_after_silence(run: SourceRunOf<Seq<char>>, e: SourceEventView)
    requires
        run.wanted() != SourceOpOf::<Seq<char>>::Build,
        run.after(e).wanted() == SourceOpOf::<Seq<char>>::Build,
    ensures
        run.wanted() == (SourceOpOf::<Seq<char>>::ReceiveWithin { wait: DEBOUNCE }),
        e is Silence,
{
}

/// What lies below built pages or packages is no source, however deep.
pub proof fn lemma_made_is_no_source(
    style: PathStyle,
    repo_dir: Seq<char>,
    rest: Seq<Seq<char>>,
    p: Seq<char>,
    i: int,
)
    requires
        path::is_below(style, repo_dir, rest, p),
        0 <= i < rest.len(),
        rest[i] == "dist"@ || rest[i] == "node_modules"@,
    ensures
        !is_source(style, repo_dir, p),
{
    let n = path::names(style, repo_dir).len() as int;
    assert(path::names(style, p)[n + i] == rest[i]);
}

/// Everything else that lies below the repository is a source.
pub proof fn lemma_rest_is_source(
    style: PathStyle,
    repo_dir: Seq<char>,
    rest: Seq<Seq<char>>,
    p: Seq<char>,
)
    requires
        path::is_below(style, repo_dir, rest, p),
        rest.len() > 0,
        forall|i: int|
            0 <= i < rest.len() ==> (#[trigger] rest[i]) != "dist"@ && rest[i] != "node_modules"@,
    ensures
        is_source(style, repo_dir, p),
{
    let top = path::names(style, repo_dir);
    let all = path::names(style, p);
    assert(all.take(top.len() as int) =~= top);
    assert forall|i: int| top.len() <= i < all.len() implies !is_made(#[trigger] all[i]) by {
        assert(all[i] == rest[i - top.len()]);
    }
}

/// What goes wrong when a watch is set up is told with what it was about.
pub proof fn lemma_setup_is_told(dir: Seq<char>, setup: WatchSetup)
    ensures
        setup is Watching <==> setup_failure(dir, setup) is None,
        setup matches WatchSetup::NoWatcher { error } ==> setup_failure(dir, setup) == Some(
            "创建文件监听器失败: "@ + error@,
        ),
        setup matches WatchSetup::NotWatched { error } ==> setup_failure(dir, setup) == Some(
            "注册监听目录 "@ + dir + " 失败: "@ + error@,
        ),
        setup matches WatchSetup::NoThread { error } ==> setup_failure(dir, setup) == Some(
            "启动监听线程失败: "@ + error@,
        ),
{
}

/// How a watch of the built pages goes on: a change starts the wait of three tenths of a
/// second, and each further one starts it anew; silence leads to a reload, and that back to
/// the start. Where no more changes can come, or nobody is there any more, it is over.
pub proof fn lemma_watch_steps()
    ensures
        ({
            let idle = WatchRun::Idle;
            let changed = idle.after(WatchEvent::Signal);
            let settled = changed.after(WatchEvent::Silence);
            &&& idle.wanted() == WatchOp::Receive
            &&& changed.wanted() == (WatchOp::ReceiveWithin { wait: 300_000_000 })
            &&& changed.after(WatchEvent::Signal) == changed
            &&& settled.wanted() == WatchOp::Reload
            &&& settled.after(WatchEvent::Done) == idle
            &&& idle.after(WatchEvent::Closed).wanted() == WatchOp::Stop
            &&& changed.after(WatchEvent::Closed).wanted() == WatchOp::Stop
            &&& settled.after(WatchEvent::Failed).wanted() == WatchOp::Stop
        }),
{
}

/// What does not lie below the repository is no source of it, and neither is its directory
/// itself.
pub proof fn lemma_no_source_elsewhere(style: PathStyle, repo_dir: Seq<char>, p: Seq<char>)
    ensures
        is_source(style, repo_dir, p) ==> path::names(style, repo_dir).is_prefix_of(
            path::names(style, p),
        ) && path::names(style, p) != path::names(style, repo_dir),
        !is_source(style, repo_dir, repo_dir),
{
    let top = path::names(style, repo_dir);
    let all = path::names(style, p);
    if is_source(style, repo_dir, p) {
        assert(top =~= all.subrange(0, top.len() as int)) by {
            assert(all.take(top.len() as int) =~= all.subrange(0, top.len() as int));
        }
    }
}

/// A change starts the wait for a build exactly if one of its paths is a source; one that may
/// have been missed does too, and nothing else does.
pub proof fn lemma_what_starts_a_build(run: SourceRunOf<Seq<char>>, e: SourceEventView)
    requires
        run.phase == SourcePhase::Idle,
    ensures
        run.after(e).wanted() == (SourceOpOf::<Seq<char>>::ReceiveWithin { wait: 300_000_000 })
            <==> e is Missed || (e matches SourceEventView::Changed { paths } && exists|i: int|
            0 <= i < paths.len() && is_source(run.style, run.repo_dir, #[trigger] paths[i])),
        run.after(SourceEventView::Closed).wanted() == SourceOpOf::<Seq<char>>::Stop,
{
}

} // verus!
